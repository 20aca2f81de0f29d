//! Player buttons: which are held, which were just pressed, and which player
//! a gamepad drives.

use vstd::prelude::*;
use crate::api::Error;

verus! {

/// Bit `i` of `bits`, least significant first.
pub open spec fn bit(bits: u8, i: int) -> bool {
    0 <= i < 8 && (bits >> (i as u8)) & 1u8 == 1u8
}

/// `bits` with bit `i` set to `value`.
pub open spec fn with_bit(bits: u8, i: u8, value: bool) -> u8 {
    if value {
        bits | (1u8 << i)
    } else {
        bits & !(1u8 << i)
    }
}

/// The eight buttons of a player, now and on the frame before, one bit per
/// button; and the gamepad that drives the player, if any.
#[derive(Debug, Clone, Copy, PartialEq, Eq, Structural)]
pub struct Buttons {
    pub from: Option<u64>,
    pub curr: u8,
    pub last: u8,
}

/// Set bit `i` of `bits` to `value`.
fn set_bit(bits: u8, i: u8, value: bool) -> (r: u8)
    requires
        i < 8,
    ensures
        r == with_bit(bits, i, value),
        bit(r, i as int) == value,
        forall|j: int| 0 <= j < 8 && j != i ==> bit(r, j) == bit(bits, j),
{
    let r = if value {
        bits | (1u8 << i)
    } else {
        bits & !(1u8 << i)
    };
    assert(((r >> i) & 1u8 == 1u8) == value) by (bit_vector)
        requires
            i < 8,
            r == if value {
                bits | (1u8 << i)
            } else {
                bits & !(1u8 << i)
            },
    ;
    assert forall|j: int| 0 <= j < 8 && j != i implies bit(r, j) == bit(bits, j) by {
        let k = j as u8;
        assert(((r >> k) & 1u8 == 1u8) == ((bits >> k) & 1u8 == 1u8)) by (bit_vector)
            requires
                i < 8,
                k < 8,
                k != i,
                r == if value {
                    bits | (1u8 << i)
                } else {
                    bits & !(1u8 << i)
                },
        ;
    }
    r
}

/// Is some bit of `bits` set?
pub proof fn lemma_any_bit(bits: u8)
    ensures
        bits != 0 <==> exists|i: int| 0 <= i < 8 && #[trigger] bit(bits, i),
{
    if bits != 0 {
        assert(bits != 0 ==> ((bits & 1u8 == 1u8) || ((bits >> 1u8) & 1u8 == 1u8) || ((bits
            >> 2u8) & 1u8 == 1u8) || ((bits >> 3u8) & 1u8 == 1u8) || ((bits >> 4u8) & 1u8 == 1u8)
            || ((bits >> 5u8) & 1u8 == 1u8) || ((bits >> 6u8) & 1u8 == 1u8) || ((bits >> 7u8) & 1u8
            == 1u8))) by (bit_vector);
        assert(bits >> 0u8 == bits) by (bit_vector);
        if bit(bits, 0) {
        } else if bit(bits, 1) {
        } else if bit(bits, 2) {
        } else if bit(bits, 3) {
        } else if bit(bits, 4) {
        } else if bit(bits, 5) {
        } else if bit(bits, 6) {
        } else {
            assert(bit(bits, 7));
        }
    } else {
        assert forall|i: int| 0 <= i < 8 implies !bit(bits, i) by {
            let k = i as u8;
            assert((0u8 >> k) & 1u8 == 0u8) by (bit_vector);
        }
    }
}

impl Buttons {
    /// No button held, now or before, and no gamepad.
    pub fn new() -> (r: Buttons)
        ensures
            r.from is None,
            r.curr == 0,
            r.last == 0,
    {
        Buttons { from: None, curr: 0, last: 0 }
    }

    /// Hold or release button `i` now.
    pub fn set_curr(&mut self, i: u8, value: bool)
        requires
            i < 8,
        ensures
            final(self).curr == with_bit(old(self).curr, i, value),
            final(self).last == old(self).last,
            final(self).from == old(self).from,
    {
        self.curr = set_bit(self.curr, i, value);
    }

    /// Hold or release button `i` on the frame before.
    pub fn set_last(&mut self, i: u8, value: bool)
        requires
            i < 8,
        ensures
            final(self).last == with_bit(old(self).last, i, value),
            final(self).curr == old(self).curr,
            final(self).from == old(self).from,
    {
        self.last = set_bit(self.last, i, value);
    }

    /// `btnp(b)`: was button `b` pressed just now, held now and not before?
    /// Without a button, was any button pressed just now? There are eight
    /// buttons.
    pub fn btnp(&self, b: Option<u8>) -> (r: Result<bool, Error>)
        ensures
            match b {
                Some(b) => if b < 8 {
                    r == Ok::<bool, Error>(bit(self.curr, b as int) && !bit(self.last, b as int))
                } else {
                    r matches Err(Error::NoSuchButton(x)) && x == b
                },
                None => r == Ok::<bool, Error>(
                    exists|i: int| 0 <= i < 8 && #[trigger] bit(self.curr, i) && !bit(self.last, i),
                ),
            },
    {
        match b {
            Some(b) => {
                if b >= 8 {
                    return Err(Error::NoSuchButton(b));
                }
                let curr = (self.curr >> b) & 1 == 1;
                let last = (self.last >> b) & 1 == 1;
                Ok(curr && !last)
            },
            None => {
                let c = self.curr;
                let l = self.last;
                let p = c & (c & !l);
                proof {
                    lemma_any_bit(p);
                    assert forall|i: int| 0 <= i < 8 implies bit(p, i) == (bit(c, i) && !bit(l, i)) by {
                        let k = i as u8;
                        assert((((c & (c & !l)) >> k) & 1u8 == 1u8) == (((c >> k) & 1u8 == 1u8)
                            && !((l >> k) & 1u8 == 1u8))) by (bit_vector)
                            requires
                                k < 8,
                        ;
                    }
                    if p != 0 {
                        let i = choose|i: int| 0 <= i < 8 && #[trigger] bit(p, i);
                        assert(bit(c, i) && !bit(l, i));
                    }
                }
                Ok(p != 0)
            },
        }
    }

    /// `btn(b)`: is button `b` held? Without a button, is any button held?
    pub fn btn(&self, b: Option<u8>) -> (r: Result<bool, Error>)
        ensures
            match b {
                Some(b) => if b < 8 {
                    r == Ok::<bool, Error>(bit(self.curr, b as int))
                } else {
                    r matches Err(Error::NoSuchButton(x)) && x == b
                },
                None => r == Ok::<bool, Error>(exists|i: int| 0 <= i < 8 && #[trigger] bit(self.curr, i)),
            },
    {
        match b {
            Some(b) => {
                if b >= 8 {
                    return Err(Error::NoSuchButton(b));
                }
                Ok((self.curr >> b) & 1 == 1)
            },
            None => {
                proof {
                    lemma_any_bit(self.curr);
                }
                Ok(self.curr != 0)
            },
        }
    }

    /// A new frame: what was held is now what was held before, and `pressed`
    /// is what is held now.
    pub fn advance(&mut self, pressed: u8)
        ensures
            final(self).last == old(self).curr,
            final(self).curr == pressed,
            final(self).from == old(self).from,
    {
        self.last = self.curr;
        self.curr = pressed;
    }
}

/// A button just pressed is held: where `btnp` reports a press, `btn` reports the button held.
pub proof fn lemma_pressed_is_held(buttons: Buttons, b: int)
    requires
        0 <= b < 8,
        bit(buttons.curr, b) && !bit(buttons.last, b),
    ensures
        bit(buttons.curr, b),
        exists|i: int| 0 <= i < 8 && #[trigger] bit(buttons.curr, i),
{
}

/// A button held on two frames in a row is not pressed on the second.
pub proof fn lemma_held_is_not_pressed(buttons: Buttons, pressed: u8, b: int)
    requires
        0 <= b < 8,
        bit(buttons.curr, b),
        bit(pressed, b),
    ensures
        ({
            let next = advanced(buttons, pressed);
            bit(next.curr, b) && !(bit(next.curr, b) && !bit(next.last, b))
        }),
{
}

/// `b` driven by `pad` instead.
pub open spec fn with_pad(b: Buttons, pad: Option<u64>) -> Buttons {
    Buttons { from: pad, ..b }
}

/// `b` on the next frame, with `pressed` held.
pub open spec fn advanced(b: Buttons, pressed: u8) -> Buttons {
    Buttons { from: b.from, curr: pressed, last: b.curr }
}

/// A player with nothing held, driven by `pad`.
pub open spec fn fresh(pad: Option<u64>) -> Buttons {
    Buttons { from: pad, curr: 0, last: 0 }
}

/// The buttons of each player.
pub struct PlayerInputs {
    pub players: Vec<Buttons>,
}

/// Is `i` the first player without a gamepad?
pub open spec fn first_unclaimed(ps: Seq<Buttons>, i: int) -> bool {
    &&& 0 <= i < ps.len()
    &&& ps[i].from is None
    &&& forall|j: int| 0 <= j < i ==> (#[trigger] ps[j]).from is Some
}

/// Is `i` the first player driven by gamepad `pad`?
pub open spec fn first_driven_by(ps: Seq<Buttons>, pad: u64, i: int) -> bool {
    &&& 0 <= i < ps.len()
    &&& ps[i].from == Some(pad)
    &&& forall|j: int| 0 <= j < i ==> (#[trigger] ps[j]).from != Some(pad)
}

impl PlayerInputs {
    /// Two players, without gamepads and with nothing held.
    pub fn default() -> (r: PlayerInputs)
        ensures
            r.players@.len() == 2,
            forall|i: int| 0 <= i < 2 ==> #[trigger] r.players@[i] == fresh(None),
    {
        let mut players: Vec<Buttons> = Vec::new();
        players.push(Buttons::new());
        players.push(Buttons::new());
        PlayerInputs { players }
    }

    /// A gamepad connects: it drives the first player without one, or a new
    /// player where every player has one.
    pub fn connect(&mut self, pad: u64)
        requires
            old(self).players@.len() < usize::MAX,
        ensures
            ({
                let ps = old(self).players@;
                ||| exists|i: int| #[trigger] first_unclaimed(ps, i) && final(self).players@ == ps.update(i, with_pad(ps[i], Some(pad)))
                ||| (forall|j: int| 0 <= j < ps.len() ==> (#[trigger] ps[j]).from is Some) && final(self).players@ == ps.push(fresh(Some(pad)))
            }),
    {
        let ghost ps = self.players@;
        let mut i: usize = 0;
        while i < self.players.len()
            invariant
                i <= self.players@.len(),
                self.players@ == ps,
                ps == old(self).players@,
                forall|j: int| 0 <= j < i ==> (#[trigger] ps[j]).from is Some,
            decreases self.players@.len() - i,
        {
            if self.players[i].from.is_none() {
                let mut b = self.players[i];
                b.from = Some(pad);
                self.players.set(i, b);
                assert(b == with_pad(ps[i as int], Some(pad)));
                assert(self.players@ =~= ps.update(i as int, with_pad(ps[i as int], Some(pad))));
                assert(first_unclaimed(ps, i as int));
                return;
            }
            i = i + 1;
        }
        let mut b = Buttons::new();
        b.from = Some(pad);
        self.players.push(b);
    }

    /// A gamepad disconnects: the first player it drives loses it. Where no
    /// player has it, nothing changes and the result is `false`.
    pub fn disconnect(&mut self, pad: u64) -> (r: bool)
        ensures
            ({
                let ps = old(self).players@;
                &&& r ==> exists|i: int| #[trigger] first_driven_by(ps, pad, i) && final(self).players@ == ps.update(i, with_pad(ps[i], None))
                &&& !r ==> (forall|j: int| 0 <= j < ps.len() ==> (#[trigger] ps[j]).from != Some(pad)) && final(self).players@ == ps
            }),
    {
        let ghost ps = self.players@;
        let mut i: usize = 0;
        while i < self.players.len()
            invariant
                i <= self.players@.len(),
                self.players@ == ps,
                ps == old(self).players@,
                forall|j: int| 0 <= j < i ==> (#[trigger] ps[j]).from != Some(pad),
            decreases self.players@.len() - i,
        {
            if self.players[i].from == Some(pad) {
                let mut b = self.players[i];
                b.from = None;
                self.players.set(i, b);
                assert(b == with_pad(ps[i as int], None));
                assert(self.players@ =~= ps.update(i as int, with_pad(ps[i as int], None)));
                assert(first_driven_by(ps, pad, i as int));
                return true;
            }
            i = i + 1;
        }
        false
    }

    /// A new frame for every player: player `i` now holds `pressed[i]`.
    pub fn advance(&mut self, pressed: &Vec<u8>)
        requires
            pressed@.len() == old(self).players@.len(),
        ensures
            final(self).players@.len() == old(self).players@.len(),
            forall|i: int| 0 <= i < pressed@.len() ==> #[trigger] final(self).players@[i] == advanced(old(self).players@[i], pressed@[i]),
    {
        let ghost ps = self.players@;
        let mut i: usize = 0;
        while i < self.players.len()
            invariant
                pressed@.len() == ps.len(),
                self.players@.len() == ps.len(),
                i <= ps.len(),
                forall|j: int| 0 <= j < i ==> #[trigger] self.players@[j] == advanced(ps[j], pressed@[j]),
                forall|j: int| i <= j < ps.len() ==> #[trigger] self.players@[j] == ps[j],
            decreases ps.len() - i,
        {
            let mut b = self.players[i];
            b.advance(pressed[i]);
            self.players.set(i, b);
            i = i + 1;
        }
    }
}

/// The keys of the keyboard that drive buttons.
#[derive(Debug, Clone, Copy, PartialEq, Eq, Structural)]
pub enum Key {
    ArrowLeft,
    ArrowRight,
    ArrowUp,
    ArrowDown,
    KeyZ,
    KeyC,
    KeyN,
    NumpadSubtract,
    KeyX,
    KeyV,
    KeyM,
    Numpad8,
    KeyS,
    KeyF,
    KeyE,
    KeyD,
    ShiftLeft,
    Tab,
    KeyA,
    KeyQ,
}

/// The keys that hold button `button` (0 left, 1 right, 2 up, 3 down, 4 O,
/// 5 X) of player `player`: the arrows and Z/C/N/- and X/V/M/8 for the first
/// player, S/F/E/D and Shift/Tab and A/Q for the second, none for the others.
pub open spec fn key_table(player: int, button: int) -> Seq<Key> {
    if player == 0 {
        if button == 0 {
            seq![Key::ArrowLeft]
        } else if button == 1 {
            seq![Key::ArrowRight]
        } else if button == 2 {
            seq![Key::ArrowUp]
        } else if button == 3 {
            seq![Key::ArrowDown]
        } else if button == 4 {
            seq![Key::KeyZ, Key::KeyC, Key::KeyN, Key::NumpadSubtract]
        } else {
            seq![Key::KeyX, Key::KeyV, Key::KeyM, Key::Numpad8]
        }
    } else if player == 1 {
        if button == 0 {
            seq![Key::KeyS]
        } else if button == 1 {
            seq![Key::KeyF]
        } else if button == 2 {
            seq![Key::KeyE]
        } else if button == 3 {
            seq![Key::KeyD]
        } else if button == 4 {
            seq![Key::ShiftLeft, Key::Tab]
        } else {
            seq![Key::KeyA, Key::KeyQ]
        }
    } else {
        seq![]
    }
}

/// The keys that hold a button of a player; any of them holds it.
pub fn button_keys(player: usize, button: u8) -> (r: Vec<Key>)
    requires
        button <= 5,
    ensures
        r@ == key_table(player as int, button as int),
{
    let mut v: Vec<Key> = Vec::new();
    if player == 0 {
        if button == 0 {
            v.push(Key::ArrowLeft);
        } else if button == 1 {
            v.push(Key::ArrowRight);
        } else if button == 2 {
            v.push(Key::ArrowUp);
        } else if button == 3 {
            v.push(Key::ArrowDown);
        } else if button == 4 {
            v.push(Key::KeyZ);
            v.push(Key::KeyC);
            v.push(Key::KeyN);
            v.push(Key::NumpadSubtract);
        } else {
            v.push(Key::KeyX);
            v.push(Key::KeyV);
            v.push(Key::KeyM);
            v.push(Key::Numpad8);
        }
    } else if player == 1 {
        if button == 0 {
            v.push(Key::KeyS);
        } else if button == 1 {
            v.push(Key::KeyF);
        } else if button == 2 {
            v.push(Key::KeyE);
        } else if button == 3 {
            v.push(Key::KeyD);
        } else if button == 4 {
            v.push(Key::ShiftLeft);
            v.push(Key::Tab);
        } else {
            v.push(Key::KeyA);
            v.push(Key::KeyQ);
        }
    }
    assert(v@ =~= key_table(player as int, button as int));
    v
}

/// The gamepad buttons that drive buttons.
#[derive(Debug, Clone, Copy, PartialEq, Eq, Structural)]
pub enum PadButton {
    DPadLeft,
    DPadRight,
    DPadUp,
    DPadDown,
    South,
    East,
}

/// The directions of the left stick that drive the direction buttons.
#[derive(Debug, Clone, Copy, PartialEq, Eq, Structural)]
pub enum StickDir {
    Left,
    Right,
    Up,
    Down,
}

/// The gamepad button of a button, and the stick direction that also holds it.
pub fn pad_binding(button: u8) -> (r: (PadButton, Option<StickDir>))
    requires
        button <= 5,
    ensures
        button == 0 ==> r == (PadButton::DPadLeft, Some(StickDir::Left)),
        button == 1 ==> r == (PadButton::DPadRight, Some(StickDir::Right)),
        button == 2 ==> r == (PadButton::DPadUp, Some(StickDir::Up)),
        button == 3 ==> r == (PadButton::DPadDown, Some(StickDir::Down)),
        button == 4 ==> r == (PadButton::South, None::<StickDir>),
        button == 5 ==> r == (PadButton::East, None::<StickDir>),
{
    match button {
        0 => (PadButton::DPadLeft, Some(StickDir::Left)),
        1 => (PadButton::DPadRight, Some(StickDir::Right)),
        2 => (PadButton::DPadUp, Some(StickDir::Up)),
        3 => (PadButton::DPadDown, Some(StickDir::Down)),
        4 => (PadButton::South, None),
        _ => (PadButton::East, None),
    }
}

/// The held buttons of a frame as bits: bit `b` for `held[b]`, six buttons.
pub fn held_bits(held: &[bool]) -> (r: u8)
    requires
        held@.len() == 6,
    ensures
        forall|b: int| 0 <= b < 6 ==> bit(r, b) == held@[b],
        !bit(r, 6) && !bit(r, 7),
{
    let mut bits: u8 = 0;
    let mut b: u8 = 0;
    assert forall|j: int| 0 <= j < 8 implies !bit(0u8, j) by {
        let k = j as u8;
        assert((0u8 >> k) & 1u8 == 0u8) by (bit_vector);
    }
    while b < 6
        invariant
            b <= 6,
            held@.len() == 6,
            forall|j: int| 0 <= j < b ==> bit(bits, j) == held@[j],
            forall|j: int| b <= j < 8 ==> !bit(bits, j),
        decreases 6 - b,
    {
        bits = set_bit(bits, b, held[b as usize]);
        b = b + 1;
    }
    bits
}

/// The held buttons of a frame: button `b` is held where one of its keys
/// is down (`keys[b]`) or the player's gamepad holds it (`pads[b]`).
pub fn held_buttons(keys: &[bool], pads: &[bool]) -> (r: u8)
    requires
        keys@.len() == 6,
        pads@.len() == 6,
    ensures
        forall|b: int| 0 <= b < 6 ==> bit(r, b) == (keys@[b] || pads@[b]),
        !bit(r, 6) && !bit(r, 7),
        r < 64,
{
    let mut held: Vec<bool> = Vec::new();
    let mut b: usize = 0;
    while b < 6
        invariant
            b <= 6,
            keys@.len() == 6,
            pads@.len() == 6,
            held@.len() == b,
            forall|j: int| 0 <= j < b ==> #[trigger] held@[j] == (keys@[j] || pads@[j]),
        decreases 6 - b,
    {
        held.push(keys[b] || pads[b]);
        b = b + 1;
    }
    let r = held_bits(held.as_slice());
    assert(r < 64) by (bit_vector)
        requires
            !((r >> 6u8) & 1u8 == 1u8),
            !((r >> 7u8) & 1u8 == 1u8),
    ;
    r
}

/// The first player's direction buttons follow the arrow keys: left (0) is
/// held by the left arrow alone, right (1) by the right arrow, up (2) by the
/// up arrow and down (3) by the down arrow; the second player's by S, F, E
/// and D. Each arrow key holds no other button of the first player. The O
/// and X buttons (4, 5) are held by Z/C/N/- and X/V/M/8 for the first player
/// and Shift/Tab and A/Q for the second; other players have no keys.
pub proof fn lemma_arrow_keys_steer()
    ensures
        key_table(0, 0) == seq![Key::ArrowLeft],
        key_table(0, 1) == seq![Key::ArrowRight],
        key_table(0, 2) == seq![Key::ArrowUp],
        key_table(0, 3) == seq![Key::ArrowDown],
        key_table(1, 0) == seq![Key::KeyS],
        key_table(1, 1) == seq![Key::KeyF],
        key_table(1, 2) == seq![Key::KeyE],
        key_table(1, 3) == seq![Key::KeyD],
        key_table(0, 4) == seq![Key::KeyZ, Key::KeyC, Key::KeyN, Key::NumpadSubtract],
        key_table(0, 5) == seq![Key::KeyX, Key::KeyV, Key::KeyM, Key::Numpad8],
        key_table(1, 4) == seq![Key::ShiftLeft, Key::Tab],
        key_table(1, 5) == seq![Key::KeyA, Key::KeyQ],
        forall|p: int, b: int| p >= 2 ==> #[trigger] key_table(p, b).len() == 0,
        forall|b: int, k: int|
            0 <= b <= 5 && 0 <= k < key_table(0, b).len() && #[trigger] key_table(0, b)[k] == Key::ArrowUp ==> b
                == 2,
        forall|b: int, k: int|
            0 <= b <= 5 && 0 <= k < key_table(0, b).len() && #[trigger] key_table(0, b)[k] == Key::ArrowDown ==> b
                == 3,
{
    assert forall|b: int, k: int|
        0 <= b <= 5 && 0 <= k < key_table(0, b).len() && #[trigger] key_table(0, b)[k] == Key::ArrowUp implies b
            == 2 by {
        if b == 4 || b == 5 {
            assert(0 <= k < 4);
        }
    }
    assert forall|b: int, k: int|
        0 <= b <= 5 && 0 <= k < key_table(0, b).len() && #[trigger] key_table(0, b)[k] == Key::ArrowDown implies b
            == 3 by {
        if b == 4 || b == 5 {
            assert(0 <= k < 4);
        }
    }
}

} // verus!
