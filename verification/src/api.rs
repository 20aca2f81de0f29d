//! The decisions of the scripting API: errors, sound requests, sprite flags,
//! memory and status queries, and substrings.

use vstd::prelude::*;
use vstd::string::{StringExecFns, StrSliceExecFns};
use crate::command::{AudioCommand, AudioKind, PlaybackKind, SfxDest};
use crate::text::char_of_byte;

verus! {

/// Errors of the scripting API.
#[derive(Debug)]
pub enum Error {
    NoSuch(String),
    NoAsset(String),
    NoSuchButton(u8),
    InvalidArgument(String),
    Unsupported(String),
    NoChannel(u8),
    ChannelsBusy,
    UnsupportedPoke(usize),
    UnsupportedPeek(usize),
    UnsupportedStat(u8),
}

/// What an [`Error`] says, with its text as characters.
pub enum ErrorView {
    NoSuch(Seq<char>),
    NoAsset(Seq<char>),
    NoSuchButton(u8),
    InvalidArgument(Seq<char>),
    Unsupported(Seq<char>),
    NoChannel(u8),
    ChannelsBusy,
    UnsupportedPoke(usize),
    UnsupportedPeek(usize),
    UnsupportedStat(u8),
}

impl View for Error {
    type V = ErrorView;

    open spec fn view(&self) -> ErrorView {
        match self {
            Error::NoSuch(s) => ErrorView::NoSuch(s@),
            Error::NoAsset(s) => ErrorView::NoAsset(s@),
            Error::NoSuchButton(b) => ErrorView::NoSuchButton(*b),
            Error::InvalidArgument(s) => ErrorView::InvalidArgument(s@),
            Error::Unsupported(s) => ErrorView::Unsupported(s@),
            Error::NoChannel(c) => ErrorView::NoChannel(*c),
            Error::ChannelsBusy => ErrorView::ChannelsBusy,
            Error::UnsupportedPoke(a) => ErrorView::UnsupportedPoke(*a),
            Error::UnsupportedPeek(a) => ErrorView::UnsupportedPeek(*a),
            Error::UnsupportedStat(n) => ErrorView::UnsupportedStat(*n),
        }
    }
}

/// The decimal digits of `n`, most significant first.
pub open spec fn decimal(n: nat) -> Seq<char>
    decreases n,
{
    if n < 10 {
        seq![(48 + n) as char]
    } else {
        decimal(n / 10) + seq![(48 + n % 10) as char]
    }
}

/// The decimal text of `n`.
fn decimal_string(n: usize) -> (r: String)
    ensures
        r@ == decimal(n as nat),
    decreases n,
{
    if n < 10 {
        char_of_byte(48 + n as u8)
    } else {
        let mut s = decimal_string(n / 10);
        let d = char_of_byte(48 + (n % 10) as u8);
        s.append(d.as_str());
        s
    }
}

/// `label` followed by the decimal text of `n`.
pub(crate) fn labelled_text(label: &str, n: usize) -> (r: String)
    ensures
        r@ == label@ + decimal(n as nat),
{
    let mut s = String::from_str(label);
    let d = decimal_string(n);
    s.append(d.as_str());
    s
}

/// What a script asks of a sound effect or a tune.
#[derive(Debug, Clone, Copy, PartialEq, Eq, Structural)]
pub enum SfxCommand {
    Play(u8),
    Release,
    Stop,
}

impl SfxCommand {
    /// Play the sound of that number.
    pub fn from(x: u8) -> (r: SfxCommand)
        ensures
            r == SfxCommand::Play(x),
    {
        SfxCommand::Play(x)
    }

    /// The command of a script's number: -2 releases, -1 stops, and a number
    /// from 0 up plays that sound; any other number is an invalid argument.
    pub fn from_script(n: i8) -> (r: Result<SfxCommand, Error>)
        ensures
            n == -2 ==> r == Ok::<SfxCommand, Error>(SfxCommand::Release),
            n == -1 ==> r == Ok::<SfxCommand, Error>(SfxCommand::Stop),
            n >= 0 ==> r == Ok::<SfxCommand, Error>(SfxCommand::Play(n as u8)),
            n < -2 ==> r matches Err(Error::InvalidArgument(_)),
    {
        match n {
            -2 => Ok(SfxCommand::Release),
            -1 => Ok(SfxCommand::Stop),
            _ => if n >= 0 {
                Ok(SfxCommand::Play(n as u8))
            } else {
                Err(Error::InvalidArgument(String::from_str("sfx: expected n to be -2, -1 or >= 0")))
            },
        }
    }
}

/// A request to the audio engine: the command, and for a play, which sound
/// of which bank to play.
pub struct SoundRequest {
    pub command: AudioCommand,
    pub sound: Option<(usize, usize)>,
}

/// Look up sound `n` of bank `bank` in banks that hold the kinds of their
/// sounds; `what` names the sound in the error.
fn look_up(banks: &Vec<Vec<AudioKind>>, bank: u8, n: u8, bank_label: &str, what: &str) -> (r: Result<AudioKind, Error>)
    ensures
        bank >= banks@.len() ==> (r matches Err(Error::NoAsset(s)) && s@ == bank_label@ + decimal(bank as nat)),
        bank < banks@.len() && n >= banks@[bank as int]@.len() ==> (r matches Err(Error::NoAsset(s)) && s@ == what@ + decimal(n as nat)),
        bank < banks@.len() && n < banks@[bank as int]@.len() ==> r == Ok::<AudioKind, Error>(banks@[bank as int]@[n as int]),
{
    if (bank as usize) >= banks.len() {
        return Err(Error::NoAsset(labelled_text(bank_label, bank as usize)));
    }
    let sounds = &banks[bank as usize];
    if (n as usize) >= sounds.len() {
        return Err(Error::NoAsset(labelled_text(what, n as usize)));
    }
    Ok(sounds[n as usize])
}

/// What `sfx(n, channel, offset, length, bank)` asks of the audio engine,
/// given the kinds of the sounds in each bank: a release or a stop on the
/// channel (or on any, or all, channels), or a play, once, of sound `n` of
/// the bank (bank 0 by default) on the channel or on any free channel.
pub fn sfx_request(
    n: SfxCommand,
    channel: Option<u8>,
    offset: Option<u8>,
    length: Option<u8>,
    bank: Option<u8>,
    banks: &Vec<Vec<AudioKind>>,
) -> (r: Result<SoundRequest, Error>)
    requires
        offset is None,
        length is None,
    ensures
        n == SfxCommand::Release ==> (r matches Ok(q) && q.sound is None && q.command
            == AudioCommand::Release(
            match channel {
                Some(c) => SfxDest::Channel(c),
                None => SfxDest::Any,
            },
        )),
        n == SfxCommand::Stop ==> (r matches Ok(q) && q.sound is None && q.command
            == match channel {
            Some(c) => AudioCommand::Stop(SfxDest::Channel(c), Some(PlaybackKind::Remove)),
            None => AudioCommand::Stop(SfxDest::All, Some(PlaybackKind::Remove)),
        }),
        n matches SfxCommand::Play(k) ==> {
            let b = match bank {
                Some(b) => b,
                None => 0u8,
            };
            &&& b >= banks@.len() ==> (r matches Err(Error::NoAsset(s)) && s@ == "bank "@ + decimal(b as nat))
            &&& b < banks@.len() && k >= banks@[b as int]@.len() ==> (r matches Err(Error::NoAsset(s)) && s@ == "sfx "@ + decimal(k as nat))
            &&& b < banks@.len() && k < banks@[b as int]@.len() ==> (r matches Ok(q) && q.sound == Some((b as usize, k as usize)) && q.command == AudioCommand::Play(
                banks@[b as int]@[k as int],
                match channel {
                    Some(c) => SfxDest::Channel(c),
                    None => SfxDest::Any,
                },
                PlaybackKind::Remove,
            ))
        },
{
    let bank = match bank {
        Some(b) => b,
        None => 0,
    };
    match n {
        SfxCommand::Release => {
            let dest = match channel {
                Some(c) => SfxDest::Channel(c),
                None => SfxDest::Any,
            };
            Ok(SoundRequest { command: AudioCommand::Release(dest), sound: None })
        },
        SfxCommand::Stop => {
            let dest = match channel {
                Some(c) => SfxDest::Channel(c),
                None => SfxDest::All,
            };
            Ok(SoundRequest { command: AudioCommand::Stop(dest, Some(PlaybackKind::Remove)), sound: None })
        },
        SfxCommand::Play(k) => {
            let kind = look_up(banks, bank, k, "bank ", "sfx ")?;
            let dest = match channel {
                Some(c) => SfxDest::Channel(c),
                None => SfxDest::Any,
            };
            Ok(
                SoundRequest {
                    command: AudioCommand::Play(kind, dest, PlaybackKind::Remove),
                    sound: Some((bank as usize, k as usize)),
                },
            )
        },
    }
}

/// What `music(n, fade_ms, channel_mask, bank)` asks of the audio engine: a
/// stop of every looping sound, or a looping play of tune `n` of the bank
/// (bank 0 by default) on the masked channels or on any free channel. Music
/// takes no release.
pub fn music_request(n: SfxCommand, channel_mask: Option<u8>, bank: Option<u8>, banks: &Vec<Vec<AudioKind>>) -> (r: Result<SoundRequest, Error>)
    requires
        n != SfxCommand::Release,
    ensures
        n == SfxCommand::Stop ==> (r matches Ok(q) && q.sound is None && q.command
            == AudioCommand::Stop(SfxDest::All, Some(PlaybackKind::Loop))),
        n matches SfxCommand::Play(k) ==> {
            let b = match bank {
                Some(b) => b,
                None => 0u8,
            };
            &&& b >= banks@.len() ==> (r matches Err(Error::NoSuch(s)) && s@ == "audio bank "@ + decimal(b as nat))
            &&& b < banks@.len() && k >= banks@[b as int]@.len() ==> (r matches Err(Error::NoAsset(s)) && s@ == "music "@ + decimal(k as nat))
            &&& b < banks@.len() && k < banks@[b as int]@.len() ==> (r matches Ok(q) && q.sound == Some((b as usize, k as usize)) && q.command == AudioCommand::Play(
                banks@[b as int]@[k as int],
                match channel_mask {
                    Some(m) => SfxDest::ChannelMask(m),
                    None => SfxDest::Any,
                },
                PlaybackKind::Loop,
            ))
        },
{
    let bank = match bank {
        Some(b) => b,
        None => 0,
    };
    match n {
        SfxCommand::Stop => {
            Ok(SoundRequest { command: AudioCommand::Stop(SfxDest::All, Some(PlaybackKind::Loop)), sound: None })
        },
        SfxCommand::Play(k) => {
            if (bank as usize) >= banks.len() {
                return Err(Error::NoSuch(labelled_text("audio bank ", bank as usize)));
            }
            let kind = look_up(banks, bank, k, "bank ", "music ")?;
            let dest = match channel_mask {
                Some(m) => SfxDest::ChannelMask(m),
                None => SfxDest::Any,
            };
            Ok(
                SoundRequest {
                    command: AudioCommand::Play(kind, dest, PlaybackKind::Loop),
                    sound: Some((bank as usize, k as usize)),
                },
            )
        },
        SfxCommand::Release => {
            Err(Error::Unsupported(String::from_str("music release")))
        },
    }
}

/// Bit `f` of a flag byte.
pub open spec fn flag_bit(v: u8, f: u8) -> bool {
    (v >> f) & 1u8 == 1u8
}

/// `fget(index, flag_index)` on the sprite flags: 0 without an index or past
/// the last flag; else the flag byte, or with a flag index 1 or 0 as that bit
/// is set or not.
pub fn fget(flags: &[u8], index: Option<usize>, flag_index: Option<u8>) -> (r: u8)
    requires
        flag_index matches Some(f) ==> f < 8,
    ensures
        match index {
            None => r == 0,
            Some(i) => if i < flags@.len() {
                match flag_index {
                    Some(f) => r == if flag_bit(flags@[i as int], f) {
                        1u8
                    } else {
                        0u8
                    },
                    None => r == flags@[i as int],
                }
            } else {
                r == 0
            },
        },
{
    let index = match index {
        None => {
            return 0;
        },
        Some(i) => i,
    };
    if index >= flags.len() {
        return 0;
    }
    let v = flags[index];
    match flag_index {
        Some(f) => {
            assert((v & (1u8 << f) != 0u8) == ((v >> f) & 1u8 == 1u8)) by (bit_vector)
                requires
                    f < 8,
            ;
            if v & (1u8 << f) != 0 {
                1
            } else {
                0
            }
        },
        None => v,
    }
}

/// The flag byte `v` with bit `f` set where `value` is not zero, cleared where it is.
pub open spec fn with_flag(v: u8, f: u8, value: u8) -> u8 {
    if value != 0 {
        v | (1u8 << f)
    } else {
        v & !(1u8 << f)
    }
}

/// `fset(index, flag_index, value)` on the sprite flags: with a flag index,
/// set that bit where `value` is not zero and clear it where it is; without
/// one, write `value` as the flag byte.
pub fn fset(flags: &mut Vec<u8>, index: usize, flag_index: Option<u8>, value: u8)
    requires
        index < old(flags)@.len(),
        flag_index matches Some(f) ==> f < 8,
    ensures
        final(flags)@ == old(flags)@.update(
            index as int,
            match flag_index {
                Some(f) => with_flag(old(flags)@[index as int], f, value),
                None => value,
            },
        ),
{
    match flag_index {
        Some(f) => {
            let v = flags[index];
            if value != 0 {
                flags.set(index, v | (1u8 << f));
            } else {
                flags.set(index, v & !(1u8 << f));
            }
        },
        None => {
            flags.set(index, value);
        },
    }
}

/// The arguments of `fset(n, f, v)` as a script gives them: with three
/// arguments the second is the flag and the third the value; with two the
/// second is the value of the whole byte.
pub fn fset_args(f_or_v: u8, v: Option<u8>) -> (r: (Option<u8>, u8))
    ensures
        r == match v {
            Some(v) => (Some(f_or_v), v),
            None => (None::<u8>, f_or_v),
        },
{
    match v {
        Some(v) => (Some(f_or_v), v),
        None => (None, f_or_v),
    }
}

/// What `fget` answers a script: a flag as a boolean, a whole byte as a number.
#[derive(Debug, Clone, Copy, PartialEq, Eq, Structural)]
pub enum FgetAnswer {
    Bool(bool),
    Integer(i64),
}

/// The answer of `fget` for the value `v` it read, asked for flag `f` or
/// for the whole byte.
pub fn fget_answer(v: u8, f: Option<u8>) -> (r: FgetAnswer)
    ensures
        r == match f {
            Some(_) => FgetAnswer::Bool(v == 1),
            None => FgetAnswer::Integer(v as i64),
        },
{
    match f {
        Some(_) => FgetAnswer::Bool(v == 1),
        None => FgetAnswer::Integer(v as i64),
    }
}

/// A flag byte with bit `f` changed keeps every other bit, and `fget` then reads the new bit.
pub proof fn lemma_with_flag(v: u8, f: u8, value: u8, g: u8)
    requires
        f < 8,
        g < 8,
    ensures
        flag_bit(with_flag(v, f, value), f) == (value != 0),
        g != f ==> flag_bit(with_flag(v, f, value), g) == flag_bit(v, g),
{
    if value != 0 {
        assert(((v | (1u8 << f)) >> f) & 1u8 == 1u8) by (bit_vector)
            requires
                f < 8,
        ;
        assert(g != f ==> ((((v | (1u8 << f)) >> g) & 1u8 == 1u8) == ((v >> g) & 1u8 == 1u8))) by (bit_vector)
            requires
                f < 8,
                g < 8,
        ;
    } else {
        assert(((v & !(1u8 << f)) >> f) & 1u8 == 0u8) by (bit_vector)
            requires
                f < 8,
        ;
        assert(g != f ==> ((((v & !(1u8 << f)) >> g) & 1u8 == 1u8) == ((v >> g) & 1u8 == 1u8))) by (bit_vector)
            requires
                f < 8,
                g < 8,
        ;
    }
}

/// The address that turns keyboard input on and off.
pub const KEYBOARD_ENABLE_ADDR: usize = 0x5f2d;

/// `poke(addr, value)`: only the keyboard switch can be written; a value
/// other than zero turns keyboard input on.
pub fn poke(addr: usize, value: u8, keyboard_enabled: &mut bool) -> (r: Result<(), Error>)
    ensures
        addr == KEYBOARD_ENABLE_ADDR ==> (r is Ok && *final(keyboard_enabled) == (value != 0)),
        addr != KEYBOARD_ENABLE_ADDR ==> (r matches Err(Error::UnsupportedPoke(a)) && a == addr
            && *final(keyboard_enabled) == *old(keyboard_enabled)),
{
    if addr == KEYBOARD_ENABLE_ADDR {
        *keyboard_enabled = value != 0;
        Ok(())
    } else {
        Err(Error::UnsupportedPoke(addr))
    }
}

/// `peek(addr)`: no address can be read.
pub fn peek(addr: usize) -> (r: Result<u8, Error>)
    ensures
        r matches Err(Error::UnsupportedPeek(a)) && a == addr,
{
    Err(Error::UnsupportedPeek(addr))
}

/// What `stat(n)` reports.
#[derive(Debug, Clone, Copy, PartialEq, Eq, Structural)]
pub enum StatQuery {
    /// 8: the target frame rate.
    TargetFrameRate,
    /// 9: the frame rate.
    FrameRate,
    /// 30: whether a key press is waiting.
    KeyWaiting,
    /// 31: the next key press.
    NextKey,
    /// 32: the mouse's x position.
    MouseX,
    /// 33: the mouse's y position.
    MouseY,
    /// 34: the mouse buttons.
    MouseButtons,
}

/// The query of `stat(n)`, or an error for a number it does not support.
pub fn stat_query(n: u8) -> (r: Result<StatQuery, Error>)
    ensures
        n == 8 ==> r == Ok::<StatQuery, Error>(StatQuery::TargetFrameRate),
        n == 9 ==> r == Ok::<StatQuery, Error>(StatQuery::FrameRate),
        n == 30 ==> r == Ok::<StatQuery, Error>(StatQuery::KeyWaiting),
        n == 31 ==> r == Ok::<StatQuery, Error>(StatQuery::NextKey),
        n == 32 ==> r == Ok::<StatQuery, Error>(StatQuery::MouseX),
        n == 33 ==> r == Ok::<StatQuery, Error>(StatQuery::MouseY),
        n == 34 ==> r == Ok::<StatQuery, Error>(StatQuery::MouseButtons),
        !(n == 8 || n == 9 || (30 <= n <= 34)) ==> (r matches Err(Error::UnsupportedStat(m)) && m == n),
{
    match n {
        8 => Ok(StatQuery::TargetFrameRate),
        9 => Ok(StatQuery::FrameRate),
        30 => Ok(StatQuery::KeyWaiting),
        31 => Ok(StatQuery::NextKey),
        32 => Ok(StatQuery::MouseX),
        33 => Ok(StatQuery::MouseY),
        34 => Ok(StatQuery::MouseButtons),
        _ => Err(Error::UnsupportedStat(n)),
    }
}

/// Which sprite to draw.
#[derive(Debug, Clone, Copy, PartialEq, Eq, Structural)]
pub enum Spr {
    /// Sprite at current spritesheet.
    Cur { sprite: usize },
    /// Sprite from given spritesheet.
    From { sprite: usize, sheet: usize },
    /// Set spritesheet.
    SetSheet { sheet: usize },
}

impl Spr {
    /// A sprite number from 0 up is that sprite of the current sheet; a
    /// negative number `-k` selects sheet `k - 1`.
    pub fn from_i64(index: i64) -> (r: Spr)
        requires
            index != i64::MIN,
        ensures
            index >= 0 ==> r == (Spr::Cur { sprite: index as usize }),
            index < 0 ==> r == (Spr::SetSheet { sheet: (-index - 1) as usize }),
    {
        if index >= 0 {
            Spr::Cur { sprite: index as usize }
        } else {
            Spr::SetSheet { sheet: (-index - 1) as usize }
        }
    }

    /// That sprite of the current sheet.
    pub fn from_usize(sprite: usize) -> (r: Spr)
        ensures
            r == (Spr::Cur { sprite }),
    {
        Spr::Cur { sprite }
    }

    /// That sprite of the current sheet, the number taken as an index.
    pub fn from_i32(sprite: i32) -> (r: Spr)
        ensures
            r == (Spr::Cur { sprite: sprite as usize }),
    {
        Spr::Cur { sprite: sprite as usize }
    }

    /// That sprite of that sheet.
    pub fn from_pair(sprite: usize, sheet: usize) -> (r: Spr)
        ensures
            r == (Spr::From { sprite, sheet }),
    {
        Spr::From { sprite, sheet }
    }
}

/// Where `sub` starts, as an index from 0: positions count from 1, and a
/// negative position counts back from the end, -1 being the last character
/// (before the first character it stays at the first). A start of 0 wraps to
/// the top of the range, which selects nothing.
pub open spec fn sub_start(count: int, start: int) -> int {
    if start < 0 {
        if count + start < 0 {
            0
        } else {
            count + start
        }
    } else if start == 0 {
        usize::MAX as int
    } else {
        start - 1
    }
}

/// Where `sub` ends, as an index from 0 one past the last character taken: a
/// negative position counts back from the end, -1 being the last character.
pub open spec fn sub_end(count: int, end: int) -> int {
    if end < 0 {
        if count + end + 1 < 0 {
            0
        } else {
            count + end + 1
        }
    } else {
        end
    }
}

/// The characters of `s` from `a` up to `b`, clamped to its length.
pub open spec fn char_range(s: Seq<char>, a: int, b: int) -> Seq<char> {
    let lo = if a < s.len() {
        a
    } else {
        s.len() as int
    };
    let hi = if b < s.len() {
        b
    } else {
        s.len() as int
    };
    if lo <= hi {
        s.subrange(lo, hi)
    } else {
        seq![]
    }
}

/// The substring `sub(string, start, end)`, by characters.
pub fn sub(string: &str, start: isize, end: Option<isize>) -> (r: String)
    requires
        string@.len() < isize::MAX,
    ensures
        ({
            let count = string@.len() as int;
            let a = sub_start(count, start as int);
            r@ == match end {
                Some(e) => if a <= sub_end(count, e as int) {
                    char_range(string@, a, sub_end(count, e as int))
                } else {
                    seq![]
                },
                None => char_range(string@, a, count),
            }
        }),
{
    let count = string.unicode_len();
    let a: usize = if start < 0 {
        let t = count as isize + start;
        if t < 0 {
            0
        } else {
            t as usize
        }
    } else if start == 0 {
        usize::MAX
    } else {
        (start - 1) as usize
    };
    let b: usize = match end {
        Some(e) => {
            let b: usize = if e < 0 {
                let t = count as isize + e + 1;
                if t < 0 {
                    0
                } else {
                    t as usize
                }
            } else {
                e as usize
            };
            if a > b {
                return String::new();
            }
            b
        },
        None => count,
    };
    let lo = if a < count {
        a
    } else {
        count
    };
    let hi = if b < count {
        b
    } else {
        count
    };
    if lo > hi {
        return String::new();
    }
    string.substring_char(lo, hi).to_owned()
}

/// The remainder of `a` by `b` as `%` gives it: with the sign of `a`.
pub open spec fn truncated_rem(a: int, b: int) -> int {
    if a >= 0 {
        a % b
    } else {
        -((-a) % b)
    }
}

/// `rnd(x)` for a whole number `x`: the random number, taken as signed,
/// modulo `x + 1`.
pub fn rnd_int(random: u64, x: i64) -> (r: i64)
    requires
        x != -1,
        x != i64::MAX,
        !(x == -2 && (random as i64) == i64::MIN),
    ensures
        r == truncated_rem((random as i64) as int, x + 1),
{
    let v = random as i64;
    let m = x + 1;
    v % m
}

/// `rnd(list)`: the index of the element taken, the random number modulo the length.
pub fn rnd_index(random: u64, len: usize) -> (r: usize)
    requires
        len > 0,
    ensures
        r == (random as usize) % len,
        r < len,
{
    (random as usize) % len
}

/// `sub(s, 1)` is the whole string, `sub(s, i, i)` is the `i`-th character,
/// and `sub(s, -i, -i)` is the `i`-th character from the end.
pub proof fn lemma_sub_whole_and_single(s: Seq<char>, i: int)
    ensures
        char_range(s, sub_start(s.len() as int, 1), s.len() as int) == s,
        1 <= i <= s.len() ==> char_range(s, sub_start(s.len() as int, i), sub_end(s.len() as int, i))
            == seq![s[i - 1]],
        1 <= i <= s.len() ==> char_range(s, sub_start(s.len() as int, -i), sub_end(s.len() as int, -i))
            == seq![s[s.len() - i]],
{
    assert(char_range(s, 0, s.len() as int) =~= s);
    if 1 <= i <= s.len() {
        assert(char_range(s, i - 1, i) =~= seq![s[i - 1]]);
        assert(char_range(s, s.len() - i, s.len() - i + 1) =~= seq![s[s.len() - i]]);
    }
}

/// The text that `print` shows, and whether the cursor moves to a new line
/// after it: a text that ends in a NUL character is shown without it and
/// keeps the cursor on its line.
pub fn print_text(text: &str) -> (r: (String, bool))
    ensures
        text@.len() > 0 && text@.last() == '\0' ==> (r.0@ == text@.drop_last() && !r.1),
        !(text@.len() > 0 && text@.last() == '\0') ==> (r.0@ == text@ && r.1),
{
    let n = text.unicode_len();
    if n > 0 && text.get_char(n - 1) == '\0' {
        let shown = text.substring_char(0, n - 1).to_owned();
        assert(text@.subrange(0, n - 1) =~= text@.drop_last());
        (shown, false)
    } else {
        (text.to_owned(), true)
    }
}

} // verus!
