//! Typed keys, buffered for a script to read one at a time; and the mouse buttons.

use vstd::prelude::*;
use std::collections::VecDeque;
use vstd::string::StringExecFns;
use crate::api::{stat_query, Error, StatQuery};

verus! {

/// A key as typed: a character, a named key that has a text, or another key
/// (by its name).
#[derive(Debug, Clone)]
pub enum LogicalKey {
    Character(String),
    Enter,
    Backspace,
    Space,
    Tab,
    Escape,
    Other(String),
}

/// The text a key types, where it types one.
pub open spec fn key_text(k: LogicalKey) -> Option<Seq<char>> {
    match k {
        LogicalKey::Character(s) => Some(s@),
        LogicalKey::Enter => Some(seq!['\r']),
        LogicalKey::Backspace => Some(seq!['\u{8}']),
        LogicalKey::Space => Some(seq![' ']),
        LogicalKey::Tab => Some(seq!['\t']),
        LogicalKey::Escape => Some(seq!['\u{1b}']),
        LogicalKey::Other(_) => None,
    }
}

/// Keys typed this frame, recorded while keyboard input is on.
pub struct KeyInput {
    pub enabled: bool,
    pub buffer: VecDeque<LogicalKey>,
}

impl KeyInput {
    /// Keyboard input off, nothing typed.
    pub fn new() -> (r: KeyInput)
        ensures
            !r.enabled,
            r.buffer@.len() == 0,
    {
        KeyInput { enabled: false, buffer: VecDeque::new() }
    }

    /// Record the keys pressed, where keyboard input is on.
    pub fn record(&mut self, pressed: Vec<LogicalKey>)
        ensures
            final(self).enabled == old(self).enabled,
            final(self).buffer@ == if old(self).enabled {
                old(self).buffer@ + pressed@
            } else {
                old(self).buffer@
            },
    {
        if !self.enabled {
            return;
        }
        let ghost start = self.buffer@;
        let ghost all = pressed@;
        let n = pressed.len();
        let mut rest = pressed;
        let mut taken: usize = 0;
        while rest.len() > 0
            invariant
                self.enabled == old(self).enabled,
                start == old(self).buffer@,
                all == pressed@,
                all.len() == n,
                taken + rest@.len() == all.len(),
                rest@ == all.subrange(taken as int, all.len() as int),
                self.buffer@ == start + all.subrange(0, taken as int),
            decreases rest@.len(),
        {
            let k = rest.remove(0);
            self.buffer.push_back(k);
            assert(self.buffer@ =~= start + all.subrange(0, taken + 1));
            assert(rest@ =~= all.subrange(taken + 1, all.len() as int));
            taken = taken + 1;
        }
        assert(all.subrange(0, all.len() as int) =~= all);
    }

    /// Forget the keys typed this frame.
    pub fn clear(&mut self)
        ensures
            final(self).enabled == old(self).enabled,
            final(self).buffer@.len() == 0,
    {
        self.buffer.clear();
    }

    /// `stat(30)`: is a typed key waiting?
    pub fn key_waiting(&self) -> (r: bool)
        ensures
            r == (self.buffer@.len() > 0),
    {
        self.buffer.len() > 0
    }

    /// `stat(31)`: the text of the next typed key, `None` where none is
    /// waiting, and an error for a key that types no text.
    pub fn pop(&mut self) -> (r: Result<Option<String>, Error>)
        ensures
            final(self).enabled == old(self).enabled,
            old(self).buffer@.len() == 0 ==> (r matches Ok(None) && final(self).buffer@ == old(self).buffer@),
            old(self).buffer@.len() > 0 ==> final(self).buffer@ == old(self).buffer@.drop_first() && match key_text(old(self).buffer@[0]) {
                Some(t) => r matches Ok(Some(s)) && s@ == t,
                None => r matches Err(Error::Unsupported(_)),
            },
    {
        proof {
            reveal_strlit("\r");
            reveal_strlit("\x08");
            reveal_strlit(" ");
            reveal_strlit("\t");
            reveal_strlit("\x1b");
        }
        match self.buffer.pop_front() {
            None => Ok(None),
            Some(key) => match key {
                LogicalKey::Character(s) => Ok(Some(s)),
                LogicalKey::Enter => Ok(Some(String::from_str("\r"))),
                LogicalKey::Backspace => Ok(Some(String::from_str("\x08"))),
                LogicalKey::Space => Ok(Some(String::from_str(" "))),
                LogicalKey::Tab => Ok(Some(String::from_str("\t"))),
                LogicalKey::Escape => Ok(Some(String::from_str("\x1b"))),
                LogicalKey::Other(name) => {
                    let mut text = String::from_str("stat 31 key ");
                    text.append(name.as_str());
                    Err(Error::Unsupported(text))
                },
            },
        }
    }
}

/// The mouse buttons as bits: 1 left, 2 right, 4 middle.
pub fn mouse_buttons(left: bool, right: bool, middle: bool) -> (r: u8)
    ensures
        r == (if left { 1u8 } else { 0u8 }) + (if right { 2u8 } else { 0u8 }) + (if middle { 4u8 } else { 0u8 }),
{
    let l: u8 = if left {
        1
    } else {
        0
    };
    let r: u8 = if right {
        2
    } else {
        0
    };
    let m: u8 = if middle {
        4
    } else {
        0
    };
    assert(l | r | m == l + r + m) by (bit_vector)
        requires
            l == 0 || l == 1,
            r == 0 || r == 2,
            m == 0 || m == 4,
    ;
    l | r | m
}

/// What `stat(n)` answers: a flag, a key's text, a number, or one of the
/// engine's measures (frame rates and the mouse position) that the engine
/// reads itself.
#[derive(Debug)]
pub enum StatAnswer {
    Bool(bool),
    Text(Option<String>),
    Integer(i64),
    TargetFrameRate,
    FrameRate,
    MouseX,
    MouseY,
}

/// `stat(n)` with the keys typed and the mouse buttons held (as from
/// [`mouse_buttons`]): 30 whether a key is waiting, 31 the next key's text
/// (taken from the keys), 34 the mouse buttons, 8, 9, 32 and 33 the engine's
/// measures; any other number is an unsupported stat.
pub fn stat(n: u8, keys: &mut KeyInput, mouse: u8) -> (r: Result<StatAnswer, Error>)
    ensures
        n != 31 ==> final(keys).buffer@ == old(keys).buffer@,
        final(keys).enabled == old(keys).enabled,
        n == 8 ==> r matches Ok(StatAnswer::TargetFrameRate),
        n == 9 ==> r matches Ok(StatAnswer::FrameRate),
        n == 30 ==> (r matches Ok(StatAnswer::Bool(b)) && b == (old(keys).buffer@.len() > 0)),
        n == 31 ==> (old(keys).buffer@.len() == 0 ==> (r matches Ok(StatAnswer::Text(None))
            && final(keys).buffer@ == old(keys).buffer@)),
        n == 31 ==> (old(keys).buffer@.len() > 0 ==> final(keys).buffer@ == old(keys).buffer@.drop_first()
            && match key_text(old(keys).buffer@[0]) {
            Some(t) => r matches Ok(StatAnswer::Text(Some(s))) && s@ == t,
            None => r matches Err(Error::Unsupported(_)),
        }),
        n == 32 ==> r matches Ok(StatAnswer::MouseX),
        n == 33 ==> r matches Ok(StatAnswer::MouseY),
        n == 34 ==> (r matches Ok(StatAnswer::Integer(m)) && m == mouse),
        !(n == 8 || n == 9 || (30 <= n <= 34)) ==> (r matches Err(Error::UnsupportedStat(m)) && m == n),
{
    match stat_query(n) {
        Err(e) => Err(e),
        Ok(StatQuery::TargetFrameRate) => Ok(StatAnswer::TargetFrameRate),
        Ok(StatQuery::FrameRate) => Ok(StatAnswer::FrameRate),
        Ok(StatQuery::KeyWaiting) => Ok(StatAnswer::Bool(keys.key_waiting())),
        Ok(StatQuery::NextKey) => match keys.pop() {
            Ok(t) => Ok(StatAnswer::Text(t)),
            Err(e) => Err(e),
        },
        Ok(StatQuery::MouseX) => Ok(StatAnswer::MouseX),
        Ok(StatQuery::MouseY) => Ok(StatAnswer::MouseY),
        Ok(StatQuery::MouseButtons) => Ok(StatAnswer::Integer(mouse as i64)),
    }
}

} // verus!
