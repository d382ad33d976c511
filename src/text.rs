//! Text handling: the typing buffer, key events, and how typed text is
//! compared with a target under each difficulty.

use crate::state::Difficulty;
use vstd::prelude::*;

verus! {

/// What `str::trim` leaves of a text.
pub uninterp spec fn trim_of(s: Seq<char>) -> Seq<char>;

/// What `str::to_lowercase` makes of a text.
pub uninterp spec fn lower_of(s: Seq<char>) -> Seq<char>;

/// The first character that `char::to_uppercase` yields for `c`.
pub uninterp spec fn upper_of(c: char) -> char;

/// Relies on str::trim: the text without leading and trailing whitespace.
#[verifier::external_body]
pub(crate) fn trim_str(s: &str) -> (r: &str)
    ensures
        r@ == trim_of(s@),
{
    s.trim()
}

/// Relies on str::to_lowercase: the result depends on the characters alone.
#[verifier::external_body]
pub(crate) fn lowercase(s: &str) -> (r: String)
    ensures
        r@ == lower_of(s@),
{
    s.to_lowercase()
}

/// Relies on char::to_uppercase, which yields one or more characters; the
/// first of them is taken.
#[verifier::external_body]
pub(crate) fn uppercase_first(c: char) -> (r: char)
    ensures
        r == upper_of(c),
{
    c.to_uppercase().next().unwrap_or(c)
}

/// Relies on String::push: appends one character.
#[verifier::external_body]
pub(crate) fn push_char(s: &mut String, c: char)
    ensures
        final(s)@ == old(s)@.push(c),
{
    s.push(c)
}

/// Relies on String::pop: removes and returns the last character, if any.
#[verifier::external_body]
pub(crate) fn pop_char(s: &mut String) -> (r: Option<char>)
    ensures
        old(s)@.len() == 0 ==> r.is_none() && final(s)@ == old(s)@,
        old(s)@.len() > 0 ==> r == Some(old(s)@.last()) && final(s)@ == old(s)@.drop_last(),
{
    s.pop()
}

/// Relies on String::clear: empties the string.
#[verifier::external_body]
pub(crate) fn clear_string(s: &mut String)
    ensures
        final(s)@.len() == 0,
{
    s.clear()
}

/// Relies on str::chars: the characters of a text, in order.
#[verifier::external_body]
pub(crate) fn chars_of(s: &str) -> (r: Vec<char>)
    ensures
        r@ == s@,
{
    s.chars().collect()
}

/// `char::is_control`: the characters of general category Cc.
pub open spec fn is_control_spec(c: char) -> bool {
    (c as u32) <= 0x1f || (0x7f <= (c as u32) && (c as u32) <= 0x9f)
}

pub fn is_control(c: char) -> (r: bool)
    ensures
        r == is_control_spec(c),
{
    let v = c as u32;
    v <= 0x1f || (0x7f <= v && v <= 0x9f)
}

/// Whether typed text names a target: after both are compared whole,
/// exactly under `Hard`, after lower-casing both under `Easy`.
pub open spec fn matches_spec(difficulty: Difficulty, target: Seq<char>, typed: Seq<char>) -> bool {
    match difficulty {
        Difficulty::Easy => lower_of(target) == lower_of(typed),
        Difficulty::Hard => target == typed,
    }
}

pub fn text_matches(difficulty: Difficulty, target: &str, typed: &str) -> (r: bool)
    ensures
        r == matches_spec(difficulty, target@, typed@),
{
    match difficulty {
        Difficulty::Easy => {
            let a = lowercase(target);
            let b = lowercase(typed);
            a == b
        },
        Difficulty::Hard => {
            let a = target.to_owned();
            let b = typed.to_owned();
            a == b
        },
    }
}

/// A logical key, as decoded from the keyboard.
#[derive(Clone, Copy, Debug, PartialEq, Eq, Structural)]
pub enum Key {
    Character(char),
    Space,
    Backspace,
    Enter,
    Tab,
    Other,
}

/// A key transition; only presses act.
#[derive(Clone, Copy, Debug, PartialEq, Eq, Structural)]
pub struct KeyEvent {
    pub key: Key,
    pub pressed: bool,
}

/// The text typed so far.
pub struct TypingBuffer {
    pub text: String,
}

/// The buffer text after an editing key.
pub open spec fn edited(text: Seq<char>, key: Key) -> Seq<char> {
    match key {
        Key::Character(c) => if is_control_spec(c) {
            text
        } else {
            text.push(c)
        },
        Key::Space => text.push(' '),
        Key::Backspace => if text.len() > 0 {
            text.drop_last()
        } else {
            text
        },
        _ => text,
    }
}

impl TypingBuffer {
    pub fn new() -> (r: TypingBuffer)
        ensures
            r.text@.len() == 0,
    {
        TypingBuffer { text: String::new() }
    }

    /// Applies one editing key: a printable character or a space is appended,
    /// Backspace removes the last character, anything else is ignored.
    pub fn apply_key(&mut self, key: Key)
        ensures
            final(self).text@ == edited(old(self).text@, key),
    {
        match key {
            Key::Character(c) => {
                if !is_control(c) {
                    push_char(&mut self.text, c);
                }
            },
            Key::Space => {
                push_char(&mut self.text, ' ');
            },
            Key::Backspace => {
                let _ = pop_char(&mut self.text);
            },
            _ => {},
        }
    }

    /// Applies the pressed keys of a tick, in order.
    pub fn update_typing_input(&mut self, events: &Vec<KeyEvent>)
        ensures
            final(self).text@ == edits_of(old(self).text@, events@),
    {
        let mut i: usize = 0;
        while i < events.len()
            invariant
                i <= events.len(),
                self.text@ == edits_of(old(self).text@, events@.take(i as int)),
            decreases events.len() - i,
        {
            let ev = events[i];
            if ev.pressed {
                self.apply_key(ev.key);
            }
            assert(events@.take(i + 1).drop_last() =~= events@.take(i as int));
            i = i + 1;
        }
        assert(events@.take(events.len() as int) =~= events@);
    }

    /// The text with surrounding whitespace removed.
    pub fn trimmed(&self) -> (r: &str)
        ensures
            r@ == trim_of(self.text@),
    {
        trim_str(self.text.as_str())
    }

    pub fn clear(&mut self)
        ensures
            final(self).text@.len() == 0,
    {
        clear_string(&mut self.text);
    }
}

impl Default for TypingBuffer {
    fn default() -> (r: TypingBuffer)
        ensures
            r.text@.len() == 0,
    {
        TypingBuffer::new()
    }
}

/// The buffer text after a sequence of key events; releases are ignored.
pub open spec fn edits_of(text: Seq<char>, events: Seq<KeyEvent>) -> Seq<char>
    decreases events.len(),
{
    if events.len() == 0 {
        text
    } else {
        let before = edits_of(text, events.drop_last());
        let ev = events.last();
        if ev.pressed {
            edited(before, ev.key)
        } else {
            before
        }
    }
}

} // verus!
