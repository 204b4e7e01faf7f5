//! Colour annotations: a pair of escape-sequence strings emitted around a
//! region of the grid.

use crate::text::chars_of;
use std::borrow::Cow;
use vstd::prelude::*;

verus! {

/// The failure to read a colour out of a text: the text holds an escape
/// sequence that is not a well-formed control sequence, or it holds no visible
/// text that a colour could apply to.
#[derive(Debug, Clone, Copy, PartialEq, Eq)]
pub struct ParseError;

/// The most separators (`;`) that one control sequence may hold.
pub const MAX_SEPARATORS: u8 = 31;

/// Where a scan of a text stands after some of its characters.
#[derive(Debug, Clone, Copy, PartialEq, Eq, Structural)]
pub enum Scan {
    /// Outside any escape sequence.
    Text,
    /// Just after the escape character.
    Escape,
    /// Inside the parameters of a control sequence, after that many separators.
    Params(u8),
    /// The text holds a sequence that is not well formed.
    Broken,
}

/// The state after reading `c` in state `state`. A control sequence is the
/// escape character, `[`, any number of digits and at most
/// [`MAX_SEPARATORS`] separators, and one final character from `@` to `~`.
pub open spec fn scan_step(state: Scan, c: char) -> Scan {
    match state {
        Scan::Text => if c == '\u{1b}' {
            Scan::Escape
        } else {
            Scan::Text
        },
        Scan::Escape => if c == '[' {
            Scan::Params(0)
        } else {
            Scan::Broken
        },
        Scan::Params(n) => if '0' <= c && c <= '9' {
            Scan::Params(n)
        } else if c == ';' {
            if n < MAX_SEPARATORS {
                Scan::Params((n + 1) as u8)
            } else {
                Scan::Broken
            }
        } else if '@' <= c && c <= '~' {
            Scan::Text
        } else {
            Scan::Broken
        },
        Scan::Broken => Scan::Broken,
    }
}

/// The state after reading all of `text`, starting outside any sequence.
pub open spec fn scan(text: Seq<char>) -> Scan
    decreases text.len(),
{
    if text.len() == 0 {
        Scan::Text
    } else {
        scan_step(scan(text.drop_last()), text.last())
    }
}

/// Whether every escape character of `text` starts a well-formed control
/// sequence that also ends within `text`.
pub open spec fn well_formed(text: Seq<char>) -> bool {
    scan(text) == Scan::Text
}

/// The escape sequences that switch on, and off again, the style of the first
/// run of visible text in `text`; `None` where `text` holds no visible text.
pub uninterp spec fn first_block_codes(text: Seq<char>) -> Option<(Seq<char>, Seq<char>)>;

/// What reading a colour out of `text` gives: the codes of its first block
/// where the text is well formed and has one.
pub open spec fn parsed(text: Seq<char>) -> Option<(Seq<char>, Seq<char>)> {
    if well_formed(text) {
        first_block_codes(text)
    } else {
        None
    }
}

/// Computes [`scan_step`].
fn step(state: Scan, c: char) -> (next: Scan)
    ensures
        next == scan_step(state, c),
{
    match state {
        Scan::Text => if c == '\u{1b}' {
            Scan::Escape
        } else {
            Scan::Text
        },
        Scan::Escape => if c == '[' {
            Scan::Params(0)
        } else {
            Scan::Broken
        },
        Scan::Params(n) => if '0' <= c && c <= '9' {
            Scan::Params(n)
        } else if c == ';' {
            if n < MAX_SEPARATORS {
                Scan::Params(n + 1)
            } else {
                Scan::Broken
            }
        } else if '@' <= c && c <= '~' {
            Scan::Text
        } else {
            Scan::Broken
        },
        Scan::Broken => Scan::Broken,
    }
}

/// Tells whether `text` is well formed, by one pass over its characters.
pub fn is_well_formed(text: &str) -> (ok: bool)
    ensures
        ok == well_formed(text@),
{
    let chars = chars_of(text);
    let mut state = Scan::Text;
    let mut i: usize = 0;
    while i < chars.len()
        invariant
            i <= chars.len(),
            chars@ == text@,
            state == scan(chars@.take(i as int)),
        decreases chars.len() - i,
    {
        proof {
            let next = chars@.take(i + 1);
            assert(next.drop_last() == chars@.take(i as int));
            assert(next.last() == chars@[i as int]);
        }
        state = step(state, chars[i]);
        i += 1;
    }
    proof {
        assert(chars@.take(i as int) == chars@);
    }
    matches!(state, Scan::Text)
}

/// `ansi_str::get_blocks`, the first item of its iterator, and that block's
/// `start()` and `end()` written out as strings: the two sequences are the
/// named codes of the text, and there are none exactly where the iterator is
/// empty. The text must be well formed, since the tokenizer is only known to
/// account for every byte of such a text.
#[verifier::external_body]
fn first_block(text: &str) -> (codes: Option<(String, String)>)
    requires
        well_formed(text@),
    ensures
        codes is Some <==> first_block_codes(text@) is Some,
        codes matches Some(pair) ==> first_block_codes(text@) == Some((pair.0@, pair.1@)),
{
    match ansi_str::get_blocks(text).next() {
        Some(block) => Some((block.start().to_string(), block.end().to_string())),
        None => None,
    }
}

/// A colour given by the text written before a region and the text written
/// after it.
#[derive(Debug, PartialEq, Eq)]
pub struct AnsiColor<'a> {
    prefix: Cow<'a, str>,
    suffix: Cow<'a, str>,
}

impl<'a> View for AnsiColor<'a> {
    type V = (Seq<char>, Seq<char>);

    /// The prefix and the suffix, as character sequences.
    closed spec fn view(&self) -> (Seq<char>, Seq<char>) {
        (self.prefix@, self.suffix@)
    }
}

impl<'a> AnsiColor<'a> {
    /// Builds a colour that owns its two strings. The strings are taken as
    /// they are; nothing checks that they are escape sequences.
    pub fn new_owned(prefix: String, suffix: String) -> (color: Self)
        ensures
            color@ == (prefix@, suffix@),
    {
        Self { prefix: Cow::Owned(prefix), suffix: Cow::Owned(suffix) }
    }

    /// Builds a colour that borrows its two strings.
    pub fn new_borrows(prefix: &'a str, suffix: &'a str) -> (color: Self)
        ensures
            color@ == (prefix@, suffix@),
    {
        Self { prefix: Cow::Borrowed(prefix), suffix: Cow::Borrowed(suffix) }
    }

    /// The colour made of a pair of codes, or the failure where there is none.
    pub fn from_codes(codes: Option<(String, String)>) -> (result: Result<Self, ParseError>)
        ensures
            codes is None <==> result is Err,
            codes matches Some(pair) ==> result matches Ok(color) && color@ == (pair.0@, pair.1@),
    {
        match codes {
            Some(pair) => Ok(Self::new_owned(pair.0, pair.1)),
            None => Err(ParseError),
        }
    }

    /// Reads a colour out of a text that carries escape sequences: the colour
    /// of the first run of visible text. Fails where the text is not well
    /// formed or holds no visible text.
    pub fn parse(text: &str) -> (result: Result<Self, ParseError>)
        ensures
            result is Ok <==> parsed(text@) is Some,
            result matches Ok(color) ==> parsed(text@) == Some(color@),
    {
        if is_well_formed(text) {
            Self::from_codes(first_block(text))
        } else {
            Err(ParseError)
        }
    }

    /// The text written before the coloured region.
    pub fn get_prefix(&self) -> (prefix: &str)
        ensures
            prefix@ == self@.0,
    {
        match &self.prefix {
            Cow::Borrowed(text) => text,
            Cow::Owned(text) => text.as_str(),
        }
    }

    /// The text written after the coloured region.
    pub fn get_suffix(&self) -> (suffix: &str)
        ensures
            suffix@ == self@.1,
    {
        match &self.suffix {
            Cow::Borrowed(text) => text,
            Cow::Owned(text) => text.as_str(),
        }
    }
}

impl<'a> Clone for AnsiColor<'a> {
    /// A copy with the same prefix and suffix.
    fn clone(&self) -> (copy: Self)
        ensures
            copy@ == self@,
    {
        let prefix = match &self.prefix {
            Cow::Borrowed(text) => Cow::Borrowed(*text),
            Cow::Owned(text) => Cow::Owned(text.clone()),
        };
        let suffix = match &self.suffix {
            Cow::Borrowed(text) => Cow::Borrowed(*text),
            Cow::Owned(text) => Cow::Owned(text.clone()),
        };
        Self { prefix, suffix }
    }
}

impl<'a> Default for AnsiColor<'a> {
    /// The colour that writes nothing.
    fn default() -> (color: Self)
        ensures
            color@ == (Seq::<char>::empty(), Seq::<char>::empty()),
    {
        Self { prefix: Cow::Owned(String::new()), suffix: Cow::Owned(String::new()) }
    }
}

impl<'a> TryFrom<&str> for AnsiColor<'a> {
    type Error = ParseError;

    /// The same as [`AnsiColor::parse`].
    fn try_from(value: &str) -> (result: Result<Self, ParseError>)
        ensures
            result is Ok <==> parsed(value@) is Some,
            result matches Ok(color) ==> parsed(value@) == Some(color@),
    {
        Self::parse(value)
    }
}

impl<'a> vstd::std_specs::convert::TryFromSpecImpl<&str> for AnsiColor<'a> {
    /// The conversion is described by the contract of `try_from` itself.
    open spec fn obeys_try_from_spec() -> bool {
        false
    }

    /// Of no account: the conversion does not go by it.
    open spec fn try_from_spec(value: &str) -> Result<Self, ParseError> {
        Err(ParseError)
    }
}

impl<'a> vstd::std_specs::convert::TryFromSpecImpl<String> for AnsiColor<'a> {
    /// The conversion is described by the contract of `try_from` itself.
    open spec fn obeys_try_from_spec() -> bool {
        false
    }

    /// Of no account: the conversion does not go by it.
    open spec fn try_from_spec(value: String) -> Result<Self, ParseError> {
        Err(ParseError)
    }
}

impl<'a> TryFrom<String> for AnsiColor<'a> {
    type Error = ParseError;

    /// The same as [`AnsiColor::parse`], on an owned text.
    fn try_from(value: String) -> (result: Result<Self, ParseError>)
        ensures
            result is Ok <==> parsed(value@) is Some,
            result matches Ok(color) ==> parsed(value@) == Some(color@),
    {
        Self::parse(value.as_str())
    }
}

} // verus!
