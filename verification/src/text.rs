//! Conversions between strings and the character vectors that the grid works on.

use vstd::prelude::*;

verus! {

/// The characters of `text`, in order.
pub fn chars_of(text: &str) -> (chars: Vec<char>)
    ensures
        chars@ == text@,
{
    let mut chars: Vec<char> = Vec::new();
    for c in it: text.chars()
        invariant
            it.seq() == text@,
            chars@ == it.seq().take(it.index()),
    {
        chars.push(c);
    }
    chars
}

/// `String::push`: appends one character to the end of the string.
#[verifier::external_body]
pub(crate) fn push_char(out: &mut String, c: char)
    ensures
        final(out)@ == old(out)@.push(c),
{
    out.push(c)
}

/// The string that holds the characters of `chars`, in order.
pub fn string_of(chars: &Vec<char>) -> (text: String)
    ensures
        text@ == chars@,
{
    let mut text = String::new();
    let mut i: usize = 0;
    while i < chars.len()
        invariant
            i <= chars.len(),
            text@ == chars@.take(i as int),
        decreases chars.len() - i,
    {
        push_char(&mut text, chars[i]);
        i += 1;
    }
    text
}

/// The lines of a text: the pieces between its line feeds. A text without a
/// line feed is one line, and so is the empty text.
pub open spec fn lines_of(text: Seq<char>) -> Seq<Seq<char>>
    decreases text.len(),
{
    if text.len() == 0 {
        seq![Seq::<char>::empty()]
    } else {
        let before = lines_of(text.drop_last());
        if text.last() == '\n' {
            before.push(Seq::<char>::empty())
        } else {
            before.drop_last().push(before.last().push(text.last()))
        }
    }
}

/// The views of the lines held in `lines`.
pub open spec fn views_of(lines: Seq<Vec<char>>) -> Seq<Seq<char>> {
    Seq::new(lines.len(), |i: int| lines[i]@)
}

/// Splits a text at its line feeds.
pub fn split_lines(text: &str) -> (lines: Vec<Vec<char>>)
    ensures
        views_of(lines@) == lines_of(text@),
{
    let chars = chars_of(text);
    let mut lines: Vec<Vec<char>> = Vec::new();
    let mut current: Vec<char> = Vec::new();
    let mut i: usize = 0;
    while i < chars.len()
        invariant
            i <= chars.len(),
            chars@ == text@,
            views_of(lines@).push(current@) == lines_of(chars@.take(i as int)),
        decreases chars.len() - i,
    {
        let c = chars[i];
        proof {
            let next = chars@.take(i + 1);
            assert(next.drop_last() == chars@.take(i as int));
            assert(next.last() == c);
            let before = views_of(lines@).push(current@);
            assert(before.drop_last() == views_of(lines@));
            assert(before.last() == current@);
        }
        if c == '\n' {
            let ghost old_lines = lines@;
            let ghost done = current@;
            lines.push(current);
            current = Vec::new();
            proof {
                assert(views_of(lines@) =~= views_of(old_lines).push(done));
            }
        } else {
            let ghost done = current@;
            current.push(c);
            proof {
                assert(views_of(lines@).push(current@) =~= views_of(lines@).push(done).drop_last().push(
                    done.push(c),
                ));
            }
        }
        i += 1;
    }
    proof {
        assert(chars@.take(i as int) == chars@);
    }
    let ghost old_lines = lines@;
    let ghost done = current@;
    lines.push(current);
    proof {
        assert(lines@.last()@ == done);
        assert(views_of(lines@) =~= views_of(old_lines).push(lines@.last()@));
    }
    lines
}

} // verus!
