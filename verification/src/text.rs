//! Strings: what is taken on trust of the standard library, and small
//! verified tools on top of it.

use vstd::prelude::*;

verus! {

/// Whether a character is alphabetic or numeric in the sense of Unicode.
pub uninterp spec fn alphanumeric(c: char) -> bool;

/// `char::is_alphanumeric` decides by Unicode tables; its answer depends on the
/// character alone and is named by [`alphanumeric`].
pub assume_specification[ char::is_alphanumeric ](c: char) -> (b: bool)
    ensures
        b == alphanumeric(c),
;

/// `String::push` appends one character to the end of the string.
pub assume_specification[ String::push ](s: &mut String, c: char)
    ensures
        final(s)@ == old(s)@.push(c),
;

/// `String::push_str` appends a string slice to the end of the string.
pub assume_specification[ String::push_str ](s: &mut String, other: &str)
    ensures
        final(s)@ == old(s)@ + other@,
;

/// `str`'s `==` holds exactly when the two slices hold the same characters.
pub assume_specification[ <str as PartialEq>::eq ](a: &str, b: &str) -> (r: bool)
    ensures
        r == (a@ == b@),
;

/// `str::len` gives the length of a string in bytes, which is the length of
/// its UTF-8 encoding.
#[verifier::external_body]
pub(crate) fn byte_len(s: &str) -> (len: usize)
    ensures
        len == vstd::utf8::encode_utf8(s@).len(),
{
    s.len()
}

/// A string as `{:?}` shows it: between double quotes, with the characters
/// that cannot stand there as they are written as escapes.
pub uninterp spec fn quoted_text(s: Seq<char>) -> Seq<char>;

/// The `Debug` text of a string, as `format!` with `{:?}` gives it; the text
/// depends on the string alone and is named by [`quoted_text`].
#[verifier::external_body]
pub(crate) fn debug_text(s: &str) -> (out: String)
    ensures
        out@ == quoted_text(s@),
{
    format!("{:?}", s)
}

/// A character as `{:?}` shows it: between single quotes, written as an
/// escape where it cannot stand there as it is.
pub uninterp spec fn quoted_char(c: char) -> Seq<char>;

/// The `Debug` text of a character, as `format!` with `{:?}` gives it; the
/// text depends on the character alone and is named by [`quoted_char`].
#[verifier::external_body]
pub(crate) fn debug_char(c: char) -> (out: String)
    ensures
        out@ == quoted_char(c),
{
    format!("{:?}", c)
}

/// The characters of a string, in order.
pub fn chars_of(s: &str) -> (out: Vec<char>)
    ensures
        out@ == s@,
{
    let mut out: Vec<char> = Vec::new();
    for c in it: s.chars()
        invariant
            it.seq() == s@,
            out@ == s@.take(it.index()),
    {
        out.push(c);
    }
    out
}

/// A string of the first `len` of the given characters.
pub(crate) fn string_of(chars: &Vec<char>, len: usize) -> (out: String)
    requires
        len <= chars@.len(),
    ensures
        out@ == chars@.take(len as int),
{
    let mut out = String::new();
    let mut i: usize = 0;
    while i < len
        invariant
            i <= len <= chars@.len(),
            out@ == chars@.take(i as int),
        decreases len - i,
    {
        out.push(chars[i]);
        i += 1;
        assert(chars@.take(i as int) =~= chars@.take(i - 1).push(chars@[i - 1]));
    }
    out
}

/// `count` times the character `c`.
pub open spec fn repeated(c: char, count: nat) -> Seq<char> {
    Seq::new(count, |i: int| c)
}

/// Appends `count` times the character `c`.
pub fn push_repeated(out: &mut String, c: char, count: usize)
    ensures
        final(out)@ == old(out)@ + repeated(c, count as nat),
{
    let mut i: usize = 0;
    assert(out@ =~= old(out)@ + repeated(c, 0));
    while i < count
        invariant
            i <= count,
            out@ == old(out)@ + repeated(c, i as nat),
        decreases count - i,
    {
        out.push(c);
        i += 1;
        assert(old(out)@ + repeated(c, i as nat) =~= (old(out)@ + repeated(c, (i - 1) as nat)).push(
            c,
        ));
    }
}

/// The character for a decimal digit.
pub open spec fn digit(d: nat) -> char {
    if d == 0 {
        '0'
    } else if d == 1 {
        '1'
    } else if d == 2 {
        '2'
    } else if d == 3 {
        '3'
    } else if d == 4 {
        '4'
    } else if d == 5 {
        '5'
    } else if d == 6 {
        '6'
    } else if d == 7 {
        '7'
    } else if d == 8 {
        '8'
    } else {
        '9'
    }
}

/// A number in decimal notation, without sign or leading zeros.
pub open spec fn decimal(n: nat) -> Seq<char>
    decreases n,
{
    if n < 10 {
        seq![digit(n)]
    } else {
        decimal(n / 10).push(digit(n % 10))
    }
}

fn digit_char(d: u64) -> (c: char)
    requires
        d < 10,
    ensures
        c == digit(d as nat),
{
    if d == 0 {
        '0'
    } else if d == 1 {
        '1'
    } else if d == 2 {
        '2'
    } else if d == 3 {
        '3'
    } else if d == 4 {
        '4'
    } else if d == 5 {
        '5'
    } else if d == 6 {
        '6'
    } else if d == 7 {
        '7'
    } else if d == 8 {
        '8'
    } else {
        '9'
    }
}

/// Appends a number in decimal notation.
pub fn push_decimal(out: &mut String, n: u64)
    ensures
        final(out)@ == old(out)@ + decimal(n as nat),
    decreases n,
{
    if n < 10 {
        out.push(digit_char(n));
        assert(out@ =~= old(out)@ + decimal(n as nat));
    } else {
        push_decimal(out, n / 10);
        out.push(digit_char(n % 10));
        assert(out@ =~= old(out)@ + decimal(n as nat));
    }
}

/// A line without the carriage return that may end it.
pub open spec fn without_return(line: Seq<char>) -> Seq<char> {
    if line.len() > 0 && line.last() == '\r' {
        line.drop_last()
    } else {
        line
    }
}

/// The lines of `s` from `pos` on, where `current` is what was read of the
/// line that `pos` is in.
pub open spec fn lines_from(s: Seq<char>, pos: int, current: Seq<char>) -> Seq<Seq<char>>
    decreases s.len() - pos,
{
    if !(0 <= pos < s.len()) {
        if current.len() == 0 {
            Seq::empty()
        } else {
            seq![current]
        }
    } else if s[pos] == '\n' {
        seq![without_return(current)] + lines_from(s, pos + 1, Seq::empty())
    } else {
        lines_from(s, pos + 1, current.push(s[pos]))
    }
}

/// The lines of a text. A line ends at a line feed, or at a carriage return
/// and a line feed, neither of which belongs to the line; the last line needs
/// no line ending, and a text that ends in one has no empty line after it.
pub open spec fn lines(s: Seq<char>) -> Seq<Seq<char>> {
    lines_from(s, 0, Seq::empty())
}

/// The views of a sequence of strings, position by position.
pub open spec fn string_views(v: Seq<String>) -> Seq<Seq<char>> {
    Seq::new(v.len(), |i: int| v[i]@)
}

/// Splits a text into its lines.
pub fn split_lines(s: &str) -> (out: Vec<String>)
    ensures
        string_views(out@) == lines(s@),
{
    let chars = chars_of(s);
    let mut out: Vec<String> = Vec::new();
    let mut current: Vec<char> = Vec::new();
    let mut i: usize = 0;
    assert(string_views(out@) =~= Seq::empty());
    assert(Seq::<Seq<char>>::empty() + lines(s@) =~= lines(s@));
    while i < chars.len()
        invariant
            chars@ == s@,
            i <= chars@.len(),
            lines(s@) == string_views(out@) + lines_from(s@, i as int, current@),
        decreases chars.len() - i,
    {
        let ghost done = string_views(out@);
        let c = chars[i];
        if c == '\n' {
            let n = current.len();
            let keep = if n > 0 && current[n - 1] == '\r' {
                n - 1
            } else {
                n
            };
            let line = string_of(&current, keep);
            assert(line@ =~= without_return(current@));
            out.push(line);
            current = Vec::new();
            proof {
                assert(string_views(out@) =~= done + seq![line@]);
                assert(done + (seq![line@] + lines_from(s@, i + 1, Seq::empty())) =~= (done
                    + seq![line@]) + lines_from(s@, i + 1, Seq::empty()));
            }
        } else {
            current.push(c);
        }
        i += 1;
    }
    if current.len() > 0 {
        let ghost done = string_views(out@);
        let line = string_of(&current, current.len());
        assert(line@ =~= current@);
        out.push(line);
        assert(string_views(out@) =~= done + seq![line@]);
    } else {
        assert(string_views(out@) + Seq::<Seq<char>>::empty() =~= string_views(out@));
    }
    out
}

/// The first `count` of `parts`, with `separator` between two of them.
pub open spec fn joined_first(parts: Seq<Seq<char>>, separator: Seq<char>, count: nat) -> Seq<char>
    decreases count,
{
    if count == 0 || count > parts.len() {
        Seq::empty()
    } else if count == 1 {
        parts[0]
    } else {
        joined_first(parts, separator, (count - 1) as nat) + separator + parts[count - 1]
    }
}

/// `parts` with `separator` between two of them.
pub open spec fn joined(parts: Seq<Seq<char>>, separator: Seq<char>) -> Seq<char> {
    joined_first(parts, separator, parts.len())
}

/// Appends `parts` with `separator` between two of them.
pub fn push_joined(out: &mut String, parts: &Vec<String>, separator: &str)
    ensures
        final(out)@ == old(out)@ + joined(string_views(parts@), separator@),
{
    let ghost views = string_views(parts@);
    let mut i: usize = 0;
    assert(out@ =~= old(out)@ + joined_first(views, separator@, 0));
    while i < parts.len()
        invariant
            views == string_views(parts@),
            i <= parts@.len(),
            out@ == old(out)@ + joined_first(views, separator@, i as nat),
        decreases parts.len() - i,
    {
        if i > 0 {
            out.push_str(separator);
        }
        out.push_str(parts[i].as_str());
        i += 1;
        assert(out@ =~= old(out)@ + joined_first(views, separator@, i as nat));
    }
}

} // verus!
