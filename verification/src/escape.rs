//! The rules by which literal text is made safe for a place in the output.

use crate::generator::ParseMode;
use vstd::prelude::*;

verus! {

/// A way of making literal text safe for a place in the output.
#[derive(Debug, Clone, Copy, PartialEq, Eq, Structural)]
pub enum Escaper {
    /// Prose in the Markdown dialect: a backslash before each reserved character.
    Markdown,
    /// Text and attribute values in the HTML dialect: entities for `&`, `<`, `>`, `"`.
    Html,
    /// The content of code in the Markdown dialect: a backslash before
    /// backslash and backtick only.
    Code,
    /// The target of a link in the Markdown dialect: a backslash before `)`.
    Url,
}

/// The characters that mean something in Markdown prose.
pub open spec fn markdown_reserved(c: char) -> bool {
    c == '_' || c == '*' || c == '[' || c == ']' || c == '(' || c == ')' || c == '~' || c == '`'
        || c == '>' || c == '#' || c == '+' || c == '-' || c == '=' || c == '|' || c == '{' || c
        == '}' || c == '.' || c == '!'
}

impl Escaper {
    /// What stands for the character `c` in the output.
    pub open spec fn escaped_char(self, c: char) -> Seq<char> {
        match self {
            Escaper::Markdown => if markdown_reserved(c) {
                seq!['\\', c]
            } else {
                seq![c]
            },
            Escaper::Html => if c == '&' {
                "&amp;"@
            } else if c == '<' {
                "&lt;"@
            } else if c == '>' {
                "&gt;"@
            } else if c == '"' {
                "&quot;"@
            } else {
                seq![c]
            },
            Escaper::Code => if c == '\\' || c == '`' {
                seq!['\\', c]
            } else {
                seq![c]
            },
            Escaper::Url => if c == ')' {
                seq!['\\', c]
            } else {
                seq![c]
            },
        }
    }

    /// The text `s` with each character replaced by what stands for it.
    pub open spec fn escaped(self, s: Seq<char>) -> Seq<char>
        decreases s.len(),
    {
        if s.len() == 0 {
            Seq::empty()
        } else {
            self.escaped(s.drop_last()) + self.escaped_char(s.last())
        }
    }

    /// Escaping goes character by character, so it distributes over `+`.
    pub proof fn lemma_escaped_concat(self, a: Seq<char>, b: Seq<char>)
        ensures
            self.escaped(a + b) == self.escaped(a) + self.escaped(b),
        decreases b.len(),
    {
        if b.len() == 0 {
            assert(a + b =~= a);
            assert(self.escaped(a) + self.escaped(b) =~= self.escaped(a));
        } else {
            self.lemma_escaped_concat(a, b.drop_last());
            assert((a + b).drop_last() =~= a + b.drop_last());
            assert((a + b).last() == b.last());
            assert(self.escaped(a + b) =~= self.escaped(a) + self.escaped(b));
        }
    }

    /// Appends what stands for `c`.
    fn push_escaped(self, out: &mut String, c: char)
        ensures
            final(out)@ == old(out)@ + self.escaped_char(c),
    {
        match self {
            Escaper::Markdown => {
                if c == '_' || c == '*' || c == '[' || c == ']' || c == '(' || c == ')' || c
                    == '~' || c == '`' || c == '>' || c == '#' || c == '+' || c == '-' || c
                    == '=' || c == '|' || c == '{' || c == '}' || c == '.' || c == '!' {
                    out.push('\\');
                }
                out.push(c);
            },
            Escaper::Html => {
                if c == '&' {
                    out.push_str("&amp;");
                } else if c == '<' {
                    out.push_str("&lt;");
                } else if c == '>' {
                    out.push_str("&gt;");
                } else if c == '"' {
                    out.push_str("&quot;");
                } else {
                    out.push(c);
                }
            },
            Escaper::Code => {
                if c == '\\' || c == '`' {
                    out.push('\\');
                }
                out.push(c);
            },
            Escaper::Url => {
                if c == ')' {
                    out.push('\\');
                }
                out.push(c);
            },
        }
        assert(out@ =~= old(out)@ + self.escaped_char(c));
    }

    /// The escaped form of `s`.
    pub fn escape(self, s: &str) -> (out: String)
        ensures
            out@ == self.escaped(s@),
    {
        let mut out = String::new();
        for c in it: s.chars()
            invariant
                it.seq() == s@,
                out@ == self.escaped(s@.take(it.index())),
        {
            let ghost i = it.index();
            self.push_escaped(&mut out, c);
            proof {
                assert(s@.take(i + 1).drop_last() =~= s@.take(i));
                assert(s@.take(i + 1).last() == c);
            }
        }
        assert(s@.take(s@.len() as int) =~= s@);
        out
    }
}

/// Prose as it stands in the output of a dialect.
pub open spec fn escaped_text(text: Seq<char>, mode: ParseMode) -> Seq<char> {
    match mode {
        ParseMode::MarkdownV2 => Escaper::Markdown.escaped(text),
        ParseMode::Html => Escaper::Html.escaped(text),
    }
}

/// Escapes prose for a dialect.
pub fn escape_text(text: &str, mode: ParseMode) -> (out: String)
    ensures
        out@ == escaped_text(text@, mode),
{
    match mode {
        ParseMode::MarkdownV2 => Escaper::Markdown.escape(text),
        ParseMode::Html => escape_html(text),
    }
}

/// Escapes prose for the Markdown dialect.
pub fn escape_markdown(text: &str) -> (out: String)
    ensures
        out@ == Escaper::Markdown.escaped(text@),
{
    Escaper::Markdown.escape(text)
}

/// Escapes inline code for the Markdown dialect.
pub fn escape_code(code: &str) -> (out: String)
    ensures
        out@ == Escaper::Code.escaped(code@),
{
    Escaper::Code.escape(code)
}

/// Escapes a code block for the Markdown dialect.
pub fn escape_pre(code: &str) -> (out: String)
    ensures
        out@ == Escaper::Code.escaped(code@),
{
    Escaper::Code.escape(code)
}

/// Escapes the target of a link for the Markdown dialect.
pub fn escape_url(url: &str) -> (out: String)
    ensures
        out@ == Escaper::Url.escaped(url@),
{
    Escaper::Url.escape(url)
}

/// Escapes text or an attribute value for the HTML dialect.
pub fn escape_html(text: &str) -> (out: String)
    ensures
        out@ == Escaper::Html.escaped(text@),
{
    Escaper::Html.escape(text)
}

} // verus!
