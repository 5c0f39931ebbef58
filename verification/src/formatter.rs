//! Named renderers for custom nodes, and the formatters that come with the
//! library.

use crate::error::{Error, ErrorView};
use crate::escape::{escape_html, escape_markdown, Escaper};
use crate::generator::ParseMode;
use crate::text::{byte_len, chars_of, decimal, push_decimal, push_repeated, repeated};
use vstd::prelude::*;
use vstd::utf8::encode_utf8;

verus! {

/// The first match of a pattern in a text: the part of the text that matches,
/// or nothing where there is no match or the pattern does not compile.
pub uninterp spec fn regex_first_match(pattern: Seq<char>, text: Seq<char>) -> Option<Seq<char>>;

/// Compiles `pattern` with `regex::Regex::new` and searches `text` with
/// `Regex::find`; hands out the text of the match (`Match::as_str`). The
/// outcome depends on the pattern and the text alone and is named by
/// [`regex_first_match`].
#[verifier::external_body]
fn first_match(pattern: &str, text: &str) -> (r: Option<String>)
    ensures
        optional_text(r) == regex_first_match(pattern@, text@),
{
    match regex::Regex::new(pattern) {
        Ok(re) => match re.find(text) {
            Some(found) => Some(found.as_str().to_string()),
            None => None,
        },
        Err(_) => None,
    }
}

/// A date written as year, month and day with `-` between them, rewritten as
/// day, month and year with `.` between them; nothing where the text is no
/// such date.
pub uninterp spec fn reformatted_date(value: Seq<char>) -> Option<Seq<char>>;

/// Reads `value` with `chrono::NaiveDate::parse_from_str` by the format
/// `%Y-%m-%d` and writes the date with `NaiveDate::format` by `%d.%m.%Y`.
/// The outcome depends on the text alone and is named by [`reformatted_date`].
#[verifier::external_body]
fn reformat_date(value: &str) -> (r: Option<String>)
    ensures
        optional_text(r) == reformatted_date(value@),
{
    match chrono::NaiveDate::parse_from_str(value, "%Y-%m-%d") {
        Ok(date) => Some(date.format("%d.%m.%Y").to_string()),
        Err(_) => None,
    }
}

/// The view of a string that may be missing.
pub open spec fn optional_text(r: Option<String>) -> Option<Seq<char>> {
    match r {
        Some(s) => Some(s@),
        None => None,
    }
}

/// The view of what a formatter renders.
pub open spec fn format_view(r: Result<String, Error>) -> Result<Seq<char>, ErrorView> {
    match r {
        Ok(s) => Ok(s@),
        Err(e) => Err(e@),
    }
}

/// The view of what a formatter recognizes.
pub open spec fn recognized_view(r: Option<(String, usize)>) -> Option<(Seq<char>, usize)> {
    match r {
        Some((s, len)) => Some((s@, len)),
        None => None,
    }
}

/// A named renderer for custom nodes.
///
/// What a formatter renders and recognizes depends on its arguments alone:
/// the three spec functions say what, and an implementation states each of
/// them. Left as they are, they stand for values that nothing is known of.
pub trait CustomFormatter: Send + Sync {
    /// The name that custom nodes use for this formatter.
    open spec fn name_spec(&self) -> Seq<char> {
        arbitrary()
    }

    /// What `value` renders to in the dialect `mode`.
    open spec fn format_spec(&self, value: Seq<char>, mode: ParseMode) -> Result<
        Seq<char>,
        ErrorView,
    > {
        arbitrary()
    }

    /// The value at the start of `input`, with its length in bytes, if one is there.
    open spec fn parse_spec(&self, input: Seq<char>) -> Option<(Seq<char>, usize)> {
        arbitrary()
    }

    fn name(&self) -> (name: &str)
        ensures
            name@ == self.name_spec(),
    ;

    fn format(&self, value: &str, mode: ParseMode) -> (r: Result<String, Error>)
        ensures
            format_view(r) == self.format_spec(value@, mode),
    ;

    fn parse(&self, input: &str) -> (r: Option<(String, usize)>)
        ensures
            recognized_view(r) == self.parse_spec(input@),
    ;
}

/// `text` as inline code of a dialect, escaped as prose.
pub open spec fn code_span(text: Seq<char>, mode: ParseMode) -> Seq<char> {
    match mode {
        ParseMode::MarkdownV2 => "`"@ + Escaper::Markdown.escaped(text) + "`"@,
        ParseMode::Html => "<code>"@ + Escaper::Html.escaped(text) + "</code>"@,
    }
}

/// Writes `text` as inline code of a dialect.
pub fn render_code_span(text: &str, mode: ParseMode) -> (out: String)
    ensures
        out@ == code_span(text@, mode),
{
    let mut out = String::new();
    match mode {
        ParseMode::MarkdownV2 => {
            out.push_str("`");
            out.push_str(escape_markdown(text).as_str());
            out.push_str("`");
        },
        ParseMode::Html => {
            out.push_str("<code>");
            out.push_str(escape_html(text).as_str());
            out.push_str("</code>");
        },
    }
    assert(out@ =~= code_span(text@, mode));
    out
}

/// What the first match of `pattern` in `input` makes a formatter recognize:
/// the match, and its length in bytes.
pub open spec fn recognized(pattern: Seq<char>, input: Seq<char>) -> Option<(Seq<char>, usize)> {
    match regex_first_match(pattern, input) {
        Some(found) => Some((found, encode_utf8(found).len() as usize)),
        None => None,
    }
}

/// Looks for `pattern` in `input`.
pub fn recognize(pattern: &str, input: &str) -> (r: Option<(String, usize)>)
    ensures
        recognized_view(r) == recognized(pattern@, input@),
{
    match first_match(pattern, input) {
        Some(found) => {
            let len = byte_len(found.as_str());
            Some((found, len))
        },
        None => None,
    }
}

/// Telephone numbers, shown as inline code.
pub struct PhoneFormatter;

impl CustomFormatter for PhoneFormatter {
    open spec fn name_spec(&self) -> Seq<char> {
        "phone"@
    }

    open spec fn format_spec(&self, value: Seq<char>, mode: ParseMode) -> Result<
        Seq<char>,
        ErrorView,
    > {
        Ok(code_span(value, mode))
    }

    open spec fn parse_spec(&self, input: Seq<char>) -> Option<(Seq<char>, usize)> {
        recognized(r"^\+?[\d\s\-\(\)]+"@, input)
    }

    fn name(&self) -> (name: &str) {
        "phone"
    }

    fn format(&self, value: &str, mode: ParseMode) -> (r: Result<String, Error>) {
        Ok(render_code_span(value, mode))
    }

    fn parse(&self, input: &str) -> (r: Option<(String, usize)>) {
        recognize(r"^\+?[\d\s\-\(\)]+", input)
    }
}

/// Dates, shown as inline code with day, month and year in that order.
pub struct DateFormatter;

impl CustomFormatter for DateFormatter {
    open spec fn name_spec(&self) -> Seq<char> {
        "date"@
    }

    open spec fn format_spec(&self, value: Seq<char>, mode: ParseMode) -> Result<
        Seq<char>,
        ErrorView,
    > {
        match reformatted_date(value) {
            Some(date) => Ok(code_span(date, mode)),
            None => Ok(code_span(value, mode)),
        }
    }

    open spec fn parse_spec(&self, input: Seq<char>) -> Option<(Seq<char>, usize)> {
        recognized(r"^\d{4}-\d{2}-\d{2}"@, input)
    }

    fn name(&self) -> (name: &str) {
        "date"
    }

    fn format(&self, value: &str, mode: ParseMode) -> (r: Result<String, Error>) {
        match reformat_date(value) {
            Some(date) => Ok(render_code_span(date.as_str(), mode)),
            None => Ok(render_code_span(value, mode)),
        }
    }

    fn parse(&self, input: &str) -> (r: Option<(String, usize)>) {
        recognize(r"^\d{4}-\d{2}-\d{2}", input)
    }
}

/// Times of day, shown as inline code.
pub struct TimeFormatter;

impl CustomFormatter for TimeFormatter {
    open spec fn name_spec(&self) -> Seq<char> {
        "time"@
    }

    open spec fn format_spec(&self, value: Seq<char>, mode: ParseMode) -> Result<
        Seq<char>,
        ErrorView,
    > {
        Ok(code_span(value, mode))
    }

    open spec fn parse_spec(&self, input: Seq<char>) -> Option<(Seq<char>, usize)> {
        recognized(r"^\d{1,2}:\d{2}(:\d{2})?"@, input)
    }

    fn name(&self) -> (name: &str) {
        "time"
    }

    fn format(&self, value: &str, mode: ParseMode) -> (r: Result<String, Error>) {
        Ok(render_code_span(value, mode))
    }

    fn parse(&self, input: &str) -> (r: Option<(String, usize)>) {
        recognize(r"^\d{1,2}:\d{2}(:\d{2})?", input)
    }
}

/// An address as a link that opens a mail to it.
pub open spec fn mail_link(value: Seq<char>, mode: ParseMode) -> Seq<char> {
    match mode {
        ParseMode::MarkdownV2 => "[✉️ "@ + Escaper::Markdown.escaped(value) + "](mailto:"@ + value
            + ")"@,
        ParseMode::Html => "<a href=\"mailto:"@ + value + "\">"@ + Escaper::Html.escaped(value)
            + "</a>"@,
    }
}

/// Mail addresses, shown as links.
pub struct EmailFormatter;

impl CustomFormatter for EmailFormatter {
    open spec fn name_spec(&self) -> Seq<char> {
        "email"@
    }

    open spec fn format_spec(&self, value: Seq<char>, mode: ParseMode) -> Result<
        Seq<char>,
        ErrorView,
    > {
        Ok(mail_link(value, mode))
    }

    open spec fn parse_spec(&self, input: Seq<char>) -> Option<(Seq<char>, usize)> {
        recognized(r"^[a-zA-Z0-9._%+-]+@[a-zA-Z0-9.-]+\.[a-zA-Z]{2,}"@, input)
    }

    fn name(&self) -> (name: &str) {
        "email"
    }

    fn format(&self, value: &str, mode: ParseMode) -> (r: Result<String, Error>) {
        let mut out = String::new();
        match mode {
            ParseMode::MarkdownV2 => {
                out.push_str("[✉️ ");
                out.push_str(escape_markdown(value).as_str());
                out.push_str("](mailto:");
                out.push_str(value);
                out.push_str(")");
            },
            ParseMode::Html => {
                out.push_str("<a href=\"mailto:");
                out.push_str(value);
                out.push_str("\">");
                out.push_str(escape_html(value).as_str());
                out.push_str("</a>");
            },
        }
        assert(out@ =~= mail_link(value@, mode));
        Ok(out)
    }

    fn parse(&self, input: &str) -> (r: Option<(String, usize)>) {
        recognize(r"^[a-zA-Z0-9._%+-]+@[a-zA-Z0-9.-]+\.[a-zA-Z]{2,}", input)
    }
}

/// Amounts of money: the part of the formatter that works on the amount once
/// it is written out with two decimals.
pub struct CurrencyFormatter {
    symbol: String,
    code: String,
}

impl CurrencyFormatter {
    /// The sign that follows an amount.
    pub closed spec fn symbol(&self) -> Seq<char> {
        self.symbol@
    }

    /// The code of the currency, which is the name of the formatter.
    pub closed spec fn code(&self) -> Seq<char> {
        self.code@
    }

    pub fn new(symbol: String, code: String) -> (formatter: Self)
        ensures
            formatter.symbol() == symbol@,
            formatter.code() == code@,
    {
        Self { symbol, code }
    }

    /// The name of the formatter: the code of the currency.
    pub fn name(&self) -> (name: &str)
        ensures
            name@ == self.code(),
    {
        self.code.as_str()
    }

    /// An amount, written out with two decimals, as inline code with the sign
    /// of the currency behind it.
    pub fn format_amount(&self, amount: &str, mode: ParseMode) -> (out: String)
        ensures
            out@ == code_span(amount@ + " "@ + self.symbol(), mode),
    {
        let mut text = String::new();
        text.push_str(amount);
        text.push_str(" ");
        text.push_str(self.symbol.as_str());
        assert(text@ =~= amount@ + " "@ + self.symbol());
        render_code_span(text.as_str(), mode)
    }

    /// The number at the start of `input`, if one is there.
    pub fn parse(&self, input: &str) -> (r: Option<(String, usize)>)
        ensures
            recognized_view(r) == recognized(r"^[\d,\.]+"@, input@),
    {
        recognize(r"^[\d,\.]+", input)
    }
}

/// Percentages: the part of the formatter that works on the number once it is
/// written out with one decimal.
pub struct PercentFormatter;

impl PercentFormatter {
    /// The name of the formatter.
    pub fn name(&self) -> (name: &str)
        ensures
            name@ == "percent"@,
    {
        "percent"
    }

    /// A number, written out with one decimal, as inline code with a percent
    /// sign behind it.
    pub fn format_number(&self, number: &str, mode: ParseMode) -> (out: String)
        ensures
            out@ == code_span(number@ + "%"@, mode),
    {
        let mut text = String::new();
        text.push_str(number);
        text.push_str("%");
        assert(text@ =~= number@ + "%"@);
        render_code_span(text.as_str(), mode)
    }

    /// The number at the start of `input`, if one is there.
    pub fn parse(&self, input: &str) -> (r: Option<(String, usize)>)
        ensures
            recognized_view(r) == recognized(r"^[\d\.]+"@, input@),
    {
        recognize(r"^[\d\.]+", input)
    }
}

/// The value of a decimal digit.
pub open spec fn digit_value(c: char) -> Option<nat> {
    if c == '0' {
        Some(0)
    } else if c == '1' {
        Some(1)
    } else if c == '2' {
        Some(2)
    } else if c == '3' {
        Some(3)
    } else if c == '4' {
        Some(4)
    } else if c == '5' {
        Some(5)
    } else if c == '6' {
        Some(6)
    } else if c == '7' {
        Some(7)
    } else if c == '8' {
        Some(8)
    } else if c == '9' {
        Some(9)
    } else {
        None
    }
}

/// Whether `s` holds decimal digits only.
pub open spec fn all_digits(s: Seq<char>) -> bool {
    forall|i: int| 0 <= i < s.len() ==> digit_value(#[trigger] s[i]) is Some
}

/// The number that a run of decimal digits stands for.
pub open spec fn digits_value(s: Seq<char>) -> nat
    decreases s.len(),
{
    if s.len() == 0 {
        0
    } else {
        match digit_value(s.last()) {
            Some(d) => digits_value(s.drop_last()) * 10 + d,
            None => 0,
        }
    }
}

/// The number up to 255 that `s` stands for: an optional `+`, then one
/// decimal digit or more, leading zeros allowed. Anything else is no number.
pub open spec fn small_number(s: Seq<char>) -> Option<u8> {
    let digits = if s.len() > 0 && s[0] == '+' {
        s.skip(1)
    } else {
        s
    };
    if digits.len() > 0 && all_digits(digits) && digits_value(digits) <= 255 {
        Some(digits_value(digits) as u8)
    } else {
        None
    }
}

/// A longer run of digits stands for no smaller a number.
pub proof fn lemma_digits_value_grows(s: Seq<char>, count: int)
    requires
        0 <= count <= s.len(),
    ensures
        digits_value(s.take(count)) <= digits_value(s) || !all_digits(s),
    decreases s.len(),
{
    if count == s.len() {
        assert(s.take(count) =~= s);
    } else if all_digits(s) {
        assert(digit_value(s[s.len() - 1]) is Some);
        assert(all_digits(s.drop_last())) by {
            assert forall|i: int| 0 <= i < s.drop_last().len() implies digit_value(
                #[trigger] s.drop_last()[i],
            ) is Some by {
                assert(s.drop_last()[i] == s[i]);
            }
        }
        lemma_digits_value_grows(s.drop_last(), count);
        assert(s.drop_last().take(count) =~= s.take(count));
    }
}

fn digit_of(c: char) -> (r: Option<u8>)
    ensures
        match r {
            Some(d) => digit_value(c) == Some(d as nat),
            None => digit_value(c) is None,
        },
{
    if c == '0' {
        Some(0)
    } else if c == '1' {
        Some(1)
    } else if c == '2' {
        Some(2)
    } else if c == '3' {
        Some(3)
    } else if c == '4' {
        Some(4)
    } else if c == '5' {
        Some(5)
    } else if c == '6' {
        Some(6)
    } else if c == '7' {
        Some(7)
    } else if c == '8' {
        Some(8)
    } else if c == '9' {
        Some(9)
    } else {
        None
    }
}

/// Reads a number up to 255.
#[verifier::loop_isolation(false)]
pub fn parse_small_number(s: &str) -> (r: Option<u8>)
    ensures
        r == small_number(s@),
{
    let chars = chars_of(s);
    let start: usize = if chars.len() > 0 && chars[0] == '+' {
        1
    } else {
        0
    };
    let ghost digits = s@.skip(start as int);
    assert(s@.skip(0) =~= s@);
    if chars.len() == start {
        return None;
    }
    let mut value: u16 = 0;
    let mut i: usize = start;
    while i < chars.len()
        invariant
            chars@ == s@,
            digits == s@.skip(start as int),
            start <= i <= chars@.len(),
            value <= 255,
            value == digits_value(digits.take(i - start)),
            forall|j: int| 0 <= j < i - start ==> digit_value(#[trigger] digits[j]) is Some,
        decreases chars.len() - i,
    {
        proof {
            assert(digits.take(i - start + 1).drop_last() =~= digits.take(i - start));
            assert(digits.take(i - start + 1).last() == chars@[i as int]);
            assert(digits[i - start] == chars@[i as int]);
        }
        let d = match digit_of(chars[i]) {
            Some(d) => d,
            None => {
                assert(digit_value(digits[i - start]) is None);
                return None;
            },
        };
        let ghost next = digits_value(digits.take(i - start + 1));
        assert(next == value * 10 + d);
        if value * 10 + d as u16 > 255 {
            proof {
                lemma_digits_value_grows(digits, i - start + 1);
            }
            assert(digits_value(digits) > 255 || !all_digits(digits));
            return None;
        }
        value = value * 10 + d as u16;
        i += 1;
    }
    assert(digits.take(digits.len() as int) =~= digits);
    Some(value as u8)
}

/// A bar of ten cells for a share of a hundred, and the share in figures.
pub open spec fn progress_text(progress: nat) -> Seq<char> {
    let filled = (progress + 5) / 10;
    repeated('▓', filled) + repeated('░', (10 - filled) as nat) + " "@ + decimal(progress)
        + "%"@
}

/// The share that a value stands for: the number in it, at most 100, and 0
/// where it holds no number up to 255.
pub open spec fn progress_of(value: Seq<char>) -> nat {
    match small_number(value) {
        Some(n) => if n > 100 {
            100
        } else {
            n as nat
        },
        None => 0,
    }
}

/// Progress, shown as a bar in inline code.
pub struct ProgressFormatter;

impl CustomFormatter for ProgressFormatter {
    open spec fn name_spec(&self) -> Seq<char> {
        "progress"@
    }

    open spec fn format_spec(&self, value: Seq<char>, mode: ParseMode) -> Result<
        Seq<char>,
        ErrorView,
    > {
        Ok(code_span(progress_text(progress_of(value)), mode))
    }

    open spec fn parse_spec(&self, input: Seq<char>) -> Option<(Seq<char>, usize)> {
        recognized(r"^\d{1,3}"@, input)
    }

    fn name(&self) -> (name: &str) {
        "progress"
    }

    fn format(&self, value: &str, mode: ParseMode) -> (r: Result<String, Error>) {
        let parsed: u8 = match parse_small_number(value) {
            Some(n) => n,
            None => 0,
        };
        let progress: u8 = if parsed > 100 {
            100
        } else {
            parsed
        };
        let filled: u8 = (progress + 5) / 10;
        let mut text = String::new();
        push_repeated(&mut text, '▓', filled as usize);
        push_repeated(&mut text, '░', (10 - filled) as usize);
        text.push_str(" ");
        push_decimal(&mut text, progress as u64);
        text.push_str("%");
        assert(text@ =~= progress_text(progress_of(value@)));
        Ok(render_code_span(text.as_str(), mode))
    }

    fn parse(&self, input: &str) -> (r: Option<(String, usize)>) {
        recognize(r"^\d{1,3}", input)
    }
}

} // verus!
