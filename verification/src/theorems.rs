//! What holds of the library as a whole: facts that relate the lexer, the
//! parser, the generator and the table layout, each proved from their
//! definitions.

use crate::ast::{
    spliced_from, CellAlign, ElementView, ListView, TableCellView, TableView,
};
use crate::error::ErrorView;
use crate::escape::{escaped_text, markdown_reserved, Escaper};
use crate::generator::{
    indented, index_of, lemma_followed_by_assoc, marker, render, render_all, render_from,
    render_item, render_items, render_nested, ParseMode, Registry, Rendered,
};
use crate::parser::{
    at_end, code_from, content_until, document_from, element_at, parse_spec, pre_from, step,
    token_or_none, url_from, Closer,
};
use crate::table::{
    all_rows, cell_text, cell_width, column_count, column_width, column_widths,
    lemma_column_count_bound, line, line_segments, padded, plain_text, row_cells, row_text,
};
use crate::text::{lines, lines_from};
use crate::token::{
    lemma_name_len_bound, lemma_text_len_bound, lemma_token_at_bound, lex, lex_from, reserved,
    text_len, token_at, unread, TokenView,
};
use vstd::prelude::*;
use vstd::utf8::{encode_scalar, encode_utf8};

verus! {

/// Whether a text is free of the characters that the markup notation reserves.
pub open spec fn plain(text: Seq<char>) -> bool {
    forall|i: int| 0 <= i < text.len() ==> !reserved(#[trigger] text[i])
}

/// A run of text in a plain text reaches to the end.
pub proof fn lemma_plain_text_len(text: Seq<char>, pos: int)
    requires
        plain(text),
        0 <= pos <= text.len(),
    ensures
        text_len(text, pos) == text.len() - pos,
    decreases text.len() - pos,
{
    if pos < text.len() {
        assert(!reserved(text[pos]));
        lemma_plain_text_len(text, pos + 1);
    }
}

/// A plain text that is not empty is one text token, and the end of input.
pub proof fn lemma_plain_lex(text: Seq<char>)
    requires
        plain(text),
    ensures
        lex(text) == if text.len() == 0 {
            seq![TokenView::Eof]
        } else {
            seq![TokenView::Text(text), TokenView::Eof]
        },
{
    if text.len() > 0 {
        assert(!reserved(text[0]));
        lemma_plain_text_len(text, 1);
        assert(text.subrange(0, text.len() as int) =~= text);
        assert(token_at(text, 0) == (TokenView::Text(text), text.len()));
        assert(lex_from(text, text.len() as int) == seq![TokenView::Eof]);
        assert(lex_from(text, 0) == seq![TokenView::Text(text)] + lex_from(
            text,
            text.len() as int,
        ));
        assert(seq![TokenView::Text(text)] + seq![TokenView::Eof] =~= seq![
            TokenView::Text(text),
            TokenView::Eof,
        ]);
    }
}

/// A plain text parses to one text node that holds it, and an empty text to
/// no node.
pub proof fn lemma_plain_parse(text: Seq<char>)
    requires
        plain(text),
    ensures
        parse_spec(text) == Ok::<Seq<ElementView>, ErrorView>(
            if text.len() == 0 {
                Seq::empty()
            } else {
                seq![ElementView::Text(text)]
            },
        ),
{
    lemma_plain_lex(text);
    let tokens = lex(text);
    if text.len() == 0 {
        assert(at_end(tokens, 0));
    } else {
        assert(token_or_none(tokens, 0) == Some(TokenView::Text(text)));
        assert(element_at(tokens, 0) == Ok::<(ElementView, int), ErrorView>(
            (ElementView::Text(text), 1),
        ));
        assert(step(0, 1) == 1);
        assert(token_or_none(tokens, 1) == Some(TokenView::Eof));
        assert(at_end(tokens, 1));
        assert(document_from(tokens, 1) == Ok::<Seq<ElementView>, ErrorView>(
            Seq::empty(),
        ));
        assert(seq![ElementView::Text(text)] + Seq::<ElementView>::empty() =~= seq![
            ElementView::Text(text),
        ]);
    }
}

/// Parsing a text without reserved characters and rendering the outcome
/// gives the text back, escaped for the dialect: nothing is lost, added or
/// reordered on the way.
pub proof fn lemma_plain_text_round_trip(text: Seq<char>, mode: ParseMode, formatters: Registry)
    requires
        plain(text),
    ensures
        parse_spec(text) is Ok,
        render_all(parse_spec(text)->Ok_0, mode, formatters) == Rendered::literal(
            escaped_text(text, mode),
        ),
{
    lemma_plain_parse(text);
    let nodes = parse_spec(text)->Ok_0;
    if text.len() == 0 {
        assert(render_from(nodes, 0, mode, formatters) == Rendered::nothing());
        assert(escaped_text(text, mode) =~= Seq::empty());
    } else {
        assert(nodes[0] == ElementView::Text(text));
        assert(render(nodes[0], mode, formatters) == Rendered::literal(escaped_text(text, mode)));
        assert(render_from(nodes, 1, mode, formatters) == Rendered::nothing());
        assert(Rendered::literal(escaped_text(text, mode)).followed_by(Rendered::nothing())
            =~= Rendered::literal(escaped_text(text, mode)));
    }
}

/// A text has no more characters than its UTF-8 encoding has bytes.
pub proof fn lemma_chars_within_bytes(text: Seq<char>)
    ensures
        text.len() <= encode_utf8(text).len(),
    decreases text.len(),
{
    if text.len() > 0 {
        lemma_chars_within_bytes(text.drop_first());
        assert(encode_scalar(text[0] as u32).len() >= 1);
    }
}

/// The text of a cell has no more characters than the width that the cell
/// asks for.
pub proof fn lemma_cell_text_within_width(content: Seq<ElementView>)
    ensures
        cell_text(content).len() <= cell_width(content),
    decreases content.len(),
{
    if content.len() > 0 {
        lemma_cell_text_within_width(content.drop_last());
        lemma_chars_within_bytes(plain_text(content.last()));
    }
}

/// A column is at least as wide as each of its cells asks for.
pub proof fn lemma_column_holds_cell(rows: Seq<Seq<TableCellView>>, r: int, c: int)
    requires
        0 <= r < rows.len(),
        0 <= c < rows[r].len(),
    ensures
        cell_width(rows[r][c].content) <= column_width(rows, c),
    decreases rows.len(),
{
    if r < rows.len() - 1 {
        lemma_column_holds_cell(rows.drop_last(), r, c);
    }
}

/// A text that fits a field fills it exactly.
pub proof fn lemma_padded_len(text: Seq<char>, align: CellAlign, width: nat)
    requires
        text.len() <= width,
    ensures
        padded(text, align, width).len() == width,
{
}

/// The width of the first `count` cells of a row in which every cell fills
/// its column: for each, the column, two spaces and a separator.
pub open spec fn cells_width(widths: Seq<nat>, separator: nat, count: nat) -> nat
    decreases count,
{
    if count == 0 || count > widths.len() {
        0
    } else {
        cells_width(widths, separator, (count - 1) as nat) + widths[count - 1] + 2 + separator
    }
}

/// In a table, every cell is padded to the width of its column: the first
/// cells of a row take the widths of their columns, two spaces and a
/// separator each, whatever they hold.
pub proof fn lemma_row_cells_len(table: TableView, r: int, separator: Seq<char>, count: nat)
    requires
        0 <= r < all_rows(table).len(),
        count <= all_rows(table)[r].len(),
    ensures
        row_cells(
            all_rows(table)[r],
            column_widths(all_rows(table)),
            separator,
            count,
        ).len() == cells_width(column_widths(all_rows(table)), separator.len(), count),
    decreases count,
{
    let rows = all_rows(table);
    let widths = column_widths(rows);
    lemma_column_count_bound(rows, r);
    if count > 0 {
        let i = count - 1;
        lemma_row_cells_len(table, r, separator, i as nat);
        lemma_column_holds_cell(rows, r, i);
        lemma_cell_text_within_width(rows[r][i].content);
        lemma_padded_len(cell_text(rows[r][i].content), rows[r][i].align, widths[i]);
    }
}

/// The header and every data row of a table that have the same number of
/// cells are rendered equally wide, in every style: each cell is padded to
/// the width of its column.
pub proof fn lemma_rows_equally_wide(table: TableView, separator: Seq<char>, a: int, b: int)
    requires
        0 <= a < all_rows(table).len(),
        0 <= b < all_rows(table).len(),
        all_rows(table)[a].len() == all_rows(table)[b].len(),
    ensures
        row_text(all_rows(table)[a], column_widths(all_rows(table)), separator).len() == row_text(
            all_rows(table)[b],
            column_widths(all_rows(table)),
            separator,
        ).len(),
{
    let rows = all_rows(table);
    lemma_row_cells_len(table, a, separator, rows[a].len());
    lemma_row_cells_len(table, b, separator, rows[b].len());
}

/// Whether a text holds no line feed.
pub open spec fn one_line(text: Seq<char>) -> bool {
    forall|i: int| 0 <= i < text.len() ==> #[trigger] text[i] != '\n'
}

/// Reading a text without line feed gathers it as one line.
pub proof fn lemma_lines_from_one_line(text: Seq<char>, pos: int)
    requires
        one_line(text),
        text.len() > 0,
        0 <= pos <= text.len(),
    ensures
        lines_from(text, pos, text.take(pos)) == seq![text],
    decreases text.len() - pos,
{
    if pos < text.len() {
        assert(text[pos] != '\n');
        assert(text.take(pos).push(text[pos]) =~= text.take(pos + 1));
        lemma_lines_from_one_line(text, pos + 1);
    } else {
        assert(text.take(pos) =~= text);
    }
}

/// A text without line feed that is not empty is one line.
pub proof fn lemma_one_line(text: Seq<char>)
    requires
        one_line(text),
        text.len() > 0,
    ensures
        lines(text) == seq![text],
{
    lemma_lines_from_one_line(text, 0);
    assert(text.take(0) =~= Seq::<char>::empty());
}

/// An item with one nested bullet item, whose content renders to one line,
/// gets exactly one more line: a line feed, two spaces, and the nested item
/// with its bullet.
pub proof fn lemma_nested_bullet_item(
    nested: ListView,
    mode: ParseMode,
    formatters: Registry,
)
    requires
        nested.style is Bullet,
        nested.items.len() == 1,
        nested.items[0].nested is None,
        render_all(nested.items[0].content, mode, formatters).failure is None,
        one_line(render_all(nested.items[0].content, mode, formatters).text),
    ensures
        render_nested(Some(nested), mode, formatters) == Rendered::literal(
            "\n"@ + "  "@ + ("• "@ + render_all(nested.items[0].content, mode, formatters).text),
        ),
{
    let content = render_all(nested.items[0].content, mode, formatters);
    let line = "• "@ + content.text;
    assert(marker(nested.style, 0) == "• "@);
    assert(render_nested(nested.items[0].nested, mode, formatters) == Rendered::nothing());
    assert(render_items(nested, 1, mode, formatters) == Rendered::nothing());
    assert(render_item(nested, 0, mode, formatters) =~= Rendered::literal(line));
    assert(render_items(nested, 0, mode, formatters) =~= Rendered::literal(line));
    reveal_strlit("• ");
    assert(one_line(line)) by {
        assert forall|i: int| 0 <= i < line.len() implies #[trigger] line[i] != '\n' by {
            if i >= 2 {
                assert(line[i] == content.text[i - 2]);
            }
        }
    }
    lemma_one_line(line);
    assert(indented(seq![line], 0) =~= Seq::<char>::empty());
    assert(indented(seq![line], 1) =~= "\n"@ + "  "@ + line);
}

/// The tokens of a text end in the end of input, which stands nowhere else.
pub proof fn lemma_eof_last_and_only(input: Seq<char>, pos: int)
    requires
        0 <= pos,
    ensures
        lex_from(input, pos).len() >= 1,
        lex_from(input, pos).last() == TokenView::Eof,
        forall|i: int|
            0 <= i < lex_from(input, pos).len() - 1 ==> #[trigger] lex_from(input, pos)[i]
                != TokenView::Eof,
    decreases input.len() - pos,
{
    if pos < input.len() {
        lemma_token_at_bound(input, pos);
        let (token, width) = token_at(input, pos);
        let rest = lex_from(input, pos + width);
        lemma_eof_last_and_only(input, pos + width);
        let all = lex_from(input, pos);
        assert(all == seq![token] + rest);
        assert(token != TokenView::Eof);
        assert forall|i: int| 0 <= i < all.len() - 1 implies #[trigger] all[i]
            != TokenView::Eof by {
            if i > 0 {
                assert(all[i] == rest[i - 1]);
            }
        }
    }
}

/// The number of characters of the input that a token stands for.
pub open spec fn span(token: TokenView) -> nat {
    match token {
        TokenView::Text(text) => text.len(),
        TokenView::Escape(_) => 2,
        TokenView::Mention(name) | TokenView::Hashtag(name) | TokenView::Command(name) => 1
            + name.len(),
        TokenView::Eof => 0,
        _ => 1,
    }
}

/// The characters that a sequence of tokens stands for, in all.
pub open spec fn spans(tokens: Seq<TokenView>) -> nat
    decreases tokens.len(),
{
    if tokens.len() == 0 {
        0
    } else {
        span(tokens[0]) + spans(tokens.drop_first())
    }
}

/// Every character of the input belongs to exactly one token: the tokens
/// stand for as many characters as the input has.
pub proof fn lemma_tokens_cover_input(input: Seq<char>, pos: int)
    requires
        0 <= pos <= input.len(),
    ensures
        spans(lex_from(input, pos)) == input.len() - pos,
    decreases input.len() - pos,
{
    let all = lex_from(input, pos);
    if pos < input.len() {
        lemma_token_at_bound(input, pos);
        lemma_text_len_bound(input, pos + 1);
        lemma_name_len_bound(input, pos + 1);
        let (token, width) = token_at(input, pos);
        assert(span(token) == width);
        lemma_tokens_cover_input(input, pos + width);
        assert(all.drop_first() =~= lex_from(input, pos + width));
    } else {
        assert(all.drop_first() =~= Seq::<TokenView>::empty());
        assert(spans(all.drop_first()) == 0);
    }
}

/// What takes a URL, inline code or a block takes at least one token.
pub proof fn lemma_runs_move_on(tokens: Seq<TokenView>, pos: int, pending: nat)
    requires
        0 <= pos,
    ensures
        url_from(tokens, pos) matches Ok((_, next)) ==> next > pos,
        code_from(tokens, pos) matches Ok((_, next)) ==> next > pos,
        pre_from(tokens, pos, pending) matches Ok((_, next)) ==> next > pos,
    decreases unread(tokens.len(), pos),
{
    if pos < tokens.len() {
        lemma_runs_move_on(tokens, pos + 1, 0);
        lemma_runs_move_on(tokens, pos + 1, pending + 1);
    }
}

/// A node takes at least one token, and is no group: a document that was
/// parsed is flat.
pub proof fn lemma_element_moves_on(tokens: Seq<TokenView>, pos: int)
    requires
        0 <= pos < tokens.len(),
    ensures
        element_at(tokens, pos) matches Ok((element, next)) ==> next > pos && !(element
            is Group),
    decreases unread(tokens.len(), pos), 1int,
{
    match tokens[pos] {
        TokenView::Star => {
            lemma_content_moves_on(tokens, pos + 1, Closer::SingleStar);
            lemma_content_moves_on(tokens, pos + 2, Closer::DoubleStar);
        },
        TokenView::Underscore => {
            lemma_content_moves_on(tokens, pos + 1, Closer::SingleUnderscore);
            lemma_content_moves_on(tokens, pos + 2, Closer::DoubleUnderscore);
        },
        TokenView::Tilde => {
            lemma_content_moves_on(tokens, pos + 1, Closer::SingleTilde);
            lemma_content_moves_on(tokens, pos + 2, Closer::DoubleTilde);
        },
        TokenView::Backtick => {
            lemma_runs_move_on(tokens, pos + 1, 0);
            lemma_runs_move_on(tokens, pos + 3, 0);
            lemma_runs_move_on(tokens, pos + 4, 0);
            lemma_runs_move_on(tokens, pos + 5, 0);
        },
        TokenView::LeftBracket => {
            lemma_content_moves_on(tokens, pos + 1, Closer::RightBracket);
            match content_until(tokens, pos + 1, Closer::RightBracket) {
                Ok((_, bracket)) => {
                    lemma_runs_move_on(tokens, bracket + 2, 0);
                },
                Err(_) => {},
            }
        },
        _ => {},
    }
}

/// The content of a construct ends no earlier than it starts.
pub proof fn lemma_content_moves_on(tokens: Seq<TokenView>, pos: int, closer: Closer)
    requires
        0 <= pos,
    ensures
        content_until(tokens, pos, closer) matches Ok((_, next)) ==> next >= pos,
    decreases unread(tokens.len(), pos), 2int,
{
    if pos < tokens.len() && !closer.closes(tokens, pos) {
        lemma_element_moves_on(tokens, pos);
        match element_at(tokens, pos) {
            Ok((_, next)) => {
                lemma_content_moves_on(tokens, next, closer);
            },
            Err(_) => {},
        }
    }
}

/// A document that was parsed is flat: none of its nodes is a group.
pub proof fn lemma_document_flat(tokens: Seq<TokenView>, pos: int)
    requires
        0 <= pos,
    ensures
        document_from(tokens, pos) matches Ok(nodes) ==> forall|i: int|
            0 <= i < nodes.len() ==> !(#[trigger] nodes[i] is Group),
    decreases unread(tokens.len(), pos),
{
    if !at_end(tokens, pos) {
        lemma_element_moves_on(tokens, pos);
        match element_at(tokens, pos) {
            Ok((element, next)) => {
                lemma_document_flat(tokens, next);
                match document_from(tokens, next) {
                    Ok(rest) => {
                        let nodes = seq![element] + rest;
                        assert forall|i: int| 0 <= i < nodes.len() implies !(#[trigger] nodes[i]
                            is Group) by {
                            if i > 0 {
                                assert(nodes[i] == rest[i - 1]);
                            }
                        }
                    },
                    Err(_) => {},
                }
            },
            Err(_) => {},
        }
    }
}

/// What nodes render to one after another is what the first of them render
/// to, followed by what the others render to.
pub proof fn lemma_render_concat(
    first: Seq<ElementView>,
    second: Seq<ElementView>,
    start: int,
    mode: ParseMode,
    formatters: Registry,
)
    requires
        0 <= start <= first.len(),
    ensures
        render_from(first + second, start, mode, formatters) == render_from(
            first,
            start,
            mode,
            formatters,
        ).followed_by(render_all(second, mode, formatters)),
    decreases first.len() - start,
{
    let both = first + second;
    if start < first.len() {
        lemma_render_concat(first, second, start + 1, mode, formatters);
        assert(both[start] == first[start]);
        lemma_followed_by_assoc(
            render(first[start], mode, formatters),
            render_from(first, start + 1, mode, formatters),
            render_all(second, mode, formatters),
        );
    } else {
        lemma_render_shift(first, second, 0, mode, formatters);
        assert(Rendered::nothing().followed_by(render_all(second, mode, formatters))
            =~= render_all(second, mode, formatters));
    }
}

/// Nodes render to the same whatever stands before them in their sequence.
pub proof fn lemma_render_shift(
    first: Seq<ElementView>,
    second: Seq<ElementView>,
    start: int,
    mode: ParseMode,
    formatters: Registry,
)
    requires
        0 <= start <= second.len(),
    ensures
        render_from(first + second, first.len() + start, mode, formatters) == render_from(
            second,
            start,
            mode,
            formatters,
        ),
    decreases second.len() - start,
{
    let both = first + second;
    if start < second.len() {
        lemma_render_shift(first, second, start + 1, mode, formatters);
        assert(both[first.len() + start] == second[start]);
    }
}

/// A group renders to what its nodes render to in the place where it stands:
/// it is a splice, not a container.
pub proof fn lemma_group_is_splice(
    before: Seq<ElementView>,
    children: Seq<ElementView>,
    after: Seq<ElementView>,
    mode: ParseMode,
    formatters: Registry,
)
    ensures
        render_all(before + seq![ElementView::Group(children)] + after, mode, formatters)
            == render_all(before + children + after, mode, formatters),
{
    let group = seq![ElementView::Group(children)];
    lemma_render_concat(before + group, after, 0, mode, formatters);
    lemma_render_concat(before, group, 0, mode, formatters);
    lemma_render_concat(before + children, after, 0, mode, formatters);
    lemma_render_concat(before, children, 0, mode, formatters);
    assert(render_from(group, 1, mode, formatters) == Rendered::nothing());
    assert(render(group[0], mode, formatters) == render_all(children, mode, formatters));
    assert(render_all(children, mode, formatters).followed_by(Rendered::nothing())
        =~= render_all(children, mode, formatters));
}

/// A custom node whose formatter is not registered fails with the name of
/// the formatter, and nothing is written for it.
pub proof fn lemma_unregistered_formatter(
    formatter: Seq<char>,
    value: Seq<char>,
    mode: ParseMode,
    formatters: Registry,
)
    requires
        index_of(formatters, formatter, 0) is None,
    ensures
        render(ElementView::Custom { formatter, value }, mode, formatters) == Rendered::failed(
            ErrorView::FormatterNotFound(formatter),
        ),
{
}

/// The content of a construct ends where its closer stands, and nowhere
/// else: where no closer follows, parsing fails.
pub proof fn lemma_content_ends_at_closer(tokens: Seq<TokenView>, pos: int, closer: Closer)
    requires
        0 <= pos,
    ensures
        content_until(tokens, pos, closer) matches Ok((_, next)) ==> pos <= next - closer.width()
            && closer.closes(tokens, next - closer.width()),
    decreases unread(tokens.len(), pos),
{
    if pos < tokens.len() && !closer.closes(tokens, pos) {
        lemma_element_moves_on(tokens, pos);
        match element_at(tokens, pos) {
            Ok((_, next)) => {
                lemma_content_ends_at_closer(tokens, next, closer);
            },
            Err(_) => {},
        }
    }
}

/// A construct whose closer stands nowhere from `pos` on is not parsed.
pub proof fn lemma_unclosed_fails(tokens: Seq<TokenView>, pos: int, closer: Closer)
    requires
        0 <= pos,
        forall|at: int| pos <= at ==> !closer.closes(tokens, at),
    ensures
        content_until(tokens, pos, closer) is Err,
{
    lemma_content_ends_at_closer(tokens, pos, closer);
}

/// Text that was escaped for the HTML dialect holds none of `<`, `>` and `"`.
pub proof fn lemma_html_escaped_holds_no_markup(text: Seq<char>)
    ensures
        forall|i: int|
            0 <= i < Escaper::Html.escaped(text).len() ==> {
                let c = #[trigger] Escaper::Html.escaped(text)[i];
                c != '<' && c != '>' && c != '"'
            },
    decreases text.len(),
{
    reveal_strlit("&amp;");
    reveal_strlit("&lt;");
    reveal_strlit("&gt;");
    reveal_strlit("&quot;");
    if text.len() > 0 {
        lemma_html_escaped_holds_no_markup(text.drop_last());
        let before = Escaper::Html.escaped(text.drop_last());
        let piece = Escaper::Html.escaped_char(text.last());
        let out = Escaper::Html.escaped(text);
        assert(out == before + piece);
        assert forall|i: int| 0 <= i < out.len() implies {
            let c = #[trigger] out[i];
            c != '<' && c != '>' && c != '"'
        } by {
            if i < before.len() {
                assert(out[i] == before[i]);
            } else {
                assert(out[i] == piece[i - before.len()]);
            }
        }
    }
}

/// In text that was escaped for the Markdown dialect, a backslash stands
/// before every reserved character.
pub proof fn lemma_markdown_escaped_guards_reserved(text: Seq<char>)
    ensures
        forall|i: int|
            0 <= i < Escaper::Markdown.escaped(text).len() && markdown_reserved(
                #[trigger] Escaper::Markdown.escaped(text)[i],
            ) ==> i > 0 && Escaper::Markdown.escaped(text)[i - 1] == '\\',
    decreases text.len(),
{
    if text.len() > 0 {
        lemma_markdown_escaped_guards_reserved(text.drop_last());
        let before = Escaper::Markdown.escaped(text.drop_last());
        let piece = Escaper::Markdown.escaped_char(text.last());
        let out = Escaper::Markdown.escaped(text);
        assert(out == before + piece);
        assert forall|i: int| 0 <= i < out.len() && markdown_reserved(#[trigger] out[i]) implies i
            > 0 && out[i - 1] == '\\' by {
            if i < before.len() {
                assert(out[i] == before[i]);
                assert(out[i - 1] == before[i - 1]);
            } else {
                assert(out[i] == piece[i - before.len()]);
                if i > before.len() {
                    assert(out[i - 1] == piece[i - 1 - before.len()]);
                }
            }
        }
    }
}

/// In code that was escaped for the Markdown dialect, a backslash stands
/// before every backtick: the code cannot end the span that holds it.
pub proof fn lemma_code_escaped_guards_backticks(code: Seq<char>)
    ensures
        forall|i: int|
            0 <= i < Escaper::Code.escaped(code).len() && #[trigger] Escaper::Code.escaped(code)[i]
                == '`' ==> i > 0 && Escaper::Code.escaped(code)[i - 1] == '\\',
    decreases code.len(),
{
    if code.len() > 0 {
        lemma_code_escaped_guards_backticks(code.drop_last());
        let before = Escaper::Code.escaped(code.drop_last());
        let piece = Escaper::Code.escaped_char(code.last());
        let out = Escaper::Code.escaped(code);
        assert(out == before + piece);
        assert forall|i: int| 0 <= i < out.len() && #[trigger] out[i] == '`' implies i > 0
            && out[i - 1] == '\\' by {
            if i < before.len() {
                assert(out[i] == before[i]);
                assert(out[i - 1] == before[i - 1]);
            } else {
                assert(out[i] == piece[i - before.len()]);
                if i > before.len() {
                    assert(out[i - 1] == piece[i - 1 - before.len()]);
                }
            }
        }
    }
}

/// Among nodes whose groups were replaced by what they hold, none is a group.
pub proof fn lemma_spliced_holds_no_group(elements: Seq<ElementView>, start: int)
    requires
        0 <= start,
    ensures
        forall|i: int|
            0 <= i < spliced_from(elements, start).len() ==> !(#[trigger] spliced_from(
                elements,
                start,
            )[i] is Group),
    decreases elements, elements.len() - start,
{
    if start < elements.len() {
        let head = match elements[start] {
            ElementView::Group(children) => spliced_from(children, 0),
            element => seq![element],
        };
        let rest = spliced_from(elements, start + 1);
        match elements[start] {
            ElementView::Group(children) => {
                lemma_spliced_holds_no_group(children, 0);
            },
            _ => {},
        }
        lemma_spliced_holds_no_group(elements, start + 1);
        let all = spliced_from(elements, start);
        assert(all == head + rest);
        assert forall|i: int| 0 <= i < all.len() implies !(#[trigger] all[i] is Group) by {
            if i < head.len() {
                assert(all[i] == head[i]);
            } else {
                assert(all[i] == rest[i - head.len()]);
            }
        }
    }
}

/// Replacing groups by what they hold changes nothing in what the nodes
/// render to.
pub proof fn lemma_spliced_renders_alike(
    elements: Seq<ElementView>,
    start: int,
    mode: ParseMode,
    formatters: Registry,
)
    requires
        0 <= start,
    ensures
        render_all(spliced_from(elements, start), mode, formatters) == render_from(
            elements,
            start,
            mode,
            formatters,
        ),
    decreases elements, elements.len() - start,
{
    if start < elements.len() {
        let head = match elements[start] {
            ElementView::Group(children) => spliced_from(children, 0),
            element => seq![element],
        };
        let rest = spliced_from(elements, start + 1);
        lemma_spliced_renders_alike(elements, start + 1, mode, formatters);
        lemma_render_concat(head, rest, 0, mode, formatters);
        match elements[start] {
            ElementView::Group(children) => {
                lemma_spliced_renders_alike(children, 0, mode, formatters);
            },
            element => {
                assert(render_from(head, 1, mode, formatters) == Rendered::nothing());
                assert(render(element, mode, formatters).followed_by(Rendered::nothing())
                    =~= render(element, mode, formatters));
            },
        }
    }
}

/// The first segments of a horizontal line are as wide as the cells under
/// them, where the line has a margin of two for the two spaces of a cell and
/// the joint is as wide as the separator of the cells.
pub proof fn lemma_line_segments_len(
    widths: Seq<nat>,
    fill: char,
    joint: Seq<char>,
    count: nat,
)
    requires
        1 <= count <= widths.len(),
    ensures
        line_segments(widths, fill, 2, joint, count).len() + joint.len() == cells_width(
            widths,
            joint.len(),
            count,
        ),
    decreases count,
{
    if count > 1 {
        lemma_line_segments_len(widths, fill, joint, (count - 1) as nat);
    } else {
        assert(cells_width(widths, joint.len(), 0) == 0);
    }
}

/// In a table with borders, a row that has a cell in every column is as wide
/// as the lines above and below it, corners included.
pub proof fn lemma_border_as_wide_as_rows(
    table: TableView,
    r: int,
    fill: char,
    bar: Seq<char>,
    corners: (Seq<char>, Seq<char>, Seq<char>),
)
    requires
        0 <= r < all_rows(table).len(),
        all_rows(table)[r].len() == column_count(all_rows(table)),
        column_count(all_rows(table)) >= 1,
        bar.len() == 1,
        corners.0.len() == 1,
        corners.1.len() == 1,
        corners.2.len() == 1,
    ensures
        row_text(all_rows(table)[r], column_widths(all_rows(table)), bar).len() == (corners.0
            + line(column_widths(all_rows(table)), fill, 2, corners.1) + corners.2).len(),
{
    let rows = all_rows(table);
    let widths = column_widths(rows);
    lemma_row_cells_len(table, r, bar, rows[r].len());
    lemma_line_segments_len(widths, fill, corners.1, widths.len());
}

} // verus!
