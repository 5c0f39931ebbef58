//! The layout of tables in fixed-width text: column widths, padding, and
//! the four styles.

use crate::ast::{
    cells_view, elements_view, rows_view, CellAlign, Element, ElementView, TableCell,
    TableCellView, TableNode, TableRow, TableStyle, TableView,
};
use crate::error::{Error, ErrorView};
use crate::text::{byte_len, push_repeated, repeated};
use vstd::prelude::*;
use vstd::string::StrSliceExecFns;
use vstd::utf8::encode_utf8;

verus! {

/// The literal text of a node inside a cell: that of a text node, and nothing
/// for any other node.
pub open spec fn plain_text(element: ElementView) -> Seq<char> {
    match element {
        ElementView::Text(text) => text,
        _ => Seq::empty(),
    }
}

/// The text that a cell shows: the text nodes of its content, one after another.
pub open spec fn cell_text(content: Seq<ElementView>) -> Seq<char>
    decreases content.len(),
{
    if content.len() == 0 {
        Seq::empty()
    } else {
        cell_text(content.drop_last()) + plain_text(content.last())
    }
}

/// The width that a cell asks of its column: the bytes of its text nodes in UTF-8.
pub open spec fn cell_width(content: Seq<ElementView>) -> nat
    decreases content.len(),
{
    if content.len() == 0 {
        0
    } else {
        cell_width(content.drop_last()) + encode_utf8(plain_text(content.last())).len()
    }
}

/// The header and the data rows of a table, the header first.
pub open spec fn all_rows(table: TableView) -> Seq<Seq<TableCellView>> {
    seq![table.headers] + table.rows
}

/// The number of columns: that of the longest row.
pub open spec fn column_count(rows: Seq<Seq<TableCellView>>) -> nat
    decreases rows.len(),
{
    if rows.len() == 0 {
        0
    } else {
        let rest = column_count(rows.drop_last());
        if rows.last().len() > rest {
            rows.last().len()
        } else {
            rest
        }
    }
}

/// The width of column `col`: the widest cell that any row has there. A row
/// that ends before the column adds nothing.
pub open spec fn column_width(rows: Seq<Seq<TableCellView>>, col: int) -> nat
    decreases rows.len(),
{
    if rows.len() == 0 {
        0
    } else {
        let rest = column_width(rows.drop_last(), col);
        let row = rows.last();
        if 0 <= col < row.len() && cell_width(row[col].content) > rest {
            cell_width(row[col].content)
        } else {
            rest
        }
    }
}

/// The widths of all columns.
pub open spec fn column_widths(rows: Seq<Seq<TableCellView>>) -> Seq<nat> {
    Seq::new(column_count(rows), |col: int| column_width(rows, col))
}

/// Whether the width of every cell can be held in a `usize`.
pub open spec fn measurable(rows: Seq<Seq<TableCellView>>) -> bool {
    forall|r: int, c: int|
        0 <= r < rows.len() && 0 <= c < rows[r].len() ==> cell_width(
            #[trigger] rows[r][c].content,
        ) <= usize::MAX
}

/// `text` in a field of `width` characters, with spaces on the side that
/// `align` leaves free; at the centre the odd space goes to the right. A text
/// that is longer than the field stays as it is.
pub open spec fn padded(text: Seq<char>, align: CellAlign, width: nat) -> Seq<char> {
    if text.len() >= width {
        text
    } else {
        let pad = (width - text.len()) as nat;
        match align {
            CellAlign::Left => text + repeated(' ', pad),
            CellAlign::Right => repeated(' ', pad) + text,
            CellAlign::Center => repeated(' ', pad / 2) + text + repeated(
                ' ',
                (pad - pad / 2) as nat,
            ),
        }
    }
}

/// The first `count` cells of a row, each between two spaces and followed by
/// `separator`. A cell beyond the last column is left out.
pub open spec fn row_cells(
    cells: Seq<TableCellView>,
    widths: Seq<nat>,
    separator: Seq<char>,
    count: nat,
) -> Seq<char>
    decreases count,
{
    if count == 0 || count > cells.len() {
        Seq::empty()
    } else {
        let i = count - 1;
        let before = row_cells(cells, widths, separator, i as nat);
        if i < widths.len() {
            before + seq![' '] + padded(cell_text(cells[i].content), cells[i].align, widths[i])
                + seq![' '] + separator
        } else {
            before
        }
    }
}

/// One row of a table: `separator`, then the cells.
pub open spec fn row_text(cells: Seq<TableCellView>, widths: Seq<nat>, separator: Seq<char>) -> Seq<
    char,
> {
    separator + row_cells(cells, widths, separator, cells.len())
}

/// The first `count` segments of a horizontal line: each is `fill` over the
/// width of its column and `margin` more, and `joint` stands between two.
pub open spec fn line_segments(
    widths: Seq<nat>,
    fill: char,
    margin: nat,
    joint: Seq<char>,
    count: nat,
) -> Seq<char>
    decreases count,
{
    if count == 0 || count > widths.len() {
        Seq::empty()
    } else if count == 1 {
        repeated(fill, widths[0] + margin)
    } else {
        line_segments(widths, fill, margin, joint, (count - 1) as nat) + joint + repeated(
            fill,
            widths[count - 1] + margin,
        )
    }
}

/// A horizontal line over all columns.
pub open spec fn line(widths: Seq<nat>, fill: char, margin: nat, joint: Seq<char>) -> Seq<char> {
    line_segments(widths, fill, margin, joint, widths.len())
}

/// The first `count` data rows, each followed by a line feed.
pub open spec fn body_rows(
    rows: Seq<Seq<TableCellView>>,
    widths: Seq<nat>,
    separator: Seq<char>,
    count: nat,
) -> Seq<char>
    decreases count,
{
    if count == 0 || count > rows.len() {
        Seq::empty()
    } else {
        body_rows(rows, widths, separator, (count - 1) as nat) + row_text(
            rows[count - 1],
            widths,
            separator,
        ) + seq!['\n']
    }
}

/// A table with borders: a top line, the header, a line under it, the data
/// rows and a bottom line, inside a code fence.
pub open spec fn bordered(
    table: TableView,
    widths: Seq<nat>,
    fill: char,
    bar: Seq<char>,
    top: (Seq<char>, Seq<char>, Seq<char>),
    middle: (Seq<char>, Seq<char>, Seq<char>),
    bottom: (Seq<char>, Seq<char>, Seq<char>),
) -> Seq<char> {
    "```\n"@ + top.0 + line(widths, fill, 2, top.1) + top.2 + seq!['\n'] + row_text(
        table.headers,
        widths,
        bar,
    ) + seq!['\n'] + middle.0 + line(widths, fill, 2, middle.1) + middle.2 + seq!['\n']
        + body_rows(table.rows, widths, bar, table.rows.len()) + bottom.0 + line(
        widths,
        fill,
        2,
        bottom.1,
    ) + bottom.2 + "\n```"@
}

/// The text of a table whose columns have the given widths.
pub open spec fn table_text(table: TableView, widths: Seq<nat>) -> Seq<char> {
    match table.style {
        TableStyle::Unicode => bordered(
            table,
            widths,
            '─',
            "│"@,
            ("┌"@, "┬"@, "┐"@),
            ("├"@, "┼"@, "┤"@),
            ("└"@, "┴"@, "┘"@),
        ),
        TableStyle::Ascii => bordered(
            table,
            widths,
            '-',
            "|"@,
            ("+"@, "+"@, "+"@),
            ("+"@, "+"@, "+"@),
            ("+"@, "+"@, "+"@),
        ),
        TableStyle::Minimal => "```\n"@ + row_text(table.headers, widths, " "@) + seq!['\n']
            + line(widths, '─', 0, " "@) + seq!['\n'] + body_rows(
            table.rows,
            widths,
            " "@,
            table.rows.len(),
        ) + "```"@,
        TableStyle::Compact => "```\n"@ + row_text(table.headers, widths, " "@) + seq!['\n']
            + body_rows(table.rows, widths, " "@, table.rows.len()) + "```"@,
    }
}

/// What a table renders to: its text with the columns as wide as their widest
/// cell, or a refusal where a cell is wider than a `usize` can say.
pub open spec fn table_outcome(table: TableView) -> Result<Seq<char>, ErrorView> {
    if measurable(all_rows(table)) {
        Ok(table_text(table, column_widths(all_rows(table))))
    } else {
        Err(ErrorView::InvalidTable("cell content too long"@))
    }
}

/// Widths as numbers without bound.
pub open spec fn naturals(widths: Seq<usize>) -> Seq<nat> {
    Seq::new(widths.len(), |i: int| widths[i] as nat)
}

/// The width that the content of a cell asks for, unless it is beyond `usize`.
fn content_width(content: &Vec<Element>) -> (r: Option<usize>)
    ensures
        match r {
            Some(width) => width == cell_width(elements_view(content@)),
            None => cell_width(elements_view(content@)) > usize::MAX,
        },
{
    let ghost views = elements_view(content@);
    let mut width: usize = 0;
    let mut i: usize = 0;
    while i < content.len()
        invariant
            views == elements_view(content@),
            i <= content.len(),
            width == cell_width(views.take(i as int)),
        decreases content.len() - i,
    {
        proof {
            assert(views.take(i + 1).drop_last() =~= views.take(i as int));
            assert(views.take(i + 1).last() == content@[i as int].view());
            lemma_cell_width_grows(views, i + 1);
        }
        let len = match &content[i] {
            Element::Text(t) => byte_len(t.as_str()),
            _ => 0,
        };
        width = match width.checked_add(len) {
            Some(sum) => sum,
            None => {
                return None;
            },
        };
        i += 1;
    }
    assert(views.take(content.len() as int) =~= views);
    Some(width)
}

/// The width of a cell's first nodes is no more than that of the whole cell.
pub proof fn lemma_cell_width_grows(content: Seq<ElementView>, count: int)
    requires
        0 <= count <= content.len(),
    ensures
        cell_width(content.take(count)) <= cell_width(content),
    decreases content.len(),
{
    if count == content.len() {
        assert(content.take(count) =~= content);
    } else {
        lemma_cell_width_grows(content.drop_last(), count);
        assert(content.drop_last().take(count) =~= content.take(count));
    }
}

/// The text that the content of a cell shows.
fn content_text(content: &Vec<Element>) -> (text: String)
    ensures
        text@ == cell_text(elements_view(content@)),
{
    let ghost views = elements_view(content@);
    let mut text = String::new();
    let mut i: usize = 0;
    while i < content.len()
        invariant
            views == elements_view(content@),
            i <= content.len(),
            text@ == cell_text(views.take(i as int)),
        decreases content.len() - i,
    {
        proof {
            assert(views.take(i + 1).drop_last() =~= views.take(i as int));
            assert(views.take(i + 1).last() == content@[i as int].view());
        }
        let ghost before = text@;
        match &content[i] {
            Element::Text(t) => {
                text.push_str(t.as_str());
            },
            _ => {
                assert(before + Seq::<char>::empty() =~= before);
            },
        }
        i += 1;
    }
    assert(views.take(content.len() as int) =~= views);
    text
}

/// Row `index` of the header and the data rows, the header first.
fn row_at(table: &TableNode, index: usize) -> (cells: &Vec<TableCell>)
    requires
        index <= table.rows@.len(),
    ensures
        cells_view(cells@) == all_rows(table.view())[index as int],
{
    if index == 0 {
        &table.headers
    } else {
        &table.rows[index - 1].cells
    }
}

/// The larger of two numbers.
pub open spec fn larger(a: nat, b: nat) -> nat {
    if b > a {
        b
    } else {
        a
    }
}

/// What a row asks of column `col`: the width of its cell there, if it has one.
pub open spec fn asked(row: Seq<TableCellView>, col: int) -> nat {
    if 0 <= col < row.len() {
        cell_width(row[col].content)
    } else {
        0
    }
}

/// Widens the columns to what the cells of one row ask for.
fn widen(widths: &mut Vec<usize>, cells: &Vec<TableCell>) -> (r: Result<(), Error>)
    requires
        cells@.len() <= old(widths)@.len(),
    ensures
        final(widths)@.len() == old(widths)@.len(),
        match r {
            Ok(_) => {
                &&& forall|q: int|
                    0 <= q < cells@.len() ==> cell_width(#[trigger] cells_view(cells@)[q].content)
                        <= usize::MAX
                &&& forall|j: int|
                    0 <= j < old(widths)@.len() ==> #[trigger] final(widths)@[j] == larger(
                        old(widths)@[j] as nat,
                        asked(cells_view(cells@), j),
                    )
            },
            Err(e) => {
                &&& e@ == ErrorView::InvalidTable("cell content too long"@)
                &&& exists|q: int|
                    0 <= q < cells@.len() && cell_width(#[trigger] cells_view(cells@)[q].content)
                        > usize::MAX
            },
        },
{
    let ghost views = cells_view(cells@);
    let mut i: usize = 0;
    while i < cells.len()
        invariant
            views == cells_view(cells@),
            i <= cells@.len() <= widths@.len(),
            widths@.len() == old(widths)@.len(),
            forall|q: int| 0 <= q < i ==> cell_width(#[trigger] views[q].content) <= usize::MAX,
            forall|j: int|
                0 <= j < i ==> #[trigger] widths@[j] == larger(
                    old(widths)@[j] as nat,
                    asked(views, j),
                ),
            forall|j: int| i <= j < widths@.len() ==> #[trigger] widths@[j] == old(widths)@[j],
        decreases cells.len() - i,
    {
        assert(views[i as int] == cells@[i as int].view());
        let width = match content_width(&cells[i].content) {
            Some(width) => width,
            None => {
                assert(cell_width(views[i as int].content) > usize::MAX);
                return Err(Error::InvalidTable("cell content too long".to_owned()));
            },
        };
        if width > widths[i] {
            widths[i] = width;
        }
        i += 1;
    }
    Ok(())
}

/// A row is no longer than the number of columns.
pub proof fn lemma_column_count_bound(rows: Seq<Seq<TableCellView>>, r: int)
    requires
        0 <= r < rows.len(),
    ensures
        rows[r].len() <= column_count(rows),
    decreases rows.len(),
{
    if r < rows.len() - 1 {
        lemma_column_count_bound(rows.drop_last(), r);
    }
}

/// The width of every column: the widest cell in it, over the header and all
/// rows. A row that ends before a column adds nothing to it.
pub fn calculate_column_widths(table: &TableNode) -> (r: Result<Vec<usize>, Error>)
    ensures
        match r {
            Ok(widths) => measurable(all_rows(table.view())) && naturals(widths@)
                == column_widths(all_rows(table.view())),
            Err(e) => !measurable(all_rows(table.view())) && e@ == ErrorView::InvalidTable(
                "cell content too long"@,
            ),
        },
{
    let ghost rows = all_rows(table.view());
    let total = table.rows.len();
    assert(rows.len() == total + 1);
    assert(rows[0] == cells_view(table.headers@));
    assert forall|k: int| 0 <= k < total implies #[trigger] rows[k + 1] == cells_view(
        table.rows@[k].cells@,
    ) by {
        assert(rows_view(table.rows@)[k] == table.rows@[k].view());
    }
    let mut col_count: usize = table.headers.len();
    proof {
        assert(rows.take(1).drop_last() =~= rows.take(0));
        assert(rows.take(1).last() == rows[0]);
        assert(column_count(rows.take(0)) == 0);
        assert(column_count(rows.take(1)) == rows[0].len());
    }
    let mut k: usize = 0;
    while k < total
        invariant
            rows == all_rows(table.view()),
            total == table.rows@.len(),
            rows.len() == total + 1,
            k <= total,
            forall|k: int| 0 <= k < total ==> #[trigger] rows[k + 1] == cells_view(
                table.rows@[k].cells@,
            ),
            col_count == column_count(rows.take(k + 1)),
        decreases total - k,
    {
        proof {
            assert(rows.take(k + 2).drop_last() =~= rows.take(k + 1));
            assert(rows.take(k + 2).last() == rows[k + 1]);
        }
        if table.rows[k].cells.len() > col_count {
            col_count = table.rows[k].cells.len();
        }
        k += 1;
    }
    assert(rows.take(rows.len() as int) =~= rows);
    let mut widths: Vec<usize> = Vec::new();
    let mut c: usize = 0;
    while c < col_count
        invariant
            c <= col_count,
            widths@.len() == c,
            forall|j: int| 0 <= j < c ==> widths@[j] == 0,
        decreases col_count - c,
    {
        widths.push(0);
        c += 1;
    }
    proof {
        lemma_column_count_bound(rows, 0);
        assert(rows.take(1).drop_last() =~= rows.take(0));
        assert(rows.take(1).last() == rows[0]);
    }
    match widen(&mut widths, &table.headers) {
        Ok(()) => {
            assert forall|j: int| 0 <= j < col_count implies #[trigger] widths@[j]
                == column_width(rows.take(1), j) by {
                assert(column_width(rows.take(0), j) == 0);
            }
        },
        Err(e) => {
            let ghost q = choose|q: int|
                0 <= q < rows[0].len() && cell_width(#[trigger] rows[0][q].content) > usize::MAX;
            assert(cell_width(rows[0][q].content) > usize::MAX);
            return Err(e);
        },
    }
    let mut k: usize = 0;
    while k < total
        invariant
            rows == all_rows(table.view()),
            total == table.rows@.len(),
            rows.len() == total + 1,
            k <= total,
            forall|k: int| 0 <= k < total ==> #[trigger] rows[k + 1] == cells_view(
                table.rows@[k].cells@,
            ),
            col_count == column_count(rows),
            widths@.len() == col_count,
            forall|j: int|
                0 <= j < col_count ==> #[trigger] widths@[j] == column_width(rows.take(k + 1), j),
            forall|p: int, q: int|
                0 <= p < k + 1 && 0 <= q < rows[p].len() ==> cell_width(
                    #[trigger] rows[p][q].content,
                ) <= usize::MAX,
        decreases total - k,
    {
        proof {
            assert(rows.take(k + 2).drop_last() =~= rows.take(k + 1));
            assert(rows.take(k + 2).last() == rows[k + 1]);
            lemma_column_count_bound(rows, k + 1);
        }
        match widen(&mut widths, &table.rows[k].cells) {
            Ok(()) => {},
            Err(e) => {
                let ghost q = choose|q: int|
                    0 <= q < rows[k + 1].len() && cell_width(#[trigger] rows[k + 1][q].content)
                        > usize::MAX;
                assert(cell_width(rows[k + 1][q].content) > usize::MAX);
                return Err(e);
            },
        }
        k += 1;
    }
    assert(rows.take(rows.len() as int) =~= rows);
    assert(naturals(widths@) =~= column_widths(rows));
    Ok(widths)
}

/// Appends `text` in a field of `width` characters.
fn push_padded(out: &mut String, text: &str, align: CellAlign, width: usize)
    ensures
        final(out)@ == old(out)@ + padded(text@, align, width as nat),
{
    let len = text.unicode_len();
    if len >= width {
        out.push_str(text);
    } else {
        let pad = width - len;
        match align {
            CellAlign::Left => {
                out.push_str(text);
                push_repeated(out, ' ', pad);
            },
            CellAlign::Right => {
                push_repeated(out, ' ', pad);
                out.push_str(text);
            },
            CellAlign::Center => {
                push_repeated(out, ' ', pad / 2);
                out.push_str(text);
                push_repeated(out, ' ', pad - pad / 2);
            },
        }
        assert(out@ =~= old(out)@ + padded(text@, align, width as nat));
    }
}

/// Appends one row: `separator`, then each cell between two spaces and
/// followed by `separator`.
pub fn format_table_row(
    out: &mut String,
    cells: &Vec<TableCell>,
    col_widths: &Vec<usize>,
    separator: &str,
)
    ensures
        final(out)@ == old(out)@ + row_text(
            cells_view(cells@),
            naturals(col_widths@),
            separator@,
        ),
{
    let ghost views = cells_view(cells@);
    let ghost widths = naturals(col_widths@);
    out.push_str(separator);
    assert(out@ =~= old(out)@ + separator@ + row_cells(views, widths, separator@, 0));
    let mut i: usize = 0;
    while i < cells.len()
        invariant
            views == cells_view(cells@),
            widths == naturals(col_widths@),
            i <= cells@.len(),
            out@ == old(out)@ + separator@ + row_cells(views, widths, separator@, i as nat),
        decreases cells.len() - i,
    {
        let ghost before = out@;
        if i < col_widths.len() {
            let content = content_text(&cells[i].content);
            out.push(' ');
            push_padded(out, content.as_str(), cells[i].align, col_widths[i]);
            out.push(' ');
            out.push_str(separator);
            assert(views[i as int] == cells@[i as int].view());
            assert(out@ =~= before + seq![' '] + padded(
                cell_text(views[i as int].content),
                views[i as int].align,
                widths[i as int],
            ) + seq![' '] + separator@);
        }
        i += 1;
        assert(out@ =~= old(out)@ + separator@ + row_cells(views, widths, separator@, i as nat));
    }
    assert(out@ =~= old(out)@ + row_text(views, widths, separator@));
}

/// Appends a horizontal line over all columns.
fn push_line(out: &mut String, col_widths: &Vec<usize>, fill: char, margin: usize, joint: &str)
    ensures
        final(out)@ == old(out)@ + line(naturals(col_widths@), fill, margin as nat, joint@),
{
    let ghost widths = naturals(col_widths@);
    let mut i: usize = 0;
    assert(out@ =~= old(out)@ + line_segments(widths, fill, margin as nat, joint@, 0));
    while i < col_widths.len()
        invariant
            widths == naturals(col_widths@),
            i <= col_widths@.len(),
            out@ == old(out)@ + line_segments(widths, fill, margin as nat, joint@, i as nat),
        decreases col_widths.len() - i,
    {
        let ghost before = out@;
        if i > 0 {
            out.push_str(joint);
        }
        push_repeated(out, fill, col_widths[i]);
        push_repeated(out, fill, margin);
        assert(repeated(fill, col_widths@[i as int] as nat) + repeated(fill, margin as nat)
            =~= repeated(fill, widths[i as int] + margin as nat));
        i += 1;
        assert(out@ =~= old(out)@ + line_segments(widths, fill, margin as nat, joint@, i as nat));
    }
}

/// Appends the data rows, each followed by a line feed.
fn push_body(out: &mut String, rows: &Vec<TableRow>, col_widths: &Vec<usize>, separator: &str)
    ensures
        final(out)@ == old(out)@ + body_rows(
            rows_view(rows@),
            naturals(col_widths@),
            separator@,
            rows@.len(),
        ),
{
    let ghost views = rows_view(rows@);
    let ghost widths = naturals(col_widths@);
    let mut i: usize = 0;
    assert(out@ =~= old(out)@ + body_rows(views, widths, separator@, 0));
    while i < rows.len()
        invariant
            views == rows_view(rows@),
            widths == naturals(col_widths@),
            i <= rows@.len(),
            out@ == old(out)@ + body_rows(views, widths, separator@, i as nat),
        decreases rows.len() - i,
    {
        let ghost before = out@;
        format_table_row(out, &rows[i].cells, col_widths, separator);
        out.push('\n');
        assert(views[i as int] == cells_view(rows@[i as int].cells@));
        i += 1;
        assert(out@ =~= old(out)@ + body_rows(views, widths, separator@, i as nat));
    }
}

/// Appends a table with borders.
fn push_bordered(
    out: &mut String,
    table: &TableNode,
    col_widths: &Vec<usize>,
    fill: char,
    bar: &str,
    top: (&str, &str, &str),
    middle: (&str, &str, &str),
    bottom: (&str, &str, &str),
)
    ensures
        final(out)@ == old(out)@ + bordered(
            table.view(),
            naturals(col_widths@),
            fill,
            bar@,
            (top.0@, top.1@, top.2@),
            (middle.0@, middle.1@, middle.2@),
            (bottom.0@, bottom.1@, bottom.2@),
        ),
{
    out.push_str("```\n");
    out.push_str(top.0);
    push_line(out, col_widths, fill, 2, top.1);
    out.push_str(top.2);
    out.push('\n');
    format_table_row(out, &table.headers, col_widths, bar);
    out.push('\n');
    out.push_str(middle.0);
    push_line(out, col_widths, fill, 2, middle.1);
    out.push_str(middle.2);
    out.push('\n');
    push_body(out, &table.rows, col_widths, bar);
    out.push_str(bottom.0);
    push_line(out, col_widths, fill, 2, bottom.1);
    out.push_str(bottom.2);
    out.push_str("\n```");
    assert(out@ =~= old(out)@ + bordered(
        table.view(),
        naturals(col_widths@),
        fill,
        bar@,
        (top.0@, top.1@, top.2@),
        (middle.0@, middle.1@, middle.2@),
        (bottom.0@, bottom.1@, bottom.2@),
    ));
}

/// Appends a table with box-drawing borders.
fn generate_unicode_table(out: &mut String, table: &TableNode, col_widths: &Vec<usize>)
    requires
        table.style == TableStyle::Unicode,
    ensures
        final(out)@ == old(out)@ + table_text(table.view(), naturals(col_widths@)),
{
    push_bordered(
        out,
        table,
        col_widths,
        '─',
        "│",
        ("┌", "┬", "┐"),
        ("├", "┼", "┤"),
        ("└", "┴", "┘"),
    );
}

/// Appends a table with borders of `+`, `-` and `|`.
fn generate_ascii_table(out: &mut String, table: &TableNode, col_widths: &Vec<usize>)
    requires
        table.style == TableStyle::Ascii,
    ensures
        final(out)@ == old(out)@ + table_text(table.view(), naturals(col_widths@)),
{
    push_bordered(
        out,
        table,
        col_widths,
        '-',
        "|",
        ("+", "+", "+"),
        ("+", "+", "+"),
        ("+", "+", "+"),
    );
}

/// Appends a table without borders, with one line under the header.
fn generate_minimal_table(out: &mut String, table: &TableNode, col_widths: &Vec<usize>)
    requires
        table.style == TableStyle::Minimal,
    ensures
        final(out)@ == old(out)@ + table_text(table.view(), naturals(col_widths@)),
{
    out.push_str("```\n");
    format_table_row(out, &table.headers, col_widths, " ");
    out.push('\n');
    push_line(out, col_widths, '─', 0, " ");
    out.push('\n');
    push_body(out, &table.rows, col_widths, " ");
    out.push_str("```");
    assert(out@ =~= old(out)@ + table_text(table.view(), naturals(col_widths@)));
}

/// Appends a table without borders or lines.
fn generate_compact_table(out: &mut String, table: &TableNode, col_widths: &Vec<usize>)
    requires
        table.style == TableStyle::Compact,
    ensures
        final(out)@ == old(out)@ + table_text(table.view(), naturals(col_widths@)),
{
    out.push_str("```\n");
    format_table_row(out, &table.headers, col_widths, " ");
    out.push('\n');
    push_body(out, &table.rows, col_widths, " ");
    out.push_str("```");
    assert(out@ =~= old(out)@ + table_text(table.view(), naturals(col_widths@)));
}

/// Appends a table in its own style, with every column as wide as its widest
/// cell.
pub fn generate_table(out: &mut String, table: &TableNode) -> (r: Result<(), Error>)
    ensures
        match table_outcome(table.view()) {
            Ok(text) => r is Ok && final(out)@ == old(out)@ + text,
            Err(e) => r is Err && r->Err_0@ == e && final(out)@ == old(out)@,
        },
{
    let col_widths = match calculate_column_widths(table) {
        Ok(widths) => widths,
        Err(e) => {
            return Err(e);
        },
    };
    match table.style {
        TableStyle::Unicode => generate_unicode_table(out, table, &col_widths),
        TableStyle::Ascii => generate_ascii_table(out, table, &col_widths),
        TableStyle::Minimal => generate_minimal_table(out, table, &col_widths),
        TableStyle::Compact => generate_compact_table(out, table, &col_widths),
    }
    Ok(())
}

} // verus!
