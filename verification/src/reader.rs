//! Reading a package: the calls that hand out what a package of `docx_rs`
//! holds, and the verified walk that lifts it into the adapter's own
//! stream of blocks.

use vstd::prelude::*;
use crate::package::{
    body_of, paragraph_of, seen_body, seen_cell, seen_child, seen_paragraph, seen_row, seen_table,
    table_content, HeldBlock, HeldContent,
};
use crate::raw::{
    blocks_view, cell_view, inlines_view, row_view, rows_view, CellContent, Inline, Numbering,
    Piece, RawBlock, RawParagraph, RawTable,
};

verus! {

/// A package in memory, as `docx_rs` holds it.
#[verifier::external_type_specification]
#[verifier::external_body]
pub struct ExDocx(docx_rs::Docx);

/// A paragraph of a package, as `docx_rs` holds it.
#[verifier::external_type_specification]
#[verifier::external_body]
pub struct ExParagraph(docx_rs::Paragraph);

/// A table of a package, as `docx_rs` holds it.
#[verifier::external_type_specification]
#[verifier::external_body]
pub struct ExTable(docx_rs::Table);

/// The reason `docx_rs` gives for not reading a package.
#[verifier::external_type_specification]
#[verifier::external_body]
pub struct ExReaderError(docx_rs::ReaderError);

/// The length of `Docx::document.children`.
#[verifier::external_body]
fn body_len(package: &docx_rs::Docx) -> (len: usize)
    ensures
        len == body_of(*package).len(),
{
    package.document.children.len()
}

/// The child at `index` of `Docx::document.children`, where it is the
/// variant `DocumentChild::Paragraph`.
#[verifier::external_body]
fn body_paragraph(
    package: &docx_rs::Docx,
    index: usize,
) -> (paragraph: Option<&docx_rs::Paragraph>)
    requires
        index < body_of(*package).len(),
    ensures
        match paragraph {
            Some(p) => body_of(*package)[index as int] == HeldBlock::Paragraph(paragraph_of(*p)),
            None => !(body_of(*package)[index as int] is Paragraph),
        },
{
    match &package.document.children[index] {
        docx_rs::DocumentChild::Paragraph(p) => Some(p.as_ref()),
        _ => None,
    }
}

/// The child at `index` of `Docx::document.children`, where it is the
/// variant `DocumentChild::Table`.
#[verifier::external_body]
fn body_table(package: &docx_rs::Docx, index: usize) -> (table: Option<&docx_rs::Table>)
    requires
        index < body_of(*package).len(),
    ensures
        match table {
            Some(t) => body_of(*package)[index as int] == HeldBlock::Table(table_content(*t)),
            None => !(body_of(*package)[index as int] is Table),
        },
{
    match &package.document.children[index] {
        docx_rs::DocumentChild::Table(t) => Some(t.as_ref()),
        _ => None,
    }
}

/// The fields `id` and `level` of `Paragraph::property.numbering_property`.
#[verifier::external_body]
fn paragraph_numbering(paragraph: &docx_rs::Paragraph) -> (numbering: Option<Numbering>)
    ensures
        numbering == paragraph_of(*paragraph).numbering,
{
    paragraph.property.numbering_property.as_ref().map(
        |n| Numbering { id: n.id.as_ref().map(|i| i.id), level: n.level.as_ref().map(|l| l.val) },
    )
}

/// The field `val` of `Paragraph::property.style`.
#[verifier::external_body]
fn paragraph_style(paragraph: &docx_rs::Paragraph) -> (style: Option<String>)
    ensures
        paragraph_of(*paragraph).style == match style {
            Some(s) => Some(s@),
            None => None,
        },
{
    paragraph.property.style.as_ref().map(|s| s.val.clone())
}

/// The length of `Paragraph::children`.
#[verifier::external_body]
fn paragraph_len(paragraph: &docx_rs::Paragraph) -> (len: usize)
    ensures
        len == paragraph_of(*paragraph).children.len(),
{
    paragraph.children.len()
}

/// The child at `index` of `Paragraph::children`: of a
/// `ParagraphChild::Run` all of `Run::children` in order, each told apart
/// by variant, a `RunChild::Text` with its text.
#[verifier::external_body]
fn paragraph_child(paragraph: &docx_rs::Paragraph, index: usize) -> (child: Inline)
    requires
        index < paragraph_of(*paragraph).children.len(),
    ensures
        child@ == seen_child(paragraph_of(*paragraph).children[index as int]),
{
    match &paragraph.children[index] {
        docx_rs::ParagraphChild::Run(run) => Inline::Run(
            run.children.iter().map(
                |piece|
                    match piece {
                        docx_rs::RunChild::Text(t) => Piece::Text(t.text.clone()),
                        _ => Piece::Other,
                    },
            ).collect(),
        ),
        _ => Inline::NotRun,
    }
}

/// The length of `Table::rows`.
#[verifier::external_body]
fn table_len(table: &docx_rs::Table) -> (len: usize)
    ensures
        len == table_content(*table).len(),
{
    table.rows.len()
}

/// The length of `TableRow::cells` in the row at `row`.
#[verifier::external_body]
fn row_len(table: &docx_rs::Table, row: usize) -> (len: usize)
    requires
        row < table_content(*table).len(),
    ensures
        len == table_content(*table)[row as int].len(),
{
    let docx_rs::TableChild::TableRow(r) = &table.rows[row];
    r.cells.len()
}

/// The length of `TableCell::children` in the cell at `row` and `cell`.
#[verifier::external_body]
fn cell_len(table: &docx_rs::Table, row: usize, cell: usize) -> (len: usize)
    requires
        row < table_content(*table).len(),
        cell < table_content(*table)[row as int].len(),
    ensures
        len == table_content(*table)[row as int][cell as int].len(),
{
    let docx_rs::TableChild::TableRow(r) = &table.rows[row];
    let docx_rs::TableRowChild::TableCell(c) = &r.cells[cell];
    c.children.len()
}

/// The piece at `index` of `TableCell::children` in the cell at `row` and
/// `cell`, where it is the variant `TableCellContent::Paragraph`.
#[verifier::external_body]
fn cell_paragraph(
    table: &docx_rs::Table,
    row: usize,
    cell: usize,
    index: usize,
) -> (paragraph: Option<&docx_rs::Paragraph>)
    requires
        row < table_content(*table).len(),
        cell < table_content(*table)[row as int].len(),
        index < table_content(*table)[row as int][cell as int].len(),
    ensures
        table_content(*table)[row as int][cell as int][index as int] == match paragraph {
            Some(p) => HeldContent::Paragraph(paragraph_of(*p)),
            None => HeldContent::Other,
        },
{
    let docx_rs::TableChild::TableRow(r) = &table.rows[row];
    let docx_rs::TableRowChild::TableCell(c) = &r.cells[cell];
    match &c.children[index] {
        docx_rs::TableCellContent::Paragraph(p) => Some(p.as_ref()),
        _ => None,
    }
}


/// Lifts a paragraph of the package into the adapter's own type.
fn lift_paragraph(paragraph: &docx_rs::Paragraph) -> (raw: RawParagraph)
    ensures
        raw@ == seen_paragraph(paragraph_of(*paragraph)),
{
    let numbering = paragraph_numbering(paragraph);
    let style = paragraph_style(paragraph);
    let len = paragraph_len(paragraph);
    let ghost wanted = seen_paragraph(paragraph_of(*paragraph)).children;
    let mut children: Vec<Inline> = Vec::new();
    let mut i: usize = 0;
    while i < len
        invariant
            i <= len,
            len == wanted.len(),
            wanted == seen_paragraph(paragraph_of(*paragraph)).children,
            len == paragraph_of(*paragraph).children.len(),
            children@.len() == i,
            forall|j: int| 0 <= j < i ==> (#[trigger] children@[j])@ == wanted[j],
        decreases len - i,
    {
        children.push(paragraph_child(paragraph, i));
        i += 1;
    }
    assert(inlines_view(children@) =~= wanted);
    RawParagraph { numbering, style, children }
}

/// Lifts the pieces of one cell of a table.
fn lift_cell(table: &docx_rs::Table, row: usize, cell: usize) -> (pieces: Vec<CellContent>)
    requires
        row < table_content(*table).len(),
        cell < table_content(*table)[row as int].len(),
    ensures
        cell_view(pieces@) == seen_cell(table_content(*table)[row as int][cell as int]),
{
    let ghost wanted = seen_cell(table_content(*table)[row as int][cell as int]);
    let len = cell_len(table, row, cell);
    let mut pieces: Vec<CellContent> = Vec::new();
    let mut k: usize = 0;
    while k < len
        invariant
            k <= len,
            len == wanted.len(),
            row < table_content(*table).len(),
            cell < table_content(*table)[row as int].len(),
            wanted == seen_cell(table_content(*table)[row as int][cell as int]),
            len == table_content(*table)[row as int][cell as int].len(),
            pieces@.len() == k,
            forall|j: int| 0 <= j < k ==> (#[trigger] pieces@[j])@ == wanted[j],
        decreases len - k,
    {
        let piece = match cell_paragraph(table, row, cell, k) {
            Some(p) => CellContent::Paragraph(lift_paragraph(p)),
            None => CellContent::Other,
        };
        pieces.push(piece);
        k += 1;
    }
    assert(cell_view(pieces@) =~= wanted);
    pieces
}

/// Lifts the cells of one row of a table.
fn lift_row(table: &docx_rs::Table, row: usize) -> (cells: Vec<Vec<CellContent>>)
    requires
        row < table_content(*table).len(),
    ensures
        row_view(cells@) == seen_row(table_content(*table)[row as int]),
{
    let ghost wanted = seen_row(table_content(*table)[row as int]);
    let len = row_len(table, row);
    let mut cells: Vec<Vec<CellContent>> = Vec::new();
    let mut c: usize = 0;
    while c < len
        invariant
            c <= len,
            len == wanted.len(),
            row < table_content(*table).len(),
            wanted == seen_row(table_content(*table)[row as int]),
            len == table_content(*table)[row as int].len(),
            cells@.len() == c,
            forall|j: int| 0 <= j < c ==> cell_view((#[trigger] cells@[j])@) == wanted[j],
        decreases len - c,
    {
        cells.push(lift_cell(table, row, c));
        c += 1;
    }
    assert(row_view(cells@) =~= wanted);
    cells
}

/// Lifts a table of the package into the adapter's own type.
fn lift_table(table: &docx_rs::Table) -> (raw: RawTable)
    ensures
        raw@ == seen_table(table_content(*table)),
{
    let ghost wanted = seen_table(table_content(*table));
    let len = table_len(table);
    let mut rows: Vec<Vec<Vec<CellContent>>> = Vec::new();
    let mut r: usize = 0;
    while r < len
        invariant
            r <= len,
            len == wanted.len(),
            wanted == seen_table(table_content(*table)),
            len == table_content(*table).len(),
            rows@.len() == r,
            forall|j: int| 0 <= j < r ==> row_view((#[trigger] rows@[j])@) == wanted[j],
        decreases len - r,
    {
        rows.push(lift_row(table, r));
        r += 1;
    }
    assert(rows_view(rows@) =~= wanted);
    RawTable { rows }
}

/// Lifts the body of a package into the adapter's stream of blocks: what
/// the reader sees of each child of the body, in order.
pub fn lift_body(package: &docx_rs::Docx) -> (blocks: Vec<RawBlock>)
    ensures
        blocks_view(blocks@) == seen_body(body_of(*package)),
{
    let ghost wanted = seen_body(body_of(*package));
    let len = body_len(package);
    let mut blocks: Vec<RawBlock> = Vec::new();
    let mut i: usize = 0;
    while i < len
        invariant
            i <= len,
            len == wanted.len(),
            wanted == seen_body(body_of(*package)),
            len == body_of(*package).len(),
            blocks@.len() == i,
            forall|j: int| 0 <= j < i ==> (#[trigger] blocks@[j])@ == wanted[j],
        decreases len - i,
    {
        let block = match body_paragraph(package, i) {
            Some(p) => RawBlock::Paragraph(lift_paragraph(p)),
            None => match body_table(package, i) {
                Some(t) => RawBlock::Table(lift_table(t)),
                None => RawBlock::Other,
            },
        };
        blocks.push(block);
        i += 1;
    }
    assert(blocks_view(blocks@) =~= wanted);
    blocks
}

} // verus!
