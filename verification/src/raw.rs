//! What the adapter reads of a package: a flat stream of paragraphs and
//! tables, holding only the fields that classification looks at.

use vstd::prelude::*;

verus! {

/// One piece of a run.
#[derive(Debug, PartialEq, Eq)]
pub enum Piece {
    Text(String),
    /// Anything but text.
    Other,
}

/// The mathematical value of a [`Piece`].
pub enum PieceModel {
    Text(Seq<char>),
    Other,
}

/// One child of a paragraph.
#[derive(Debug, PartialEq, Eq)]
pub enum Inline {
    /// A run, with its pieces in order.
    Run(Vec<Piece>),
    /// A child that is not a run.
    NotRun,
}

/// The mathematical value of an [`Inline`].
pub enum InlineModel {
    Run(Seq<PieceModel>),
    NotRun,
}

/// The numbering reference of a paragraph. Either part may be missing in a
/// package written by another tool.
#[derive(Clone, Copy, Debug, PartialEq, Eq, Structural)]
pub struct Numbering {
    pub id: Option<usize>,
    pub level: Option<usize>,
}

/// A paragraph as read.
#[derive(Debug, PartialEq, Eq)]
pub struct RawParagraph {
    pub numbering: Option<Numbering>,
    pub style: Option<String>,
    pub children: Vec<Inline>,
}

/// The mathematical value of a [`RawParagraph`].
pub struct ParagraphModel {
    pub numbering: Option<Numbering>,
    pub style: Option<Seq<char>>,
    pub children: Seq<InlineModel>,
}

/// One piece of a table cell.
#[derive(Debug, PartialEq, Eq)]
pub enum CellContent {
    Paragraph(RawParagraph),
    /// Anything but a paragraph.
    Other,
}

/// The mathematical value of a [`CellContent`].
pub enum CellContentModel {
    Paragraph(ParagraphModel),
    Other,
}

/// A table as read: rows of cells, each cell a sequence of pieces.
#[derive(Debug, PartialEq, Eq)]
pub struct RawTable {
    pub rows: Vec<Vec<Vec<CellContent>>>,
}

/// The mathematical value of a [`RawTable`].
pub type TableModel = Seq<Seq<Seq<CellContentModel>>>;

/// One child of a package's body.
#[derive(Debug, PartialEq, Eq)]
pub enum RawBlock {
    Paragraph(RawParagraph),
    Table(RawTable),
    /// Anything but a paragraph or a table.
    Other,
}

/// The mathematical value of a [`RawBlock`].
pub enum BlockModel {
    Paragraph(ParagraphModel),
    Table(TableModel),
    Other,
}

impl View for Piece {
    type V = PieceModel;

    open spec fn view(&self) -> PieceModel {
        match self {
            Piece::Text(t) => PieceModel::Text(t@),
            Piece::Other => PieceModel::Other,
        }
    }
}

/// The values of a run's pieces.
pub open spec fn pieces_view(pieces: Seq<Piece>) -> Seq<PieceModel> {
    Seq::new(pieces.len(), |i: int| pieces[i]@)
}

impl View for Inline {
    type V = InlineModel;

    open spec fn view(&self) -> InlineModel {
        match self {
            Inline::Run(pieces) => InlineModel::Run(pieces_view(pieces@)),
            Inline::NotRun => InlineModel::NotRun,
        }
    }
}

/// The values of a paragraph's children.
pub open spec fn inlines_view(children: Seq<Inline>) -> Seq<InlineModel> {
    Seq::new(children.len(), |i: int| children[i]@)
}

impl View for RawParagraph {
    type V = ParagraphModel;

    open spec fn view(&self) -> ParagraphModel {
        ParagraphModel {
            numbering: self.numbering,
            style: match self.style {
                Some(s) => Some(s@),
                None => None,
            },
            children: inlines_view(self.children@),
        }
    }
}

impl View for CellContent {
    type V = CellContentModel;

    open spec fn view(&self) -> CellContentModel {
        match self {
            CellContent::Paragraph(p) => CellContentModel::Paragraph(p@),
            CellContent::Other => CellContentModel::Other,
        }
    }
}

/// The values of a cell's pieces.
pub open spec fn cell_view(cell: Seq<CellContent>) -> Seq<CellContentModel> {
    Seq::new(cell.len(), |k: int| cell[k]@)
}

/// The values of a row's cells.
pub open spec fn row_view(row: Seq<Vec<CellContent>>) -> Seq<Seq<CellContentModel>> {
    Seq::new(row.len(), |c: int| cell_view(row[c]@))
}

/// The values of a table's rows.
pub open spec fn rows_view(rows: Seq<Vec<Vec<CellContent>>>) -> TableModel {
    Seq::new(rows.len(), |r: int| row_view(rows[r]@))
}

impl View for RawTable {
    type V = TableModel;

    open spec fn view(&self) -> TableModel {
        rows_view(self.rows@)
    }
}

impl View for RawBlock {
    type V = BlockModel;

    open spec fn view(&self) -> BlockModel {
        match self {
            RawBlock::Paragraph(p) => BlockModel::Paragraph(p@),
            RawBlock::Table(t) => BlockModel::Table(t@),
            RawBlock::Other => BlockModel::Other,
        }
    }
}

/// The values of a body's children.
pub open spec fn blocks_view(blocks: Seq<RawBlock>) -> Seq<BlockModel> {
    Seq::new(blocks.len(), |i: int| blocks[i]@)
}

} // verus!
