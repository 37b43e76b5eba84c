//! What a package holds in memory, as `docx_rs` keeps it: the model that
//! the contracts of the calls into `docx_rs` speak of, and what the reader
//! of this crate sees of it.

use vstd::prelude::*;
use crate::numbering::LevelModel;
use crate::raw::{
    BlockModel, CellContentModel, InlineModel, Numbering, ParagraphModel, PieceModel, TableModel,
};

verus! {

/// One piece of a run.
pub enum HeldPiece {
    Text(Seq<char>),
    /// A picture: its bytes and its extent in the package's length unit.
    Picture { bytes: Seq<u8>, width: u32, height: u32 },
    Other,
}

/// A run: the size of its text in half points, where it has one, and its
/// pieces in order.
pub struct HeldRun {
    pub half_points: Option<usize>,
    pub pieces: Seq<HeldPiece>,
}

/// A link: its address, and the runs among its children in order.
pub struct HeldLink {
    pub address: Seq<char>,
    pub runs: Seq<HeldRun>,
}

/// One child of a paragraph.
pub enum HeldChild {
    Run(HeldRun),
    Link(HeldLink),
    Other,
}

/// A paragraph: the numbering it refers to, the name of its style, and its
/// children in order.
pub struct HeldParagraph {
    pub numbering: Option<Numbering>,
    pub style: Option<Seq<char>>,
    pub children: Seq<HeldChild>,
}

/// One piece of a table cell.
pub enum HeldContent {
    Paragraph(HeldParagraph),
    Other,
}

/// A table: its rows, each the cells of the row, each the pieces of the
/// cell.
pub type HeldTable = Seq<Seq<Seq<HeldContent>>>;

/// One child of a package's body.
pub enum HeldBlock {
    Paragraph(HeldParagraph),
    Table(HeldTable),
    Other,
}

/// One level of a numbering definition.
pub struct HeldLevel {
    pub level: LevelModel,
    /// The name of the number format.
    pub format: Seq<char>,
    /// The name of the justification.
    pub justification: Seq<char>,
}

/// A numbering definition.
pub struct HeldDefinition {
    pub id: usize,
    pub levels: Seq<HeldLevel>,
}

/// The numberings of a package.
pub struct HeldNumberings {
    pub definitions: Seq<HeldDefinition>,
    /// The numberings that paragraphs refer to, each with the id of its
    /// definition.
    pub references: Seq<(usize, usize)>,
}

/// The children of a package's body, in order.
pub uninterp spec fn body_of(package: docx_rs::Docx) -> Seq<HeldBlock>;

/// The numbering definitions of a package, and the numberings that refer
/// to them, in order.
pub uninterp spec fn numberings_of(package: docx_rs::Docx) -> HeldNumberings;

/// The numbering, style and children of a paragraph.
pub uninterp spec fn paragraph_of(paragraph: docx_rs::Paragraph) -> HeldParagraph;

/// The rows of a table.
pub uninterp spec fn table_content(table: docx_rs::Table) -> HeldTable;

/// The id and the levels of a numbering definition, in order.
pub uninterp spec fn definition_of(numbering: docx_rs::AbstractNumbering) -> HeldDefinition;

/// What `docx_rs` keeps of one character of a value: the five characters
/// that XML reserves and the line feed are replaced by an entity, the
/// carriage return is dropped.
pub open spec fn escaped_char(c: char) -> Seq<char> {
    if c == '&' {
        seq!['&', 'a', 'm', 'p', ';']
    } else if c == '<' {
        seq!['&', 'l', 't', ';']
    } else if c == '>' {
        seq!['&', 'g', 't', ';']
    } else if c == '"' {
        seq!['&', 'q', 'u', 'o', 't', ';']
    } else if c == '\'' {
        seq!['&', 'a', 'p', 'o', 's', ';']
    } else if c == '\n' {
        seq!['&', '#', 'x', 'A', ';']
    } else if c == '\r' {
        Seq::empty()
    } else {
        seq![c]
    }
}

/// What `docx_rs` keeps of the name of a style or of an address.
pub open spec fn escaped(value: Seq<char>) -> Seq<char>
    decreases value.len(),
{
    if value.len() == 0 {
        Seq::empty()
    } else {
        escaped(value.drop_last()) + escaped_char(value.last())
    }
}

/// A text without its line feeds.
pub open spec fn without_line_feeds(text: Seq<char>) -> Seq<char>
    decreases text.len(),
{
    if text.len() == 0 {
        Seq::empty()
    } else if text.last() == '\n' {
        without_line_feeds(text.drop_last())
    } else {
        without_line_feeds(text.drop_last()).push(text.last())
    }
}

/// What `docx_rs` keeps of the text of a run: line feeds are dropped
/// first.
pub open spec fn stored_text(text: Seq<char>) -> Seq<char> {
    escaped(without_line_feeds(text))
}

/// What the reader sees of a piece: its text, where it is text.
pub open spec fn seen_piece(piece: HeldPiece) -> PieceModel {
    match piece {
        HeldPiece::Text(t) => PieceModel::Text(t),
        _ => PieceModel::Other,
    }
}

/// What the reader sees of a run's pieces.
pub open spec fn seen_pieces(pieces: Seq<HeldPiece>) -> Seq<PieceModel> {
    Seq::new(pieces.len(), |i: int| seen_piece(pieces[i]))
}

/// What the reader sees of a child: the pieces of a run.
pub open spec fn seen_child(child: HeldChild) -> InlineModel {
    match child {
        HeldChild::Run(run) => InlineModel::Run(seen_pieces(run.pieces)),
        _ => InlineModel::NotRun,
    }
}

/// What the reader sees of a paragraph.
pub open spec fn seen_paragraph(paragraph: HeldParagraph) -> ParagraphModel {
    ParagraphModel {
        numbering: paragraph.numbering,
        style: paragraph.style,
        children: Seq::new(paragraph.children.len(), |i: int| seen_child(paragraph.children[i])),
    }
}

/// What the reader sees of a piece of a cell.
pub open spec fn seen_content(content: HeldContent) -> CellContentModel {
    match content {
        HeldContent::Paragraph(p) => CellContentModel::Paragraph(seen_paragraph(p)),
        HeldContent::Other => CellContentModel::Other,
    }
}

/// What the reader sees of a cell.
pub open spec fn seen_cell(cell: Seq<HeldContent>) -> Seq<CellContentModel> {
    Seq::new(cell.len(), |k: int| seen_content(cell[k]))
}

/// What the reader sees of a row.
pub open spec fn seen_row(row: Seq<Seq<HeldContent>>) -> Seq<Seq<CellContentModel>> {
    Seq::new(row.len(), |c: int| seen_cell(row[c]))
}

/// What the reader sees of a table.
pub open spec fn seen_table(table: HeldTable) -> TableModel {
    Seq::new(table.len(), |r: int| seen_row(table[r]))
}

/// What the reader sees of a child of the body.
pub open spec fn seen_block(block: HeldBlock) -> BlockModel {
    match block {
        HeldBlock::Paragraph(p) => BlockModel::Paragraph(seen_paragraph(p)),
        HeldBlock::Table(t) => BlockModel::Table(seen_table(t)),
        HeldBlock::Other => BlockModel::Other,
    }
}

/// What the reader sees of a body.
pub open spec fn seen_body(body: Seq<HeldBlock>) -> Seq<BlockModel> {
    Seq::new(body.len(), |i: int| seen_block(body[i]))
}

} // verus!
