//! Writing a package: the calls into `docx_rs` that build paragraphs,
//! tables and numberings, the calls into `image` that read a picture, and
//! the verified code that assembles a package from rendered chunks.

use vstd::prelude::*;
use crate::error::FormatError;
use crate::numbering::{level_spec, shared_level, shared_levels, LevelSpec, LEVEL_COUNT};
use crate::package::{
    body_of, definition_of, escaped, numberings_of, paragraph_of, stored_text, HeldBlock,
    HeldChild, HeldContent, HeldDefinition, HeldLevel, HeldLink, HeldNumberings, HeldParagraph,
    HeldPiece, HeldRun, HeldTable,
};
use crate::raw::Numbering;
use crate::render::{
    cell_rows_view, chunks_view, copy_bytes, Cell, CellModel, Chunk, ChunkModel, Line, LineModel,
    Style, HEADING_NUMBERING, SHARED_NUMBERING,
};
use crate::scale::{fitted, re_size_picture};

verus! {

/// A numbering definition, as `docx_rs` holds it.
#[verifier::external_type_specification]
#[verifier::external_body]
pub struct ExAbstractNumbering(docx_rs::AbstractNumbering);

/// A decoded picture, as `image` holds it.
#[verifier::external_type_specification]
#[verifier::external_body]
pub struct ExDynamicImage(image::DynamicImage);

/// How many of the package's length units make one pixel.
pub const UNITS_PER_PIXEL: u64 = 9525;

/// Calls `image::load_from_memory`. What comes back depends on the
/// decoders that are registered in the process as well as on the bytes,
/// so nothing is said of it.
#[verifier::external_body]
fn load_picture(bytes: &[u8]) -> Option<image::DynamicImage> {
    image::load_from_memory(bytes).ok()
}

/// Calls `GenericImageView::dimensions`: the width and height of a decoded
/// picture in pixels.
#[verifier::external_body]
fn picture_pixels(picture: &image::DynamicImage) -> (u32, u32) {
    image::GenericImageView::dimensions(picture)
}

/// Calls `DynamicImage::write_to` with the PNG format, into a buffer in
/// memory, and returns the buffer where writing reports no error.
#[verifier::external_body]
fn picture_png(picture: &image::DynamicImage) -> Option<Vec<u8>> {
    let mut png = std::io::Cursor::new(Vec::new());
    picture.write_to(&mut png, image::ImageFormat::Png).ok()?;
    Some(png.into_inner())
}

/// Calls `ImageReader::with_guessed_format` and
/// `ImageReader::into_dimensions`: the width and height in pixels that the
/// head of an encoded picture announces, where it can be read.
#[verifier::external_body]
fn encoded_pixels(bytes: &[u8]) -> Option<(u32, u32)> {
    image::ImageReader::new(std::io::Cursor::new(bytes))
        .with_guessed_format()
        .ok()?
        .into_dimensions()
        .ok()
}

/// Calls `Docx::new`: a package whose body and numberings are empty.
#[verifier::external_body]
fn empty_package() -> (package: docx_rs::Docx)
    ensures
        body_of(package) == Seq::<HeldBlock>::empty(),
        numberings_of(package) == (HeldNumberings {
            definitions: Seq::empty(),
            references: Seq::empty(),
        }),
{
    docx_rs::Docx::new()
}

/// Calls `AbstractNumbering::new`: a numbering definition without levels.
#[verifier::external_body]
fn new_numbering(id: usize) -> (numbering: docx_rs::AbstractNumbering)
    ensures
        definition_of(numbering) == (HeldDefinition { id, levels: Seq::empty() }),
{
    docx_rs::AbstractNumbering::new(id)
}

/// Calls `AbstractNumbering::add_level` with a `Level` made of the given
/// parts, indented as given: the level is appended to the definition, and
/// each part is held as it was passed.
#[verifier::external_body]
fn with_level(
    numbering: docx_rs::AbstractNumbering,
    level: &LevelSpec,
    format: &str,
    justification: &str,
) -> (extended: docx_rs::AbstractNumbering)
    ensures
        definition_of(extended) == (HeldDefinition {
            id: definition_of(numbering).id,
            levels: definition_of(numbering).levels.push(
                HeldLevel { level: level@, format: format@, justification: justification@ },
            ),
        }),
{
    numbering.add_level(
        docx_rs::Level::new(
            level.index,
            docx_rs::Start::new(level.start),
            docx_rs::NumberFormat::new(format),
            docx_rs::LevelText::new(level.pattern.as_str()),
            docx_rs::LevelJc::new(justification),
        ).indent(
            Some(level.indent),
            Some(docx_rs::SpecialIndentType::Hanging(level.hanging)),
            None,
            None,
        ),
    )
}

/// Calls `Docx::add_abstract_numbering` and `Docx::add_numbering`: the
/// definition is appended to the package's definitions, and a numbering
/// `id` that refers to the definition `definition` to its numberings. The
/// body stays as it was.
#[verifier::external_body]
fn register_numbering(
    package: docx_rs::Docx,
    numbering: docx_rs::AbstractNumbering,
    id: usize,
    definition: usize,
) -> (registered: docx_rs::Docx)
    ensures
        body_of(registered) == body_of(package),
        numberings_of(registered) == (HeldNumberings {
            definitions: numberings_of(package).definitions.push(definition_of(numbering)),
            references: numberings_of(package).references.push((id, definition)),
        }),
{
    package.add_abstract_numbering(numbering).add_numbering(docx_rs::Numbering::new(id, definition))
}

/// A run of one piece of text at a size.
pub open spec fn text_run(text: Seq<char>, half_points: usize) -> HeldRun {
    HeldRun { half_points: Some(half_points), pieces: seq![HeldPiece::Text(stored_text(text))] }
}

/// A paragraph of one run of text at a size, without numbering or style.
pub open spec fn text_held(text: Seq<char>, half_points: usize) -> HeldParagraph {
    HeldParagraph {
        numbering: None,
        style: None,
        children: seq![HeldChild::Run(text_run(text, half_points))],
    }
}

/// Calls `Paragraph::new` and `Paragraph::add_run` with a run of the text
/// at the size: the paragraph holds that run and nothing else. Each new
/// paragraph takes an id from a counter that `docx_rs` keeps for the
/// thread and sets back whenever a package is built.
#[verifier::external_body]
fn text_paragraph(text: &str, half_points: usize) -> (paragraph: docx_rs::Paragraph)
    ensures
        paragraph_of(paragraph) == text_held(text@, half_points),
{
    docx_rs::Paragraph::new().add_run(docx_rs::Run::new().add_text(text).size(half_points))
}

/// Calls `Paragraph::numbering`: the paragraph refers to the level of the
/// numbering, and holds what it held besides.
#[verifier::external_body]
fn with_marker(
    paragraph: docx_rs::Paragraph,
    id: usize,
    level: usize,
) -> (marked: docx_rs::Paragraph)
    ensures
        paragraph_of(marked) == (HeldParagraph {
            numbering: Some(Numbering { id: Some(id), level: Some(level) }),
            ..paragraph_of(paragraph)
        }),
{
    paragraph.numbering(docx_rs::NumberingId::new(id), docx_rs::IndentLevel::new(level))
}

/// Calls `Paragraph::style`: the paragraph takes the style, and holds
/// what it held besides.
#[verifier::external_body]
fn with_style(paragraph: docx_rs::Paragraph, style: &str) -> (styled: docx_rs::Paragraph)
    ensures
        paragraph_of(styled) == (HeldParagraph {
            style: Some(escaped(style@)),
            ..paragraph_of(paragraph)
        }),
{
    paragraph.style(style)
}

/// Calls `Paragraph::add_hyperlink` with an external `Hyperlink` to the
/// address, whose one run shows the address at the size: the link becomes
/// the last child of the paragraph, which holds what it held besides.
#[verifier::external_body]
fn with_link(
    paragraph: docx_rs::Paragraph,
    url: &str,
    half_points: usize,
) -> (linked: docx_rs::Paragraph)
    ensures
        paragraph_of(linked) == (HeldParagraph {
            children: paragraph_of(paragraph).children.push(
                HeldChild::Link(
                    HeldLink { address: escaped(url@), runs: seq![text_run(url@, half_points)] },
                ),
            ),
            ..paragraph_of(paragraph)
        }),
{
    paragraph.add_hyperlink(
        docx_rs::Hyperlink::new(url, docx_rs::HyperlinkType::External).add_run(
            docx_rs::Run::new().add_text(url).size(half_points),
        ),
    )
}

/// A paragraph of one run that holds one picture.
pub open spec fn picture_held(bytes: Seq<u8>, width: u32, height: u32) -> HeldParagraph {
    HeldParagraph {
        numbering: None,
        style: None,
        children: seq![
            HeldChild::Run(
                HeldRun {
                    half_points: None,
                    pieces: seq![HeldPiece::Picture { bytes, width, height }],
                },
            ),
        ],
    }
}

/// Calls `Pic::new_with_dimensions` and `Pic::size`, and puts the picture
/// in the one run of a new paragraph. The extent in pixels is passed as
/// zero: `Pic::size` then sets the extent in the package's own unit.
#[verifier::external_body]
fn picture_paragraph(png: &[u8], width: u32, height: u32) -> (paragraph: docx_rs::Paragraph)
    ensures
        paragraph_of(paragraph) == picture_held(png@, width, height),
{
    docx_rs::Paragraph::new().add_run(
        docx_rs::Run::new().add_image(
            docx_rs::Pic::new_with_dimensions(png.to_vec(), 0, 0).size(width, height),
        ),
    )
}

/// Calls `Docx::add_paragraph`: the paragraph becomes the last child of the
/// body. The numberings stay as they were.
#[verifier::external_body]
fn add_paragraph(package: docx_rs::Docx, paragraph: docx_rs::Paragraph) -> (extended:
    docx_rs::Docx)
    ensures
        body_of(extended) == body_of(package).push(
            HeldBlock::Paragraph(paragraph_of(paragraph)),
        ),
        numberings_of(extended) == numberings_of(package),
{
    package.add_paragraph(paragraph)
}

/// The table whose cells hold one paragraph each.
pub open spec fn rows_held(rows: Seq<Vec<docx_rs::Paragraph>>) -> HeldTable {
    Seq::new(
        rows.len(),
        |r: int|
            Seq::new(
                rows[r]@.len(),
                |c: int| seq![HeldContent::Paragraph(paragraph_of(rows[r]@[c]))],
            ),
    )
}

/// Calls `Docx::add_table` with a `Table::new` of the rows, each a
/// `TableRow::new` of its cells, each a `TableCell::new` that holds one of
/// the paragraphs: the table becomes the last child of the body. The
/// numberings stay as they were.
#[verifier::external_body]
fn add_table(package: docx_rs::Docx, rows: Vec<Vec<docx_rs::Paragraph>>) -> (extended:
    docx_rs::Docx)
    ensures
        body_of(extended) == body_of(package).push(HeldBlock::Table(rows_held(rows@))),
        numberings_of(extended) == numberings_of(package),
{
    package.add_table(
        docx_rs::Table::new(
            rows.into_iter().map(
                |cells|
                    docx_rs::TableRow::new(
                        cells.into_iter().map(
                            |p| docx_rs::TableCell::new().add_paragraph(p),
                        ).collect(),
                    ),
            ).collect(),
        ),
    )
}

/// Calls `Docx::build` and `XMLDocx::pack` into a buffer in memory, and
/// returns the buffer where packing reports no error. The bytes hold ids
/// that `docx_rs` draws from counters of its own, so nothing is said of
/// them.
#[verifier::external_body]
pub(crate) fn pack(package: docx_rs::Docx) -> Option<Vec<u8>> {
    let mut buffer = std::io::Cursor::new(Vec::new());
    package.build().pack(&mut buffer).ok()?;
    Some(buffer.into_inner())
}

/// The extent of a picture of the given size in pixels, where it declares
/// none of its own.
pub open spec fn natural_extent(width_px: u32, height_px: u32) -> (nat, nat) {
    ((width_px * UNITS_PER_PIXEL) as nat, (height_px * UNITS_PER_PIXEL) as nat)
}

/// The extent at which a picture is placed: the extent it declares, or
/// else its natural one, fitted to the page.
pub open spec fn picture_extent(
    declared: Option<(u32, u32)>,
    width_px: u32,
    height_px: u32,
) -> (nat, nat) {
    match declared {
        Some(extent) => fitted(extent.0 as nat, extent.1 as nat),
        None => fitted(
            natural_extent(width_px, height_px).0,
            natural_extent(width_px, height_px).1,
        ),
    }
}

/// Computes the extent at which a picture is placed.
pub fn picture_size(
    declared: Option<(u32, u32)>,
    width_px: u32,
    height_px: u32,
) -> (size: (u32, u32))
    ensures
        (size.0 as nat, size.1 as nat) == picture_extent(declared, width_px, height_px),
{
    match declared {
        Some(extent) => re_size_picture(extent.0 as u64, extent.1 as u64),
        None => re_size_picture(
            (width_px as u64) * UNITS_PER_PIXEL,
            (height_px as u64) * UNITS_PER_PIXEL,
        ),
    }
}

/// The name of a style, as the package writes it.
pub open spec fn style_text(style: Style) -> Seq<char> {
    match style {
        Style::Heading1 => "Heading1"@,
        Style::Heading2 => "Heading2"@,
        Style::BodyText => "BodyText"@,
        Style::ListBullet => "ListBullet"@,
    }
}

/// The name of a style.
pub fn style_name(style: Style) -> (name: &'static str)
    ensures
        name@ == style_text(style),
{
    match style {
        Style::Heading1 => "Heading1",
        Style::Heading2 => "Heading2",
        Style::BodyText => "BodyText",
        Style::ListBullet => "ListBullet",
    }
}

/// The eight bytes that head every PNG picture.
pub open spec fn png_signature() -> Seq<u8> {
    seq![137u8, 80u8, 78u8, 71u8, 13u8, 10u8, 26u8, 10u8]
}

/// Whether bytes begin as a PNG picture does.
pub open spec fn is_png(bytes: Seq<u8>) -> bool {
    bytes.len() >= 8 && bytes.subrange(0, 8) == png_signature()
}

/// Whether bytes begin as a PNG picture does.
pub fn has_png_signature(bytes: &Vec<u8>) -> (png: bool)
    ensures
        png == is_png(bytes@),
{
    if bytes.len() < 8 {
        return false;
    }
    let png = bytes[0] == 137 && bytes[1] == 80 && bytes[2] == 78 && bytes[3] == 71 && bytes[4]
        == 13 && bytes[5] == 10 && bytes[6] == 26 && bytes[7] == 10;
    proof {
        let head = bytes@.subrange(0, 8);
        if png {
            assert(head =~= png_signature());
        } else {
            assert(head[0] == bytes@[0] && head[1] == bytes@[1] && head[2] == bytes@[2]
                && head[3] == bytes@[3] && head[4] == bytes@[4] && head[5] == bytes@[5]
                && head[6] == bytes@[6] && head[7] == bytes@[7]);
        }
    }
    png
}

/// A picture that is ready to be written: PNG bytes, and the extent at
/// which it is placed.
#[derive(Debug, PartialEq, Eq)]
pub struct Placed {
    pub png: Vec<u8>,
    pub width: u32,
    pub height: u32,
}

/// The mathematical value of a [`Placed`].
pub struct PlacedModel {
    pub png: Seq<u8>,
    pub width: u32,
    pub height: u32,
}

impl View for Placed {
    type V = PlacedModel;

    open spec fn view(&self) -> PlacedModel {
        PlacedModel { png: self.png@, width: self.width, height: self.height }
    }
}

/// The values of a sequence of optional pictures.
pub open spec fn placed_view(placed: Seq<Option<Placed>>) -> Seq<Option<PlacedModel>> {
    Seq::new(
        placed.len(),
        |i: int|
            match placed[i] {
                Some(p) => Some(p@),
                None => None,
            },
    )
}

/// Whether a picture was placed as its chunk asks: PNG bytes are kept as
/// they came, and the extent is the one the chunk declares, or else the
/// natural extent of some size in pixels, fitted to the page.
pub open spec fn placed_as(bytes: Seq<u8>, declared: Option<(u32, u32)>, placed: PlacedModel)
    -> bool {
    &&& is_png(bytes) ==> placed.png == bytes
    &&& exists|width_px: u32, height_px: u32|
        (placed.width as nat, placed.height as nat) == #[trigger] picture_extent(
            declared,
            width_px,
            height_px,
        )
}

/// Whether what was placed for a chunk fits the chunk: a picture for a
/// picture, placed as the chunk asks, and nothing for anything else.
pub open spec fn placed_for(chunk: ChunkModel, placed: Option<PlacedModel>) -> bool {
    match chunk {
        ChunkModel::Picture { bytes, declared } => placed is Some && placed_as(
            bytes,
            declared,
            placed->Some_0,
        ),
        _ => placed is None,
    }
}

/// Whether what was placed fits the chunks, one for one.
pub open spec fn all_placed(chunks: Seq<ChunkModel>, placed: Seq<Option<PlacedModel>>) -> bool {
    &&& placed.len() == chunks.len()
    &&& forall|i: int| 0 <= i < chunks.len() ==> placed_for(#[trigger] chunks[i], placed[i])
}

/// Whether there is a picture among the chunks.
pub open spec fn has_picture(chunks: Seq<ChunkModel>) -> bool {
    exists|i: int| 0 <= i < chunks.len() && (#[trigger] chunks[i]) is Picture
}

/// Places a picture whose size in pixels is known.
pub fn place_sized(
    png: Vec<u8>,
    declared: Option<(u32, u32)>,
    width_px: u32,
    height_px: u32,
) -> (placed: Placed)
    ensures
        placed.png == png,
        (placed.width as nat, placed.height as nat) == picture_extent(
            declared,
            width_px,
            height_px,
        ),
{
    let (width, height) = picture_size(declared, width_px, height_px);
    Placed { png, width, height }
}

/// Reads a picture and places it. PNG bytes are kept as they are, and only
/// their head is read for the size; other pictures are decoded and written
/// out again as PNG. Nothing is returned where the picture cannot be read.
fn place_picture(bytes: &Vec<u8>, declared: Option<(u32, u32)>) -> (placed: Option<Placed>)
    ensures
        placed is Some ==> placed_as(bytes@, declared, placed->Some_0@),
{
    if has_png_signature(bytes) {
        match encoded_pixels(bytes.as_slice()) {
            Some((width_px, height_px)) => Some(
                place_sized(copy_bytes(bytes), declared, width_px, height_px),
            ),
            None => None,
        }
    } else {
        match load_picture(bytes.as_slice()) {
            Some(picture) => match picture_png(&picture) {
                Some(png) => {
                    let (width_px, height_px) = picture_pixels(&picture);
                    Some(place_sized(png, declared, width_px, height_px))
                },
                None => None,
            },
            None => None,
        }
    }
}

/// Places the pictures among the chunks: one entry for each chunk, a
/// placed picture for a picture and nothing for anything else.
///
/// Fails, with [`FormatError::Picture`], only where a picture cannot be
/// read; chunks without a picture are always placed.
pub fn place(chunks: &Vec<Chunk>) -> (result: Result<Vec<Option<Placed>>, FormatError>)
    ensures
        match result {
            Ok(placed) => all_placed(chunks_view(chunks@), placed_view(placed@)),
            Err(e) => e == FormatError::Picture && has_picture(chunks_view(chunks@)),
        },
        !has_picture(chunks_view(chunks@)) ==> result is Ok,
{
    let ghost model = chunks_view(chunks@);
    let mut placed: Vec<Option<Placed>> = Vec::new();
    let mut i: usize = 0;
    while i < chunks.len()
        invariant
            i <= chunks.len(),
            model == chunks_view(chunks@),
            placed@.len() == i,
            forall|j: int| 0 <= j < i ==> placed_for(#[trigger] model[j], placed_view(placed@)[j]),
        decreases chunks.len() - i,
    {
        assert(model[i as int] == chunks@[i as int]@);
        let ghost before = placed_view(placed@);
        match &chunks[i] {
            Chunk::Picture { bytes, declared } => {
                match place_picture(bytes, *declared) {
                    Some(picture) => {
                        placed.push(Some(picture));
                    },
                    None => {
                        assert(model[i as int] is Picture);
                        return Err(FormatError::Picture);
                    },
                }
            },
            _ => {
                placed.push(None);
            },
        }
        assert(forall|j: int| 0 <= j < i ==> placed_view(placed@)[j] == before[j]);
        i += 1;
    }
    Ok(placed)
}

/// What the paragraph of a line holds: the line's text at its size, its
/// marker, the name of its style, and a link to its address that shows
/// the address at the size of the text.
pub open spec fn line_held(line: LineModel) -> HeldParagraph {
    HeldParagraph {
        numbering: match line.marker {
            Some(m) => Some(Numbering { id: Some(m.id), level: Some(m.level) }),
            None => None,
        },
        style: match line.style {
            Some(style) => Some(escaped(style_text(style))),
            None => None,
        },
        children: match line.link {
            Some(url) => seq![
                HeldChild::Run(text_run(line.text, line.half_points)),
                HeldChild::Link(
                    HeldLink { address: escaped(url), runs: seq![text_run(url, line.half_points)] },
                ),
            ],
            None => seq![HeldChild::Run(text_run(line.text, line.half_points))],
        },
    }
}

/// Builds the paragraph of a line: its text, then its marker, its style
/// and its link, as far as it has them.
fn line_paragraph(line: &Line) -> (paragraph: docx_rs::Paragraph)
    ensures
        paragraph_of(paragraph) == line_held(line@),
{
    let mut paragraph = text_paragraph(line.text.as_str(), line.half_points);
    match line.marker {
        Some(marker) => {
            paragraph = with_marker(paragraph, marker.id, marker.level);
        },
        None => {},
    }
    match line.style {
        Some(style) => {
            paragraph = with_style(paragraph, style_name(style));
        },
        None => {},
    }
    match &line.link {
        Some(url) => {
            paragraph = with_link(paragraph, url.as_str(), line.half_points);
            assert(paragraph_of(paragraph).children =~= line_held(line@).children);
        },
        None => {},
    }
    paragraph
}

/// What a written table holds: for each row its cells in order, each one
/// paragraph of the cell's text at its size.
pub open spec fn cells_held(rows: Seq<Seq<CellModel>>) -> HeldTable {
    Seq::new(
        rows.len(),
        |r: int|
            Seq::new(
                rows[r].len(),
                |c: int|
                    seq![
                        HeldContent::Paragraph(
                            text_held(rows[r][c].text, rows[r][c].half_points),
                        ),
                    ],
            ),
    )
}

/// Builds the paragraphs of a table's cells, row by row.
fn table_paragraphs(rows: &Vec<Vec<Cell>>) -> (paragraphs: Vec<Vec<docx_rs::Paragraph>>)
    ensures
        rows_held(paragraphs@) == cells_held(cell_rows_view(rows@)),
{
    let mut paragraphs: Vec<Vec<docx_rs::Paragraph>> = Vec::new();
    let mut r: usize = 0;
    while r < rows.len()
        invariant
            r <= rows.len(),
            paragraphs@.len() == r,
            forall|j: int| 0 <= j < r ==> (#[trigger] paragraphs@[j])@.len() == rows@[j]@.len(),
            forall|j: int, k: int|
                0 <= j < r && 0 <= k < rows@[j]@.len() ==> paragraph_of(
                    #[trigger] paragraphs@[j]@[k],
                ) == text_held(rows@[j]@[k].text@, rows@[j]@[k].half_points),
        decreases rows.len() - r,
    {
        let row = &rows[r];
        let mut cells: Vec<docx_rs::Paragraph> = Vec::new();
        let mut c: usize = 0;
        while c < row.len()
            invariant
                c <= row.len(),
                cells@.len() == c,
                forall|k: int|
                    0 <= k < c ==> paragraph_of(#[trigger] cells@[k]) == text_held(
                        row@[k].text@,
                        row@[k].half_points,
                    ),
            decreases row.len() - c,
        {
            cells.push(text_paragraph(row[c].text.as_str(), row[c].half_points));
            c += 1;
        }
        paragraphs.push(cells);
        r += 1;
    }
    proof {
        let made = rows_held(paragraphs@);
        let wanted = cells_held(cell_rows_view(rows@));
        assert(made.len() == wanted.len());
        assert forall|j: int| 0 <= j < made.len() implies made[j] =~= wanted[j] by {
            assert(paragraphs@[j]@.len() == rows@[j]@.len());
            assert forall|k: int| 0 <= k < made[j].len() implies made[j][k] =~= wanted[j][k] by {
                assert(paragraph_of(paragraphs@[j]@[k]) == text_held(
                    rows@[j]@[k].text@,
                    rows@[j]@[k].half_points,
                ));
            }
        }
        assert(made =~= wanted);
    }
    paragraphs
}

/// The first `count` levels of the shared numbering as they are held:
/// decimal ordinals, justified to the left.
pub open spec fn shared_held_levels(count: nat) -> Seq<HeldLevel> {
    Seq::new(
        count,
        |i: int|
            HeldLevel {
                level: shared_level(i as nat),
                format: "decimal"@,
                justification: "left"@,
            },
    )
}

/// The numberings of every package that is written: the shared numbering
/// with its eight levels, the numbering of headings with its one level,
/// which is the first of the shared ones, and a numbering that refers to
/// each under the id of the definition.
pub open spec fn shared_numberings() -> HeldNumberings {
    HeldNumberings {
        definitions: seq![
            HeldDefinition {
                id: SHARED_NUMBERING,
                levels: shared_held_levels(LEVEL_COUNT as nat),
            },
            HeldDefinition { id: HEADING_NUMBERING, levels: shared_held_levels(1) },
        ],
        references: seq![
            (SHARED_NUMBERING, SHARED_NUMBERING),
            (HEADING_NUMBERING, HEADING_NUMBERING),
        ],
    }
}

/// A package that holds the two numberings and nothing else.
fn numbered_package() -> (package: docx_rs::Docx)
    ensures
        numberings_of(package) == shared_numberings(),
        body_of(package) == Seq::<HeldBlock>::empty(),
{
    let levels = shared_levels();
    let mut numbering = new_numbering(SHARED_NUMBERING);
    let mut i: usize = 0;
    assert(shared_held_levels(0) =~= Seq::<HeldLevel>::empty());
    while i < levels.len()
        invariant
            i <= levels.len(),
            levels@.len() == LEVEL_COUNT,
            forall|k: int|
                0 <= k < LEVEL_COUNT ==> (#[trigger] levels@[k])@ == shared_level(k as nat),
            definition_of(numbering) == (HeldDefinition {
                id: SHARED_NUMBERING,
                levels: shared_held_levels(i as nat),
            }),
        decreases levels.len() - i,
    {
        numbering = with_level(numbering, &levels[i], "decimal", "left");
        assert(shared_held_levels(i as nat).push(
            HeldLevel {
                level: shared_level(i as nat),
                format: "decimal"@,
                justification: "left"@,
            },
        ) =~= shared_held_levels(i as nat + 1));
        i += 1;
    }
    let first = level_spec(0);
    let headings = with_level(new_numbering(HEADING_NUMBERING), &first, "decimal", "left");
    assert(definition_of(headings).levels =~= shared_held_levels(1));
    let package = register_numbering(
        register_numbering(empty_package(), numbering, SHARED_NUMBERING, SHARED_NUMBERING),
        headings,
        HEADING_NUMBERING,
        HEADING_NUMBERING,
    );
    assert(numberings_of(package).definitions =~= shared_numberings().definitions);
    assert(numberings_of(package).references =~= shared_numberings().references);
    package
}

/// What a chunk adds to the body of a package: a line its paragraph, a
/// picture a paragraph that holds it as it was placed, a table its rows.
/// A skipped element adds nothing.
pub open spec fn chunk_written(chunk: ChunkModel, placed: Option<PlacedModel>) -> Seq<HeldBlock> {
    match chunk {
        ChunkModel::Line(line) => seq![HeldBlock::Paragraph(line_held(line))],
        ChunkModel::Picture { bytes, declared } => match placed {
            Some(p) => seq![HeldBlock::Paragraph(picture_held(p.png, p.width, p.height))],
            None => Seq::empty(),
        },
        ChunkModel::Table(rows) => seq![HeldBlock::Table(cells_held(rows))],
        ChunkModel::Skipped(_) => Seq::empty(),
    }
}

/// What the chunks from position `from` on add to the body of a package,
/// in order.
pub open spec fn written(
    chunks: Seq<ChunkModel>,
    placed: Seq<Option<PlacedModel>>,
    from: int,
) -> Seq<HeldBlock>
    decreases chunks.len() - from,
{
    if from < 0 || from >= chunks.len() || from >= placed.len() {
        Seq::empty()
    } else {
        chunk_written(chunks[from], placed[from]) + written(chunks, placed, from + 1)
    }
}

/// For chunks without a picture: nothing placed for any of them.
pub open spec fn none_placed(chunks: Seq<ChunkModel>) -> Seq<Option<PlacedModel>> {
    Seq::new(chunks.len(), |i: int| None)
}

/// Assembles a package from rendered chunks and the pictures placed for
/// them: the two numberings, and in the body what each chunk adds, in
/// order.
pub fn assemble(chunks: &Vec<Chunk>, placed: &Vec<Option<Placed>>) -> (package: docx_rs::Docx)
    requires
        placed@.len() == chunks@.len(),
    ensures
        body_of(package) == written(chunks_view(chunks@), placed_view(placed@), 0),
        numberings_of(package) == shared_numberings(),
{
    let ghost model = chunks_view(chunks@);
    let ghost pictures = placed_view(placed@);
    let mut package = numbered_package();
    let mut i: usize = 0;
    assert(body_of(package) + written(model, pictures, 0) =~= written(model, pictures, 0));
    while i < chunks.len()
        invariant
            i <= chunks.len(),
            placed@.len() == chunks@.len(),
            model == chunks_view(chunks@),
            pictures == placed_view(placed@),
            numberings_of(package) == shared_numberings(),
            body_of(package) + written(model, pictures, i as int) == written(model, pictures, 0),
        decreases chunks.len() - i,
    {
        let ghost before = body_of(package);
        assert(model[i as int] == chunks@[i as int]@);
        match &chunks[i] {
            Chunk::Line(line) => {
                package = add_paragraph(package, line_paragraph(line));
            },
            Chunk::Picture { bytes, declared } => {
                match &placed[i] {
                    Some(picture) => {
                        assert(pictures[i as int] == Some(picture@));
                        package = add_paragraph(
                            package,
                            picture_paragraph(
                                picture.png.as_slice(),
                                picture.width,
                                picture.height,
                            ),
                        );
                    },
                    None => {
                        assert(pictures[i as int] is None);
                    },
                }
            },
            Chunk::Table(rows) => {
                package = add_table(package, table_paragraphs(rows));
            },
            Chunk::Skipped(_) => {},
        }
        assert(body_of(package) =~= before + chunk_written(model[i as int], pictures[i as int]));
        assert(body_of(package) + written(model, pictures, i + 1) =~= before + written(
            model,
            pictures,
            i as int,
        ));
        i += 1;
    }
    assert(body_of(package) + Seq::<HeldBlock>::empty() =~= body_of(package));
    package
}

} // verus!
