//! Flattening the document tree into the sequence of paragraphs, pictures
//! and tables that a package holds.
//!
//! A numbered list item refers to the shared numbering at the level of its
//! depth. A bulleted item refers to no numbering: its text is indented by
//! four spaces for each level of depth and prefixed with a hyphen.

use vstd::prelude::*;
use vstd::string::*;
use crate::error::FormatError;
use crate::model::{
    cells_view, elements_view, items_view, lemma_list_view, lemma_paragraph_view, lemma_table_view,
    rows_view, text_option, Document, Element, ElementModel, ImageDimension, TableCell, TableRow,
};

verus! {

/// The numbering that numbered text and links refer to.
pub const SHARED_NUMBERING: usize = 2;

/// The numbering that headings in a numbered list refer to.
pub const HEADING_NUMBERING: usize = 3;

/// The deepest level at which list items are rendered. Four times this
/// depth, the widest indentation, fits in every `usize`.
pub const MAX_DEPTH: usize = 0x3fff_ffff;

/// A named paragraph style.
#[derive(Clone, Copy, Debug, PartialEq, Eq, Structural)]
pub enum Style {
    Heading1,
    Heading2,
    BodyText,
    ListBullet,
}

/// A reference from a paragraph to a level of a numbering.
#[derive(Clone, Copy, Debug, PartialEq, Eq, Structural)]
pub struct Marker {
    pub id: usize,
    pub level: usize,
}

/// Why an element was left out of the package.
#[derive(Clone, Copy, Debug, PartialEq, Eq, Structural)]
pub enum Skip {
    /// A list item that is neither text, heading, link nor list.
    InList,
    /// A child of a paragraph group that is not text.
    InParagraph,
}

/// A paragraph of one run of text, with an optional link behind it.
#[derive(Debug, PartialEq, Eq)]
pub struct Line {
    pub text: String,
    /// The size of the text in half points.
    pub half_points: usize,
    pub marker: Option<Marker>,
    pub style: Option<Style>,
    /// The address of a link that follows the text.
    pub link: Option<String>,
}

/// The mathematical value of a [`Line`].
pub struct LineModel {
    pub text: Seq<char>,
    pub half_points: usize,
    pub marker: Option<Marker>,
    pub style: Option<Style>,
    pub link: Option<Seq<char>>,
}

/// The text of a table cell.
#[derive(Debug, PartialEq, Eq)]
pub struct Cell {
    pub text: String,
    /// The size of the text in half points.
    pub half_points: usize,
}

/// The mathematical value of a [`Cell`].
pub struct CellModel {
    pub text: Seq<char>,
    pub half_points: usize,
}

/// One piece of a package's body, or the note that an element was skipped.
#[derive(Debug, PartialEq, Eq)]
pub enum Chunk {
    Line(Line),
    /// A picture, with the extent it declares where both sides are positive.
    Picture { bytes: Vec<u8>, declared: Option<(u32, u32)> },
    Table(Vec<Vec<Cell>>),
    Skipped(Skip),
}

/// The mathematical value of a [`Chunk`].
pub enum ChunkModel {
    Line(LineModel),
    Picture { bytes: Seq<u8>, declared: Option<(u32, u32)> },
    Table(Seq<Seq<CellModel>>),
    Skipped(Skip),
}

impl View for Line {
    type V = LineModel;

    open spec fn view(&self) -> LineModel {
        LineModel {
            text: self.text@,
            half_points: self.half_points,
            marker: self.marker,
            style: self.style,
            link: match self.link {
                Some(url) => Some(url@),
                None => None,
            },
        }
    }
}

impl View for Cell {
    type V = CellModel;

    open spec fn view(&self) -> CellModel {
        CellModel { text: self.text@, half_points: self.half_points }
    }
}

/// The values of a row of cells.
pub open spec fn cell_row_view(row: Seq<Cell>) -> Seq<CellModel> {
    Seq::new(row.len(), |c: int| row[c]@)
}

/// The values of the rows of a table.
pub open spec fn cell_rows_view(rows: Seq<Vec<Cell>>) -> Seq<Seq<CellModel>> {
    Seq::new(rows.len(), |r: int| cell_row_view(rows[r]@))
}

impl View for Chunk {
    type V = ChunkModel;

    open spec fn view(&self) -> ChunkModel {
        match self {
            Chunk::Line(line) => ChunkModel::Line(line@),
            Chunk::Picture { bytes, declared } => ChunkModel::Picture {
                bytes: bytes@,
                declared: *declared,
            },
            Chunk::Table(rows) => ChunkModel::Table(cell_rows_view(rows@)),
            Chunk::Skipped(why) => ChunkModel::Skipped(*why),
        }
    }
}

/// The values of a sequence of chunks.
pub open spec fn chunks_view(chunks: Seq<Chunk>) -> Seq<ChunkModel> {
    Seq::new(chunks.len(), |i: int| chunks[i]@)
}

/// The point size of a heading of the given rank: 18 for the first, 16 for
/// the second, and 14, the smallest, for every other rank.
pub open spec fn heading_points(level: u8) -> usize {
    if level == 1 {
        18
    } else if level == 2 {
        16
    } else {
        14
    }
}

/// The style of a heading outside a list: the first two ranks have one.
pub open spec fn heading_style(level: u8) -> Option<Style> {
    if level == 1 {
        Some(Style::Heading1)
    } else if level == 2 {
        Some(Style::Heading2)
    } else {
        None
    }
}

/// A size in points, doubled.
pub open spec fn doubled(size: u8) -> usize {
    (size * 2) as usize
}

/// The text of a bulleted item at `depth`: four spaces for each level, a
/// hyphen, a space, and the item's own text.
pub open spec fn dashed(depth: nat, text: Seq<char>) -> Seq<char> {
    Seq::new(4 * depth, |i: int| ' ') + seq!['-', ' '] + text
}

/// The paragraph of a piece of text or a link inside a list.
pub open spec fn leaf_line(
    text: Seq<char>,
    size: u8,
    link: Option<Seq<char>>,
    numbered: bool,
    depth: nat,
) -> LineModel {
    if numbered {
        LineModel {
            text,
            half_points: doubled(size),
            marker: Some(Marker { id: SHARED_NUMBERING, level: depth as usize }),
            style: None,
            link,
        }
    } else {
        LineModel {
            text: dashed(depth, text),
            half_points: doubled(size),
            marker: None,
            style: None,
            link,
        }
    }
}

/// The paragraph of a heading inside a list: numbered by the headings' own
/// numbering, or else in the bullet style.
pub open spec fn heading_item_line(level: u8, text: Seq<char>, numbered: bool) -> LineModel {
    LineModel {
        text,
        half_points: (heading_points(level) * 2) as usize,
        marker: if numbered {
            Some(Marker { id: HEADING_NUMBERING, level: 0 })
        } else {
            None
        },
        style: if numbered {
            None
        } else {
            Some(Style::ListBullet)
        },
        link: None,
    }
}

/// What a list item at `depth` is rendered as, in a list of the given
/// flavor. A nested list is walked depth first, one level deeper and in its
/// own flavor; an item that has no place in a list is skipped.
pub open spec fn list_chunks(element: ElementModel, numbered: bool, depth: nat) -> Seq<ChunkModel>
    decreases element, 0nat,
{
    match element {
        ElementModel::Text { text, size } => seq![
            ChunkModel::Line(leaf_line(text, size, None, numbered, depth)),
        ],
        ElementModel::Header { level, text } => seq![
            ChunkModel::Line(heading_item_line(level, text, numbered)),
        ],
        ElementModel::Hyperlink { title, url, alt, size } => seq![
            ChunkModel::Line(leaf_line(title, size, Some(url), numbered, depth)),
        ],
        ElementModel::List { elements, numbered: inner } => items_chunks(
            elements,
            inner,
            depth + 1,
            0,
        ),
        _ => seq![ChunkModel::Skipped(Skip::InList)],
    }
}

/// What the items of a list from position `from` on are rendered as.
pub open spec fn items_chunks(
    elements: Seq<ElementModel>,
    numbered: bool,
    depth: nat,
    from: int,
) -> Seq<ChunkModel>
    decreases elements, elements.len() - from,
{
    if from < 0 || from >= elements.len() {
        Seq::empty()
    } else {
        list_chunks(elements[from], numbered, depth) + items_chunks(
            elements,
            numbered,
            depth,
            from + 1,
        )
    }
}

/// Whether a list item at `depth` can be rendered: no list below it stands
/// deeper than [`MAX_DEPTH`].
pub open spec fn list_fits(element: ElementModel, depth: nat) -> bool
    decreases element, 0nat,
{
    match element {
        ElementModel::List { elements, numbered } => depth < MAX_DEPTH && items_fit(
            elements,
            depth + 1,
            0,
        ),
        _ => true,
    }
}

/// Whether the items of a list from position `from` on can be rendered.
pub open spec fn items_fit(elements: Seq<ElementModel>, depth: nat, from: int) -> bool
    decreases elements, elements.len() - from,
{
    if from < 0 || from >= elements.len() {
        true
    } else {
        list_fits(elements[from], depth) && items_fit(elements, depth, from + 1)
    }
}


/// Whether a character is a decimal digit.
pub open spec fn is_digit(c: char) -> bool {
    '0' <= c && c <= '9'
}

/// The number that the first `n` characters of a digit string write.
pub open spec fn digits_value(s: Seq<char>, n: int) -> nat
    decreases n,
{
    if n <= 0 {
        0
    } else {
        digits_value(s, n - 1) * 10 + (s[n - 1] as nat - '0' as nat) as nat
    }
}

/// Whether a string is made of decimal digits, at least one.
pub open spec fn is_number(s: Seq<char>) -> bool {
    s.len() > 0 && forall|i: int| 0 <= i < s.len() ==> is_digit(#[trigger] s[i])
}

/// A string without the plus sign that may stand before a number.
pub open spec fn unsigned_part(s: Seq<char>) -> Seq<char> {
    if s.len() > 0 && s[0] == '+' {
        s.subrange(1, s.len() as int)
    } else {
        s
    }
}

/// The length that a string declares: the number it writes in decimal
/// digits, with or without a plus sign before them, where that number fits
/// in 32 bits; zero for every other string.
pub open spec fn parsed_length(s: Seq<char>) -> u32 {
    let digits = unsigned_part(s);
    if is_number(digits) && digits_value(digits, digits.len() as int) <= u32::MAX {
        digits_value(digits, digits.len() as int) as u32
    } else {
        0
    }
}

/// The extent that a picture declares: both sides must be given and must
/// parse as positive lengths.
pub open spec fn declared_size(width: Option<Seq<char>>, height: Option<Seq<char>>) -> Option<
    (u32, u32),
> {
    match (width, height) {
        (Some(w), Some(h)) => if parsed_length(w) > 0 && parsed_length(h) > 0 {
            Some((parsed_length(w), parsed_length(h)))
        } else {
            None
        },
        _ => None,
    }
}

/// The paragraph of a piece of body text.
pub open spec fn text_line(text: Seq<char>, size: u8) -> LineModel {
    LineModel {
        text,
        half_points: doubled(size),
        marker: None,
        style: Some(Style::BodyText),
        link: None,
    }
}

/// The paragraph of a heading outside a list.
pub open spec fn heading_line(level: u8, text: Seq<char>) -> LineModel {
    LineModel {
        text,
        half_points: (heading_points(level) * 2) as usize,
        marker: None,
        style: heading_style(level),
        link: None,
    }
}

/// The paragraph of a link outside a list.
pub open spec fn link_line(title: Seq<char>, url: Seq<char>, size: u8) -> LineModel {
    LineModel { text: title, half_points: doubled(size), marker: None, style: None, link: Some(url) }
}

/// What the children of a paragraph group from position `from` on are
/// rendered as: text as body text, anything else skipped.
pub open spec fn group_chunks(elements: Seq<ElementModel>, from: int) -> Seq<ChunkModel>
    decreases elements.len() - from,
{
    if from < 0 || from >= elements.len() {
        Seq::empty()
    } else {
        seq![
            match elements[from] {
                ElementModel::Text { text, size } => ChunkModel::Line(text_line(text, size)),
                _ => ChunkModel::Skipped(Skip::InParagraph),
            },
        ] + group_chunks(elements, from + 1)
    }
}

/// The cells of a table row from position `from` on: one for each cell
/// that holds text. Other cells leave no trace.
pub open spec fn text_cells(cells: Seq<ElementModel>, from: int) -> Seq<CellModel>
    decreases cells.len() - from,
{
    if from < 0 || from >= cells.len() {
        Seq::empty()
    } else {
        match cells[from] {
            ElementModel::Text { text, size } => seq![
                CellModel { text, half_points: doubled(size) },
            ] + text_cells(cells, from + 1),
            _ => text_cells(cells, from + 1),
        }
    }
}

/// The rows of a rendered table: the headers as a first row where there
/// are any, then the rows in order.
pub open spec fn table_rows(headers: Seq<ElementModel>, rows: Seq<Seq<ElementModel>>) -> Seq<
    Seq<CellModel>,
> {
    let body = Seq::new(rows.len(), |r: int| text_cells(rows[r], 0));
    if headers.len() > 0 {
        seq![text_cells(headers, 0)] + body
    } else {
        body
    }
}

/// What a top-level element is rendered as.
pub open spec fn element_chunks(element: ElementModel) -> Seq<ChunkModel> {
    match element {
        ElementModel::Header { level, text } => seq![ChunkModel::Line(heading_line(level, text))],
        ElementModel::Text { text, size } => seq![ChunkModel::Line(text_line(text, size))],
        ElementModel::Paragraph { elements } => group_chunks(elements, 0),
        ElementModel::List { elements, numbered } => items_chunks(elements, numbered, 0, 0),
        ElementModel::Hyperlink { title, url, alt, size } => seq![
            ChunkModel::Line(link_line(title, url, size)),
        ],
        ElementModel::Image { bytes, width, height } => seq![
            ChunkModel::Picture { bytes, declared: declared_size(width, height) },
        ],
        ElementModel::Table { headers, rows } => seq![
            ChunkModel::Table(table_rows(headers, rows)),
        ],
    }
}

/// What the elements of a document from position `from` on are rendered as.
pub open spec fn elements_chunks(elements: Seq<ElementModel>, from: int) -> Seq<ChunkModel>
    decreases elements.len() - from,
{
    if from < 0 || from >= elements.len() {
        Seq::empty()
    } else {
        element_chunks(elements[from]) + elements_chunks(elements, from + 1)
    }
}

/// Whether a top-level element can be rendered.
pub open spec fn element_fits(element: ElementModel) -> bool {
    match element {
        ElementModel::List { elements, numbered } => items_fit(elements, 0, 0),
        _ => true,
    }
}

/// Whether a document can be rendered: none of its lists is nested beyond
/// [`MAX_DEPTH`].
pub open spec fn document_fits(elements: Seq<ElementModel>) -> bool {
    forall|i: int| 0 <= i < elements.len() ==> element_fits(#[trigger] elements[i])
}

/// The chunks that a document is rendered as, or the error where it cannot
/// be rendered.
pub open spec fn rendered(elements: Seq<ElementModel>) -> Result<Seq<ChunkModel>, FormatError> {
    if document_fits(elements) {
        Ok(elements_chunks(elements, 0))
    } else {
        Err(FormatError::Nesting)
    }
}


/// A longer prefix of a digit string writes no smaller a number.
proof fn lemma_digits_grow(s: Seq<char>, n: int, m: int)
    requires
        0 <= n <= m <= s.len(),
        forall|i: int| 0 <= i < s.len() ==> is_digit(#[trigger] s[i]),
    ensures
        digits_value(s, n) <= digits_value(s, m),
    decreases m - n,
{
    if n < m {
        lemma_digits_grow(s, n, m - 1);
        assert(is_digit(s[m - 1]));
    }
}

/// Reads the length that a string declares; see [`parsed_length`].
pub fn parse_length(s: &String) -> (value: u32)
    ensures
        value == parsed_length(s@),
{
    let text = s.as_str();
    let n = text.unicode_len();
    let start: usize = if n > 0 && text.get_char(0) == '+' {
        1
    } else {
        0
    };
    let ghost digits = unsigned_part(s@);
    assert(digits =~= s@.subrange(start as int, n as int));
    if start == n {
        return 0;
    }
    let mut acc: u64 = 0;
    let mut i: usize = start;
    while i < n
        invariant
            start <= i <= n,
            n == s@.len(),
            text@ == s@,
            digits == unsigned_part(s@),
            digits == s@.subrange(start as int, n as int),
            forall|j: int| 0 <= j < i - start ==> is_digit(#[trigger] digits[j]),
            acc == digits_value(digits, i - start),
            acc <= u32::MAX,
        decreases n - i,
    {
        let c = text.get_char(i);
        assert(c == digits[i - start]);
        if !(c >= '0' && c <= '9') {
            assert(!is_digit(digits[i - start]));
            return 0;
        }
        let digit: u64 = (c as u32 - '0' as u32) as u64;
        acc = acc * 10 + digit;
        assert(acc == digits_value(digits, i + 1 - start));
        if acc > u32::MAX as u64 {
            proof {
                if is_number(digits) {
                    lemma_digits_grow(digits, i + 1 - start, digits.len() as int);
                    assert(digits_value(digits, digits.len() as int) > u32::MAX);
                }
            }
            return 0;
        }
        i += 1;
    }
    acc as u32
}

/// The text of a bulleted item; see [`dashed`].
fn dash_text(depth: usize, text: &String) -> (line: String)
    requires
        depth <= MAX_DEPTH,
    ensures
        line@ == dashed(depth as nat, text@),
{
    let width: usize = depth * 4;
    let mut line = String::new();
    let mut i: usize = 0;
    assert(line@ =~= Seq::new(0nat, |k: int| ' '));
    while i < width
        invariant
            i <= width,
            line@ == Seq::new(i as nat, |k: int| ' '),
        decreases width - i,
    {
        proof {
            reveal_strlit(" ");
        }
        line.append(" ");
        i += 1;
        assert(line@ =~= Seq::new(i as nat, |k: int| ' '));
    }
    proof {
        reveal_strlit("- ");
    }
    line.append("- ");
    line.append(text.as_str());
    assert(line@ =~= dashed(depth as nat, text@));
    line
}

/// The paragraph of a piece of text or a link inside a list.
fn leaf(
    text: &String,
    size: u8,
    link: Option<String>,
    numbered: bool,
    depth: usize,
) -> (line: Line)
    requires
        !numbered ==> depth <= MAX_DEPTH,
    ensures
        line@ == leaf_line(text@, size, text_option(link), numbered, depth as nat),
{
    let half_points: usize = (size as usize) * 2;
    if numbered {
        Line {
            text: text.clone(),
            half_points,
            marker: Some(Marker { id: SHARED_NUMBERING, level: depth }),
            style: None,
            link,
        }
    } else {
        Line { text: dash_text(depth, text), half_points, marker: None, style: None, link }
    }
}

/// The point size of a heading; see [`heading_points`].
pub fn heading_size(level: u8) -> (points: usize)
    ensures
        points == heading_points(level),
{
    if level == 1 {
        18
    } else if level == 2 {
        16
    } else {
        14
    }
}

/// Appends one chunk.
fn push_chunk(out: &mut Vec<Chunk>, chunk: Chunk)
    ensures
        chunks_view(final(out)@) == chunks_view(old(out)@).push(chunk@),
{
    out.push(chunk);
    assert(chunks_view(out@) =~= chunks_view(old(out)@).push(chunk@));
}

/// Whether a list item at `depth` can be rendered; see [`list_fits`].
pub fn fits(element: &Element, depth: usize) -> (ok: bool)
    ensures
        ok == list_fits(element@, depth as nat),
    decreases element,
{
    match element {
        Element::List { elements, numbered } => {
            proof {
                lemma_list_view(*element);
            }
            if depth >= MAX_DEPTH {
                return false;
            }
            let ghost items = items_view(elements@);
            let mut i: usize = 0;
            while i < elements.len()
                invariant
                    i <= elements.len(),
                    depth < MAX_DEPTH,
                    element is List,
                    element->List_elements == *elements,
                    element@ == (ElementModel::List { elements: items, numbered: *numbered }),
                    items == items_view(elements@),
                    items_fit(items, depth as nat + 1, i as int) == items_fit(
                        items,
                        depth as nat + 1,
                        0,
                    ),
                decreases elements.len() - i,
            {
                assert(items[i as int] == elements@[i as int].element@);
                if !fits(&elements[i].element, depth + 1) {
                    return false;
                }
                i += 1;
            }
            true
        },
        _ => true,
    }
}

/// Renders one list item at `depth` in a list of the given flavor, and
/// appends what it gives to `out`. A nested list is walked depth first.
pub fn detect_element_in_list(
    out: &mut Vec<Chunk>,
    element: &Element,
    numbered: bool,
    depth: usize,
)
    requires
        list_fits(element@, depth as nat),
        !numbered && (element@ is Text || element@ is Hyperlink) ==> depth <= MAX_DEPTH,
    ensures
        chunks_view(final(out)@) == chunks_view(old(out)@) + list_chunks(
            element@,
            numbered,
            depth as nat,
        ),
    decreases element,
{
    let ghost start = chunks_view(out@);
    match element {
        Element::Text { text, size } => {
            let line = leaf(text, *size, None, numbered, depth);
            push_chunk(out, Chunk::Line(line));
            assert(chunks_view(out@) =~= start + list_chunks(element@, numbered, depth as nat));
        },
        Element::Header { level, text } => {
            let half_points: usize = heading_size(*level) * 2;
            let line = if numbered {
                Line {
                    text: text.clone(),
                    half_points,
                    marker: Some(Marker { id: HEADING_NUMBERING, level: 0 }),
                    style: None,
                    link: None,
                }
            } else {
                Line {
                    text: text.clone(),
                    half_points,
                    marker: None,
                    style: Some(Style::ListBullet),
                    link: None,
                }
            };
            push_chunk(out, Chunk::Line(line));
            assert(chunks_view(out@) =~= start + list_chunks(element@, numbered, depth as nat));
        },
        Element::Hyperlink { title, url, alt, size } => {
            let line = leaf(title, *size, Some(url.clone()), numbered, depth);
            push_chunk(out, Chunk::Line(line));
            assert(chunks_view(out@) =~= start + list_chunks(element@, numbered, depth as nat));
        },
        Element::List { elements, numbered: inner } => {
            proof {
                lemma_list_view(*element);
            }
            let ghost items = items_view(elements@);
            let mut i: usize = 0;
            assert(chunks_view(out@) + items_chunks(items, *inner, depth as nat + 1, 0) =~= start
                + items_chunks(items, *inner, depth as nat + 1, 0));
            while i < elements.len()
                invariant
                    i <= elements.len(),
                    depth < MAX_DEPTH,
                    element is List,
                    element->List_elements == *elements,
                    items == items_view(elements@),
                    items_fit(items, depth as nat + 1, i as int),
                    chunks_view(out@) + items_chunks(items, *inner, depth as nat + 1, i as int)
                        == start + items_chunks(items, *inner, depth as nat + 1, 0),
                decreases elements.len() - i,
            {
                let ghost before = chunks_view(out@);
                assert(items[i as int] == elements@[i as int].element@);
                detect_element_in_list(out, &elements[i].element, *inner, depth + 1);
                assert(chunks_view(out@) + items_chunks(items, *inner, depth as nat + 1, i + 1)
                    =~= before + items_chunks(items, *inner, depth as nat + 1, i as int));
                i += 1;
            }
            assert(chunks_view(out@) + Seq::<ChunkModel>::empty() =~= chunks_view(out@));
        },
        _ => {
            push_chunk(out, Chunk::Skipped(Skip::InList));
            assert(chunks_view(out@) =~= start + list_chunks(element@, numbered, depth as nat));
        },
    }
}


/// A copy of a sequence of bytes.
pub(crate) fn copy_bytes(bytes: &Vec<u8>) -> (copy: Vec<u8>)
    ensures
        copy@ == bytes@,
{
    let mut copy: Vec<u8> = Vec::new();
    let mut i: usize = 0;
    while i < bytes.len()
        invariant
            i <= bytes.len(),
            copy@ == bytes@.subrange(0, i as int),
        decreases bytes.len() - i,
    {
        copy.push(bytes[i]);
        i += 1;
        assert(copy@ =~= bytes@.subrange(0, i as int));
    }
    assert(copy@ =~= bytes@);
    copy
}

/// The extent that a picture declares; see [`declared_size`].
pub fn declared(size: &ImageDimension) -> (extent: Option<(u32, u32)>)
    ensures
        extent == declared_size(text_option(size.width), text_option(size.height)),
{
    match (&size.width, &size.height) {
        (Some(w), Some(h)) => {
            let width = parse_length(w);
            let height = parse_length(h);
            if width > 0 && height > 0 {
                Some((width, height))
            } else {
                None
            }
        },
        _ => None,
    }
}

/// The cells of a table row that hold text.
fn text_cells_of(cells: &Vec<TableCell>) -> (row: Vec<Cell>)
    ensures
        cell_row_view(row@) == text_cells(cells_view(cells@), 0),
{
    let ghost model = cells_view(cells@);
    let mut row: Vec<Cell> = Vec::new();
    let mut i: usize = 0;
    assert(cell_row_view(row@) + text_cells(model, 0) =~= text_cells(model, 0));
    while i < cells.len()
        invariant
            i <= cells.len(),
            model == cells_view(cells@),
            cell_row_view(row@) + text_cells(model, i as int) == text_cells(model, 0),
        decreases cells.len() - i,
    {
        let ghost before = cell_row_view(row@);
        assert(model[i as int] == cells@[i as int].element@);
        match &cells[i].element {
            Element::Text { text, size } => {
                let cell = Cell { text: text.clone(), half_points: (*size as usize) * 2 };
                row.push(cell);
                assert(cell_row_view(row@) =~= before.push(cell@));
                assert(cell_row_view(row@) + text_cells(model, i + 1) =~= before + text_cells(
                    model,
                    i as int,
                ));
            },
            _ => {},
        }
        i += 1;
    }
    assert(cell_row_view(row@) + Seq::<CellModel>::empty() =~= cell_row_view(row@));
    row
}

/// The rows of a rendered table; see [`table_rows`].
fn table_chunk(headers: &Vec<TableCell>, rows: &Vec<TableRow>) -> (table: Vec<Vec<Cell>>)
    ensures
        cell_rows_view(table@) == table_rows(cells_view(headers@), rows_view(rows@)),
{
    let mut table: Vec<Vec<Cell>> = Vec::new();
    if headers.len() > 0 {
        table.push(text_cells_of(headers));
    }
    let ghost lead = table@.len() as int;
    let mut r: usize = 0;
    while r < rows.len()
        invariant
            r <= rows.len(),
            lead == (if headers@.len() > 0 { 1int } else { 0int }),
            table@.len() == lead + r,
            lead == 1 ==> cell_row_view(table@[0]@) == text_cells(cells_view(headers@), 0),
            forall|j: int|
                0 <= j < r ==> cell_row_view(#[trigger] table@[lead + j]@) == text_cells(
                    cells_view(rows@[j].cells@),
                    0,
                ),
        decreases rows.len() - r,
    {
        let row = text_cells_of(&rows[r].cells);
        table.push(row);
        r += 1;
    }
    assert(cell_rows_view(table@) =~= table_rows(cells_view(headers@), rows_view(rows@))) by {
        let wanted = table_rows(cells_view(headers@), rows_view(rows@));
        assert(wanted.len() == table@.len());
        assert forall|k: int| 0 <= k < table@.len() implies cell_rows_view(table@)[k]
            == wanted[k] by {
            if k >= lead {
                assert(cell_row_view(table@[lead + (k - lead)]@) == text_cells(
                    cells_view(rows@[k - lead].cells@),
                    0,
                ));
            }
        }
    }
    table
}

/// Whether a top-level element can be rendered; see [`element_fits`].
pub fn element_fits_in(element: &Element) -> (ok: bool)
    ensures
        ok == element_fits(element@),
{
    match element {
        Element::List { elements, numbered } => {
            proof {
                lemma_list_view(*element);
            }
            let ghost items = items_view(elements@);
            let mut i: usize = 0;
            while i < elements.len()
                invariant
                    i <= elements.len(),
                    element@ == (ElementModel::List { elements: items, numbered: *numbered }),
                    items == items_view(elements@),
                    items_fit(items, 0, i as int) == items_fit(items, 0, 0),
                decreases elements.len() - i,
            {
                assert(items[i as int] == elements@[i as int].element@);
                if !fits(&elements[i].element, 0) {
                    return false;
                }
                i += 1;
            }
            true
        },
        _ => true,
    }
}

/// Renders one top-level element and appends what it gives to `out`.
pub fn render_element(out: &mut Vec<Chunk>, element: &Element)
    requires
        element_fits(element@),
    ensures
        chunks_view(final(out)@) == chunks_view(old(out)@) + element_chunks(element@),
{
    let ghost start = chunks_view(out@);
    match element {
        Element::Header { level, text } => {
            let style = if *level == 1 {
                Some(Style::Heading1)
            } else if *level == 2 {
                Some(Style::Heading2)
            } else {
                None
            };
            let line = Line {
                text: text.clone(),
                half_points: heading_size(*level) * 2,
                marker: None,
                style,
                link: None,
            };
            push_chunk(out, Chunk::Line(line));
            assert(chunks_view(out@) =~= start + element_chunks(element@));
        },
        Element::Text { text, size } => {
            let line = Line {
                text: text.clone(),
                half_points: (*size as usize) * 2,
                marker: None,
                style: Some(Style::BodyText),
                link: None,
            };
            push_chunk(out, Chunk::Line(line));
            assert(chunks_view(out@) =~= start + element_chunks(element@));
        },
        Element::Paragraph { elements } => {
            proof {
                lemma_paragraph_view(*element);
            }
            let ghost children = elements_view(elements@);
            let mut i: usize = 0;
            assert(chunks_view(out@) + group_chunks(children, 0) =~= start + group_chunks(
                children,
                0,
            ));
            while i < elements.len()
                invariant
                    i <= elements.len(),
                    children == elements_view(elements@),
                    chunks_view(out@) + group_chunks(children, i as int) == start + group_chunks(
                        children,
                        0,
                    ),
                decreases elements.len() - i,
            {
                let ghost before = chunks_view(out@);
                assert(children[i as int] == elements@[i as int]@);
                match &elements[i] {
                    Element::Text { text, size } => {
                        let line = Line {
                            text: text.clone(),
                            half_points: (*size as usize) * 2,
                            marker: None,
                            style: Some(Style::BodyText),
                            link: None,
                        };
                        push_chunk(out, Chunk::Line(line));
                    },
                    _ => {
                        push_chunk(out, Chunk::Skipped(Skip::InParagraph));
                    },
                }
                assert(chunks_view(out@) + group_chunks(children, i + 1) =~= before
                    + group_chunks(children, i as int));
                i += 1;
            }
            assert(chunks_view(out@) + Seq::<ChunkModel>::empty() =~= chunks_view(out@));
        },
        Element::List { elements, numbered } => {
            proof {
                lemma_list_view(*element);
            }
            let ghost items = items_view(elements@);
            let mut i: usize = 0;
            assert(chunks_view(out@) + items_chunks(items, *numbered, 0, 0) =~= start
                + items_chunks(items, *numbered, 0, 0));
            while i < elements.len()
                invariant
                    i <= elements.len(),
                    items == items_view(elements@),
                    items_fit(items, 0, i as int),
                    chunks_view(out@) + items_chunks(items, *numbered, 0, i as int) == start
                        + items_chunks(items, *numbered, 0, 0),
                decreases elements.len() - i,
            {
                let ghost before = chunks_view(out@);
                assert(items[i as int] == elements@[i as int].element@);
                detect_element_in_list(out, &elements[i].element, *numbered, 0);
                assert(chunks_view(out@) + items_chunks(items, *numbered, 0, i + 1) =~= before
                    + items_chunks(items, *numbered, 0, i as int));
                i += 1;
            }
            assert(chunks_view(out@) + Seq::<ChunkModel>::empty() =~= chunks_view(out@));
        },
        Element::Hyperlink { title, url, alt, size } => {
            let line = Line {
                text: title.clone(),
                half_points: (*size as usize) * 2,
                marker: None,
                style: None,
                link: Some(url.clone()),
            };
            push_chunk(out, Chunk::Line(line));
            assert(chunks_view(out@) =~= start + element_chunks(element@));
        },
        Element::Image(image) => {
            let chunk = Chunk::Picture {
                bytes: copy_bytes(&image.bytes),
                declared: declared(&image.size),
            };
            push_chunk(out, chunk);
            assert(chunks_view(out@) =~= start + element_chunks(element@));
        },
        Element::Table { headers, rows } => {
            proof {
                lemma_table_view(*element);
            }
            let chunk = Chunk::Table(table_chunk(headers, rows));
            push_chunk(out, chunk);
            assert(chunks_view(out@) =~= start + element_chunks(element@));
        },
    }
}

/// Renders a document as the sequence of chunks that its package holds.
///
/// Fails, with [`FormatError::Nesting`], exactly where a list of the
/// document is nested beyond [`MAX_DEPTH`].
pub fn render(document: &Document) -> (result: Result<Vec<Chunk>, FormatError>)
    ensures
        match rendered(document@) {
            Ok(chunks) => result is Ok && chunks_view(result->Ok_0@) == chunks,
            Err(e) => result == Err::<Vec<Chunk>, FormatError>(e),
        },
{
    let ghost model = document@;
    let mut k: usize = 0;
    while k < document.elements.len()
        invariant
            k <= document.elements.len(),
            model == elements_view(document.elements@),
            forall|j: int| 0 <= j < k ==> element_fits(#[trigger] model[j]),
        decreases document.elements.len() - k,
    {
        assert(model[k as int] == document.elements@[k as int]@);
        if !element_fits_in(&document.elements[k]) {
            return Err(FormatError::Nesting);
        }
        k += 1;
    }
    let mut out: Vec<Chunk> = Vec::new();
    let mut i: usize = 0;
    assert(chunks_view(out@) + elements_chunks(model, 0) =~= elements_chunks(model, 0));
    while i < document.elements.len()
        invariant
            i <= document.elements.len(),
            model == elements_view(document.elements@),
            document_fits(model),
            chunks_view(out@) + elements_chunks(model, i as int) == elements_chunks(model, 0),
        decreases document.elements.len() - i,
    {
        let ghost before = chunks_view(out@);
        assert(model[i as int] == document.elements@[i as int]@);
        render_element(&mut out, &document.elements[i]);
        assert(chunks_view(out@) + elements_chunks(model, i + 1) =~= before + elements_chunks(
            model,
            i as int,
        ));
        i += 1;
    }
    assert(chunks_view(out@) + Seq::<ChunkModel>::empty() =~= chunks_view(out@));
    Ok(out)
}

} // verus!
