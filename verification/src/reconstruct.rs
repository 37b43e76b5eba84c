//! Rebuilding the document tree from the flat stream read of a package.
//!
//! Paragraphs that carry a numbering reference are list items; a run of
//! them becomes one list. All other paragraphs are classified by the name
//! of their style.

use vstd::prelude::*;
use vstd::string::*;
use crate::error::FormatError;
use crate::model::{
    cells_view, elements_view, items_view, lemma_list_view, lemma_table_view, rows_view, Element,
    ElementModel, ListItem, TableCell, TableRow,
};
use crate::raw::{
    blocks_view, cell_view, inlines_view, row_view, BlockModel, CellContent, CellContentModel,
    Inline, InlineModel, ParagraphModel, Piece, PieceModel, RawBlock, RawParagraph, RawTable,
    TableModel,
};

verus! {

/// The numbering that marks the items of a numbered list: the shared
/// multi-level definition that the writer registers.
pub const NUMBERED_ID: usize = 2;

/// The numbering that marks a heading in a numbered list. It is read as
/// numbered too.
pub const NUMBERED_HEADING_ID: usize = 3;

/// The numbering that marks the items of a bulleted list.
pub const BULLETED_ID: usize = 4;

/// The size given to the text of a list item.
pub const ITEM_SIZE: u8 = 12;

/// The size given to body text and to the text of a table cell.
pub const BODY_SIZE: u8 = 16;

/// The style of a first-rank heading.
pub open spec fn heading1_style() -> Seq<char> {
    "Heading1"@
}

/// The style of a second-rank heading.
pub open spec fn heading2_style() -> Seq<char> {
    "Heading2"@
}

/// The style of body copy.
pub open spec fn body_style() -> Seq<char> {
    "BodyText"@
}

/// The style of default text.
pub open spec fn normal_style() -> Seq<char> {
    "Normal"@
}

/// The text of the children from position `from` on: the text that heads
/// each run, in order, up to the first run without pieces. A run headed by
/// anything but text, and a child that is no run, give nothing.
pub open spec fn text_from(children: Seq<InlineModel>, from: int) -> Seq<char>
    decreases children.len() - from,
{
    if from < 0 || from >= children.len() {
        Seq::empty()
    } else {
        match children[from] {
            InlineModel::Run(pieces) => if pieces.len() == 0 {
                Seq::empty()
            } else {
                match pieces[0] {
                    PieceModel::Text(t) => t + text_from(children, from + 1),
                    PieceModel::Other => text_from(children, from + 1),
                }
            },
            InlineModel::NotRun => text_from(children, from + 1),
        }
    }
}

/// The text of a paragraph.
pub open spec fn extracted_text(children: Seq<InlineModel>) -> Seq<char> {
    text_from(children, 0)
}

/// What a paragraph without a list numbering becomes: a heading, body
/// text, or nothing where its style is absent or unknown.
pub open spec fn classified(p: ParagraphModel) -> Option<ElementModel> {
    match p.style {
        None => None,
        Some(style) => {
            if style == heading1_style() {
                Some(ElementModel::Header { level: 1, text: extracted_text(p.children) })
            } else if style == heading2_style() {
                Some(ElementModel::Header { level: 2, text: extracted_text(p.children) })
            } else if style == body_style() || style == normal_style() {
                Some(ElementModel::Text { text: extracted_text(p.children), size: BODY_SIZE })
            } else {
                None
            }
        },
    }
}

/// The place of a paragraph in a list, where it has one.
#[derive(Clone, Copy, Debug, PartialEq, Eq, Structural)]
pub struct Place {
    pub level: usize,
    pub numbered: bool,
}

/// Whether a paragraph is a list item, and where it stands. A numbering
/// reference without an id is an error; so is one of the list numberings
/// without a level. Any other numbering makes no list item.
pub open spec fn placed(p: ParagraphModel) -> Result<Option<Place>, FormatError> {
    match p.numbering {
        None => Ok(None),
        Some(n) => match n.id {
            None => Err(FormatError::NumberingId),
            Some(id) => if id == NUMBERED_ID || id == NUMBERED_HEADING_ID || id == BULLETED_ID {
                match n.level {
                    None => Err(FormatError::NumberingLevel),
                    Some(level) => Ok(Some(Place { level, numbered: id != BULLETED_ID })),
                }
            } else {
                Ok(None)
            },
        },
    }
}

/// The element that a list paragraph contributes.
pub open spec fn item_of(p: ParagraphModel) -> ElementModel {
    ElementModel::Text { text: extracted_text(p.children), size: ITEM_SIZE }
}

/// The cells that the pieces of one source cell give, from piece `from` on:
/// one text cell for each paragraph.
pub open spec fn pieces_from(cell: Seq<CellContentModel>, from: int) -> Seq<ElementModel>
    decreases cell.len() - from,
{
    if from < 0 || from >= cell.len() {
        Seq::empty()
    } else {
        match cell[from] {
            CellContentModel::Paragraph(p) => seq![
                ElementModel::Text { text: extracted_text(p.children), size: BODY_SIZE },
            ] + pieces_from(cell, from + 1),
            CellContentModel::Other => pieces_from(cell, from + 1),
        }
    }
}

/// The cells that a source row gives, from source cell `from` on.
pub open spec fn cells_from(row: Seq<Seq<CellContentModel>>, from: int) -> Seq<ElementModel>
    decreases row.len() - from,
{
    if from < 0 || from >= row.len() {
        Seq::empty()
    } else {
        pieces_from(row[from], 0) + cells_from(row, from + 1)
    }
}

/// The table element that a source table gives: no headers, and one row
/// for each source row.
pub open spec fn table_of(t: TableModel) -> ElementModel {
    ElementModel::Table {
        headers: Seq::empty(),
        rows: Seq::new(t.len(), |r: int| cells_from(t[r], 0)),
    }
}

/// A run of list items that is still open.
pub struct OpenRun {
    /// The level of the item that came last.
    pub level: usize,
    /// The flavor recorded when the run was opened.
    pub numbered: bool,
    pub items: Seq<ElementModel>,
}

/// The state of the reconstruction between two blocks.
pub struct EngineModel {
    /// The elements that are complete.
    pub done: Seq<ElementModel>,
    pub open: Option<OpenRun>,
}

/// The state before the first block.
pub open spec fn initial() -> EngineModel {
    EngineModel { done: Seq::empty(), open: None }
}

/// The complete elements once an open run, if any, is flushed: it becomes a
/// list of the flavor recorded when it was opened.
pub open spec fn flushed(s: EngineModel) -> Seq<ElementModel> {
    match s.open {
        None => s.done,
        Some(run) => s.done.push(
            ElementModel::List { elements: run.items, numbered: run.numbered },
        ),
    }
}

/// The state after a list item at `place`.
pub open spec fn after_item(s: EngineModel, place: Place, item: ElementModel) -> EngineModel {
    match s.open {
        None => EngineModel {
            done: s.done,
            open: Some(OpenRun { level: place.level, numbered: place.numbered, items: seq![item] }),
        },
        Some(run) => if place.level > run.level {
            EngineModel {
                done: s.done,
                open: Some(
                    OpenRun {
                        level: place.level,
                        numbered: run.numbered,
                        items: run.items.push(
                            ElementModel::List { elements: seq![item], numbered: place.numbered },
                        ),
                    },
                ),
            }
        } else if place.level < run.level {
            EngineModel {
                done: flushed(s),
                open: Some(
                    OpenRun { level: place.level, numbered: place.numbered, items: seq![item] },
                ),
            }
        } else {
            EngineModel {
                done: s.done,
                open: Some(
                    OpenRun {
                        level: run.level,
                        numbered: run.numbered,
                        items: run.items.push(item),
                    },
                ),
            }
        },
    }
}

/// The state after one block, or the error that the block raises.
pub open spec fn step(s: EngineModel, block: BlockModel) -> Result<EngineModel, FormatError> {
    match block {
        BlockModel::Paragraph(p) => match placed(p) {
            Err(e) => Err(e),
            Ok(Some(place)) => Ok(after_item(s, place, item_of(p))),
            Ok(None) => Ok(
                EngineModel {
                    done: match classified(p) {
                        Some(element) => flushed(s).push(element),
                        None => flushed(s),
                    },
                    open: None,
                },
            ),
        },
        BlockModel::Table(t) => Ok(EngineModel { done: flushed(s).push(table_of(t)), open: None }),
        BlockModel::Other => Ok(EngineModel { done: flushed(s), open: None }),
    }
}

/// The state after the blocks from position `from` on, or the first error.
pub open spec fn engine_from(s: EngineModel, blocks: Seq<BlockModel>, from: int) -> Result<
    EngineModel,
    FormatError,
>
    decreases blocks.len() - from,
{
    if from < 0 || from >= blocks.len() {
        Ok(s)
    } else {
        match step(s, blocks[from]) {
            Err(e) => Err(e),
            Ok(next) => engine_from(next, blocks, from + 1),
        }
    }
}

/// The document that a stream of blocks gives: every block is taken in
/// order, and a run still open at the end is flushed.
pub open spec fn reconstructed(blocks: Seq<BlockModel>) -> Result<Seq<ElementModel>, FormatError> {
    match engine_from(initial(), blocks, 0) {
        Err(e) => Err(e),
        Ok(s) => Ok(flushed(s)),
    }
}


/// The view of an optional element.
pub open spec fn element_option(element: Option<Element>) -> Option<ElementModel> {
    match element {
        Some(e) => Some(e@),
        None => None,
    }
}

/// Whether `style` is the style called `name`.
fn style_is(style: &String, name: &str) -> (same: bool)
    ensures
        same == (style@ == name@),
{
    let wanted = String::from_str(name);
    *style == wanted
}

/// The text of a paragraph: the text that heads each of its runs, in
/// order, up to the first run without pieces.
pub fn extract_text(children: &Vec<Inline>) -> (text: String)
    ensures
        text@ == extracted_text(inlines_view(children@)),
{
    let ghost model = inlines_view(children@);
    let mut text = String::new();
    let mut i: usize = 0;
    while i < children.len()
        invariant
            i <= children.len(),
            model == inlines_view(children@),
            text@ + text_from(model, i as int) == text_from(model, 0),
        decreases children.len() - i,
    {
        let ghost before = text@;
        match &children[i] {
            Inline::Run(pieces) => {
                if pieces.len() == 0 {
                    assert(text@ + Seq::<char>::empty() =~= text@);
                    return text;
                }
                assert(model[i as int]->Run_0[0] == pieces@[0]@);
                match &pieces[0] {
                    Piece::Text(piece) => {
                        text.append(piece.as_str());
                        assert(text@ + text_from(model, i + 1) =~= before + text_from(
                            model,
                            i as int,
                        ));
                    },
                    Piece::Other => {},
                }
            },
            Inline::NotRun => {},
        }
        i += 1;
    }
    assert(text@ + Seq::<char>::empty() =~= text@);
    text
}

/// Classifies a paragraph that is no list item by the name of its style.
pub fn classify(p: &RawParagraph) -> (element: Option<Element>)
    ensures
        element_option(element) == classified(p@),
{
    match &p.style {
        None => None,
        Some(style) => {
            if style_is(style, "Heading1") {
                Some(Element::Header { level: 1, text: extract_text(&p.children) })
            } else if style_is(style, "Heading2") {
                Some(Element::Header { level: 2, text: extract_text(&p.children) })
            } else if style_is(style, "BodyText") || style_is(style, "Normal") {
                Some(Element::Text { text: extract_text(&p.children), size: BODY_SIZE })
            } else {
                None
            }
        },
    }
}

/// Finds the place of a paragraph in a list, where it has one.
pub fn place_of(p: &RawParagraph) -> (place: Result<Option<Place>, FormatError>)
    ensures
        place == placed(p@),
{
    match p.numbering {
        None => Ok(None),
        Some(n) => match n.id {
            None => Err(FormatError::NumberingId),
            Some(id) => {
                if id == NUMBERED_ID || id == NUMBERED_HEADING_ID || id == BULLETED_ID {
                    match n.level {
                        None => Err(FormatError::NumberingLevel),
                        Some(level) => Ok(Some(Place { level, numbered: id != BULLETED_ID })),
                    }
                } else {
                    Ok(None)
                }
            },
        },
    }
}

/// The cells that one source row gives.
fn row_cells(row: &Vec<Vec<CellContent>>) -> (cells: Vec<TableCell>)
    ensures
        cells_view(cells@) == cells_from(row_view(row@), 0),
{
    let ghost model = row_view(row@);
    let mut cells: Vec<TableCell> = Vec::new();
    let mut c: usize = 0;
    assert(cells_view(cells@) =~= Seq::<ElementModel>::empty());
    while c < row.len()
        invariant
            c <= row.len(),
            model == row_view(row@),
            cells_view(cells@) + cells_from(model, c as int) == cells_from(model, 0),
        decreases row.len() - c,
    {
        let cell = &row[c];
        let ghost pieces = cell_view(cell@);
        let ghost start = cells_view(cells@);
        assert(model[c as int] == pieces);
        let mut k: usize = 0;
        while k < cell.len()
            invariant
                k <= cell.len(),
                pieces == cell_view(cell@),
                cells_view(cells@) + pieces_from(pieces, k as int) == start + pieces_from(
                    pieces,
                    0,
                ),
            decreases cell.len() - k,
        {
            let ghost before = cells_view(cells@);
            match &cell[k] {
                CellContent::Paragraph(p) => {
                    let text = extract_text(&p.children);
                    cells.push(TableCell { element: Element::Text { text, size: BODY_SIZE } });
                    assert(cells_view(cells@) =~= before.push(
                        ElementModel::Text {
                            text: extracted_text(p@.children),
                            size: BODY_SIZE,
                        },
                    ));
                    assert(cells_view(cells@) + pieces_from(pieces, k + 1) =~= before
                        + pieces_from(pieces, k as int));
                },
                CellContent::Other => {},
            }
            k += 1;
        }
        assert(cells_view(cells@) =~= start + pieces_from(pieces, 0));
        assert(cells_view(cells@) + cells_from(model, c + 1) =~= start + cells_from(
            model,
            c as int,
        ));
        c += 1;
    }
    assert(cells_view(cells@) + Seq::<ElementModel>::empty() =~= cells_view(cells@));
    cells
}

/// The table element that a source table gives.
pub fn table_element(table: &RawTable) -> (element: Element)
    ensures
        element@ == table_of(table@),
{
    let mut rows: Vec<TableRow> = Vec::new();
    let mut r: usize = 0;
    while r < table.rows.len()
        invariant
            r <= table.rows.len(),
            rows@.len() == r,
            forall|j: int|
                0 <= j < r ==> cells_view(#[trigger] rows@[j].cells@) == cells_from(
                    table@[j],
                    0,
                ),
        decreases table.rows.len() - r,
    {
        let cells = row_cells(&table.rows[r]);
        rows.push(TableRow { cells });
        r += 1;
    }
    let element = Element::Table { headers: Vec::new(), rows };
    proof {
        lemma_table_view(element);
        assert(cells_view(element->Table_headers@) =~= Seq::<ElementModel>::empty());
        assert(rows_view(element->Table_rows@) =~= table_of(table@)->Table_rows);
    }
    element
}

/// The list reconstruction engine: the elements that are complete, and the
/// run of list items that is open, if one is.
pub struct ListEngine {
    done: Vec<Element>,
    open: bool,
    level: usize,
    numbered: bool,
    items: Vec<ListItem>,
}

impl View for ListEngine {
    type V = EngineModel;

    closed spec fn view(&self) -> EngineModel {
        EngineModel {
            done: elements_view(self.done@),
            open: if self.open {
                Some(
                    OpenRun {
                        level: self.level,
                        numbered: self.numbered,
                        items: items_view(self.items@),
                    },
                )
            } else {
                None
            },
        }
    }
}

impl ListEngine {
    /// An engine that has seen no block.
    pub fn new() -> (engine: ListEngine)
        ensures
            engine@ == initial(),
    {
        let engine = ListEngine {
            done: Vec::new(),
            open: false,
            level: 0,
            numbered: false,
            items: Vec::new(),
        };
        assert(elements_view(engine.done@) =~= Seq::<ElementModel>::empty());
        engine
    }

    /// Closes the open run, if there is one, into a list of the flavor
    /// recorded when the run was opened.
    pub fn flush(self) -> (engine: ListEngine)
        ensures
            engine@ == (EngineModel { done: flushed(self@), open: None }),
    {
        if self.open {
            let ghost before = elements_view(self.done@);
            let mut done = self.done;
            let list = Element::List { elements: self.items, numbered: self.numbered };
            proof {
                lemma_list_view(list);
            }
            done.push(list);
            assert(elements_view(done@) =~= before.push(list@));
            ListEngine { done, open: false, level: 0, numbered: false, items: Vec::new() }
        } else {
            ListEngine {
                done: self.done,
                open: false,
                level: 0,
                numbered: false,
                items: Vec::new(),
            }
        }
    }

    /// Appends a complete element. No run may be open.
    fn emit(self, element: Element) -> (engine: ListEngine)
        requires
            self@.open is None,
        ensures
            engine@ == (EngineModel { done: self@.done.push(element@), open: None }),
    {
        let ghost before = elements_view(self.done@);
        let mut done = self.done;
        done.push(element);
        assert(elements_view(done@) =~= before.push(element@));
        ListEngine { done, open: false, level: 0, numbered: false, items: Vec::new() }
    }

    /// Takes a list item that stands at `place`.
    pub fn item(self, place: Place, item: Element) -> (engine: ListEngine)
        ensures
            engine@ == after_item(self@, place, item@),
    {
        if !self.open {
            let ghost element = item@;
            let items = vec![ListItem { element: item }];
            assert(items_view(items@) =~= seq![element]);
            ListEngine {
                done: self.done,
                open: true,
                level: place.level,
                numbered: place.numbered,
                items,
            }
        } else if place.level > self.level {
            let ghost element = item@;
            let ghost before = items_view(self.items@);
            let inner = vec![ListItem { element: item }];
            assert(items_view(inner@) =~= seq![element]);
            let nested = Element::List { elements: inner, numbered: place.numbered };
            proof {
                lemma_list_view(nested);
            }
            let mut items = self.items;
            items.push(ListItem { element: nested });
            assert(items_view(items@) =~= before.push(nested@));
            ListEngine {
                done: self.done,
                open: true,
                level: place.level,
                numbered: self.numbered,
                items,
            }
        } else if place.level < self.level {
            let ghost element = item@;
            let closed = self.flush();
            let items = vec![ListItem { element: item }];
            assert(items_view(items@) =~= seq![element]);
            ListEngine {
                done: closed.done,
                open: true,
                level: place.level,
                numbered: place.numbered,
                items,
            }
        } else {
            let ghost element = item@;
            let ghost before = items_view(self.items@);
            let mut items = self.items;
            items.push(ListItem { element: item });
            assert(items_view(items@) =~= before.push(element));
            ListEngine {
                done: self.done,
                open: true,
                level: self.level,
                numbered: self.numbered,
                items,
            }
        }
    }

    /// Takes the next block of the stream.
    pub fn feed(self, block: &RawBlock) -> (next: Result<ListEngine, FormatError>)
        ensures
            match step(self@, block@) {
                Ok(state) => next is Ok && next->Ok_0@ == state,
                Err(e) => next == Err::<ListEngine, FormatError>(e),
            },
    {
        match block {
            RawBlock::Paragraph(p) => {
                match place_of(p) {
                    Err(e) => Err(e),
                    Ok(Some(place)) => {
                        let text = extract_text(&p.children);
                        Ok(self.item(place, Element::Text { text, size: ITEM_SIZE }))
                    },
                    Ok(None) => {
                        let closed = self.flush();
                        match classify(p) {
                            Some(element) => Ok(closed.emit(element)),
                            None => Ok(closed),
                        }
                    },
                }
            },
            RawBlock::Table(t) => {
                let closed = self.flush();
                Ok(closed.emit(table_element(t)))
            },
            RawBlock::Other => Ok(self.flush()),
        }
    }

    /// Ends the stream: flushes the open run and hands out the elements.
    pub fn finish(self) -> (elements: Vec<Element>)
        ensures
            elements_view(elements@) == flushed(self@),
    {
        let closed = self.flush();
        closed.done
    }
}

/// Rebuilds the elements of a document from the blocks of a package.
///
/// Fails on the first paragraph whose numbering reference lacks its id, or
/// is a list numbering and lacks its level.
pub fn reconstruct(blocks: &Vec<RawBlock>) -> (result: Result<Vec<Element>, FormatError>)
    ensures
        match reconstructed(blocks_view(blocks@)) {
            Ok(elements) => result is Ok && elements_view(result->Ok_0@) == elements,
            Err(e) => result == Err::<Vec<Element>, FormatError>(e),
        },
{
    let ghost model = blocks_view(blocks@);
    let mut engine = ListEngine::new();
    let mut i: usize = 0;
    while i < blocks.len()
        invariant
            i <= blocks.len(),
            model == blocks_view(blocks@),
            engine_from(engine@, model, i as int) == engine_from(initial(), model, 0),
        decreases blocks.len() - i,
    {
        match engine.feed(&blocks[i]) {
            Err(e) => {
                return Err(e);
            },
            Ok(next) => {
                engine = next;
            },
        }
        i += 1;
    }
    Ok(engine.finish())
}


/// Whether every block of a stream is a list item.
pub open spec fn all_items(blocks: Seq<BlockModel>) -> bool {
    forall|i: int|
        0 <= i < blocks.len() ==> (#[trigger] blocks[i]) is Paragraph && placed(
            blocks[i]->Paragraph_0,
        ) is Ok && placed(blocks[i]->Paragraph_0)->Ok_0 is Some
}

/// The level of the list item at position `i`.
pub open spec fn level_at(blocks: Seq<BlockModel>, i: int) -> usize {
    placed(blocks[i]->Paragraph_0)->Ok_0->Some_0.level
}

/// How many items, from position `from` on, are followed by an item at a
/// strictly lower level.
pub open spec fn decreases_from(blocks: Seq<BlockModel>, from: int) -> nat
    decreases blocks.len() - from,
{
    if from < 0 || from + 1 >= blocks.len() {
        0
    } else if level_at(blocks, from + 1) < level_at(blocks, from) {
        1 + decreases_from(blocks, from + 1)
    } else {
        decreases_from(blocks, from + 1)
    }
}

/// From a state whose open run ends with the item at `from - 1`, the rest of
/// an all-item stream completes one element for each strict decrease that is
/// still to come, and leaves a run open.
proof fn lemma_items_from(s: EngineModel, blocks: Seq<BlockModel>, from: int)
    requires
        all_items(blocks),
        0 < from <= blocks.len(),
        s.open is Some,
        s.open->Some_0.level == level_at(blocks, from - 1),
    ensures
        engine_from(s, blocks, from) is Ok,
        engine_from(s, blocks, from)->Ok_0.open is Some,
        engine_from(s, blocks, from)->Ok_0.done.len() == s.done.len() + decreases_from(
            blocks,
            from - 1,
        ),
    decreases blocks.len() - from,
{
    if from < blocks.len() {
        let p = blocks[from]->Paragraph_0;
        let place = placed(p)->Ok_0->Some_0;
        let next = after_item(s, place, item_of(p));
        assert(step(s, blocks[from]) == Ok::<EngineModel, FormatError>(next));
        lemma_items_from(next, blocks, from + 1);
    }
}

/// In a stream that holds list items only, a run is flushed at each item
/// that stands at a strictly lower level than the item before it, and once
/// more at the end of the stream: the document holds one element more than
/// the stream has strict decreases of level.
pub proof fn lemma_flushes_follow_decreases(blocks: Seq<BlockModel>)
    requires
        all_items(blocks),
        blocks.len() > 0,
    ensures
        reconstructed(blocks) is Ok,
        reconstructed(blocks)->Ok_0.len() == decreases_from(blocks, 0) + 1,
        engine_from(initial(), blocks, 0)->Ok_0.done.len() == decreases_from(blocks, 0),
        engine_from(initial(), blocks, 0)->Ok_0.open is Some,
{
    let p = blocks[0]->Paragraph_0;
    let place = placed(p)->Ok_0->Some_0;
    let first = after_item(initial(), place, item_of(p));
    assert(step(initial(), blocks[0]) == Ok::<EngineModel, FormatError>(first));
    lemma_items_from(first, blocks, 1);
}

} // verus!
