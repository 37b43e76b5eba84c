//! What becomes of a document whose package is built and parsed again.
//!
//! The laws speak of the package as `docx_rs` holds it in memory once it is
//! assembled: they say what reconstruction makes of what the reader sees
//! of that package. They ask that the texts of the document hold none of
//! the characters that the package stores in another form.

use vstd::prelude::*;
use crate::error::FormatError;
use crate::model::ElementModel;
use crate::package::{
    escaped, escaped_char, seen_body, seen_paragraph, seen_pieces, stored_text,
    without_line_feeds, HeldBlock,
};
use crate::raw::{BlockModel, InlineModel, Numbering, ParagraphModel, PieceModel};
use crate::reconstruct::{
    engine_from, extracted_text, flushed, initial, reconstructed, step, text_from, EngineModel,
    OpenRun, BODY_SIZE, ITEM_SIZE,
};
use crate::render::{
    dashed, element_chunks, element_fits, elements_chunks, items_chunks, items_fit, list_chunks,
    list_fits, rendered, ChunkModel, LineModel, Style,
};
use crate::writer::{chunk_written, line_held, none_placed, style_text, written};

verus! {

/// The document that comes back when the package of a document without
/// pictures is built and what the reader sees of its body is reconstructed.
pub open spec fn round_trip(document: Seq<ElementModel>) -> Result<Seq<ElementModel>, FormatError> {
    match rendered(document) {
        Err(e) => Err(e),
        Ok(chunks) => reconstructed(seen_body(written(chunks, none_placed(chunks), 0))),
    }
}

/// Whether the package stores a character as it is.
pub open spec fn is_plain_char(c: char) -> bool {
    c != '&' && c != '<' && c != '>' && c != '"' && c != '\'' && c != '\n' && c != '\r'
}

/// Whether the package stores a text as it is: the text holds no
/// character that XML reserves, no line feed and no carriage return.
pub open spec fn is_plain_text(text: Seq<char>) -> bool {
    forall|i: int| 0 <= i < text.len() ==> is_plain_char(#[trigger] text[i])
}

/// Whether the texts of an element are stored as they are.
pub open spec fn has_plain_text(element: ElementModel) -> bool {
    match element {
        ElementModel::Header { level, text } => is_plain_text(text),
        ElementModel::Text { text, size } => is_plain_text(text),
        ElementModel::List { elements, numbered } => forall|i: int|
            0 <= i < elements.len() && (#[trigger] elements[i]) is Text ==> is_plain_text(
                elements[i]->Text_text,
            ),
        _ => true,
    }
}

/// Whether the texts of a document are stored as they are.
pub open spec fn has_plain_texts(document: Seq<ElementModel>) -> bool {
    forall|i: int| 0 <= i < document.len() ==> has_plain_text(#[trigger] document[i])
}

/// A plain text is stored as it is, as the text of a run and as a value.
pub proof fn lemma_plain_text_stored(text: Seq<char>)
    requires
        is_plain_text(text),
    ensures
        escaped(text) == text,
        without_line_feeds(text) == text,
        stored_text(text) == text,
    decreases text.len(),
{
    if text.len() > 0 {
        let rest = text.drop_last();
        assert forall|i: int| 0 <= i < rest.len() implies is_plain_char(#[trigger] rest[i]) by {
            assert(rest[i] == text[i]);
        }
        lemma_plain_text_stored(rest);
        assert(is_plain_char(text[text.len() - 1]));
        assert(escaped_char(text.last()) =~= seq![text.last()]);
        assert(rest + seq![text.last()] =~= text);
        assert(rest.push(text.last()) =~= text);
    } else {
        assert(text =~= Seq::<char>::empty());
    }
}

/// The names of the styles are stored as they are.
proof fn lemma_style_names_stored(style: Style)
    ensures
        escaped(style_text(style)) == style_text(style),
{
    reveal_strlit("Heading1");
    reveal_strlit("Heading2");
    reveal_strlit("BodyText");
    reveal_strlit("ListBullet");
    let name = style_text(style);
    assert forall|i: int| 0 <= i < name.len() implies is_plain_char(#[trigger] name[i]) by {
        if i == 0 {
        } else if i == 1 {
        } else if i == 2 {
        } else if i == 3 {
        } else if i == 4 {
        } else if i == 5 {
        } else if i == 6 {
        } else if i == 7 {
        } else if i == 8 {
        } else {
        }
    }
    lemma_plain_text_stored(name);
}

/// What the reader sees of the paragraph of a line without a link whose
/// text is plain.
spec fn line_as_read(line: LineModel) -> ParagraphModel {
    ParagraphModel {
        numbering: match line.marker {
            Some(m) => Some(Numbering { id: Some(m.id), level: Some(m.level) }),
            None => None,
        },
        style: match line.style {
            Some(s) => Some(style_text(s)),
            None => None,
        },
        children: seq![InlineModel::Run(seq![PieceModel::Text(line.text)])],
    }
}

/// What the reader sees of what a line adds to the body.
spec fn chunk_as_read(chunk: ChunkModel) -> Seq<BlockModel> {
    match chunk {
        ChunkModel::Line(line) => seq![BlockModel::Paragraph(line_as_read(line))],
        _ => Seq::empty(),
    }
}

/// What the reader sees of what the lines from position `from` on add.
spec fn as_read(chunks: Seq<ChunkModel>, from: int) -> Seq<BlockModel>
    decreases chunks.len() - from,
{
    if from < 0 || from >= chunks.len() {
        Seq::empty()
    } else {
        chunk_as_read(chunks[from]) + as_read(chunks, from + 1)
    }
}

/// Whether every chunk is a line without a link whose text is plain.
spec fn plain_lines(chunks: Seq<ChunkModel>) -> bool {
    forall|i: int|
        0 <= i < chunks.len() ==> (#[trigger] chunks[i]) is Line && chunks[i]->Line_0.link is None
            && is_plain_text(chunks[i]->Line_0.text)
}

/// What is written for plain lines is seen as `as_read` says.
proof fn lemma_written_as_read(chunks: Seq<ChunkModel>, from: int)
    requires
        plain_lines(chunks),
        0 <= from <= chunks.len(),
    ensures
        seen_body(written(chunks, none_placed(chunks), from)) == as_read(chunks, from),
    decreases chunks.len() - from,
{
    let placed = none_placed(chunks);
    if from < chunks.len() {
        lemma_written_as_read(chunks, from + 1);
        let line = chunks[from]->Line_0;
        assert(chunks[from] is Line);
        lemma_plain_text_stored(line.text);
        match line.style {
            Some(s) => {
                lemma_style_names_stored(s);
            },
            None => {},
        }
        let held = line_held(line);
        assert(held.children.len() == 1);
        assert(seen_pieces(held.children[0]->Run_0.pieces) =~= seq![PieceModel::Text(line.text)]);
        assert(seen_paragraph(held).children =~= line_as_read(line).children);
        assert(seen_paragraph(held) == line_as_read(line));
        let head = chunk_written(chunks[from], placed[from]);
        let tail = written(chunks, placed, from + 1);
        assert(head =~= seq![HeldBlock::Paragraph(held)]);
        assert(seen_body(head + tail) =~= seen_body(head) + seen_body(tail));
        assert(seen_body(head) =~= chunk_as_read(chunks[from]));
    } else {
        assert(seen_body(written(chunks, placed, from)) =~= Seq::<BlockModel>::empty());
    }
}

/// Two sequences of plain lines, one after the other, are plain lines.
proof fn lemma_plain_lines_concat(a: Seq<ChunkModel>, b: Seq<ChunkModel>)
    requires
        plain_lines(a),
        plain_lines(b),
    ensures
        plain_lines(a + b),
{
    assert forall|i: int| 0 <= i < (a + b).len() implies (#[trigger] (a + b)[i]) is Line && (a
        + b)[i]->Line_0.link is None && is_plain_text((a + b)[i]->Line_0.text) by {
        if i < a.len() {
            assert((a + b)[i] == a[i]);
        } else {
            assert((a + b)[i] == b[i - a.len()]);
        }
    }
}

/// The dashed form of a plain text is plain.
proof fn lemma_dashed_plain(depth: nat, text: Seq<char>)
    requires
        is_plain_text(text),
    ensures
        is_plain_text(dashed(depth, text)),
{
    let line = dashed(depth, text);
    assert forall|i: int| 0 <= i < line.len() implies is_plain_char(#[trigger] line[i]) by {
        if i < 4 * depth {
        } else if i < 4 * depth + 2 {
        } else {
            assert(line[i] == text[i - 4 * depth - 2]);
        }
    }
}

/// The items of a list of plain text are rendered as plain lines.
proof fn lemma_items_plain_lines(items: Seq<ElementModel>, numbered: bool, from: int)
    requires
        all_text(items),
        forall|i: int|
            0 <= i < items.len() && (#[trigger] items[i]) is Text ==> is_plain_text(
                items[i]->Text_text,
            ),
        0 <= from <= items.len(),
    ensures
        plain_lines(items_chunks(items, numbered, 0, from)),
    decreases items.len() - from,
{
    if from < items.len() {
        lemma_items_plain_lines(items, numbered, from + 1);
        assert(items[from] is Text);
        lemma_dashed_plain(0, items[from]->Text_text);
        let head = list_chunks(items[from], numbered, 0);
        assert(head.len() == 1);
        assert(plain_lines(head));
        lemma_plain_lines_concat(head, items_chunks(items, numbered, 0, from + 1));
    }
}

/// A simple document of plain texts is rendered as plain lines.
proof fn lemma_simple_plain_lines(document: Seq<ElementModel>, from: int)
    requires
        is_simple(document),
        has_plain_texts(document),
        0 <= from <= document.len(),
    ensures
        plain_lines(elements_chunks(document, from)),
    decreases document.len() - from,
{
    if from < document.len() {
        lemma_simple_plain_lines(document, from + 1);
        let element = document[from];
        assert(has_plain_text(element));
        if element is List {
            lemma_items_plain_lines(element->List_elements, element->List_numbered, 0);
        } else {
            assert(element_chunks(element).len() == 1);
        }
        assert(plain_lines(element_chunks(element)));
        lemma_plain_lines_concat(element_chunks(element), elements_chunks(document, from + 1));
    }
}

/// Reading two sequences of chunks, one after the other, gives the blocks
/// of the first and then those of the second.
proof fn lemma_as_read_concat(a: Seq<ChunkModel>, b: Seq<ChunkModel>, from: int)
    requires
        0 <= from <= a.len(),
    ensures
        as_read(a + b, from) == as_read(a, from) + as_read(b, 0),
    decreases a.len() - from,
{
    if from < a.len() {
        lemma_as_read_concat(a, b, from + 1);
        assert((a + b)[from] == a[from]);
        assert(as_read(a + b, from) =~= as_read(a, from) + as_read(b, 0));
    } else {
        lemma_as_read_shift(a, b, 0);
        assert(as_read(a, from) =~= Seq::<BlockModel>::empty());
        assert(as_read(a + b, from) =~= as_read(a, from) + as_read(b, 0));
    }
}

/// Chunks read the same wherever they stand in a longer sequence.
proof fn lemma_as_read_shift(a: Seq<ChunkModel>, b: Seq<ChunkModel>, from: int)
    requires
        0 <= from <= b.len(),
    ensures
        as_read(a + b, a.len() + from) == as_read(b, from),
    decreases b.len() - from,
{
    if from < b.len() {
        lemma_as_read_shift(a, b, from + 1);
        assert((a + b)[a.len() + from] == b[from]);
    }
}

/// The engine takes blocks the same wherever they stand in a longer
/// sequence.
proof fn lemma_engine_shift(s: EngineModel, a: Seq<BlockModel>, b: Seq<BlockModel>, from: int)
    requires
        0 <= from <= b.len(),
    ensures
        engine_from(s, a + b, a.len() + from) == engine_from(s, b, from),
    decreases b.len() - from,
{
    if from < b.len() {
        assert((a + b)[a.len() + from] == b[from]);
        match step(s, b[from]) {
            Ok(next) => {
                lemma_engine_shift(next, a, b, from + 1);
            },
            Err(_) => {},
        }
    }
}

/// Taking two sequences of blocks, one after the other, is taking the
/// second from the state that the first leaves.
pub proof fn lemma_engine_concat(s: EngineModel, a: Seq<BlockModel>, b: Seq<BlockModel>, from: int)
    requires
        0 <= from <= a.len(),
    ensures
        engine_from(s, a + b, from) == match engine_from(s, a, from) {
            Ok(middle) => engine_from(middle, b, 0),
            Err(e) => Err(e),
        },
    decreases a.len() - from,
{
    if from < a.len() {
        assert((a + b)[from] == a[from]);
        match step(s, a[from]) {
            Ok(next) => {
                lemma_engine_concat(next, a, b, from + 1);
            },
            Err(_) => {},
        }
    } else {
        lemma_engine_shift(s, a, b, 0);
    }
}


/// Whether an element is a heading of the first or second rank, or text of
/// the body size.
pub open spec fn is_plain(element: ElementModel) -> bool {
    match element {
        ElementModel::Header { level, text } => level == 1 || level == 2,
        ElementModel::Text { text, size } => size == BODY_SIZE,
        _ => false,
    }
}

/// Whether a document holds plain elements only.
pub open spec fn all_plain(document: Seq<ElementModel>) -> bool {
    forall|i: int| 0 <= i < document.len() ==> is_plain(#[trigger] document[i])
}

/// The names of the styles differ.
proof fn lemma_style_names_differ()
    ensures
        "Heading1"@ != "Heading2"@,
        "Heading1"@ != "BodyText"@,
        "Heading2"@ != "BodyText"@,
{
    reveal_strlit("Heading1");
    reveal_strlit("Heading2");
    reveal_strlit("BodyText");
    assert("Heading1"@[7] == '1');
    assert("Heading2"@[7] == '2');
    assert("Heading1"@[0] == 'H');
    assert("Heading2"@[0] == 'H');
    assert("BodyText"@[0] == 'B');
}

/// The text of a paragraph whose one run holds `text` is `text`.
proof fn lemma_single_run_text(text: Seq<char>)
    ensures
        extracted_text(seq![InlineModel::Run(seq![PieceModel::Text(text)])]) == text,
{
    let children = seq![InlineModel::Run(seq![PieceModel::Text(text)])];
    assert(text_from(children, 1) =~= Seq::<char>::empty());
    assert(text_from(children, 0) =~= text + text_from(children, 1));
    assert(text + Seq::<char>::empty() =~= text);
}

/// Whether every item of a list is a piece of text.
pub open spec fn all_text(items: Seq<ElementModel>) -> bool {
    forall|i: int| 0 <= i < items.len() ==> (#[trigger] items[i]) is Text
}

/// Whether an element is a list, not empty, of pieces of text.
pub open spec fn is_flat_list(element: ElementModel) -> bool {
    element is List && element->List_elements.len() > 0 && all_text(element->List_elements)
}

/// Whether an element is a numbered list.
pub open spec fn is_numbered_list(element: ElementModel) -> bool {
    element is List && element->List_numbered
}

/// Whether a document is made of headings, text and flat lists, with no
/// numbered list directly after another.
pub open spec fn is_simple(document: Seq<ElementModel>) -> bool {
    &&& forall|i: int|
        0 <= i < document.len() ==> (#[trigger] document[i]) is Header || document[i] is Text
            || is_flat_list(document[i])
    &&& forall|i: int|
        0 < i < document.len() ==> !(is_numbered_list(document[i - 1]) && is_numbered_list(
            #[trigger] document[i],
        ))
}

/// The items of a list as they are read: each at the size of a list item.
pub open spec fn items_read(items: Seq<ElementModel>) -> Seq<ElementModel> {
    Seq::new(
        items.len(),
        |i: int| ElementModel::Text { text: items[i]->Text_text, size: ITEM_SIZE },
    )
}

/// What is left of an element that is written and read again: a heading
/// of the first two ranks as it was, text at the body size, a numbered
/// list with its items at the size of a list item. Other headings and
/// bulleted lists are written without a style or numbering that the
/// reader knows, and are lost.
pub open spec fn survivor(element: ElementModel) -> Seq<ElementModel> {
    match element {
        ElementModel::Header { level, text } => if level == 1 || level == 2 {
            seq![element]
        } else {
            Seq::empty()
        },
        ElementModel::Text { text, size } => seq![ElementModel::Text { text, size: BODY_SIZE }],
        ElementModel::List { elements, numbered } => if numbered {
            seq![ElementModel::List { elements: items_read(elements), numbered: true }]
        } else {
            Seq::empty()
        },
        _ => Seq::empty(),
    }
}

/// What is left of the elements from position `from` on.
pub open spec fn survivors(document: Seq<ElementModel>, from: int) -> Seq<ElementModel>
    decreases document.len() - from,
{
    if from < 0 || from >= document.len() {
        Seq::empty()
    } else {
        survivor(document[from]) + survivors(document, from + 1)
    }
}

/// A heading or a piece of text, written and read, closes the open list
/// and leaves what survives of it.
proof fn lemma_leaf_element(s: EngineModel, element: ElementModel)
    requires
        element is Header || element is Text,
    ensures
        engine_from(s, as_read(element_chunks(element), 0), 0) == Ok::<EngineModel, FormatError>(
            EngineModel { done: flushed(s) + survivor(element), open: None },
        ),
{
    lemma_style_names_differ();
    let chunks = element_chunks(element);
    assert(chunks.len() == 1);
    let line = chunks[0]->Line_0;
    let blocks = as_read(chunks, 0);
    assert(as_read(chunks, 1) =~= Seq::<BlockModel>::empty());
    assert(blocks =~= seq![BlockModel::Paragraph(line_as_read(line))]);
    lemma_single_run_text(line.text);
    let next = EngineModel { done: flushed(s) + survivor(element), open: None };
    assert(flushed(s) + Seq::<ElementModel>::empty() =~= flushed(s));
    assert(forall|e: ElementModel| flushed(s) + seq![e] =~= #[trigger] flushed(s).push(e));
    assert(step(s, blocks[0]) == Ok::<EngineModel, FormatError>(next));
    assert(engine_from(next, blocks, 1) == Ok::<EngineModel, FormatError>(next));
}

/// The items of a bulleted list of text, written and read, close the open
/// list and leave nothing.
proof fn lemma_bulleted_items(s: EngineModel, items: Seq<ElementModel>, from: int)
    requires
        all_text(items),
        0 <= from < items.len(),
    ensures
        engine_from(s, as_read(items_chunks(items, false, 0, from), 0), 0) == Ok::<
            EngineModel,
            FormatError,
        >(EngineModel { done: flushed(s), open: None }),
    decreases items.len() - from,
{
    let head = list_chunks(items[from], false, 0);
    let tail = items_chunks(items, false, 0, from + 1);
    let line = head[0]->Line_0;
    let blocks = as_read(head, 0);
    let next = EngineModel { done: flushed(s), open: None };
    assert(as_read(head, 1) =~= Seq::<BlockModel>::empty());
    assert(blocks =~= seq![BlockModel::Paragraph(line_as_read(line))]);
    assert(step(s, blocks[0]) == Ok::<EngineModel, FormatError>(next));
    assert(engine_from(next, blocks, 1) == Ok::<EngineModel, FormatError>(next));
    lemma_as_read_concat(head, tail, 0);
    lemma_engine_concat(s, blocks, as_read(tail, 0), 0);
    if from + 1 < items.len() {
        lemma_bulleted_items(next, items, from + 1);
    } else {
        assert(as_read(tail, 0) =~= Seq::<BlockModel>::empty());
    }
}

/// The items of a numbered list of text from position `from` on, written
/// and read while a run is open at the first level, are appended to it.
proof fn lemma_numbered_items(s: EngineModel, items: Seq<ElementModel>, from: int)
    requires
        all_text(items),
        0 <= from <= items.len(),
        s.open is Some,
        s.open->Some_0.level == 0,
    ensures
        engine_from(s, as_read(items_chunks(items, true, 0, from), 0), 0) == Ok::<
            EngineModel,
            FormatError,
        >(
            EngineModel {
                done: s.done,
                open: Some(
                    OpenRun {
                        level: 0,
                        numbered: s.open->Some_0.numbered,
                        items: s.open->Some_0.items + items_read(items).subrange(
                            from,
                            items.len() as int,
                        ),
                    },
                ),
            },
        ),
    decreases items.len() - from,
{
    let run = s.open->Some_0;
    if from < items.len() {
        let head = list_chunks(items[from], true, 0);
        let tail = items_chunks(items, true, 0, from + 1);
        let line = head[0]->Line_0;
        let blocks = as_read(head, 0);
        let item = items_read(items)[from];
        let next = EngineModel {
            done: s.done,
            open: Some(
                OpenRun { level: 0, numbered: run.numbered, items: run.items.push(item) },
            ),
        };
        assert(as_read(head, 1) =~= Seq::<BlockModel>::empty());
        assert(blocks =~= seq![BlockModel::Paragraph(line_as_read(line))]);
        lemma_single_run_text(line.text);
        assert(step(s, blocks[0]) == Ok::<EngineModel, FormatError>(next));
        assert(engine_from(next, blocks, 1) == Ok::<EngineModel, FormatError>(next));
        lemma_as_read_concat(head, tail, 0);
        lemma_engine_concat(s, blocks, as_read(tail, 0), 0);
        lemma_numbered_items(next, items, from + 1);
        assert(run.items.push(item) + items_read(items).subrange(from + 1, items.len() as int)
            =~= run.items + items_read(items).subrange(from, items.len() as int));
    } else {
        assert(as_read(items_chunks(items, true, 0, from), 0) =~= Seq::<BlockModel>::empty());
        assert(run.items + items_read(items).subrange(from, items.len() as int) =~= run.items);
    }
}

/// A numbered list of text, written and read while no list is open, opens
/// a run that holds its items.
proof fn lemma_numbered_list(s: EngineModel, items: Seq<ElementModel>)
    requires
        all_text(items),
        items.len() > 0,
        s.open is None,
    ensures
        engine_from(s, as_read(items_chunks(items, true, 0, 0), 0), 0) == Ok::<
            EngineModel,
            FormatError,
        >(
            EngineModel {
                done: s.done,
                open: Some(OpenRun { level: 0, numbered: true, items: items_read(items) }),
            },
        ),
{
    let head = list_chunks(items[0], true, 0);
    let tail = items_chunks(items, true, 0, 1);
    let line = head[0]->Line_0;
    let blocks = as_read(head, 0);
    let item = items_read(items)[0];
    let next = EngineModel {
        done: s.done,
        open: Some(OpenRun { level: 0, numbered: true, items: seq![item] }),
    };
    assert(as_read(head, 1) =~= Seq::<BlockModel>::empty());
    assert(blocks =~= seq![BlockModel::Paragraph(line_as_read(line))]);
    lemma_single_run_text(line.text);
    assert(step(s, blocks[0]) == Ok::<EngineModel, FormatError>(next));
    assert(engine_from(next, blocks, 1) == Ok::<EngineModel, FormatError>(next));
    lemma_as_read_concat(head, tail, 0);
    lemma_engine_concat(s, blocks, as_read(tail, 0), 0);
    lemma_numbered_items(next, items, 1);
    assert(seq![item] + items_read(items).subrange(1, items.len() as int) =~= items_read(items));
}

/// The elements of a simple document from position `from` on, written and
/// read, leave what survives of them after what was complete before.
proof fn lemma_simple_from(s: EngineModel, document: Seq<ElementModel>, from: int)
    requires
        is_simple(document),
        0 <= from <= document.len(),
        s.open is Some ==> from > 0 && is_numbered_list(document[from - 1]),
    ensures
        engine_from(s, as_read(elements_chunks(document, from), 0), 0) is Ok,
        flushed(engine_from(s, as_read(elements_chunks(document, from), 0), 0)->Ok_0) == flushed(s)
            + survivors(document, from),
    decreases document.len() - from,
{
    if from < document.len() {
        let element = document[from];
        let head = element_chunks(element);
        let tail = elements_chunks(document, from + 1);
        lemma_as_read_concat(head, tail, 0);
        lemma_engine_concat(s, as_read(head, 0), as_read(tail, 0), 0);
        if element is List {
            let items = element->List_elements;
            if element->List_numbered {
                assert(s.open is None);
                lemma_numbered_list(s, items);
                let next = EngineModel {
                    done: s.done,
                    open: Some(OpenRun { level: 0, numbered: true, items: items_read(items) }),
                };
                lemma_simple_from(next, document, from + 1);
                assert(flushed(next) =~= flushed(s) + survivor(element));
                assert(flushed(next) + survivors(document, from + 1) =~= flushed(s) + survivors(
                    document,
                    from,
                ));
            } else {
                lemma_bulleted_items(s, items, 0);
                let next = EngineModel { done: flushed(s), open: None };
                lemma_simple_from(next, document, from + 1);
                assert(flushed(next) + survivors(document, from + 1) =~= flushed(s) + survivors(
                    document,
                    from,
                ));
            }
        } else {
            lemma_leaf_element(s, element);
            let next = EngineModel { done: flushed(s) + survivor(element), open: None };
            lemma_simple_from(next, document, from + 1);
            assert(flushed(next) + survivors(document, from + 1) =~= flushed(s) + survivors(
                document,
                from,
            ));
        }
    } else {
        assert(as_read(elements_chunks(document, from), 0) =~= Seq::<BlockModel>::empty());
        assert(flushed(s) + survivors(document, from) =~= flushed(s));
    }
}

/// A list of text can be rendered at every depth.
proof fn lemma_text_items_fit(items: Seq<ElementModel>, depth: nat, from: int)
    requires
        all_text(items),
        0 <= from <= items.len(),
    ensures
        items_fit(items, depth, from),
    decreases items.len() - from,
{
    if from < items.len() {
        lemma_text_items_fit(items, depth, from + 1);
        assert(items[from] is Text);
        assert(list_fits(items[from], depth));
    }
}

/// A simple document of plain texts comes back, when its package is built
/// and parsed again, as what survives of its elements, in order: headings
/// of the first two ranks, text at the body size, and numbered lists with
/// their items in order. Bulleted lists are written as dashed text and do
/// not come back.
pub proof fn lemma_round_trip_simple(document: Seq<ElementModel>)
    requires
        is_simple(document),
        has_plain_texts(document),
    ensures
        round_trip(document) == Ok::<Seq<ElementModel>, FormatError>(survivors(document, 0)),
{
    assert forall|i: int| 0 <= i < document.len() implies element_fits(
        #[trigger] document[i],
    ) by {
        if document[i] is List {
            lemma_text_items_fit(document[i]->List_elements, 0, 0);
        }
    }
    lemma_simple_plain_lines(document, 0);
    lemma_written_as_read(elements_chunks(document, 0), 0);
    lemma_simple_from(initial(), document, 0);
    assert(flushed(initial()) + survivors(document, 0) =~= survivors(document, 0));
}

/// A numbered list of plain text at the size of list items, alone in a
/// document, comes back as it was: numbered, with its items in order.
pub proof fn lemma_round_trip_numbered_list(items: Seq<ElementModel>)
    requires
        items.len() > 0,
        forall|i: int|
            0 <= i < items.len() ==> (#[trigger] items[i]) is Text && items[i]->Text_size
                == ITEM_SIZE && is_plain_text(items[i]->Text_text),
    ensures
        round_trip(seq![ElementModel::List { elements: items, numbered: true }]) == Ok::<
            Seq<ElementModel>,
            FormatError,
        >(seq![ElementModel::List { elements: items, numbered: true }]),
{
    let document = seq![ElementModel::List { elements: items, numbered: true }];
    assert(is_flat_list(document[0]));
    assert(has_plain_text(document[0]));
    lemma_round_trip_simple(document);
    assert(items_read(items) =~= items);
    assert(survivors(document, 1) =~= Seq::<ElementModel>::empty());
    assert(survivors(document, 0) =~= document);
}

/// Every plain element survives as it was.
proof fn lemma_plain_survive(document: Seq<ElementModel>, from: int)
    requires
        all_plain(document),
        0 <= from <= document.len(),
    ensures
        survivors(document, from) == document.subrange(from, document.len() as int),
    decreases document.len() - from,
{
    if from < document.len() {
        lemma_plain_survive(document, from + 1);
        assert(is_plain(document[from]));
        assert(survivor(document[from]) =~= seq![document[from]]);
        assert(seq![document[from]] + document.subrange(from + 1, document.len() as int)
            =~= document.subrange(from, document.len() as int));
    } else {
        assert(document.subrange(from, document.len() as int) =~= Seq::<ElementModel>::empty());
    }
}

/// A document of headings of the first two ranks and of text of the body
/// size, all of plain text, comes back as it was when its package is built
/// and parsed again.
pub proof fn lemma_round_trip_plain(document: Seq<ElementModel>)
    requires
        all_plain(document),
        has_plain_texts(document),
    ensures
        round_trip(document) == Ok::<Seq<ElementModel>, FormatError>(document),
{
    assert forall|i: int| 0 <= i < document.len() implies (#[trigger] document[i]) is Header
        || document[i] is Text || is_flat_list(document[i]) by {
        assert(is_plain(document[i]));
    }
    assert forall|i: int| 0 < i < document.len() implies !(is_numbered_list(document[i - 1])
        && is_numbered_list(#[trigger] document[i])) by {
        assert(is_plain(document[i]));
    }
    lemma_round_trip_simple(document);
    lemma_plain_survive(document, 0);
    assert(document.subrange(0, document.len() as int) =~= document);
}

/// A bulleted list of plain text, alone in a document, does not come back
/// when its package is built and parsed again.
pub proof fn lemma_round_trip_bulleted_list(items: Seq<ElementModel>)
    requires
        items.len() > 0,
        all_text(items),
        forall|i: int| 0 <= i < items.len() ==> is_plain_text((#[trigger] items[i])->Text_text),
    ensures
        round_trip(seq![ElementModel::List { elements: items, numbered: false }]) == Ok::<
            Seq<ElementModel>,
            FormatError,
        >(Seq::empty()),
{
    let document = seq![ElementModel::List { elements: items, numbered: false }];
    assert(is_flat_list(document[0]));
    assert(has_plain_text(document[0]));
    lemma_round_trip_simple(document);
    assert(survivors(document, 1) =~= Seq::<ElementModel>::empty());
    assert(survivors(document, 0) =~= Seq::<ElementModel>::empty());
}

} // verus!
