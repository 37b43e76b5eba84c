use docx_adapter::error::FormatError;
use docx_adapter::model::{Element, ListItem, TableCell, TableRow};
use docx_adapter::raw::{
    CellContent, Inline, Numbering, Piece, RawBlock, RawParagraph, RawTable,
};
use docx_adapter::reconstruct::{
    classify, extract_text, place_of, reconstruct, table_element, ListEngine, Place, BODY_SIZE,
    BULLETED_ID, ITEM_SIZE, NUMBERED_HEADING_ID, NUMBERED_ID,
};

fn head(text: &str) -> Inline {
    Inline::Run(vec![Piece::Text(text.to_string())])
}

fn run(text: &str) -> Vec<Inline> {
    vec![head(text)]
}

fn styled(style: &str, text: &str) -> RawBlock {
    RawBlock::Paragraph(RawParagraph {
        numbering: None,
        style: Some(style.to_string()),
        children: run(text),
    })
}

fn item(id: usize, level: usize, text: &str) -> RawBlock {
    RawBlock::Paragraph(RawParagraph {
        numbering: Some(Numbering { id: Some(id), level: Some(level) }),
        style: None,
        children: run(text),
    })
}

fn leaf(text: &str) -> ListItem {
    ListItem { element: Element::Text { text: text.to_string(), size: 12 } }
}

fn nested(numbered: bool, text: &str) -> ListItem {
    ListItem { element: Element::List { elements: vec![leaf(text)], numbered } }
}

#[test]
fn reserved_ids_and_sizes() {
    assert_eq!(NUMBERED_ID, 2);
    assert_eq!(NUMBERED_HEADING_ID, 3);
    assert_eq!(BULLETED_ID, 4);
    assert_eq!(ITEM_SIZE, 12);
    assert_eq!(BODY_SIZE, 16);
}

#[test]
fn empty_stream_gives_empty_document() {
    assert_eq!(reconstruct(&vec![]), Ok(vec![]));
}

#[test]
fn styles_are_classified() {
    let blocks = vec![
        styled("Heading1", "One"),
        styled("Heading2", "Two"),
        styled("BodyText", "body"),
        styled("Normal", "normal"),
    ];
    assert_eq!(
        reconstruct(&blocks),
        Ok(vec![
            Element::Header { level: 1, text: "One".to_string() },
            Element::Header { level: 2, text: "Two".to_string() },
            Element::Text { text: "body".to_string(), size: 16 },
            Element::Text { text: "normal".to_string(), size: 16 },
        ])
    );
}

#[test]
fn unknown_or_absent_style_is_dropped() {
    let blocks = vec![
        styled("Heading3", "three"),
        RawBlock::Paragraph(RawParagraph { numbering: None, style: None, children: run("plain") }),
        styled("heading1", "case matters"),
        RawBlock::Other,
    ];
    assert_eq!(reconstruct(&blocks), Ok(vec![]));
    let unstyled = RawParagraph { numbering: None, style: None, children: run("plain") };
    assert_eq!(classify(&unstyled), None);
}

#[test]
fn text_is_taken_from_the_head_of_each_run() {
    let children = vec![
        head("a"),
        Inline::NotRun,
        Inline::Run(vec![Piece::Other, Piece::Text("hidden".to_string())]),
        Inline::Run(vec![Piece::Text("b".to_string()), Piece::Text("tail".to_string())]),
    ];
    assert_eq!(extract_text(&children), "ab");
    assert_eq!(extract_text(&vec![]), "");
}

#[test]
fn text_stops_at_the_first_empty_run() {
    let children = vec![head("a"), Inline::Run(vec![]), head("b")];
    assert_eq!(extract_text(&children), "a");
    assert_eq!(extract_text(&vec![Inline::Run(vec![]), head("x")]), "");
}

#[test]
fn a_run_of_items_becomes_one_list() {
    let blocks = vec![item(2, 0, "a"), item(2, 0, "b"), item(2, 0, "c")];
    assert_eq!(
        reconstruct(&blocks),
        Ok(vec![Element::List { elements: vec![leaf("a"), leaf("b"), leaf("c")], numbered: true }])
    );
}

#[test]
fn the_bulleted_id_gives_a_bulleted_list() {
    let blocks = vec![item(4, 0, "a"), item(4, 0, "b")];
    assert_eq!(
        reconstruct(&blocks),
        Ok(vec![Element::List { elements: vec![leaf("a"), leaf("b")], numbered: false }])
    );
}

#[test]
fn a_list_stands_where_its_first_item_stood() {
    let blocks = vec![
        styled("Heading1", "Title"),
        item(2, 0, "a"),
        item(2, 0, "b"),
        styled("BodyText", "after"),
        item(4, 1, "c"),
    ];
    assert_eq!(
        reconstruct(&blocks),
        Ok(vec![
            Element::Header { level: 1, text: "Title".to_string() },
            Element::List { elements: vec![leaf("a"), leaf("b")], numbered: true },
            Element::Text { text: "after".to_string(), size: 16 },
            Element::List { elements: vec![leaf("c")], numbered: false },
        ])
    );
}

#[test]
fn a_deeper_item_is_wrapped_in_a_list_of_its_own() {
    let blocks = vec![item(2, 0, "a"), item(2, 1, "b"), item(2, 1, "c")];
    assert_eq!(
        reconstruct(&blocks),
        Ok(vec![Element::List {
            elements: vec![leaf("a"), nested(true, "b"), leaf("c")],
            numbered: true,
        }])
    );
}

#[test]
fn levels_up_and_down_flush_at_each_decrease_and_at_the_end() {
    let blocks = vec![
        item(2, 0, "a"),
        item(2, 1, "b"),
        item(2, 2, "c"),
        item(2, 1, "d"),
        item(2, 0, "e"),
    ];
    let document = reconstruct(&blocks).unwrap();
    // two strict decreases, and the flush at the end of the stream
    assert_eq!(document.len(), 3);
    assert_eq!(
        document,
        vec![
            Element::List {
                elements: vec![leaf("a"), nested(true, "b"), nested(true, "c")],
                numbered: true,
            },
            Element::List { elements: vec![leaf("d")], numbered: true },
            Element::List { elements: vec![leaf("e")], numbered: true },
        ]
    );
}

#[test]
fn the_engine_takes_blocks_one_by_one() {
    let mut engine = ListEngine::new();
    for level in [0usize, 1, 2, 1, 0] {
        engine = engine.feed(&item(2, level, "x")).unwrap();
    }
    assert_eq!(engine.finish().len(), 3);
    let broken = RawBlock::Paragraph(RawParagraph {
        numbering: Some(Numbering { id: None, level: None }),
        style: None,
        children: vec![],
    });
    assert!(matches!(ListEngine::new().feed(&broken), Err(FormatError::NumberingId)));
}

#[test]
fn the_flavor_of_a_run_is_the_one_recorded_when_it_opened() {
    // a numbered run, then a bulleted item one level up: the run is flushed
    // as numbered, and the new run is bulleted
    let blocks = vec![item(2, 1, "a"), item(2, 1, "b"), item(4, 0, "c"), item(2, 0, "d")];
    assert_eq!(
        reconstruct(&blocks),
        Ok(vec![
            Element::List { elements: vec![leaf("a"), leaf("b")], numbered: true },
            Element::List { elements: vec![leaf("c"), leaf("d")], numbered: false },
        ])
    );
}

#[test]
fn a_nested_list_takes_the_flavor_of_its_item() {
    let blocks = vec![item(2, 0, "a"), item(4, 1, "b")];
    assert_eq!(
        reconstruct(&blocks),
        Ok(vec![Element::List { elements: vec![leaf("a"), nested(false, "b")], numbered: true }])
    );
}

#[test]
fn a_numbering_without_id_is_an_error() {
    let broken = RawBlock::Paragraph(RawParagraph {
        numbering: Some(Numbering { id: None, level: Some(0) }),
        style: Some("Normal".to_string()),
        children: run("x"),
    });
    assert_eq!(reconstruct(&vec![styled("Normal", "ok"), broken]), Err(FormatError::NumberingId));
}

#[test]
fn a_list_numbering_without_level_is_an_error() {
    let broken = RawParagraph {
        numbering: Some(Numbering { id: Some(2), level: None }),
        style: None,
        children: run("x"),
    };
    assert_eq!(place_of(&broken), Err(FormatError::NumberingLevel));
    assert_eq!(
        reconstruct(&vec![RawBlock::Paragraph(broken)]),
        Err(FormatError::NumberingLevel)
    );
}

#[test]
fn another_numbering_makes_no_list_item() {
    let other = RawParagraph {
        numbering: Some(Numbering { id: Some(7), level: None }),
        style: Some("Heading2".to_string()),
        children: run("h"),
    };
    assert_eq!(place_of(&other), Ok(None));
    let blocks = vec![item(2, 0, "a"), RawBlock::Paragraph(other), item(2, 0, "b")];
    assert_eq!(
        reconstruct(&blocks),
        Ok(vec![
            Element::List { elements: vec![leaf("a")], numbered: true },
            Element::Header { level: 2, text: "h".to_string() },
            Element::List { elements: vec![leaf("b")], numbered: true },
        ])
    );
}

#[test]
fn place_of_a_list_item() {
    let p = RawParagraph {
        numbering: Some(Numbering { id: Some(4), level: Some(4) }),
        style: None,
        children: vec![],
    };
    assert_eq!(place_of(&p), Ok(Some(Place { level: 4, numbered: false })));
    let plain = RawParagraph { numbering: None, style: None, children: vec![] };
    assert_eq!(place_of(&plain), Ok(None));
}

#[test]
fn a_table_gives_one_row_for_each_source_row_and_no_headers() {
    let paragraph = |text: &str| {
        CellContent::Paragraph(RawParagraph {
            numbering: None,
            style: None,
            children: run(text),
        })
    };
    let table = RawTable {
        rows: vec![
            vec![vec![paragraph("a")], vec![paragraph("b"), CellContent::Other, paragraph("c")]],
            vec![],
            vec![vec![], vec![paragraph("d")]],
        ],
    };
    let cell = |text: &str| TableCell {
        element: Element::Text { text: text.to_string(), size: 16 },
    };
    let expected = Element::Table {
        headers: vec![],
        rows: vec![
            TableRow { cells: vec![cell("a"), cell("b"), cell("c")] },
            TableRow { cells: vec![] },
            TableRow { cells: vec![cell("d")] },
        ],
    };
    assert_eq!(table_element(&table), expected);
}

#[test]
fn a_table_closes_an_open_list() {
    let blocks = vec![item(2, 0, "a"), RawBlock::Table(RawTable { rows: vec![] }), item(2, 0, "b")];
    assert_eq!(
        reconstruct(&blocks),
        Ok(vec![
            Element::List { elements: vec![leaf("a")], numbered: true },
            Element::Table { headers: vec![], rows: vec![] },
            Element::List { elements: vec![leaf("b")], numbered: true },
        ])
    );
}

#[test]
fn flush_closes_the_open_run() {
    let engine = ListEngine::new().item(
        Place { level: 0, numbered: false },
        Element::Text { text: "a".to_string(), size: 12 },
    );
    let done = engine.flush().finish();
    assert_eq!(done, vec![Element::List { elements: vec![leaf("a")], numbered: false }]);
}

#[test]
fn the_numbering_of_headings_reads_as_numbered() {
    let blocks = vec![item(3, 0, "heading"), item(2, 0, "a")];
    assert_eq!(
        reconstruct(&blocks),
        Ok(vec![Element::List { elements: vec![leaf("heading"), leaf("a")], numbered: true }])
    );
    let p = RawParagraph {
        numbering: Some(Numbering { id: Some(3), level: None }),
        style: None,
        children: vec![],
    };
    assert_eq!(place_of(&p), Err(FormatError::NumberingLevel));
}
