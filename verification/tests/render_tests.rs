use docx_adapter::model::{
    Document, Element, ImageData, ImageDimension, ListItem, TableCell, TableRow,
};
use docx_adapter::render::{
    declared, detect_element_in_list, element_fits_in, fits, heading_size, parse_length, render,
    render_element, Cell, Chunk, Line, Marker, Skip, Style, HEADING_NUMBERING, MAX_DEPTH,
    SHARED_NUMBERING,
};

fn text(text: &str, size: u8) -> Element {
    Element::Text { text: text.to_string(), size }
}

fn item(element: Element) -> ListItem {
    ListItem { element }
}

fn line(text: &str, half_points: usize) -> Line {
    Line { text: text.to_string(), half_points, marker: None, style: None, link: None }
}

fn image(width: Option<&str>, height: Option<&str>) -> ImageData {
    ImageData {
        bytes: vec![1, 2, 3],
        size: ImageDimension {
            width: width.map(|w| w.to_string()),
            height: height.map(|h| h.to_string()),
        },
    }
}

#[test]
fn reserved_numberings() {
    assert_eq!(SHARED_NUMBERING, 2);
    assert_eq!(HEADING_NUMBERING, 3);
    assert_eq!(MAX_DEPTH, 0x3fff_ffff);
}

#[test]
fn heading_sizes_by_rank() {
    assert_eq!(heading_size(1), 18);
    assert_eq!(heading_size(2), 16);
    assert_eq!(heading_size(3), 14);
    assert_eq!(heading_size(0), 14);
    assert_eq!(heading_size(255), 14);
}

#[test]
fn heading_of_rank_zero_takes_the_smallest_size() {
    let document = Document::new(vec![Element::Header { level: 0, text: "h".to_string() }]);
    assert_eq!(render(&document), Ok(vec![Chunk::Line(line("h", 28))]));
}

#[test]
fn headings_and_text_outside_lists() {
    let document = Document::new(vec![
        Element::Header { level: 1, text: "One".to_string() },
        Element::Header { level: 2, text: "Two".to_string() },
        Element::Header { level: 3, text: "Three".to_string() },
        text("body", 16),
        text("small", 7),
    ]);
    assert_eq!(
        render(&document),
        Ok(vec![
            Chunk::Line(Line { style: Some(Style::Heading1), ..line("One", 36) }),
            Chunk::Line(Line { style: Some(Style::Heading2), ..line("Two", 32) }),
            Chunk::Line(line("Three", 28)),
            Chunk::Line(Line { style: Some(Style::BodyText), ..line("body", 32) }),
            Chunk::Line(Line { style: Some(Style::BodyText), ..line("small", 14) }),
        ])
    );
}

#[test]
fn numbered_items_refer_to_the_shared_numbering() {
    let document = Document::new(vec![Element::List {
        elements: vec![item(text("a", 12)), item(text("b", 12)), item(text("c", 12))],
        numbered: true,
    }]);
    let marked = |t: &str| {
        Chunk::Line(Line { marker: Some(Marker { id: 2, level: 0 }), ..line(t, 24) })
    };
    assert_eq!(render(&document), Ok(vec![marked("a"), marked("b"), marked("c")]));
}

#[test]
fn bulleted_items_are_dashed_text() {
    let document = Document::new(vec![Element::List {
        elements: vec![item(text("a", 12)), item(text("b", 12))],
        numbered: false,
    }]);
    assert_eq!(
        render(&document),
        Ok(vec![Chunk::Line(line("- a", 24)), Chunk::Line(line("- b", 24))])
    );
}

#[test]
fn nested_lists_are_walked_depth_first() {
    let inner = Element::List {
        elements: vec![
            item(text("b", 10)),
            item(Element::List { elements: vec![item(text("c", 10))], numbered: true }),
        ],
        numbered: false,
    };
    let document = Document::new(vec![Element::List {
        elements: vec![item(text("a", 10)), item(inner), item(text("d", 10))],
        numbered: true,
    }]);
    assert_eq!(
        render(&document),
        Ok(vec![
            Chunk::Line(Line { marker: Some(Marker { id: 2, level: 0 }), ..line("a", 20) }),
            Chunk::Line(line("    - b", 20)),
            Chunk::Line(Line { marker: Some(Marker { id: 2, level: 2 }), ..line("c", 20) }),
            Chunk::Line(Line { marker: Some(Marker { id: 2, level: 0 }), ..line("d", 20) }),
        ])
    );
}

#[test]
fn dashes_are_indented_by_four_spaces_for_each_level() {
    let mut out = Vec::new();
    detect_element_in_list(&mut out, &text("x", 12), false, 3);
    assert_eq!(out, vec![Chunk::Line(line("            - x", 24))]);
    let mut out = Vec::new();
    detect_element_in_list(&mut out, &text("x", 12), true, 3);
    assert_eq!(
        out,
        vec![Chunk::Line(Line { marker: Some(Marker { id: 2, level: 3 }), ..line("x", 24) })]
    );
}

#[test]
fn headings_inside_lists() {
    let heading = Element::Header { level: 1, text: "h".to_string() };
    let mut out = Vec::new();
    detect_element_in_list(&mut out, &heading, true, 5);
    detect_element_in_list(&mut out, &heading, false, 5);
    assert_eq!(
        out,
        vec![
            Chunk::Line(Line { marker: Some(Marker { id: 3, level: 0 }), ..line("h", 36) }),
            Chunk::Line(Line { style: Some(Style::ListBullet), ..line("h", 36) }),
        ]
    );
}

#[test]
fn links_inside_and_outside_lists() {
    let link = Element::Hyperlink {
        title: "site".to_string(),
        url: "http://example.org".to_string(),
        alt: Some("alt".to_string()),
        size: 11,
    };
    let mut out = Vec::new();
    detect_element_in_list(&mut out, &link, true, 1);
    detect_element_in_list(&mut out, &link, false, 1);
    render_element(&mut out, &link);
    let url = Some("http://example.org".to_string());
    assert_eq!(
        out,
        vec![
            Chunk::Line(Line {
                marker: Some(Marker { id: 2, level: 1 }),
                link: url.clone(),
                ..line("site", 22)
            }),
            Chunk::Line(Line { link: url.clone(), ..line("    - site", 22) }),
            Chunk::Line(Line { link: url, ..line("site", 22) }),
        ]
    );
}

#[test]
fn other_elements_inside_lists_are_skipped() {
    let table = Element::Table { headers: vec![], rows: vec![] };
    let group = Element::Paragraph { elements: vec![text("t", 1)] };
    let picture = Element::Image(image(None, None));
    let mut out = vec![Chunk::Skipped(Skip::InParagraph)];
    detect_element_in_list(&mut out, &table, true, 0);
    detect_element_in_list(&mut out, &group, false, 0);
    detect_element_in_list(&mut out, &picture, false, 0);
    assert_eq!(
        out,
        vec![
            Chunk::Skipped(Skip::InParagraph),
            Chunk::Skipped(Skip::InList),
            Chunk::Skipped(Skip::InList),
            Chunk::Skipped(Skip::InList),
        ]
    );
}

#[test]
fn paragraph_groups_take_text_only() {
    let document = Document::new(vec![Element::Paragraph {
        elements: vec![
            text("a", 10),
            Element::Header { level: 1, text: "h".to_string() },
            text("b", 20),
        ],
    }]);
    assert_eq!(
        render(&document),
        Ok(vec![
            Chunk::Line(Line { style: Some(Style::BodyText), ..line("a", 20) }),
            Chunk::Skipped(Skip::InParagraph),
            Chunk::Line(Line { style: Some(Style::BodyText), ..line("b", 40) }),
        ])
    );
}

#[test]
fn tables_take_text_cells_and_put_headers_first() {
    let cell = |e: Element| TableCell { element: e };
    let table = Element::Table {
        headers: vec![cell(text("h1", 14)), cell(Element::Header { level: 1, text: "x".to_string() })],
        rows: vec![
            TableRow { cells: vec![cell(text("a", 10)), cell(text("b", 11))] },
            TableRow { cells: vec![] },
        ],
    };
    let out_cell = |t: &str, hp: usize| Cell { text: t.to_string(), half_points: hp };
    assert_eq!(
        render(&Document::new(vec![table])),
        Ok(vec![Chunk::Table(vec![
            vec![out_cell("h1", 28)],
            vec![out_cell("a", 20), out_cell("b", 22)],
            vec![],
        ])])
    );
    let bare = Element::Table {
        headers: vec![],
        rows: vec![TableRow { cells: vec![cell(text("a", 10))] }],
    };
    assert_eq!(
        render(&Document::new(vec![bare])),
        Ok(vec![Chunk::Table(vec![vec![out_cell("a", 20)]])])
    );
}

#[test]
fn lengths_are_decimal_numbers() {
    assert_eq!(parse_length(&"0".to_string()), 0);
    assert_eq!(parse_length(&"42".to_string()), 42);
    assert_eq!(parse_length(&"+42".to_string()), 42);
    assert_eq!(parse_length(&"007".to_string()), 7);
    assert_eq!(parse_length(&"4294967295".to_string()), 4_294_967_295);
    assert_eq!(parse_length(&"10000000".to_string()), 10_000_000);
}

#[test]
fn anything_else_declares_no_length() {
    for s in ["", "+", "-1", "1.5", " 1", "1 ", "12px", "4294967296", "99999999999999999999999", "++1", "\u{0661}\u{0662}"] {
        assert_eq!(parse_length(&s.to_string()), 0, "{:?}", s);
    }
}

#[test]
fn lengths_agree_with_the_standard_parser() {
    for s in ["1", "+0", "+", "65536", "4294967295", "4294967296", "0x10", "1e3", "-0", "+-1"] {
        let expected: u32 = s.parse().unwrap_or(0);
        assert_eq!(parse_length(&s.to_string()), expected, "{:?}", s);
    }
}

#[test]
fn a_picture_declares_an_extent_with_two_positive_sides() {
    assert_eq!(declared(&image(Some("100"), Some("200")).size), Some((100, 200)));
    assert_eq!(declared(&image(Some("100"), None).size), None);
    assert_eq!(declared(&image(None, Some("200")).size), None);
    assert_eq!(declared(&image(Some("0"), Some("200")).size), None);
    assert_eq!(declared(&image(Some("100"), Some("")).size), None);
    assert_eq!(declared(&image(Some("wide"), Some("200")).size), None);
}

#[test]
fn pictures_carry_their_bytes_and_declared_extent() {
    let document = Document::new(vec![
        Element::Image(image(Some("10000000"), Some("2000000"))),
        Element::Image(image(None, None)),
    ]);
    assert_eq!(
        render(&document),
        Ok(vec![
            Chunk::Picture { bytes: vec![1, 2, 3], declared: Some((10_000_000, 2_000_000)) },
            Chunk::Picture { bytes: vec![1, 2, 3], declared: None },
        ])
    );
}

#[test]
fn lists_fit_down_to_the_deepest_level() {
    let list = Element::List { elements: vec![item(text("a", 1))], numbered: true };
    assert!(fits(&list, 0));
    assert!(fits(&list, MAX_DEPTH - 1));
    assert!(!fits(&list, MAX_DEPTH));
    assert!(fits(&text("a", 1), MAX_DEPTH));
    let outer = Element::List { elements: vec![item(list)], numbered: true };
    assert!(fits(&outer, MAX_DEPTH - 2));
    assert!(!fits(&outer, MAX_DEPTH - 1));
    assert!(element_fits_in(&outer));
}

#[test]
fn the_example_document() {
    let document = Document::new(vec![
        Element::Header { level: 1, text: "Title".to_string() },
        text("body", 16),
        Element::List { elements: vec![item(text("a", 12)), item(text("b", 12))], numbered: false },
    ]);
    assert_eq!(
        render(&document),
        Ok(vec![
            Chunk::Line(Line { style: Some(Style::Heading1), ..line("Title", 36) }),
            Chunk::Line(Line { style: Some(Style::BodyText), ..line("body", 32) }),
            Chunk::Line(line("- a", 24)),
            Chunk::Line(line("- b", 24)),
        ])
    );
}

#[test]
fn a_document_hands_out_its_elements_in_order() {
    let document = Document::new(vec![text("a", 1), text("b", 2)]);
    assert_eq!(document.get_all_elements(), &vec![text("a", 1), text("b", 2)]);
    assert_eq!(document.elements.len(), 2);
}
