use docx_adapter::error::FormatError;
use docx_adapter::model::{
    Document, Element, ImageData, ImageDimension, ListItem, TableCell, TableRow,
};
use docx_adapter::render::{render, Chunk};
use docx_adapter::transformer::Transformer;
use docx_adapter::writer::{assemble, has_png_signature, place, place_sized, Placed};

fn text(text: &str, size: u8) -> Element {
    Element::Text { text: text.to_string(), size }
}

fn header(level: u8, text: &str) -> Element {
    Element::Header { level, text: text.to_string() }
}

fn item(element: Element) -> ListItem {
    ListItem { element }
}

fn encoded(width: u32, height: u32, format: image::ImageFormat) -> Vec<u8> {
    let picture = image::DynamicImage::new_rgb8(width, height);
    let mut out = std::io::Cursor::new(Vec::new());
    picture.write_to(&mut out, format).unwrap();
    out.into_inner()
}

fn picture(bytes: Vec<u8>, width: Option<&str>, height: Option<&str>) -> Element {
    Element::Image(ImageData {
        bytes,
        size: ImageDimension {
            width: width.map(|w| w.to_string()),
            height: height.map(|h| h.to_string()),
        },
    })
}

/// Of each paragraph of the body: the text and size of its first run, its
/// numbering as id and level, and the name of its style.
fn lines(package: &docx_rs::Docx) -> Vec<(String, Option<docx_rs::Sz>, Option<(usize, usize)>, Option<String>)> {
    package
        .document
        .children
        .iter()
        .filter_map(|child| match child {
            docx_rs::DocumentChild::Paragraph(p) => Some(p),
            _ => None,
        })
        .map(|p| {
            let (text, size) = match p.children.first() {
                Some(docx_rs::ParagraphChild::Run(run)) => (
                    match run.children.first() {
                        Some(docx_rs::RunChild::Text(t)) => t.text.clone(),
                        _ => String::new(),
                    },
                    run.run_property.sz.clone(),
                ),
                _ => (String::new(), None),
            };
            let numbering = p.property.numbering_property.as_ref().map(|n| {
                (n.id.as_ref().unwrap().id, n.level.as_ref().unwrap().val)
            });
            let style = p.property.style.as_ref().map(|s| s.val.clone());
            (text, size, numbering, style)
        })
        .collect()
}

fn line(
    text: &str,
    half_points: usize,
    numbering: Option<(usize, usize)>,
    style: Option<&str>,
) -> (String, Option<docx_rs::Sz>, Option<(usize, usize)>, Option<String>) {
    (text.to_string(), Some(docx_rs::Sz::new(half_points)), numbering, style.map(|s| s.to_string()))
}

#[test]
fn a_numbered_list_is_held_as_marked_paragraphs() {
    let document = Document::new(vec![Element::List {
        elements: vec![item(text("a", 12)), item(text("b", 12)), item(text("c", 12))],
        numbered: true,
    }]);
    let package = Transformer::package(&document).unwrap();
    assert_eq!(
        lines(&package),
        vec![
            line("a", 24, Some((2, 0)), None),
            line("b", 24, Some((2, 0)), None),
            line("c", 24, Some((2, 0)), None),
        ]
    );
}

#[test]
fn a_heading_of_rank_zero_is_held_at_the_smallest_size() {
    let package = Transformer::package(&Document::new(vec![header(0, "x")])).unwrap();
    assert_eq!(lines(&package), vec![line("x", 28, None, None)]);
}

#[test]
fn the_example_document_is_held_as_four_paragraphs() {
    let document = Document::new(vec![
        header(1, "Title"),
        text("body", 16),
        Element::List { elements: vec![item(text("a", 12)), item(text("b", 12))], numbered: false },
    ]);
    let package = Transformer::package(&document).unwrap();
    assert_eq!(
        lines(&package),
        vec![
            line("Title", 36, None, Some("Heading1")),
            line("body", 32, None, Some("BodyText")),
            line("- a", 24, None, None),
            line("- b", 24, None, None),
        ]
    );
}

#[test]
fn a_child_that_is_no_text_is_skipped_and_its_siblings_stay() {
    let document = Document::new(vec![Element::Paragraph {
        elements: vec![text("a", 16), header(1, "h"), text("b", 16)],
    }]);
    let package = Transformer::package(&document).unwrap();
    assert_eq!(
        lines(&package),
        vec![line("a", 32, None, Some("BodyText")), line("b", 32, None, Some("BodyText"))]
    );
}

#[test]
fn a_heading_in_a_numbered_list_refers_to_the_numbering_of_headings() {
    let document = Document::new(vec![Element::List {
        elements: vec![item(header(1, "h")), item(text("a", 12))],
        numbered: true,
    }]);
    let package = Transformer::package(&document).unwrap();
    assert_eq!(
        lines(&package),
        vec![line("h", 36, Some((3, 0)), None), line("a", 24, Some((2, 0)), None)]
    );
    // both numberings read as numbered
    let bytes = Transformer::generate(&document).unwrap();
    assert_eq!(
        Transformer::parse(docx_rs::read_docx(&bytes)),
        Ok(Document::new(vec![Element::List {
            elements: vec![item(text("h", 12)), item(text("a", 12))],
            numbered: true,
        }]))
    );
}

#[test]
fn every_package_holds_the_two_numberings() {
    let package = Transformer::package(&Document::new(vec![])).unwrap();
    let ids: Vec<(usize, usize)> =
        package.numberings.abstract_nums.iter().map(|n| (n.id, n.levels.len())).collect();
    assert_eq!(ids, vec![(2, 8), (3, 1)]);
    let references: Vec<(usize, usize)> =
        package.numberings.numberings.iter().map(|n| (n.id, n.abstract_num_id)).collect();
    assert_eq!(references, vec![(2, 2), (3, 3)]);
    let heading = &package.numberings.abstract_nums[1].levels[0];
    assert_eq!(heading.level, 0);
    assert_eq!(heading.text, docx_rs::LevelText::new("%1"));
    assert_eq!(heading.format, docx_rs::NumberFormat::new("decimal"));
    assert_eq!(heading.jc, docx_rs::LevelJc::new("left"));
    let deepest = &package.numberings.abstract_nums[0].levels[7];
    assert_eq!(deepest.text, docx_rs::LevelText::new("%1.%2.%3.%4.%5.%6.%7.%8"));
    assert_eq!(deepest.paragraph_property.indent.as_ref().unwrap().start, Some(2400));
    assert!(package.document.children.is_empty());
}

#[test]
fn a_table_is_held_with_its_rows_and_cells() {
    let cell = |t: &str, size: u8| TableCell { element: text(t, size) };
    let document = Document::new(vec![Element::Table {
        headers: vec![cell("h", 14)],
        rows: vec![TableRow { cells: vec![cell("a", 10), cell("b", 11)] }, TableRow { cells: vec![] }],
    }]);
    let package = Transformer::package(&document).unwrap();
    assert_eq!(package.document.children.len(), 1);
    let table = match &package.document.children[0] {
        docx_rs::DocumentChild::Table(t) => t,
        other => panic!("not a table: {:?}", other),
    };
    let held: Vec<Vec<(String, Option<docx_rs::Sz>)>> = table
        .rows
        .iter()
        .map(|row| {
            let docx_rs::TableChild::TableRow(row) = row;
            row.cells
                .iter()
                .map(|cell| {
                    let docx_rs::TableRowChild::TableCell(cell) = cell;
                    assert_eq!(cell.children.len(), 1);
                    match &cell.children[0] {
                        docx_rs::TableCellContent::Paragraph(p) => match &p.children[0] {
                            docx_rs::ParagraphChild::Run(run) => match &run.children[0] {
                                docx_rs::RunChild::Text(t) => {
                                    (t.text.clone(), run.run_property.sz.clone())
                                },
                                other => panic!("not text: {:?}", other),
                            },
                            other => panic!("not a run: {:?}", other),
                        },
                        other => panic!("not a paragraph: {:?}", other),
                    }
                })
                .collect()
        })
        .collect();
    let sized = |t: &str, hp: usize| (t.to_string(), Some(docx_rs::Sz::new(hp)));
    assert_eq!(held, vec![vec![sized("h", 28)], vec![sized("a", 20), sized("b", 22)], vec![]]);
}

fn pictures(package: &docx_rs::Docx) -> Vec<(Vec<u8>, (u32, u32))> {
    package
        .document
        .children
        .iter()
        .filter_map(|child| match child {
            docx_rs::DocumentChild::Paragraph(p) => Some(p),
            _ => None,
        })
        .flat_map(|p| p.children.iter())
        .filter_map(|child| match child {
            docx_rs::ParagraphChild::Run(run) => Some(run),
            _ => None,
        })
        .flat_map(|run| run.children.iter())
        .filter_map(|piece| match piece {
            docx_rs::RunChild::Drawing(d) => match &d.data {
                Some(docx_rs::DrawingData::Pic(pic)) => Some((pic.image.clone(), pic.size)),
                _ => None,
            },
            _ => None,
        })
        .collect()
}

#[test]
fn a_png_picture_keeps_its_bytes_and_takes_the_fitted_extent() {
    let png = encoded(4, 2, image::ImageFormat::Png);
    let document = Document::new(vec![
        picture(png.clone(), Some("10000000"), Some("2000000")),
        picture(png.clone(), None, None),
        picture(png.clone(), Some("0"), Some("7")),
    ]);
    let package = Transformer::package(&document).unwrap();
    assert_eq!(
        pictures(&package),
        vec![
            (png.clone(), (5_900_000, 1_180_000)),
            (png.clone(), (4 * 9525, 2 * 9525)),
            (png, (4 * 9525, 2 * 9525)),
        ]
    );
}

#[test]
fn another_picture_is_written_out_as_png() {
    let bmp = encoded(1000, 100, image::ImageFormat::Bmp);
    assert!(!has_png_signature(&bmp));
    let package = Transformer::package(&Document::new(vec![picture(bmp, None, None)])).unwrap();
    let held = pictures(&package);
    assert_eq!(held.len(), 1);
    assert!(has_png_signature(&held[0].0));
    assert_eq!(held[0].1, (5_900_000, 590_000));
}

#[test]
fn png_pictures_are_known_by_their_first_eight_bytes() {
    assert!(has_png_signature(&vec![137, 80, 78, 71, 13, 10, 26, 10]));
    assert!(has_png_signature(&vec![137, 80, 78, 71, 13, 10, 26, 10, 0, 0]));
    assert!(!has_png_signature(&vec![137, 80, 78, 71, 13, 10, 26]));
    assert!(!has_png_signature(&vec![137, 80, 78, 71, 13, 10, 26, 11]));
    assert!(!has_png_signature(&vec![0, 80, 78, 71, 13, 10, 26, 10]));
    assert!(!has_png_signature(&vec![]));
}

#[test]
fn a_picture_that_cannot_be_read_is_an_error() {
    let broken = Document::new(vec![text("t", 16), picture(vec![1, 2, 3], None, None)]);
    assert!(matches!(Transformer::package(&broken), Err(FormatError::Picture)));
    let headless = Document::new(vec![picture(vec![137, 80, 78, 71, 13, 10, 26, 10], None, None)]);
    assert!(matches!(Transformer::package(&headless), Err(FormatError::Picture)));
    let chunks = render(&broken).unwrap();
    assert_eq!(place(&chunks), Err(FormatError::Picture));
}

#[test]
fn chunks_without_a_picture_are_always_placed() {
    let chunks = render(&Document::new(vec![text("a", 1), header(1, "h")])).unwrap();
    assert_eq!(place(&chunks), Ok(vec![None, None]));
    assert_eq!(place(&vec![]), Ok(vec![]));
}

#[test]
fn pictures_are_placed_one_for_each_chunk() {
    let png = encoded(3, 5, image::ImageFormat::Png);
    let chunks = render(&Document::new(vec![
        text("a", 1),
        picture(png.clone(), Some("100"), Some("200")),
    ]))
    .unwrap();
    assert_eq!(
        place(&chunks),
        Ok(vec![None, Some(Placed { png: png.clone(), width: 100, height: 200 })])
    );
    assert_eq!(
        place_sized(png.clone(), None, 1000, 100),
        Placed { png, width: 5_900_000, height: 590_000 }
    );
}

#[test]
fn assembling_takes_what_was_placed() {
    let chunks = vec![
        Chunk::Picture { bytes: vec![9, 9], declared: None },
        Chunk::Picture { bytes: vec![8], declared: None },
    ];
    let placed = vec![Some(Placed { png: vec![1, 2, 3], width: 7, height: 8 }), None];
    let package = assemble(&chunks, &placed);
    assert_eq!(pictures(&package), vec![(vec![1, 2, 3], (7, 8))]);
}

#[test]
fn reserved_characters_are_held_as_entities_and_line_feeds_are_dropped() {
    let document = Document::new(vec![
        text("a & b <c> \"d\" 'e'\nf\rg", 16),
        Element::Hyperlink {
            title: "t".to_string(),
            url: "http://x/?a=1&b=2\n".to_string(),
            alt: None,
            size: 10,
        },
    ]);
    let package = Transformer::package(&document).unwrap();
    let held = lines(&package);
    assert_eq!(held[0].0, "a &amp; b &lt;c&gt; &quot;d&quot; &apos;e&apos;fg");
    let link = match &package.document.children[1] {
        docx_rs::DocumentChild::Paragraph(p) => match &p.children[1] {
            docx_rs::ParagraphChild::Hyperlink(link) => link.clone(),
            other => panic!("not a link: {:?}", other),
        },
        other => panic!("not a paragraph: {:?}", other),
    };
    match &link.link {
        docx_rs::HyperlinkData::External { path, .. } => {
            assert_eq!(path, "http://x/?a=1&amp;b=2&#xA;")
        },
        other => panic!("not external: {:?}", other),
    }
    match &link.children[0] {
        docx_rs::ParagraphChild::Run(run) => match &run.children[0] {
            docx_rs::RunChild::Text(t) => assert_eq!(t.text, "http://x/?a=1&amp;b=2"),
            other => panic!("not text: {:?}", other),
        },
        other => panic!("not a run: {:?}", other),
    }
}
