//! The format-agnostic document tree and its mathematical view.

use vstd::prelude::*;

verus! {

/// The mathematical value of an [`Element`]: strings are sequences of
/// characters, vectors are sequences, and the wrappers around list items and
/// table cells are looked through.
pub enum ElementModel {
    Text { text: Seq<char>, size: u8 },
    Header { level: u8, text: Seq<char> },
    Hyperlink { title: Seq<char>, url: Seq<char>, alt: Option<Seq<char>>, size: u8 },
    Image { bytes: Seq<u8>, width: Option<Seq<char>>, height: Option<Seq<char>> },
    List { elements: Seq<ElementModel>, numbered: bool },
    Table { headers: Seq<ElementModel>, rows: Seq<Seq<ElementModel>> },
    Paragraph { elements: Seq<ElementModel> },
}

/// The declared extent of a picture, each side as written by its producer.
/// An absent or empty side asks the adapter to infer it.
#[derive(Clone, Debug, PartialEq, Eq)]
pub struct ImageDimension {
    pub width: Option<String>,
    pub height: Option<String>,
}

/// A picture: its encoded bytes and the extent its producer declared.
#[derive(Clone, Debug, PartialEq, Eq)]
pub struct ImageData {
    pub bytes: Vec<u8>,
    pub size: ImageDimension,
}

/// One node of the document tree.
#[derive(Debug, PartialEq, Eq)]
pub enum Element {
    Text { text: String, size: u8 },
    Header { level: u8, text: String },
    Hyperlink { title: String, url: String, alt: Option<String>, size: u8 },
    Image(ImageData),
    List { elements: Vec<ListItem>, numbered: bool },
    Table { headers: Vec<TableCell>, rows: Vec<TableRow> },
    Paragraph { elements: Vec<Element> },
}

/// One entry of a list: a leaf, or a further list for nesting.
#[derive(Debug, PartialEq, Eq)]
pub struct ListItem {
    pub element: Element,
}

/// One cell of a table.
#[derive(Debug, PartialEq, Eq)]
pub struct TableCell {
    pub element: Element,
}

/// One row of a table.
#[derive(Debug, PartialEq, Eq)]
pub struct TableRow {
    pub cells: Vec<TableCell>,
}

/// An ordered sequence of top-level elements.
#[derive(Debug, PartialEq, Eq)]
pub struct Document {
    pub elements: Vec<Element>,
}

/// The view of an optional string.
pub open spec fn text_option(s: Option<String>) -> Option<Seq<char>> {
    match s {
        Some(t) => Some(t@),
        None => None,
    }
}

/// The value of an element: its own fields, and the values of the elements
/// below it.
pub open spec fn element_model(element: Element) -> ElementModel
    decreases element,
{
    match element {
        Element::Text { text, size } => ElementModel::Text { text: text@, size: size },
        Element::Header { level, text } => ElementModel::Header { level: level, text: text@ },
        Element::Hyperlink { title, url, alt, size } => ElementModel::Hyperlink {
            title: title@,
            url: url@,
            alt: text_option(alt),
            size: size,
        },
        Element::Image(image) => ElementModel::Image {
            bytes: image.bytes@,
            width: text_option(image.size.width),
            height: text_option(image.size.height),
        },
        Element::List { elements, numbered } => ElementModel::List {
            elements: Seq::new(
                elements@.len(),
                |i: int|
                    if 0 <= i < elements@.len() {
                        element_model(elements@[i].element)
                    } else {
                        arbitrary()
                    },
            ),
            numbered: numbered,
        },
        Element::Table { headers, rows } => ElementModel::Table {
            headers: Seq::new(
                headers@.len(),
                |i: int|
                    if 0 <= i < headers@.len() {
                        element_model(headers@[i].element)
                    } else {
                        arbitrary()
                    },
            ),
            rows: Seq::new(
                rows@.len(),
                |r: int|
                    Seq::new(
                        if 0 <= r < rows@.len() { rows@[r].cells@.len() } else { 0 },
                        |c: int|
                            if 0 <= r < rows@.len() && 0 <= c < rows@[r].cells@.len() {
                                element_model(rows@[r].cells@[c].element)
                            } else {
                                arbitrary()
                            },
                    ),
            ),
        },
        Element::Paragraph { elements } => ElementModel::Paragraph {
            elements: Seq::new(
                elements@.len(),
                |i: int|
                    if 0 <= i < elements@.len() {
                        element_model(elements@[i])
                    } else {
                        arbitrary()
                    },
            ),
        },
    }
}

impl View for Element {
    type V = ElementModel;

    open spec fn view(&self) -> ElementModel {
        element_model(*self)
    }
}

/// The values of a sequence of elements.
pub open spec fn elements_view(elements: Seq<Element>) -> Seq<ElementModel> {
    Seq::new(elements.len(), |i: int| elements[i]@)
}

/// The values of the elements that a sequence of list items wraps.
pub open spec fn items_view(items: Seq<ListItem>) -> Seq<ElementModel> {
    Seq::new(items.len(), |i: int| items[i].element@)
}

/// The values of the elements that a sequence of cells wraps.
pub open spec fn cells_view(cells: Seq<TableCell>) -> Seq<ElementModel> {
    Seq::new(cells.len(), |i: int| cells[i].element@)
}

/// The values of the rows of a table.
pub open spec fn rows_view(rows: Seq<TableRow>) -> Seq<Seq<ElementModel>> {
    Seq::new(rows.len(), |r: int| cells_view(rows[r].cells@))
}

/// The value of a list is the list of its items' values.
pub proof fn lemma_list_view(element: Element)
    requires
        element is List,
    ensures
        element@ == (ElementModel::List {
            elements: items_view(element->List_elements@),
            numbered: element->List_numbered,
        }),
{
    assert(element@->List_elements =~= items_view(element->List_elements@));
}

/// The value of a paragraph group is the sequence of its children's values.
pub proof fn lemma_paragraph_view(element: Element)
    requires
        element is Paragraph,
    ensures
        element@ == (ElementModel::Paragraph {
            elements: elements_view(element->Paragraph_elements@),
        }),
{
    assert(element@->Paragraph_elements =~= elements_view(element->Paragraph_elements@));
}

/// The value of a table is made of its cells' values.
pub proof fn lemma_table_view(element: Element)
    requires
        element is Table,
    ensures
        element@ == (ElementModel::Table {
            headers: cells_view(element->Table_headers@),
            rows: rows_view(element->Table_rows@),
        }),
{
    let rows = element->Table_rows@;
    assert(element@->Table_headers =~= cells_view(element->Table_headers@));
    assert forall|r: int| 0 <= r < rows.len() implies #[trigger] element@->Table_rows[r]
        =~= rows_view(rows)[r] by {}
    assert(element@->Table_rows =~= rows_view(rows));
}

impl View for Document {
    type V = Seq<ElementModel>;

    open spec fn view(&self) -> Seq<ElementModel> {
        elements_view(self.elements@)
    }
}

impl Document {
    /// A document that owns `elements`, in order.
    pub fn new(elements: Vec<Element>) -> (document: Document)
        ensures
            document.elements == elements,
    {
        Document { elements }
    }

    /// The elements of the document, in order.
    pub fn get_all_elements(&self) -> (elements: &Vec<Element>)
        ensures
            *elements == self.elements,
    {
        &self.elements
    }
}

} // verus!
