//! The parts of a document that template editing reads.

use vstd::prelude::*;

verus! {

/// The inner margins of a table or a cell, in HWPUNIT.
#[derive(Debug, Clone, Copy, PartialEq, Eq)]
pub struct Padding {
    pub left: i16,
    pub right: i16,
    pub top: i16,
    pub bottom: i16,
}

/// Paper size and margins of a section, in HWPUNIT.
#[derive(Debug, Clone, Copy, PartialEq, Eq)]
pub struct PageDef {
    pub width: u32,
    pub height: u32,
    pub margin_left: u32,
    pub margin_right: u32,
    pub margin_top: u32,
    pub margin_bottom: u32,
    pub margin_header: u32,
    pub margin_footer: u32,
    pub margin_gutter: u32,
    pub attr: u32,
    pub landscape: bool,
}

/// The layout settings of a section.
#[derive(Debug, Clone, Copy, PartialEq, Eq)]
pub struct SectionDef {
    pub flags: u32,
    pub column_spacing: i16,
    pub line_grid: i16,
    pub char_grid: i16,
    pub default_tab_spacing: u32,
    pub text_direction: u8,
    pub page_def: PageDef,
}

/// Where a table may be divided at a page end.
#[derive(Debug, Clone, Copy, PartialEq, Eq)]
pub enum TablePageBreak {
    NoBreak,
    CellBreak,
    RowBreak,
}

/// How the text of a cell is placed between its upper and lower edge.
#[derive(Debug, Clone, Copy, PartialEq, Eq)]
pub enum VerticalAlign {
    Top,
    Center,
    Bottom,
}

/// A rectangle of cells with a border of its own.
#[derive(Debug, Clone, Copy, PartialEq, Eq)]
pub struct TableZone {
    pub start_col: u16,
    pub start_row: u16,
    pub end_col: u16,
    pub end_row: u16,
    pub border_fill_id: u16,
}

/// The placement of a table among the text around it.
#[derive(Debug, Clone, Copy, PartialEq, Eq)]
pub struct CommonObjAttr {
    pub horizontal_offset: u32,
    pub width: u32,
    pub treat_as_char: bool,
}

/// A cell: its anchor, how many rows and columns it spans, and its paragraphs.
#[derive(Debug)]
pub struct Cell {
    pub row: u16,
    pub col: u16,
    pub row_span: u16,
    pub col_span: u16,
    pub width: u32,
    pub padding: Padding,
    pub border_fill_id: u16,
    pub text_direction: u8,
    pub vertical_align: VerticalAlign,
    pub apply_inner_margin: bool,
    pub is_header: bool,
    pub cell_protect: bool,
    pub paragraphs: Vec<Paragraph>,
}

/// A table: its grid size and the cells anchored in it.
#[derive(Debug)]
pub struct Table {
    pub attr: u32,
    pub row_count: u16,
    pub col_count: u16,
    pub cell_spacing: i16,
    pub padding: Padding,
    pub border_fill_id: u16,
    pub page_break: TablePageBreak,
    pub repeat_header: bool,
    pub common: CommonObjAttr,
    pub zones: Vec<TableZone>,
    pub cells: Vec<Cell>,
}

/// A drawing object, as far as pictures are told from the rest.
#[derive(Debug, Clone, Copy, PartialEq, Eq)]
pub enum ShapeObject {
    Picture,
    Drawing,
}

/// A field control.
#[derive(Debug, Clone, Copy, PartialEq, Eq)]
pub struct Field {
    pub field_id: u32,
    pub ctrl_id: u32,
}

/// A control that is anchored in a paragraph.
#[derive(Debug)]
pub enum Control {
    SectionDef,
    ColumnDef,
    Table(Table),
    Shape(ShapeObject),
    Picture,
    Header(Vec<Paragraph>),
    Footer(Vec<Paragraph>),
    Footnote(Vec<Paragraph>),
    Endnote(Vec<Paragraph>),
    AutoNumber,
    NewNumber,
    PageNumberPos,
    Bookmark,
    Hyperlink,
    Ruby,
    CharOverlap,
    PageHide,
    HiddenComment,
    Equation,
    Field(Field),
    Form,
    Unknown,
}

/// A paragraph: its text, its shape and style, and the controls anchored in it.
#[derive(Debug)]
pub struct Paragraph {
    pub text: String,
    pub para_shape_id: u16,
    pub style_id: u8,
    /// The character shapes in use, in the order of their first character.
    pub char_shape_ids: Vec<u32>,
    pub controls: Vec<Control>,
}

/// A section of the body.
#[derive(Debug)]
pub struct Section {
    pub section_def: SectionDef,
    pub paragraphs: Vec<Paragraph>,
}

/// Where one numbered table of the document is anchored.
#[derive(Debug)]
pub struct TableGrid {
    pub index: usize,
    /// The way from the body to the table; empty for a table of the body itself.
    pub container_path: Vec<usize>,
    pub section: usize,
    pub paragraph: usize,
    pub control: usize,
}

/// A document together with the numbering of its tables.
#[derive(Debug)]
pub struct Document {
    pub sections: Vec<Section>,
    /// How many embedded binary items the document carries.
    pub bin_data_count: usize,
    /// The base size of each character shape, in HWPUNIT.
    pub char_shape_sizes: Vec<i32>,
    /// The table numbering that table extraction reports for this document.
    pub tables: Vec<TableGrid>,
}

/// The format that a document was read from.
#[derive(Debug, Clone, Copy, PartialEq, Eq)]
pub enum FileFormat {
    Hwp,
    Hwpx,
    Hwp3,
    Hml,
    DrmProtected,
    Empty,
    Unknown,
}

/// A field of the document with its current value and the paragraph it stands in.
#[derive(Debug)]
pub struct FieldEntry {
    pub field: Field,
    pub editable_in_form: bool,
    pub value: String,
    pub section_index: usize,
    pub para_index: usize,
}

/// An open document: its content, its fields and its page count.
#[derive(Debug)]
pub struct DocumentCore {
    pub document: Document,
    pub source_format: FileFormat,
    pub page_count: u32,
    /// Every field of the document, in reading order.
    pub fields: Vec<FieldEntry>,
}

impl TableGrid {
    /// Whether the table stands in the body itself.
    pub open spec fn top_level(&self) -> bool {
        self.container_path@.len() == 0
    }
}

impl Document {
    /// Whether `grid` names an existing paragraph.
    pub open spec fn has_paragraph(&self, grid: TableGrid) -> bool {
        &&& grid.section < self.sections@.len()
        &&& grid.paragraph < self.sections@[grid.section as int].paragraphs@.len()
    }

    /// The paragraph of every table of the body exists.
    pub open spec fn well_formed(&self) -> bool {
        forall|i: int|
            0 <= i < self.tables@.len() && (#[trigger] self.tables@[i]).top_level()
                ==> self.has_paragraph(self.tables@[i])
    }

    /// Checks that the paragraph of every table of the body exists.
    pub fn is_well_formed(&self) -> (yes: bool)
        ensures
            yes == self.well_formed(),
    {
        let mut i: usize = 0;
        while i < self.tables.len()
            invariant
                i <= self.tables@.len(),
                forall|j: int|
                    0 <= j < i && (#[trigger] self.tables@[j]).top_level() ==> self.has_paragraph(
                        self.tables@[j],
                    ),
            decreases self.tables@.len() - i,
        {
            let grid: &TableGrid = &self.tables[i];
            if grid.container_path.len() == 0 && (grid.section >= self.sections.len()
                || grid.paragraph >= self.sections[grid.section].paragraphs.len()) {
                assert(self.tables@[i as int].top_level());
                return false;
            }
            i += 1;
        }
        true
    }
}

} // verus!
