//! SHA-256 digests of texts, labels and document structure.

use sha2::Digest;
use vstd::prelude::*;
use vstd::utf8::encode_utf8;

use crate::model::{
    Cell, CommonObjAttr, Control, Document, Padding, PageDef, Paragraph, Section, SectionDef, Table,
    TablePageBreak, TableZone, VerticalAlign,
};
use crate::text::{append_hex, hex, hex_digit, lemma_hex};

verus! {

/// The SHA-256 digest of `data`.
pub uninterp spec fn sha256(data: Seq<u8>) -> Seq<u8>;

/// Calls `sha2::Sha256::digest`. The contract says that the 32 bytes it returns depend on the
/// bytes of `data` alone, and gives them the name `sha256`.
#[verifier::external_body]
fn sha256_digest(data: &[u8]) -> (digest: Vec<u8>)
    ensures
        digest@ == sha256(data@),
        digest@.len() == 32,
{
    sha2::Sha256::digest(data).to_vec()
}

/// The low `width` bytes of `value`, least significant first.
pub open spec fn le_bytes(value: nat, width: nat) -> Seq<u8>
    decreases width,
{
    if width == 0 {
        seq![]
    } else {
        seq![(value % 256) as u8] + le_bytes(value / 256, (width - 1) as nat)
    }
}

/// The two's complement of `value` in 16 bits.
pub open spec fn twos_complement(value: i16) -> nat {
    if value < 0 {
        (value + 0x1_0000) as nat
    } else {
        value as nat
    }
}

/// The byte that stands for a truth value.
pub open spec fn flag(value: bool) -> Seq<u8> {
    seq![if value { 1u8 } else { 0u8 }]
}

/// The bytes of a domain tag.
pub open spec fn tag(s: &str) -> Seq<u8> {
    encode_utf8(s@)
}

/// The layout of a page.
pub open spec fn page_bytes(page: PageDef) -> Seq<u8> {
    le_bytes(page.width as nat, 4) + le_bytes(page.height as nat, 4) + le_bytes(
        page.margin_left as nat,
        4,
    ) + le_bytes(page.margin_right as nat, 4) + le_bytes(page.margin_top as nat, 4) + le_bytes(
        page.margin_bottom as nat,
        4,
    ) + le_bytes(page.margin_header as nat, 4) + le_bytes(page.margin_footer as nat, 4) + le_bytes(
        page.margin_gutter as nat,
        4,
    ) + le_bytes(page.attr as nat, 4) + flag(page.landscape)
}

/// The layout of a section.
pub open spec fn section_layout_bytes(def: SectionDef) -> Seq<u8> {
    tag("section-layout") + le_bytes(def.flags as nat, 4) + le_bytes(
        twos_complement(def.column_spacing),
        2,
    ) + le_bytes(twos_complement(def.line_grid), 2) + le_bytes(twos_complement(def.char_grid), 2)
        + le_bytes(def.default_tab_spacing as nat, 4) + seq![def.text_direction] + page_bytes(
        def.page_def,
    )
}

/// The four margins of a padding.
pub open spec fn padding_bytes(padding: Padding) -> Seq<u8> {
    le_bytes(twos_complement(padding.left), 2) + le_bytes(twos_complement(padding.right), 2)
        + le_bytes(twos_complement(padding.top), 2) + le_bytes(twos_complement(padding.bottom), 2)
}

/// The byte that stands for a page break rule.
pub open spec fn page_break_byte(page_break: TablePageBreak) -> u8 {
    match page_break {
        TablePageBreak::NoBreak => 0,
        TablePageBreak::CellBreak => 1,
        TablePageBreak::RowBreak => 2,
    }
}

/// The byte that stands for a vertical alignment.
pub open spec fn vertical_align_byte(align: VerticalAlign) -> u8 {
    match align {
        VerticalAlign::Top => 0,
        VerticalAlign::Center => 1,
        VerticalAlign::Bottom => 2,
    }
}

/// The placement of a table.
pub open spec fn common_bytes(common: CommonObjAttr) -> Seq<u8> {
    le_bytes(common.horizontal_offset as nat, 4) + le_bytes(common.width as nat, 4) + flag(
        common.treat_as_char,
    )
}

/// A zone of a table.
pub open spec fn zone_bytes(zone: TableZone) -> Seq<u8> {
    le_bytes(zone.start_col as nat, 2) + le_bytes(zone.start_row as nat, 2) + le_bytes(
        zone.end_col as nat,
        2,
    ) + le_bytes(zone.end_row as nat, 2) + le_bytes(zone.border_fill_id as nat, 2)
}

/// The zones of a table.
pub open spec fn zones_bytes(zones: Seq<TableZone>) -> Seq<u8>
    decreases zones.len(),
{
    if zones.len() == 0 {
        seq![]
    } else {
        zones_bytes(zones.drop_last()) + zone_bytes(zones.last())
    }
}

/// What precedes the cells of a table.
pub open spec fn table_head_bytes(table: Table) -> Seq<u8> {
    tag("table") + le_bytes(table.attr as nat, 4) + le_bytes(table.row_count as nat, 2) + le_bytes(
        table.col_count as nat,
        2,
    ) + le_bytes(twos_complement(table.cell_spacing), 2) + padding_bytes(table.padding) + le_bytes(
        table.border_fill_id as nat,
        2,
    ) + seq![page_break_byte(table.page_break)] + flag(table.repeat_header) + common_bytes(
        table.common,
    ) + le_bytes(table.zones@.len(), 8) + zones_bytes(table.zones@) + le_bytes(
        table.cells@.len(),
        8,
    )
}

/// What precedes the paragraphs of a cell.
pub open spec fn cell_head_bytes(cell: Cell) -> Seq<u8> {
    le_bytes(cell.row as nat, 2) + le_bytes(cell.col as nat, 2) + le_bytes(cell.row_span as nat, 2)
        + le_bytes(cell.col_span as nat, 2) + le_bytes(cell.width as nat, 4) + padding_bytes(
        cell.padding,
    ) + le_bytes(cell.border_fill_id as nat, 2) + seq![cell.text_direction] + seq![
        vertical_align_byte(cell.vertical_align),
    ] + flag(cell.apply_inner_margin) + flag(cell.is_header) + flag(cell.cell_protect) + le_bytes(
        cell.paragraphs@.len(),
        8,
    )
}

/// The structure of a run of paragraphs.
pub open spec fn paragraphs_bytes(paragraphs: Seq<Paragraph>) -> Seq<u8>
    decreases paragraphs,
{
    if paragraphs.len() == 0 {
        seq![]
    } else {
        paragraphs_bytes(paragraphs.drop_last()) + paragraph_bytes(paragraphs.last())
    }
}

/// The structure of a paragraph: its shape, its style and its controls, but not its text.
pub open spec fn paragraph_bytes(paragraph: Paragraph) -> Seq<u8>
    decreases paragraph,
{
    le_bytes(paragraph.para_shape_id as nat, 2) + seq![paragraph.style_id] + le_bytes(
        paragraph.controls@.len(),
        8,
    ) + controls_bytes(paragraph.controls@)
}

/// The structure of a run of controls.
pub open spec fn controls_bytes(controls: Seq<Control>) -> Seq<u8>
    decreases controls,
{
    if controls.len() == 0 {
        seq![]
    } else {
        controls_bytes(controls.drop_last()) + control_bytes(controls.last())
    }
}

/// The structure of a control: its kind and, for the kinds that hold paragraphs, theirs.
pub open spec fn control_bytes(control: Control) -> Seq<u8>
    decreases control,
{
    match control {
        Control::SectionDef => tag("section-def"),
        Control::ColumnDef => tag("column-def"),
        Control::Table(table) => table_head_bytes(table) + cells_bytes(table.cells@),
        Control::Shape(_) => tag("shape"),
        Control::Picture => tag("picture"),
        Control::Header(paragraphs) => tag("header") + paragraphs_bytes(paragraphs@),
        Control::Footer(paragraphs) => tag("footer") + paragraphs_bytes(paragraphs@),
        Control::Footnote(paragraphs) => tag("footnote") + paragraphs_bytes(paragraphs@),
        Control::Endnote(paragraphs) => tag("endnote") + paragraphs_bytes(paragraphs@),
        Control::AutoNumber => tag("auto-number"),
        Control::NewNumber => tag("new-number"),
        Control::PageNumberPos => tag("page-number"),
        Control::Bookmark => tag("bookmark"),
        Control::Hyperlink => tag("hyperlink"),
        Control::Ruby => tag("ruby"),
        Control::CharOverlap => tag("char-overlap"),
        Control::PageHide => tag("page-hide"),
        Control::HiddenComment => tag("hidden-comment"),
        Control::Equation => tag("equation"),
        Control::Field(field) => tag("field") + le_bytes(field.field_id as nat, 4) + le_bytes(
            field.ctrl_id as nat,
            4,
        ),
        Control::Form => tag("form"),
        Control::Unknown => tag("unknown"),
    }
}

/// The structure of a run of cells.
pub open spec fn cells_bytes(cells: Seq<Cell>) -> Seq<u8>
    decreases cells,
{
    if cells.len() == 0 {
        seq![]
    } else {
        cells_bytes(cells.drop_last()) + (cell_head_bytes(cells.last()) + paragraphs_bytes(
            cells.last().paragraphs@,
        ))
    }
}

/// The structure of a section.
pub open spec fn section_bytes(section: Section) -> Seq<u8> {
    section_layout_bytes(section.section_def) + le_bytes(section.paragraphs@.len(), 8)
        + paragraphs_bytes(section.paragraphs@)
}

/// The structure of a run of sections.
pub open spec fn sections_bytes(sections: Seq<Section>) -> Seq<u8>
    decreases sections.len(),
{
    if sections.len() == 0 {
        seq![]
    } else {
        sections_bytes(sections.drop_last()) + section_bytes(sections.last())
    }
}

/// What the structure digest of a document is taken of.
pub open spec fn structure_bytes(document: Document) -> Seq<u8> {
    tag("rhwp-approved-template-structure-v1\0") + le_bytes(document.sections@.len(), 8) + le_bytes(
        document.bin_data_count as nat,
        8,
    ) + sections_bytes(document.sections@)
}

/// A digest as it is written down: its algorithm, a colon and its bytes in hexadecimal.
pub open spec fn digest_text(data: Seq<u8>) -> Seq<char> {
    "sha256:"@ + hex(sha256(data))
}

/// A text of the form of a digest: `sha256:` and 64 hexadecimal digits.
pub open spec fn is_digest(s: Seq<char>) -> bool {
    &&& s.len() == 71
    &&& s.take(7) == "sha256:"@
    &&& forall|i: int| 7 <= i < 71 ==> hex_digit(#[trigger] s[i])
}

/// Concatenation can be regrouped.
broadcast proof fn lemma_concat_assoc(a: Seq<u8>, b: Seq<u8>, c: Seq<u8>)
    ensures
        #[trigger] ((a + b) + c) == a + (b + c),
{
    assert(((a + b) + c) =~= a + (b + c));
}

/// Appends the low `width` bytes of `value`, least significant first.
pub(crate) fn hash_le(out: &mut Vec<u8>, value: u64, width: usize)
    ensures
        final(out)@ == old(out)@ + le_bytes(value as nat, width as nat),
{
    let ghost before = out@;
    let mut rest: u64 = value;
    let mut left: usize = width;
    assert(before + le_bytes(value as nat, width as nat) =~= out@ + le_bytes(
        rest as nat,
        left as nat,
    ));
    while left > 0
        invariant
            left <= width,
            before + le_bytes(value as nat, width as nat) == out@ + le_bytes(
                rest as nat,
                left as nat,
            ),
        decreases left,
    {
        let ghost head = out@;
        let byte: u8 = (rest % 256) as u8;
        out.push(byte);
        assert(head + le_bytes(rest as nat, left as nat) =~= out@ + le_bytes(
            rest as nat / 256,
            (left - 1) as nat,
        ));
        rest = rest / 256;
        left -= 1;
    }
    assert(out@ + le_bytes(rest as nat, 0) =~= out@);
}

/// Appends a length in eight bytes.
fn hash_usize(out: &mut Vec<u8>, value: usize)
    ensures
        final(out)@ == old(out)@ + le_bytes(value as nat, 8),
{
    hash_le(out, value as u64, 8);
}

/// Appends a signed length in two bytes.
fn hash_i16(out: &mut Vec<u8>, value: i16)
    ensures
        final(out)@ == old(out)@ + le_bytes(twos_complement(value), 2),
{
    let unsigned: u64 = if value < 0 {
        (value as i64 + 0x1_0000) as u64
    } else {
        value as u64
    };
    hash_le(out, unsigned, 2);
}

/// Appends one byte.
pub(crate) fn hash_byte(out: &mut Vec<u8>, value: u8)
    ensures
        final(out)@ == old(out)@ + seq![value],
{
    out.push(value);
    assert(out@ =~= old(out)@ + seq![value]);
}

/// Appends the byte that stands for a truth value.
fn hash_flag(out: &mut Vec<u8>, value: bool)
    ensures
        final(out)@ == old(out)@ + flag(value),
{
    hash_byte(out, if value { 1 } else { 0 });
}

/// Appends the bytes of `bytes`.
pub(crate) fn hash_bytes(out: &mut Vec<u8>, bytes: &[u8])
    ensures
        final(out)@ == old(out)@ + bytes@,
{
    out.extend_from_slice(bytes);
    assert(out@ =~= old(out)@ + bytes@);
}

/// Appends the UTF-8 bytes of `s`.
pub(crate) fn hash_str(out: &mut Vec<u8>, s: &str)
    ensures
        final(out)@ == old(out)@ + encode_utf8(s@),
{
    hash_bytes(out, s.as_bytes());
}

/// Appends the four margins of a padding.
fn hash_padding(out: &mut Vec<u8>, padding: &Padding)
    ensures
        final(out)@ == old(out)@ + padding_bytes(*padding),
{
    broadcast use lemma_concat_assoc;

    hash_i16(out, padding.left);
    hash_i16(out, padding.right);
    hash_i16(out, padding.top);
    hash_i16(out, padding.bottom);
}

/// Appends the layout of a page.
fn hash_page(out: &mut Vec<u8>, page: &PageDef)
    ensures
        final(out)@ == old(out)@ + page_bytes(*page),
{
    broadcast use lemma_concat_assoc;

    hash_le(out, page.width as u64, 4);
    hash_le(out, page.height as u64, 4);
    hash_le(out, page.margin_left as u64, 4);
    hash_le(out, page.margin_right as u64, 4);
    hash_le(out, page.margin_top as u64, 4);
    hash_le(out, page.margin_bottom as u64, 4);
    hash_le(out, page.margin_header as u64, 4);
    hash_le(out, page.margin_footer as u64, 4);
    hash_le(out, page.margin_gutter as u64, 4);
    hash_le(out, page.attr as u64, 4);
    hash_flag(out, page.landscape);
}

/// Appends the layout of a section.
fn hash_section_layout(out: &mut Vec<u8>, section_def: &SectionDef)
    ensures
        final(out)@ == old(out)@ + section_layout_bytes(*section_def),
{
    broadcast use lemma_concat_assoc;

    hash_str(out, "section-layout");
    hash_le(out, section_def.flags as u64, 4);
    hash_i16(out, section_def.column_spacing);
    hash_i16(out, section_def.line_grid);
    hash_i16(out, section_def.char_grid);
    hash_le(out, section_def.default_tab_spacing as u64, 4);
    hash_byte(out, section_def.text_direction);
    hash_page(out, &section_def.page_def);
}

/// Appends the zones of a table.
fn hash_zones(out: &mut Vec<u8>, zones: &Vec<TableZone>)
    ensures
        final(out)@ == old(out)@ + zones_bytes(zones@),
{
    broadcast use lemma_concat_assoc;

    let ghost before = out@;
    assert(zones@.take(0) =~= seq![]);
    assert(before + zones_bytes(zones@.take(0)) =~= before);
    let mut i: usize = 0;
    while i < zones.len()
        invariant
            i <= zones@.len(),
            out@ == before + zones_bytes(zones@.take(i as int)),
        decreases zones@.len() - i,
    {
        broadcast use lemma_concat_assoc;

        let zone: TableZone = zones[i];
        hash_le(out, zone.start_col as u64, 2);
        hash_le(out, zone.start_row as u64, 2);
        hash_le(out, zone.end_col as u64, 2);
        hash_le(out, zone.end_row as u64, 2);
        hash_le(out, zone.border_fill_id as u64, 2);
        assert(zones@.take(i + 1).drop_last() =~= zones@.take(i as int));
        i += 1;
    }
    assert(zones@.take(zones@.len() as int) =~= zones@);
}

/// Appends what precedes the cells of a table.
fn hash_table_head(out: &mut Vec<u8>, table: &Table)
    ensures
        final(out)@ == old(out)@ + table_head_bytes(*table),
{
    broadcast use lemma_concat_assoc;

    hash_str(out, "table");
    hash_le(out, table.attr as u64, 4);
    hash_le(out, table.row_count as u64, 2);
    hash_le(out, table.col_count as u64, 2);
    hash_i16(out, table.cell_spacing);
    hash_padding(out, &table.padding);
    hash_le(out, table.border_fill_id as u64, 2);
    hash_byte(
        out,
        match table.page_break {
            TablePageBreak::NoBreak => 0,
            TablePageBreak::CellBreak => 1,
            TablePageBreak::RowBreak => 2,
        },
    );
    hash_flag(out, table.repeat_header);
    hash_le(out, table.common.horizontal_offset as u64, 4);
    hash_le(out, table.common.width as u64, 4);
    hash_flag(out, table.common.treat_as_char);
    hash_usize(out, table.zones.len());
    hash_zones(out, &table.zones);
    hash_usize(out, table.cells.len());
}

/// Appends what precedes the paragraphs of a cell.
fn hash_cell_head(out: &mut Vec<u8>, cell: &Cell)
    ensures
        final(out)@ == old(out)@ + cell_head_bytes(*cell),
{
    broadcast use lemma_concat_assoc;

    hash_le(out, cell.row as u64, 2);
    hash_le(out, cell.col as u64, 2);
    hash_le(out, cell.row_span as u64, 2);
    hash_le(out, cell.col_span as u64, 2);
    hash_le(out, cell.width as u64, 4);
    hash_padding(out, &cell.padding);
    hash_le(out, cell.border_fill_id as u64, 2);
    hash_byte(out, cell.text_direction);
    hash_byte(
        out,
        match cell.vertical_align {
            VerticalAlign::Top => 0,
            VerticalAlign::Center => 1,
            VerticalAlign::Bottom => 2,
        },
    );
    hash_flag(out, cell.apply_inner_margin);
    hash_flag(out, cell.is_header);
    hash_flag(out, cell.cell_protect);
    hash_usize(out, cell.paragraphs.len());
}

/// Appends the structure of a run of paragraphs.
pub fn hash_paragraphs(out: &mut Vec<u8>, paragraphs: &Vec<Paragraph>)
    ensures
        final(out)@ == old(out)@ + paragraphs_bytes(paragraphs@),
    decreases paragraphs@,
{
    let ghost before = out@;
    assert(before + paragraphs_bytes(paragraphs@.take(0)) =~= before);
    let mut i: usize = 0;
    while i < paragraphs.len()
        invariant
            i <= paragraphs@.len(),
            out@ == before + paragraphs_bytes(paragraphs@.take(i as int)),
        decreases paragraphs@.len() - i,
    {
        hash_paragraph(out, &paragraphs[i]);
        proof {
            assert(paragraphs@.take(i + 1).drop_last() =~= paragraphs@.take(i as int));
            lemma_concat_assoc(
                before,
                paragraphs_bytes(paragraphs@.take(i as int)),
                paragraph_bytes(paragraphs@[i as int]),
            );
        }
        i += 1;
    }
    assert(paragraphs@.take(paragraphs@.len() as int) =~= paragraphs@);
}

/// Appends the structure of a paragraph.
fn hash_paragraph(out: &mut Vec<u8>, paragraph: &Paragraph)
    ensures
        final(out)@ == old(out)@ + paragraph_bytes(*paragraph),
    decreases *paragraph,
{
    broadcast use lemma_concat_assoc;

    hash_le(out, paragraph.para_shape_id as u64, 2);
    hash_byte(out, paragraph.style_id);
    hash_usize(out, paragraph.controls.len());
    hash_controls(out, &paragraph.controls);
}

/// Appends the structure of a run of controls.
fn hash_controls(out: &mut Vec<u8>, controls: &Vec<Control>)
    ensures
        final(out)@ == old(out)@ + controls_bytes(controls@),
    decreases controls@,
{
    let ghost before = out@;
    assert(before + controls_bytes(controls@.take(0)) =~= before);
    let mut i: usize = 0;
    while i < controls.len()
        invariant
            i <= controls@.len(),
            out@ == before + controls_bytes(controls@.take(i as int)),
        decreases controls@.len() - i,
    {
        hash_control(out, &controls[i]);
        proof {
            assert(controls@.take(i + 1).drop_last() =~= controls@.take(i as int));
            lemma_concat_assoc(
                before,
                controls_bytes(controls@.take(i as int)),
                control_bytes(controls@[i as int]),
            );
        }
        i += 1;
    }
    assert(controls@.take(controls@.len() as int) =~= controls@);
}

/// Appends the structure of a run of cells.
fn hash_cells(out: &mut Vec<u8>, cells: &Vec<Cell>)
    ensures
        final(out)@ == old(out)@ + cells_bytes(cells@),
    decreases cells@,
{
    let ghost before = out@;
    assert(before + cells_bytes(cells@.take(0)) =~= before);
    let mut i: usize = 0;
    while i < cells.len()
        invariant
            i <= cells@.len(),
            out@ == before + cells_bytes(cells@.take(i as int)),
        decreases cells@.len() - i,
    {
        let ghost loop_start = out@;
        let cell: &Cell = &cells[i];
        hash_cell_head(out, cell);
        hash_paragraphs(out, &cell.paragraphs);
        proof {
            let head = cell_head_bytes(*cell);
            let body = paragraphs_bytes(cell.paragraphs@);
            assert(cells@.take(i + 1).drop_last() =~= cells@.take(i as int));
            lemma_concat_assoc(loop_start, head, body);
            lemma_concat_assoc(before, cells_bytes(cells@.take(i as int)), head + body);
        }
        i += 1;
    }
    assert(cells@.take(cells@.len() as int) =~= cells@);
}

/// Appends the structure of a control.
pub fn hash_control(out: &mut Vec<u8>, control: &Control)
    ensures
        final(out)@ == old(out)@ + control_bytes(*control),
    decreases *control,
{
    let ghost before = out@;
    match control {
        Control::SectionDef => hash_str(out, "section-def"),
        Control::ColumnDef => hash_str(out, "column-def"),
        Control::Table(table) => {
            hash_table_head(out, table);
            hash_cells(out, &table.cells);
            proof {
                lemma_concat_assoc(before, table_head_bytes(*table), cells_bytes(table.cells@));
            }
        },
        Control::Shape(_) => hash_str(out, "shape"),
        Control::Picture => hash_str(out, "picture"),
        Control::Header(paragraphs) => {
            hash_str(out, "header");
            hash_paragraphs(out, paragraphs);
            proof {
                lemma_concat_assoc(before, tag("header"), paragraphs_bytes(paragraphs@));
            }
        },
        Control::Footer(paragraphs) => {
            hash_str(out, "footer");
            hash_paragraphs(out, paragraphs);
            proof {
                lemma_concat_assoc(before, tag("footer"), paragraphs_bytes(paragraphs@));
            }
        },
        Control::Footnote(paragraphs) => {
            hash_str(out, "footnote");
            hash_paragraphs(out, paragraphs);
            proof {
                lemma_concat_assoc(before, tag("footnote"), paragraphs_bytes(paragraphs@));
            }
        },
        Control::Endnote(paragraphs) => {
            hash_str(out, "endnote");
            hash_paragraphs(out, paragraphs);
            proof {
                lemma_concat_assoc(before, tag("endnote"), paragraphs_bytes(paragraphs@));
            }
        },
        Control::AutoNumber => hash_str(out, "auto-number"),
        Control::NewNumber => hash_str(out, "new-number"),
        Control::PageNumberPos => hash_str(out, "page-number"),
        Control::Bookmark => hash_str(out, "bookmark"),
        Control::Hyperlink => hash_str(out, "hyperlink"),
        Control::Ruby => hash_str(out, "ruby"),
        Control::CharOverlap => hash_str(out, "char-overlap"),
        Control::PageHide => hash_str(out, "page-hide"),
        Control::HiddenComment => hash_str(out, "hidden-comment"),
        Control::Equation => hash_str(out, "equation"),
        Control::Field(field) => {
            broadcast use lemma_concat_assoc;

            hash_str(out, "field");
            hash_le(out, field.field_id as u64, 4);
            hash_le(out, field.ctrl_id as u64, 4);
        },
        Control::Form => hash_str(out, "form"),
        Control::Unknown => hash_str(out, "unknown"),
    }
}

/// Writes down digest bytes: `sha256:` and two hexadecimal digits for each byte.
pub fn prefixed_sha256(bytes: &[u8]) -> (text: String)
    ensures
        text@ == "sha256:"@ + hex(bytes@),
{
    let mut text: String = "sha256:".to_owned();
    append_hex(&mut text, bytes);
    text
}

/// Takes the digest of `data` and writes it down.
pub fn digest_string(data: &[u8]) -> (text: String)
    ensures
        text@ == digest_text(data@),
        is_digest(text@),
{
    let digest: Vec<u8> = sha256_digest(data);
    let text: String = prefixed_sha256(digest.as_slice());
    proof {
        reveal_strlit("sha256:");
        lemma_hex(digest@);
        assert(text@.take(7) =~= "sha256:"@);
    }
    text
}

/// Appends the structure of a run of sections.
fn hash_sections(out: &mut Vec<u8>, sections: &Vec<Section>)
    ensures
        final(out)@ == old(out)@ + sections_bytes(sections@),
{
    let ghost before = out@;
    assert(before + sections_bytes(sections@.take(0)) =~= before);
    let mut i: usize = 0;
    while i < sections.len()
        invariant
            i <= sections@.len(),
            out@ == before + sections_bytes(sections@.take(i as int)),
        decreases sections@.len() - i,
    {
        let ghost loop_start = out@;
        let section: &Section = &sections[i];
        hash_section_layout(out, &section.section_def);
        hash_usize(out, section.paragraphs.len());
        hash_paragraphs(out, &section.paragraphs);
        proof {
            let layout = section_layout_bytes(section.section_def);
            let count = le_bytes(section.paragraphs@.len(), 8);
            let body = paragraphs_bytes(section.paragraphs@);
            assert(sections@.take(i + 1).drop_last() =~= sections@.take(i as int));
            lemma_concat_assoc(loop_start, layout, count);
            lemma_concat_assoc(loop_start, layout + count, body);
            lemma_concat_assoc(
                before,
                sections_bytes(sections@.take(i as int)),
                section_bytes(*section),
            );
        }
        i += 1;
    }
    assert(sections@.take(sections@.len() as int) =~= sections@);
}

/// The digest of the document's structure. Texts do not enter it.
pub fn approved_structure_digest(document: &Document) -> (digest: String)
    ensures
        digest@ == digest_text(structure_bytes(*document)),
        is_digest(digest@),
{
    let mut data: Vec<u8> = Vec::new();
    hash_str(&mut data, "rhwp-approved-template-structure-v1\0");
    assert(data@ =~= tag("rhwp-approved-template-structure-v1\0"));
    hash_usize(&mut data, document.sections.len());
    hash_usize(&mut data, document.bin_data_count);
    hash_sections(&mut data, &document.sections);
    digest_string(data.as_slice())
}

} // verus!
