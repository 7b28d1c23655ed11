//! What holds of the digests that stand for structure and for checked requests.

use vstd::prelude::*;
use vstd::utf8::{
    encode_utf8, encode_utf8_decode_utf8, is_ascii_chars, is_ascii_chars_encode_utf8,
};

use crate::digest::{
    cell_head_bytes, cells_bytes, control_bytes, controls_bytes, is_digest, paragraph_bytes,
    paragraphs_bytes, sections_bytes, table_head_bytes, tag,
};
use crate::label::token_bytes;
use crate::model::{Cell, Control, Document, DocumentCore, Paragraph, Section, Table};
use crate::preflight::digest_of;

verus! {

/// Whether two runs of paragraphs differ in nothing but texts and the shapes of characters.
pub open spec fn alike_paragraphs(a: Seq<Paragraph>, b: Seq<Paragraph>) -> bool
    decreases a,
{
    &&& a.len() == b.len()
    &&& forall|i: int| 0 <= i < a.len() ==> alike_paragraph(#[trigger] a[i], b[i])
}

/// Whether two paragraphs differ in nothing but texts and the shapes of characters.
pub open spec fn alike_paragraph(a: Paragraph, b: Paragraph) -> bool
    decreases a,
{
    &&& a.para_shape_id == b.para_shape_id
    &&& a.style_id == b.style_id
    &&& alike_controls(a.controls@, b.controls@)
}

/// Whether two runs of controls differ in nothing but texts and the shapes of characters.
pub open spec fn alike_controls(a: Seq<Control>, b: Seq<Control>) -> bool
    decreases a,
{
    &&& a.len() == b.len()
    &&& forall|i: int| 0 <= i < a.len() ==> alike_control(#[trigger] a[i], b[i])
}

/// Whether two controls differ in nothing but texts and the shapes of characters.
pub open spec fn alike_control(a: Control, b: Control) -> bool
    decreases a,
{
    match a {
        Control::Table(s) => b matches Control::Table(t) && {
            &&& alike_frame(s, t)
            &&& alike_cells(s.cells@, t.cells@)
        },
        Control::Header(s) => b matches Control::Header(t) && alike_paragraphs(s@, t@),
        Control::Footer(s) => b matches Control::Footer(t) && alike_paragraphs(s@, t@),
        Control::Footnote(s) => b matches Control::Footnote(t) && alike_paragraphs(s@, t@),
        Control::Endnote(s) => b matches Control::Endnote(t) && alike_paragraphs(s@, t@),
        _ => a == b,
    }
}

/// Whether two tables agree in all but their cells.
pub open spec fn alike_frame(a: Table, b: Table) -> bool {
    &&& a.attr == b.attr
    &&& a.row_count == b.row_count
    &&& a.col_count == b.col_count
    &&& a.cell_spacing == b.cell_spacing
    &&& a.padding == b.padding
    &&& a.border_fill_id == b.border_fill_id
    &&& a.page_break == b.page_break
    &&& a.repeat_header == b.repeat_header
    &&& a.common == b.common
    &&& a.zones@ == b.zones@
}

/// Whether two runs of cells differ in nothing but texts and the shapes of characters.
pub open spec fn alike_cells(a: Seq<Cell>, b: Seq<Cell>) -> bool
    decreases a,
{
    &&& a.len() == b.len()
    &&& forall|i: int| 0 <= i < a.len() ==> alike_cell(#[trigger] a[i], b[i])
}

/// Whether two cells differ in nothing but texts and the shapes of characters.
pub open spec fn alike_cell(a: Cell, b: Cell) -> bool
    decreases a,
{
    &&& alike_cell_frame(a, b)
    &&& alike_paragraphs(a.paragraphs@, b.paragraphs@)
}

/// Whether two cells agree in all but their paragraphs.
pub open spec fn alike_cell_frame(a: Cell, b: Cell) -> bool {
    &&& a.row == b.row
    &&& a.col == b.col
    &&& a.row_span == b.row_span
    &&& a.col_span == b.col_span
    &&& a.width == b.width
    &&& a.padding == b.padding
    &&& a.border_fill_id == b.border_fill_id
    &&& a.text_direction == b.text_direction
    &&& a.vertical_align == b.vertical_align
    &&& a.apply_inner_margin == b.apply_inner_margin
    &&& a.is_header == b.is_header
    &&& a.cell_protect == b.cell_protect
}

/// Whether two documents differ in nothing but texts, the shapes of characters and the numbering
/// of tables.
pub open spec fn alike_documents(a: Document, b: Document) -> bool {
    &&& a.bin_data_count == b.bin_data_count
    &&& a.sections@.len() == b.sections@.len()
    &&& forall|i: int|
        0 <= i < a.sections@.len() ==> {
            &&& (#[trigger] a.sections@[i]).section_def == b.sections@[i].section_def
            &&& alike_paragraphs(a.sections@[i].paragraphs@, b.sections@[i].paragraphs@)
        }
}

/// Every run of paragraphs is alike itself.
pub proof fn lemma_paragraphs_alike_themselves(a: Seq<Paragraph>)
    ensures
        alike_paragraphs(a, a),
    decreases a,
{
    assert forall|i: int| 0 <= i < a.len() implies alike_paragraph(#[trigger] a[i], a[i]) by {
        lemma_controls_alike_themselves(a[i].controls@);
    }
}

/// Every run of controls is alike itself.
proof fn lemma_controls_alike_themselves(a: Seq<Control>)
    ensures
        alike_controls(a, a),
    decreases a,
{
    assert forall|i: int| 0 <= i < a.len() implies alike_control(#[trigger] a[i], a[i]) by {
        lemma_control_alike_itself(a[i]);
    }
}

/// Every control is alike itself.
proof fn lemma_control_alike_itself(a: Control)
    ensures
        alike_control(a, a),
    decreases a,
{
    match a {
        Control::Table(s) => {
            assert forall|i: int| 0 <= i < s.cells@.len() implies alike_cell(
                #[trigger] s.cells@[i],
                s.cells@[i],
            ) by {
                lemma_paragraphs_alike_themselves(s.cells@[i].paragraphs@);
            }
        },
        Control::Header(s) => lemma_paragraphs_alike_themselves(s@),
        Control::Footer(s) => lemma_paragraphs_alike_themselves(s@),
        Control::Footnote(s) => lemma_paragraphs_alike_themselves(s@),
        Control::Endnote(s) => lemma_paragraphs_alike_themselves(s@),
        _ => {},
    }
}

/// Alike runs of paragraphs have one structure.
pub proof fn lemma_alike_paragraphs(a: Seq<Paragraph>, b: Seq<Paragraph>)
    requires
        alike_paragraphs(a, b),
    ensures
        paragraphs_bytes(a) == paragraphs_bytes(b),
    decreases a,
{
    if a.len() > 0 {
        let last = a.len() - 1;
        assert(alike_paragraph(a[last], b[last]));
        assert(alike_paragraphs(a.drop_last(), b.drop_last())) by {
            assert forall|i: int| 0 <= i < last implies alike_paragraph(
                #[trigger] a.drop_last()[i],
                b.drop_last()[i],
            ) by {
                assert(alike_paragraph(a[i], b[i]));
            }
        }
        lemma_alike_paragraphs(a.drop_last(), b.drop_last());
        lemma_alike_controls(a[last].controls@, b[last].controls@);
        assert(paragraph_bytes(a.last()) == paragraph_bytes(b.last()));
    }
}

/// Alike runs of controls have one structure.
pub proof fn lemma_alike_controls(a: Seq<Control>, b: Seq<Control>)
    requires
        alike_controls(a, b),
    ensures
        controls_bytes(a) == controls_bytes(b),
    decreases a,
{
    if a.len() > 0 {
        let last = a.len() - 1;
        assert(alike_control(a[last], b[last]));
        assert(alike_controls(a.drop_last(), b.drop_last())) by {
            assert forall|i: int| 0 <= i < last implies alike_control(
                #[trigger] a.drop_last()[i],
                b.drop_last()[i],
            ) by {
                assert(alike_control(a[i], b[i]));
            }
        }
        lemma_alike_controls(a.drop_last(), b.drop_last());
        law_control_bytes_ignore_text(a[last], b[last]);
    }
}

/// What is hashed of a control does not depend on texts or the shapes of characters, at any depth.
pub proof fn law_control_bytes_ignore_text(a: Control, b: Control)
    requires
        alike_control(a, b),
    ensures
        control_bytes(a) == control_bytes(b),
    decreases a,
{
    match a {
        Control::Table(s) => {
            let t = b->Table_0;
            assert(table_head_bytes(s) == table_head_bytes(t));
            lemma_alike_cells(s.cells@, t.cells@);
        },
        Control::Header(s) => lemma_alike_paragraphs(s@, b->Header_0@),
        Control::Footer(s) => lemma_alike_paragraphs(s@, b->Footer_0@),
        Control::Footnote(s) => lemma_alike_paragraphs(s@, b->Footnote_0@),
        Control::Endnote(s) => lemma_alike_paragraphs(s@, b->Endnote_0@),
        _ => {},
    }
}

/// Alike runs of cells have one structure.
pub proof fn lemma_alike_cells(a: Seq<Cell>, b: Seq<Cell>)
    requires
        alike_cells(a, b),
    ensures
        cells_bytes(a) == cells_bytes(b),
    decreases a,
{
    if a.len() > 0 {
        let last = a.len() - 1;
        assert(alike_cell(a[last], b[last]));
        assert(alike_cells(a.drop_last(), b.drop_last())) by {
            assert forall|i: int| 0 <= i < last implies alike_cell(
                #[trigger] a.drop_last()[i],
                b.drop_last()[i],
            ) by {
                assert(alike_cell(a[i], b[i]));
            }
        }
        lemma_alike_cells(a.drop_last(), b.drop_last());
        lemma_alike_paragraphs(a[last].paragraphs@, b[last].paragraphs@);
        assert(cell_head_bytes(a[last]) == cell_head_bytes(b[last]));
    }
}

/// Alike runs of sections have one structure.
pub proof fn lemma_alike_sections(a: Seq<Section>, b: Seq<Section>)
    requires
        a.len() == b.len(),
        forall|i: int|
            0 <= i < a.len() ==> {
                &&& (#[trigger] a[i]).section_def == b[i].section_def
                &&& alike_paragraphs(a[i].paragraphs@, b[i].paragraphs@)
            },
    ensures
        sections_bytes(a) == sections_bytes(b),
    decreases a.len(),
{
    if a.len() > 0 {
        let last = a.len() - 1;
        assert forall|i: int| 0 <= i < last implies {
            &&& (#[trigger] a.drop_last()[i]).section_def == b.drop_last()[i].section_def
            &&& alike_paragraphs(a.drop_last()[i].paragraphs@, b.drop_last()[i].paragraphs@)
        } by {
            assert(a[i].section_def == b[i].section_def);
        }
        lemma_alike_sections(a.drop_last(), b.drop_last());
        assert(a[last].section_def == b[last].section_def);
        lemma_alike_paragraphs(a[last].paragraphs@, b[last].paragraphs@);
    }
}

/// Editing text does not change what a template is known by: documents that differ in nothing but
/// texts, the shapes of characters and the numbering of tables have one structure digest.
pub proof fn law_structure_digest_ignores_text(a: DocumentCore, b: DocumentCore)
    requires
        alike_documents(a.document, b.document),
    ensures
        digest_of(a) == digest_of(b),
{
    lemma_alike_sections(a.document.sections@, b.document.sections@);
}

/// A digest is ASCII text.
pub proof fn lemma_digest_is_ascii(s: Seq<char>)
    requires
        is_digest(s),
    ensures
        is_ascii_chars(s),
{
    reveal_strlit("sha256:");
    assert forall|i: int| 0 <= i < s.len() implies '\0' <= #[trigger] s[i] <= '\u{7f}' by {
        if i < 7 {
            assert(s[i] == s.take(7)[i]);
        }
    }
}

/// A token stands for one structure and one request: what it is taken of can be told apart into
/// the two in one way only.
pub proof fn law_token_source_is_unambiguous(
    structure: Seq<char>,
    request: Seq<u8>,
    other_structure: Seq<char>,
    other_request: Seq<u8>,
)
    requires
        is_digest(structure),
        is_digest(other_structure),
        token_bytes(structure, request) == token_bytes(other_structure, other_request),
    ensures
        structure == other_structure,
        request == other_request,
{
    lemma_digest_is_ascii(structure);
    lemma_digest_is_ascii(other_structure);
    is_ascii_chars_encode_utf8(structure);
    is_ascii_chars_encode_utf8(other_structure);
    let head = tag("rhwp-approved-template-preflight-v1\0");
    let a = encode_utf8(structure);
    let b = encode_utf8(other_structure);
    let whole = head + a + request;
    let start: int = head.len() as int;
    assert(a =~= whole.subrange(start, start + 71));
    assert(b =~= whole.subrange(start, start + 71));
    assert(request =~= whole.skip(start + 71));
    assert(other_request =~= whole.skip(start + 71));
    encode_utf8_decode_utf8(structure);
    encode_utf8_decode_utf8(other_structure);
}

} // verus!
