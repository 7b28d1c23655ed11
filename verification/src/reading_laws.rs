//! Which documents can be told apart by what is hashed of their structure.

use vstd::prelude::*;
use vstd::utf8::{is_ascii_chars, is_ascii_chars_encode_utf8};

use crate::digest::{
    cell_head_bytes, cells_bytes, control_bytes, controls_bytes, le_bytes, paragraph_bytes,
    paragraphs_bytes, section_bytes, section_layout_bytes, sections_bytes, structure_bytes,
    table_head_bytes, tag,
};
use crate::digest_laws::{
    alike_cells, alike_controls, alike_paragraphs, lemma_alike_cells, lemma_alike_controls,
    lemma_alike_paragraphs,
};
use crate::encoding_laws::{
    alike_before_section, cell_bytes, law_document_difference_shows, law_section_difference_shows,
    lemma_cell_head, lemma_cells_around, lemma_controls_around, lemma_last_number, lemma_layout,
    lemma_nothing_before, lemma_paragraph_head, lemma_paragraphs_around, lemma_parts, lemma_ranges,
    lemma_regroup, lemma_sections_around, lemma_table_head, lemma_width,
};
use crate::model::{Cell, Control, Document, Paragraph, Section};

verus! {

/// Whether a run of paragraphs holds no header, footer, footnote or endnote at any depth. The
/// bytes of those do not tell where their paragraphs end.
pub open spec fn closed_paragraphs(paragraphs: Seq<Paragraph>) -> bool
    decreases paragraphs,
{
    forall|i: int| 0 <= i < paragraphs.len() ==> closed_paragraph(#[trigger] paragraphs[i])
}

/// Whether a paragraph holds no header, footer or note.
pub open spec fn closed_paragraph(paragraph: Paragraph) -> bool
    decreases paragraph,
{
    closed_controls(paragraph.controls@)
}

/// Whether a run of controls holds no header, footer or note.
pub open spec fn closed_controls(controls: Seq<Control>) -> bool
    decreases controls,
{
    forall|i: int| 0 <= i < controls.len() ==> closed_control(#[trigger] controls[i])
}

/// Whether a control neither is a header, footer or note nor holds one.
pub open spec fn closed_control(control: Control) -> bool
    decreases control,
{
    match control {
        Control::Header(_) => false,
        Control::Footer(_) => false,
        Control::Footnote(_) => false,
        Control::Endnote(_) => false,
        Control::Table(table) => closed_cells(table.cells@),
        _ => true,
    }
}

/// Whether a run of cells holds no header, footer or note.
pub open spec fn closed_cells(cells: Seq<Cell>) -> bool
    decreases cells,
{
    forall|i: int| 0 <= i < cells.len() ==> closed_cell(#[trigger] cells[i])
}

/// Whether a cell holds no header, footer or note.
pub open spec fn closed_cell(cell: Cell) -> bool
    decreases cell,
{
    closed_paragraphs(cell.paragraphs@)
}

/// The tag that a control of a closed kind starts with.
pub open spec fn tag_of(control: Control) -> &'static str {
    match control {
        Control::SectionDef => "section-def",
        Control::ColumnDef => "column-def",
        Control::Table(_) => "table",
        Control::Shape(_) => "shape",
        Control::Picture => "picture",
        Control::AutoNumber => "auto-number",
        Control::NewNumber => "new-number",
        Control::PageNumberPos => "page-number",
        Control::Bookmark => "bookmark",
        Control::Hyperlink => "hyperlink",
        Control::Ruby => "ruby",
        Control::CharOverlap => "char-overlap",
        Control::PageHide => "page-hide",
        Control::HiddenComment => "hidden-comment",
        Control::Equation => "equation",
        Control::Field(_) => "field",
        Control::Form => "form",
        Control::Unknown => "unknown",
        _ => "",
    }
}

/// The first two bytes of the tag, and the sixth of those that share them.
pub open spec fn mark_of(control: Control) -> (u8, u8, u8) {
    match control {
        Control::SectionDef => (115, 101, 0),
        Control::ColumnDef => (99, 111, 0),
        Control::Table(_) => (116, 97, 0),
        Control::Shape(_) => (115, 104, 0),
        Control::Picture => (112, 105, 0),
        Control::AutoNumber => (97, 117, 0),
        Control::NewNumber => (110, 101, 0),
        Control::PageNumberPos => (112, 97, 110),
        Control::Bookmark => (98, 111, 0),
        Control::Hyperlink => (104, 121, 0),
        Control::Ruby => (114, 117, 0),
        Control::CharOverlap => (99, 104, 0),
        Control::PageHide => (112, 97, 104),
        Control::HiddenComment => (104, 105, 0),
        Control::Equation => (101, 113, 0),
        Control::Field(_) => (102, 105, 0),
        Control::Form => (102, 111, 0),
        Control::Unknown => (117, 110, 0),
        _ => (0, 0, 0),
    }
}

/// The tag of a control bears its mark.
proof fn lemma_mark(control: Control)
    requires
        closed_control(control),
    ensures
        tag(tag_of(control)).len() == tag_of(control)@.len() >= 4,
        tag(tag_of(control))[0] == mark_of(control).0,
        tag(tag_of(control))[1] == mark_of(control).1,
        mark_of(control).2 != 0 ==> tag_of(control)@.len() > 5 && tag(tag_of(control))[5]
            == mark_of(control).2,
{
    let text = tag_of(control);
    match control {
        Control::SectionDef => reveal_strlit("section-def"),
        Control::ColumnDef => reveal_strlit("column-def"),
        Control::Table(_) => reveal_strlit("table"),
        Control::Shape(_) => reveal_strlit("shape"),
        Control::Picture => reveal_strlit("picture"),
        Control::AutoNumber => reveal_strlit("auto-number"),
        Control::NewNumber => reveal_strlit("new-number"),
        Control::PageNumberPos => reveal_strlit("page-number"),
        Control::Bookmark => reveal_strlit("bookmark"),
        Control::Hyperlink => reveal_strlit("hyperlink"),
        Control::Ruby => reveal_strlit("ruby"),
        Control::CharOverlap => reveal_strlit("char-overlap"),
        Control::PageHide => reveal_strlit("page-hide"),
        Control::HiddenComment => reveal_strlit("hidden-comment"),
        Control::Equation => reveal_strlit("equation"),
        Control::Field(_) => reveal_strlit("field"),
        Control::Form => reveal_strlit("form"),
        Control::Unknown => reveal_strlit("unknown"),
        _ => {},
    }
    assert(is_ascii_chars(text@));
    is_ascii_chars_encode_utf8(text@);
    assert(text@[0] as u8 == mark_of(control).0);
    assert(text@[1] as u8 == mark_of(control).1);
    assert(mark_of(control).2 != 0 ==> text@[5] as u8 == mark_of(control).2);
}

/// Two controls that start equal bytes are of one kind.
pub proof fn lemma_same_mark(a: Control, rest_a: Seq<u8>, b: Control, rest_b: Seq<u8>)
    requires
        closed_control(a),
        closed_control(b),
        tag(tag_of(a)) + rest_a == tag(tag_of(b)) + rest_b,
    ensures
        tag_of(a) == tag_of(b),
        rest_a == rest_b,
        a is Table <==> b is Table,
        a is Field <==> b is Field,
        mark_of(a) == mark_of(b),
{
    lemma_mark(a);
    lemma_mark(b);
    let whole = tag(tag_of(a)) + rest_a;
    let other = tag(tag_of(b)) + rest_b;
    assert(whole[0] == mark_of(a).0 && other[0] == mark_of(b).0);
    assert(whole[1] == mark_of(a).1 && other[1] == mark_of(b).1);
    if mark_of(a).2 != 0 && mark_of(b).2 != 0 {
        assert(whole[5] == mark_of(a).2 && other[5] == mark_of(b).2);
    }
    assert(mark_of(a) == mark_of(b));
    assert(tag_of(a) == tag_of(b));
    lemma_parts(tag(tag_of(a)), rest_a, tag(tag_of(b)), rest_b);
}

/// What is hashed of a control starts with its tag.
pub proof fn lemma_starts(control: Control)
    requires
        closed_control(control),
    ensures
        control_bytes(control).len() >= tag(tag_of(control)).len(),
        control_bytes(control) == tag(tag_of(control)) + control_bytes(control).skip(
            tag(tag_of(control)).len() as int,
        ),
{
    let start = tag(tag_of(control));
    match control {
        Control::Table(table) => {
            assert(table_head_bytes(table).take(start.len() as int) =~= start);
        },
        _ => {},
    }
    assert(control_bytes(control).take(start.len() as int) =~= start);
    assert(control_bytes(control) =~= start + control_bytes(control).skip(start.len() as int));
}

/// It can be told where the bytes of a closed control end.
proof fn lemma_control(a: Control, rest_a: Seq<u8>, b: Control, rest_b: Seq<u8>)
    requires
        closed_control(a),
        closed_control(b),
        control_bytes(a) + rest_a == control_bytes(b) + rest_b,
    ensures
        rest_a == rest_b,
    decreases a,
{
    lemma_starts(a);
    lemma_starts(b);
    let start_a = tag(tag_of(a));
    let start_b = tag(tag_of(b));
    let payload_a = control_bytes(a).skip(start_a.len() as int);
    let payload_b = control_bytes(b).skip(start_b.len() as int);
    lemma_regroup(start_a, payload_a, rest_a);
    lemma_regroup(start_b, payload_b, rest_b);
    lemma_same_mark(a, payload_a + rest_a, b, payload_b + rest_b);
    if let (Control::Table(s), Control::Table(t)) = (a, b) {
        lemma_regroup(table_head_bytes(s), cells_bytes(s.cells@), rest_a);
        lemma_regroup(table_head_bytes(t), cells_bytes(t.cells@), rest_b);
        lemma_table_head(s, cells_bytes(s.cells@) + rest_a, t, cells_bytes(t.cells@) + rest_b);
        lemma_cells(s.cells@, rest_a, t.cells@, rest_b);
    } else if let (Control::Field(f), Control::Field(g)) = (a, b) {
        lemma_width(f.field_id as nat, 4);
        lemma_width(f.ctrl_id as nat, 4);
        lemma_width(g.field_id as nat, 4);
        lemma_width(g.ctrl_id as nat, 4);
        assert(payload_a.len() == payload_b.len());
        lemma_parts(payload_a, rest_a, payload_b, rest_b);
    } else {
        assert(payload_a.len() == 0 && payload_b.len() == 0);
        lemma_parts(payload_a, rest_a, payload_b, rest_b);
    }
}

/// It can be told where the bytes of a run of closed controls end, where their number is known.
proof fn lemma_controls(a: Seq<Control>, rest_a: Seq<u8>, b: Seq<Control>, rest_b: Seq<u8>)
    requires
        a.len() == b.len(),
        closed_controls(a),
        closed_controls(b),
        controls_bytes(a) + rest_a == controls_bytes(b) + rest_b,
    ensures
        rest_a == rest_b,
    decreases a,
{
    if a.len() == 0 {
        assert(controls_bytes(a) + rest_a =~= rest_a);
        assert(controls_bytes(b) + rest_b =~= rest_b);
    } else {
        let others_a = a.drop_first();
        let others_b = b.drop_first();
        lemma_controls_around(a, 0);
        lemma_controls_around(b, 0);
        assert(a.take(0) =~= Seq::empty());
        assert(b.take(0) =~= Seq::empty());
        assert(a.skip(1) =~= others_a);
        assert(b.skip(1) =~= others_b);
        lemma_nothing_before(control_bytes(a[0]) + controls_bytes(others_a));
        lemma_nothing_before(control_bytes(b[0]) + controls_bytes(others_b));
        lemma_regroup(control_bytes(a[0]), controls_bytes(others_a), rest_a);
        lemma_regroup(control_bytes(b[0]), controls_bytes(others_b), rest_b);
        lemma_control(
            a[0],
            controls_bytes(others_a) + rest_a,
            b[0],
            controls_bytes(others_b) + rest_b,
        );
        assert forall|i: int| 0 <= i < others_a.len() implies closed_control(
            #[trigger] others_a[i],
        ) by {
            assert(closed_control(a[i + 1]));
        }
        assert forall|i: int| 0 <= i < others_b.len() implies closed_control(
            #[trigger] others_b[i],
        ) by {
            assert(closed_control(b[i + 1]));
        }
        lemma_controls(others_a, rest_a, others_b, rest_b);
    }
}

/// It can be told where the bytes of a run of closed paragraphs end, where their number is known;
/// and each shows its shape, its style and the number of its controls.
proof fn lemma_paragraphs(a: Seq<Paragraph>, rest_a: Seq<u8>, b: Seq<Paragraph>, rest_b: Seq<u8>)
    requires
        a.len() == b.len(),
        closed_paragraphs(a),
        closed_paragraphs(b),
        paragraphs_bytes(a) + rest_a == paragraphs_bytes(b) + rest_b,
    ensures
        rest_a == rest_b,
        same_heads(a, b),
    decreases a,
{
    if a.len() == 0 {
        assert(paragraphs_bytes(a) + rest_a =~= rest_a);
        assert(paragraphs_bytes(b) + rest_b =~= rest_b);
    } else {
        let others_a = a.drop_first();
        let others_b = b.drop_first();
        lemma_paragraphs_around(a, 0);
        lemma_paragraphs_around(b, 0);
        assert(a.take(0) =~= Seq::empty());
        assert(b.take(0) =~= Seq::empty());
        assert(a.skip(1) =~= others_a);
        assert(b.skip(1) =~= others_b);
        lemma_nothing_before(paragraph_bytes(a[0]) + paragraphs_bytes(others_a));
        lemma_nothing_before(paragraph_bytes(b[0]) + paragraphs_bytes(others_b));
        let after_a = paragraphs_bytes(others_a) + rest_a;
        let after_b = paragraphs_bytes(others_b) + rest_b;
        lemma_regroup(paragraph_bytes(a[0]), paragraphs_bytes(others_a), rest_a);
        lemma_regroup(paragraph_bytes(b[0]), paragraphs_bytes(others_b), rest_b);
        lemma_paragraph_head(a[0], after_a, b[0], after_b);
        assert(closed_paragraph(a[0]) && closed_paragraph(b[0]));
        lemma_controls(a[0].controls@, after_a, b[0].controls@, after_b);
        assert forall|i: int| 0 <= i < others_a.len() implies closed_paragraph(
            #[trigger] others_a[i],
        ) by {
            assert(closed_paragraph(a[i + 1]));
        }
        assert forall|i: int| 0 <= i < others_b.len() implies closed_paragraph(
            #[trigger] others_b[i],
        ) by {
            assert(closed_paragraph(b[i + 1]));
        }
        lemma_paragraphs(others_a, rest_a, others_b, rest_b);
        assert forall|i: int| 0 <= i < a.len() implies same_head(#[trigger] a[i], b[i]) by {
            if i > 0 {
                assert(same_head(others_a[i - 1], others_b[i - 1]));
            }
        }
    }
}

/// Whether two paragraphs agree in shape, style and number of controls.
pub open spec fn same_head(a: Paragraph, b: Paragraph) -> bool {
    &&& a.para_shape_id == b.para_shape_id
    &&& a.style_id == b.style_id
    &&& a.controls@.len() == b.controls@.len()
}

/// Whether two runs have as many paragraphs, and these agree in shape, style and number of
/// controls.
pub open spec fn same_heads(a: Seq<Paragraph>, b: Seq<Paragraph>) -> bool {
    &&& a.len() == b.len()
    &&& forall|i: int| 0 <= i < a.len() ==> same_head(#[trigger] a[i], b[i])
}

/// It can be told where the bytes of a run of closed cells end, where their number is known.
proof fn lemma_cells(a: Seq<Cell>, rest_a: Seq<u8>, b: Seq<Cell>, rest_b: Seq<u8>)
    requires
        a.len() == b.len(),
        closed_cells(a),
        closed_cells(b),
        cells_bytes(a) + rest_a == cells_bytes(b) + rest_b,
    ensures
        rest_a == rest_b,
    decreases a,
{
    if a.len() == 0 {
        assert(cells_bytes(a) + rest_a =~= rest_a);
        assert(cells_bytes(b) + rest_b =~= rest_b);
    } else {
        let others_a = a.drop_first();
        let others_b = b.drop_first();
        lemma_cells_around(a, 0);
        lemma_cells_around(b, 0);
        assert(a.take(0) =~= Seq::empty());
        assert(b.take(0) =~= Seq::empty());
        assert(a.skip(1) =~= others_a);
        assert(b.skip(1) =~= others_b);
        lemma_nothing_before(cell_bytes(a[0]) + cells_bytes(others_a));
        lemma_nothing_before(cell_bytes(b[0]) + cells_bytes(others_b));
        let after_a = cells_bytes(others_a) + rest_a;
        let after_b = cells_bytes(others_b) + rest_b;
        let body_a = paragraphs_bytes(a[0].paragraphs@);
        let body_b = paragraphs_bytes(b[0].paragraphs@);
        lemma_regroup(cell_bytes(a[0]), cells_bytes(others_a), rest_a);
        lemma_regroup(cell_bytes(b[0]), cells_bytes(others_b), rest_b);
        lemma_regroup(cell_head_bytes(a[0]), body_a, after_a);
        lemma_regroup(cell_head_bytes(b[0]), body_b, after_b);
        lemma_cell_head(a[0], b[0]);
        lemma_cell_head(b[0], a[0]);
        lemma_parts(
            cell_head_bytes(a[0]),
            body_a + after_a,
            cell_head_bytes(b[0]),
            body_b + after_b,
        );
        assert(closed_cell(a[0]) && closed_cell(b[0]));
        lemma_paragraphs(a[0].paragraphs@, after_a, b[0].paragraphs@, after_b);
        assert forall|i: int| 0 <= i < others_a.len() implies closed_cell(
            #[trigger] others_a[i],
        ) by {
            assert(closed_cell(a[i + 1]));
        }
        assert forall|i: int| 0 <= i < others_b.len() implies closed_cell(
            #[trigger] others_b[i],
        ) by {
            assert(closed_cell(b[i + 1]));
        }
        lemma_cells(others_a, rest_a, others_b, rest_b);
    }
}

/// Whether a run of sections holds no header, footer or note.
pub open spec fn closed_sections(sections: Seq<Section>) -> bool {
    forall|s: int|
        0 <= s < sections.len() ==> closed_paragraphs((#[trigger] sections[s]).paragraphs@)
}

/// Closed sections show their layouts, and their paragraphs.
proof fn lemma_sections(a: Seq<Section>, b: Seq<Section>)
    requires
        a.len() == b.len(),
        closed_sections(a),
        closed_sections(b),
        sections_bytes(a) == sections_bytes(b),
    ensures
        forall|s: int|
            0 <= s < a.len() ==> {
                &&& (#[trigger] a[s]).section_def == b[s].section_def
                &&& same_heads(a[s].paragraphs@, b[s].paragraphs@)
            },
    decreases a.len(),
{
    if a.len() > 0 {
        let others_a = a.drop_first();
        let others_b = b.drop_first();
        lemma_sections_around(a, 0);
        lemma_sections_around(b, 0);
        assert(a.take(0) =~= Seq::empty());
        assert(b.take(0) =~= Seq::empty());
        assert(a.skip(1) =~= others_a);
        assert(b.skip(1) =~= others_b);
        let rest_a = sections_bytes(others_a);
        let rest_b = sections_bytes(others_b);
        lemma_nothing_before(section_bytes(a[0]) + rest_a);
        lemma_nothing_before(section_bytes(b[0]) + rest_b);
        let layout_a = section_layout_bytes(a[0].section_def);
        let layout_b = section_layout_bytes(b[0].section_def);
        let count_a = le_bytes(a[0].paragraphs.len() as nat, 8);
        let count_b = le_bytes(b[0].paragraphs.len() as nat, 8);
        let body_a = paragraphs_bytes(a[0].paragraphs@);
        let body_b = paragraphs_bytes(b[0].paragraphs@);
        lemma_ranges();
        lemma_width(a[0].paragraphs.len() as nat, 8);
        lemma_width(b[0].paragraphs.len() as nat, 8);
        lemma_layout(a[0].section_def, b[0].section_def);
        lemma_layout(b[0].section_def, a[0].section_def);
        lemma_regroup(layout_a + count_a, body_a, rest_a);
        lemma_regroup(layout_b + count_b, body_b, rest_b);
        lemma_parts(layout_a + count_a, body_a + rest_a, layout_b + count_b, body_b + rest_b);
        lemma_last_number(
            layout_a,
            a[0].paragraphs.len() as nat,
            layout_b,
            b[0].paragraphs.len() as nat,
            8,
        );
        assert(closed_paragraphs(a[0].paragraphs@) && closed_paragraphs(b[0].paragraphs@));
        lemma_paragraphs(a[0].paragraphs@, rest_a, b[0].paragraphs@, rest_b);
        assert forall|s: int| 0 <= s < others_a.len() implies closed_paragraphs(
            (#[trigger] others_a[s]).paragraphs@,
        ) by {
            assert(closed_paragraphs(a[s + 1].paragraphs@));
        }
        assert forall|s: int| 0 <= s < others_b.len() implies closed_paragraphs(
            (#[trigger] others_b[s]).paragraphs@,
        ) by {
            assert(closed_paragraphs(b[s + 1].paragraphs@));
        }
        lemma_sections(others_a, others_b);
        assert forall|s: int| 0 <= s < a.len() implies {
            &&& (#[trigger] a[s]).section_def == b[s].section_def
            &&& same_heads(a[s].paragraphs@, b[s].paragraphs@)
        } by {
            if s > 0 {
                assert(others_a[s - 1].section_def == others_b[s - 1].section_def);
            }
        }
    }
}

/// The structure of a document shows in what is hashed of it, where it holds no header, footer or
/// note: two such documents with equal bytes have as many sections and binary items, and their
/// sections have equal layouts and as many paragraphs, which agree in shape, style and number of
/// controls. So documents that differ in any of these differ in what is hashed.
pub proof fn law_closed_structure_shows(a: Document, b: Document)
    requires
        closed_sections(a.sections@),
        closed_sections(b.sections@),
        structure_bytes(a) == structure_bytes(b),
    ensures
        a.sections@.len() == b.sections@.len(),
        a.bin_data_count == b.bin_data_count,
        forall|s: int|
            0 <= s < a.sections@.len() ==> {
                &&& (#[trigger] a.sections@[s]).section_def == b.sections@[s].section_def
                &&& same_heads(a.sections@[s].paragraphs@, b.sections@[s].paragraphs@)
            },
{
    law_document_difference_shows(a, b);
    lemma_sections(a.sections@, b.sections@);
}

/// Whether two runs of paragraphs first differ in the shape, the style or the number of controls of
/// a paragraph, at any depth: the paragraphs before it are alike, and it differs itself, or holds
/// the one that does.
pub open spec fn first_differ_in_paragraphs(a: Seq<Paragraph>, b: Seq<Paragraph>) -> bool
    decreases a,
{
    exists|i: int|
        0 <= i < a.len() && i < b.len() && alike_paragraphs(a.take(i), b.take(i))
            && first_differ_in_paragraph(#[trigger] a[i], b[i])
}

/// Whether two paragraphs differ in shape, style or number of controls, or their controls first
/// differ in such a paragraph.
pub open spec fn first_differ_in_paragraph(a: Paragraph, b: Paragraph) -> bool
    decreases a,
{
    !same_head(a, b) || first_differ_in_controls(a.controls@, b.controls@)
}

/// Whether two runs of controls first differ in such a paragraph.
pub open spec fn first_differ_in_controls(a: Seq<Control>, b: Seq<Control>) -> bool
    decreases a,
{
    exists|i: int|
        0 <= i < a.len() && i < b.len() && alike_controls(a.take(i), b.take(i))
            && first_differ_in_control(#[trigger] a[i], b[i])
}

/// Whether two controls first differ in such a paragraph: in a cell, a header, a footer or a note.
pub open spec fn first_differ_in_control(a: Control, b: Control) -> bool
    decreases a,
{
    match a {
        Control::Table(s) => b matches Control::Table(t) && first_differ_in_cells(
            s.cells@,
            t.cells@,
        ),
        Control::Header(s) => b matches Control::Header(t) && first_differ_in_paragraphs(s@, t@),
        Control::Footer(s) => b matches Control::Footer(t) && first_differ_in_paragraphs(s@, t@),
        Control::Footnote(s) => b matches Control::Footnote(t) && first_differ_in_paragraphs(
            s@,
            t@,
        ),
        Control::Endnote(s) => b matches Control::Endnote(t) && first_differ_in_paragraphs(s@, t@),
        _ => false,
    }
}

/// Whether two runs of cells first differ in such a paragraph.
pub open spec fn first_differ_in_cells(a: Seq<Cell>, b: Seq<Cell>) -> bool
    decreases a,
{
    exists|i: int|
        0 <= i < a.len() && i < b.len() && alike_cells(a.take(i), b.take(i))
            && first_differ_in_cell(#[trigger] a[i], b[i])
}

/// Whether two cells first differ in such a paragraph.
pub open spec fn first_differ_in_cell(a: Cell, b: Cell) -> bool
    decreases a,
{
    first_differ_in_paragraphs(a.paragraphs@, b.paragraphs@)
}

/// Runs of paragraphs that first differ in a paragraph differ in what is hashed, whatever follows.
proof fn lemma_paragraphs_differ(
    a: Seq<Paragraph>,
    rest_a: Seq<u8>,
    b: Seq<Paragraph>,
    rest_b: Seq<u8>,
)
    requires
        first_differ_in_paragraphs(a, b),
    ensures
        paragraphs_bytes(a) + rest_a != paragraphs_bytes(b) + rest_b,
    decreases a,
{
    if paragraphs_bytes(a) + rest_a == paragraphs_bytes(b) + rest_b {
        let i = choose|i: int|
            0 <= i < a.len() && i < b.len() && alike_paragraphs(a.take(i), b.take(i))
                && first_differ_in_paragraph(#[trigger] a[i], b[i]);
        lemma_paragraphs_around(a, i);
        lemma_paragraphs_around(b, i);
        lemma_alike_paragraphs(a.take(i), b.take(i));
        let before = paragraphs_bytes(a.take(i));
        let one_a = paragraph_bytes(a[i]);
        let one_b = paragraph_bytes(b[i]);
        let tail_a = paragraphs_bytes(a.skip(i + 1));
        let tail_b = paragraphs_bytes(b.skip(i + 1));
        lemma_regroup(before, one_a + tail_a, rest_a);
        lemma_regroup(before, one_b + tail_b, rest_b);
        lemma_regroup(one_a, tail_a, rest_a);
        lemma_regroup(one_b, tail_b, rest_b);
        lemma_parts(before, one_a + (tail_a + rest_a), before, one_b + (tail_b + rest_b));
        lemma_paragraph_head(a[i], tail_a + rest_a, b[i], tail_b + rest_b);
        lemma_controls_differ(
            a[i].controls@,
            tail_a + rest_a,
            b[i].controls@,
            tail_b + rest_b,
        );
    }
}

/// Runs of controls that first differ in a paragraph differ in what is hashed, whatever follows.
proof fn lemma_controls_differ(
    a: Seq<Control>,
    rest_a: Seq<u8>,
    b: Seq<Control>,
    rest_b: Seq<u8>,
)
    requires
        first_differ_in_controls(a, b),
    ensures
        controls_bytes(a) + rest_a != controls_bytes(b) + rest_b,
    decreases a,
{
    if controls_bytes(a) + rest_a == controls_bytes(b) + rest_b {
        let i = choose|i: int|
            0 <= i < a.len() && i < b.len() && alike_controls(a.take(i), b.take(i))
                && first_differ_in_control(#[trigger] a[i], b[i]);
        lemma_controls_around(a, i);
        lemma_controls_around(b, i);
        lemma_alike_controls(a.take(i), b.take(i));
        let before = controls_bytes(a.take(i));
        let one_a = control_bytes(a[i]);
        let one_b = control_bytes(b[i]);
        let tail_a = controls_bytes(a.skip(i + 1));
        let tail_b = controls_bytes(b.skip(i + 1));
        lemma_regroup(before, one_a + tail_a, rest_a);
        lemma_regroup(before, one_b + tail_b, rest_b);
        lemma_regroup(one_a, tail_a, rest_a);
        lemma_regroup(one_b, tail_b, rest_b);
        lemma_parts(before, one_a + (tail_a + rest_a), before, one_b + (tail_b + rest_b));
        lemma_control_differs(a[i], tail_a + rest_a, b[i], tail_b + rest_b);
    }
}

/// Controls that first differ in a paragraph differ in what is hashed, whatever follows.
proof fn lemma_control_differs(a: Control, rest_a: Seq<u8>, b: Control, rest_b: Seq<u8>)
    requires
        first_differ_in_control(a, b),
    ensures
        control_bytes(a) + rest_a != control_bytes(b) + rest_b,
    decreases a,
{
    if control_bytes(a) + rest_a == control_bytes(b) + rest_b {
        match a {
            Control::Table(s) => {
                let t = b->Table_0;
                lemma_regroup(table_head_bytes(s), cells_bytes(s.cells@), rest_a);
                lemma_regroup(table_head_bytes(t), cells_bytes(t.cells@), rest_b);
                lemma_table_head(
                    s,
                    cells_bytes(s.cells@) + rest_a,
                    t,
                    cells_bytes(t.cells@) + rest_b,
                );
                lemma_cells_differ(s.cells@, rest_a, t.cells@, rest_b);
            },
            Control::Header(s) => {
                lemma_behind_tag("header", s@, rest_a, b->Header_0@, rest_b);
                lemma_paragraphs_differ(s@, rest_a, b->Header_0@, rest_b);
            },
            Control::Footer(s) => {
                lemma_behind_tag("footer", s@, rest_a, b->Footer_0@, rest_b);
                lemma_paragraphs_differ(s@, rest_a, b->Footer_0@, rest_b);
            },
            Control::Footnote(s) => {
                lemma_behind_tag("footnote", s@, rest_a, b->Footnote_0@, rest_b);
                lemma_paragraphs_differ(s@, rest_a, b->Footnote_0@, rest_b);
            },
            Control::Endnote(s) => {
                lemma_behind_tag("endnote", s@, rest_a, b->Endnote_0@, rest_b);
                lemma_paragraphs_differ(s@, rest_a, b->Endnote_0@, rest_b);
            },
            _ => {},
        }
    }
}

/// Behind one tag, equal bytes are of equal paragraphs.
proof fn lemma_behind_tag(
    name: &str,
    a: Seq<Paragraph>,
    rest_a: Seq<u8>,
    b: Seq<Paragraph>,
    rest_b: Seq<u8>,
)
    requires
        tag(name) + paragraphs_bytes(a) + rest_a == tag(name) + paragraphs_bytes(b) + rest_b,
    ensures
        paragraphs_bytes(a) + rest_a == paragraphs_bytes(b) + rest_b,
{
    lemma_regroup(tag(name), paragraphs_bytes(a), rest_a);
    lemma_regroup(tag(name), paragraphs_bytes(b), rest_b);
    lemma_parts(
        tag(name),
        paragraphs_bytes(a) + rest_a,
        tag(name),
        paragraphs_bytes(b) + rest_b,
    );
}

/// Runs of cells that first differ in a paragraph differ in what is hashed, whatever follows.
proof fn lemma_cells_differ(a: Seq<Cell>, rest_a: Seq<u8>, b: Seq<Cell>, rest_b: Seq<u8>)
    requires
        first_differ_in_cells(a, b),
    ensures
        cells_bytes(a) + rest_a != cells_bytes(b) + rest_b,
    decreases a,
{
    if cells_bytes(a) + rest_a == cells_bytes(b) + rest_b {
        let i = choose|i: int|
            0 <= i < a.len() && i < b.len() && alike_cells(a.take(i), b.take(i))
                && first_differ_in_cell(#[trigger] a[i], b[i]);
        lemma_cells_around(a, i);
        lemma_cells_around(b, i);
        lemma_alike_cells(a.take(i), b.take(i));
        let before = cells_bytes(a.take(i));
        let one_a = cell_bytes(a[i]);
        let one_b = cell_bytes(b[i]);
        let tail_a = cells_bytes(a.skip(i + 1));
        let tail_b = cells_bytes(b.skip(i + 1));
        let body_a = paragraphs_bytes(a[i].paragraphs@);
        let body_b = paragraphs_bytes(b[i].paragraphs@);
        lemma_regroup(before, one_a + tail_a, rest_a);
        lemma_regroup(before, one_b + tail_b, rest_b);
        lemma_regroup(one_a, tail_a, rest_a);
        lemma_regroup(one_b, tail_b, rest_b);
        lemma_parts(before, one_a + (tail_a + rest_a), before, one_b + (tail_b + rest_b));
        lemma_regroup(cell_head_bytes(a[i]), body_a, tail_a + rest_a);
        lemma_regroup(cell_head_bytes(b[i]), body_b, tail_b + rest_b);
        lemma_cell_head(a[i], b[i]);
        lemma_cell_head(b[i], a[i]);
        lemma_parts(
            cell_head_bytes(a[i]),
            body_a + (tail_a + rest_a),
            cell_head_bytes(b[i]),
            body_b + (tail_b + rest_b),
        );
        lemma_paragraphs_differ(
            a[i].paragraphs@,
            tail_a + rest_a,
            b[i].paragraphs@,
            tail_b + rest_b,
        );
    }
}

/// A paragraph shows in what is hashed of its document at any depth, in the body, a cell, a header,
/// a footer or a note: documents that first differ in the shape, the style or the number of
/// controls of a paragraph differ in what is hashed, whatever comes after it. So do documents that
/// differ in one such paragraph and else in texts alone.
pub proof fn law_paragraph_shows_at_any_depth(a: Document, b: Document, s: int)
    requires
        0 <= s < a.sections@.len(),
        s < b.sections@.len(),
        alike_before_section(a, b, s),
        first_differ_in_paragraphs(a.sections@[s].paragraphs@, b.sections@[s].paragraphs@),
    ensures
        structure_bytes(a) != structure_bytes(b),
{
    if structure_bytes(a) == structure_bytes(b) {
        law_section_difference_shows(a, b, s);
        lemma_paragraphs_differ(
            a.sections@[s].paragraphs@,
            sections_bytes(a.sections@.skip(s + 1)),
            b.sections@[s].paragraphs@,
            sections_bytes(b.sections@.skip(s + 1)),
        );
    }
}

} // verus!
