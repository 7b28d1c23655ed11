//! What the bytes that a document is known by tell of its structure.

use vstd::prelude::*;

use crate::digest::{
    cell_head_bytes, cells_bytes, control_bytes, controls_bytes, le_bytes, paragraph_bytes,
    paragraphs_bytes, section_bytes, section_layout_bytes, sections_bytes, structure_bytes,
    table_head_bytes, tag,
};
use crate::digest_laws::{alike_cell_frame, alike_frame};
use crate::encoding_laws::{
    cell_bytes, law_document_difference_shows, lemma_cell_head, lemma_cells_around,
    lemma_controls_around, lemma_last_number, lemma_layout, lemma_nothing_before, lemma_number,
    lemma_paragraph_head, lemma_paragraphs_around, lemma_parts, lemma_ranges, lemma_regroup,
    lemma_sections_around, lemma_table_head, lemma_width,
};
use crate::model::{Cell, Control, Document, Field, Paragraph, Section};
use crate::reading_laws::{
    closed_cell, closed_cells, closed_control, closed_controls, closed_paragraph, closed_paragraphs,
    closed_sections, lemma_same_mark, lemma_starts, mark_of, tag_of,
};

verus! {

/// Whether two runs of paragraphs have one structure: they differ in nothing but texts, the shapes
/// of characters, and what their drawing objects are.
pub open spec fn same_paragraphs(a: Seq<Paragraph>, b: Seq<Paragraph>) -> bool
    decreases a,
{
    &&& a.len() == b.len()
    &&& forall|i: int| 0 <= i < a.len() ==> same_paragraph(#[trigger] a[i], b[i])
}

/// Whether two paragraphs have one structure.
pub open spec fn same_paragraph(a: Paragraph, b: Paragraph) -> bool
    decreases a,
{
    &&& a.para_shape_id == b.para_shape_id
    &&& a.style_id == b.style_id
    &&& same_controls(a.controls@, b.controls@)
}

/// Whether two runs of controls have one structure.
pub open spec fn same_controls(a: Seq<Control>, b: Seq<Control>) -> bool
    decreases a,
{
    &&& a.len() == b.len()
    &&& forall|i: int| 0 <= i < a.len() ==> same_control(#[trigger] a[i], b[i])
}

/// Whether two controls have one structure: they are of one kind, and what they hold has one.
pub open spec fn same_control(a: Control, b: Control) -> bool
    decreases a,
{
    match a {
        Control::Table(s) => b matches Control::Table(t) && {
            &&& alike_frame(s, t)
            &&& same_cells(s.cells@, t.cells@)
        },
        Control::Shape(_) => b is Shape,
        Control::Header(s) => b matches Control::Header(t) && same_paragraphs(s@, t@),
        Control::Footer(s) => b matches Control::Footer(t) && same_paragraphs(s@, t@),
        Control::Footnote(s) => b matches Control::Footnote(t) && same_paragraphs(s@, t@),
        Control::Endnote(s) => b matches Control::Endnote(t) && same_paragraphs(s@, t@),
        _ => a == b,
    }
}

/// Whether two runs of cells have one structure.
pub open spec fn same_cells(a: Seq<Cell>, b: Seq<Cell>) -> bool
    decreases a,
{
    &&& a.len() == b.len()
    &&& forall|i: int| 0 <= i < a.len() ==> same_cell(#[trigger] a[i], b[i])
}

/// Whether two cells have one structure.
pub open spec fn same_cell(a: Cell, b: Cell) -> bool
    decreases a,
{
    &&& alike_cell_frame(a, b)
    &&& same_paragraphs(a.paragraphs@, b.paragraphs@)
}

/// It can be told where the bytes of a closed control end.
proof fn lemma_control(a: Control, rest_a: Seq<u8>, b: Control, rest_b: Seq<u8>)
    requires
        closed_control(a),
        closed_control(b),
        control_bytes(a) + rest_a == control_bytes(b) + rest_b,
    ensures
        rest_a == rest_b,
        same_control(a, b),
    decreases a,
{
    lemma_starts(a);
    lemma_starts(b);
    let start_a = tag(tag_of(a));
    let start_b = tag(tag_of(b));
    let payload_a = control_bytes(a).skip(start_a.len() as int);
    let payload_b = control_bytes(b).skip(start_b.len() as int);
    lemma_regroup(start_a, payload_a, rest_a);
    lemma_regroup(start_b, payload_b, rest_b);
    lemma_same_mark(a, payload_a + rest_a, b, payload_b + rest_b);
    lemma_one_kind(a, b);
    if let (Control::Table(s), Control::Table(t)) = (a, b) {
        lemma_regroup(table_head_bytes(s), cells_bytes(s.cells@), rest_a);
        lemma_regroup(table_head_bytes(t), cells_bytes(t.cells@), rest_b);
        lemma_table_head(s, cells_bytes(s.cells@) + rest_a, t, cells_bytes(t.cells@) + rest_b);
        lemma_cells(s.cells@, rest_a, t.cells@, rest_b);
    } else if let (Control::Field(f), Control::Field(g)) = (a, b) {
        lemma_field(f, payload_a, rest_a, g, payload_b, rest_b);
    } else {
        assert(payload_a.len() == 0 && payload_b.len() == 0);
        lemma_parts(payload_a, rest_a, payload_b, rest_b);
    }
}

/// Closed controls of one mark are of one kind.
proof fn lemma_one_kind(a: Control, b: Control)
    requires
        closed_control(a),
        closed_control(b),
        mark_of(a) == mark_of(b),
    ensures
        a is Table <==> b is Table,
        a is Field <==> b is Field,
        !(a is Table) && !(a is Field) ==> same_control(a, b),
{
}

/// The identifiers of a field can be read back from its bytes.
pub proof fn lemma_field(
    f: Field,
    payload_f: Seq<u8>,
    rest_f: Seq<u8>,
    g: Field,
    payload_g: Seq<u8>,
    rest_g: Seq<u8>,
)
    requires
        payload_f == control_bytes(Control::Field(f)).skip(tag("field").len() as int),
        payload_g == control_bytes(Control::Field(g)).skip(tag("field").len() as int),
        payload_f + rest_f == payload_g + rest_g,
    ensures
        f == g,
        rest_f == rest_g,
{
    let ids_f = le_bytes(f.field_id as nat, 4) + le_bytes(f.ctrl_id as nat, 4);
    let ids_g = le_bytes(g.field_id as nat, 4) + le_bytes(g.ctrl_id as nat, 4);
    lemma_width(f.field_id as nat, 4);
    lemma_width(f.ctrl_id as nat, 4);
    lemma_width(g.field_id as nat, 4);
    lemma_width(g.ctrl_id as nat, 4);
    assert(payload_f =~= ids_f);
    assert(payload_g =~= ids_g);
    lemma_parts(payload_f, rest_f, payload_g, rest_g);
    lemma_ranges();
    lemma_last_number(
        le_bytes(f.field_id as nat, 4),
        f.ctrl_id as nat,
        le_bytes(g.field_id as nat, 4),
        g.ctrl_id as nat,
        4,
    );
    lemma_number(f.field_id as nat, g.field_id as nat, 4);
}

/// It can be told where the bytes of a run of closed controls end, where their number is known.
proof fn lemma_controls(a: Seq<Control>, rest_a: Seq<u8>, b: Seq<Control>, rest_b: Seq<u8>)
    requires
        a.len() == b.len(),
        closed_controls(a),
        closed_controls(b),
        controls_bytes(a) + rest_a == controls_bytes(b) + rest_b,
    ensures
        rest_a == rest_b,
        same_controls(a, b),
    decreases a,
{
    if a.len() == 0 {
        assert(controls_bytes(a) + rest_a =~= rest_a);
        assert(controls_bytes(b) + rest_b =~= rest_b);
    } else {
        let others_a = a.drop_first();
        let others_b = b.drop_first();
        lemma_controls_around(a, 0);
        lemma_controls_around(b, 0);
        assert(a.take(0) =~= Seq::empty());
        assert(b.take(0) =~= Seq::empty());
        assert(a.skip(1) =~= others_a);
        assert(b.skip(1) =~= others_b);
        lemma_nothing_before(control_bytes(a[0]) + controls_bytes(others_a));
        lemma_nothing_before(control_bytes(b[0]) + controls_bytes(others_b));
        lemma_regroup(control_bytes(a[0]), controls_bytes(others_a), rest_a);
        lemma_regroup(control_bytes(b[0]), controls_bytes(others_b), rest_b);
        lemma_control(
            a[0],
            controls_bytes(others_a) + rest_a,
            b[0],
            controls_bytes(others_b) + rest_b,
        );
        assert forall|i: int| 0 <= i < others_a.len() implies closed_control(
            #[trigger] others_a[i],
        ) by {
            assert(closed_control(a[i + 1]));
        }
        assert forall|i: int| 0 <= i < others_b.len() implies closed_control(
            #[trigger] others_b[i],
        ) by {
            assert(closed_control(b[i + 1]));
        }
        lemma_controls(others_a, rest_a, others_b, rest_b);
        assert forall|i: int| 0 <= i < a.len() implies same_control(#[trigger] a[i], b[i]) by {
            if i > 0 {
                assert(same_control(others_a[i - 1], others_b[i - 1]));
            }
        }
    }
}

/// It can be told where the bytes of a run of closed paragraphs end, where their number is known.
proof fn lemma_paragraphs(a: Seq<Paragraph>, rest_a: Seq<u8>, b: Seq<Paragraph>, rest_b: Seq<u8>)
    requires
        a.len() == b.len(),
        closed_paragraphs(a),
        closed_paragraphs(b),
        paragraphs_bytes(a) + rest_a == paragraphs_bytes(b) + rest_b,
    ensures
        rest_a == rest_b,
        same_paragraphs(a, b),
    decreases a,
{
    if a.len() == 0 {
        assert(paragraphs_bytes(a) + rest_a =~= rest_a);
        assert(paragraphs_bytes(b) + rest_b =~= rest_b);
    } else {
        let others_a = a.drop_first();
        let others_b = b.drop_first();
        lemma_paragraphs_around(a, 0);
        lemma_paragraphs_around(b, 0);
        assert(a.take(0) =~= Seq::empty());
        assert(b.take(0) =~= Seq::empty());
        assert(a.skip(1) =~= others_a);
        assert(b.skip(1) =~= others_b);
        lemma_nothing_before(paragraph_bytes(a[0]) + paragraphs_bytes(others_a));
        lemma_nothing_before(paragraph_bytes(b[0]) + paragraphs_bytes(others_b));
        let after_a = paragraphs_bytes(others_a) + rest_a;
        let after_b = paragraphs_bytes(others_b) + rest_b;
        lemma_regroup(paragraph_bytes(a[0]), paragraphs_bytes(others_a), rest_a);
        lemma_regroup(paragraph_bytes(b[0]), paragraphs_bytes(others_b), rest_b);
        lemma_paragraph_head(a[0], after_a, b[0], after_b);
        assert(closed_paragraph(a[0]) && closed_paragraph(b[0]));
        lemma_controls(a[0].controls@, after_a, b[0].controls@, after_b);
        assert forall|i: int| 0 <= i < others_a.len() implies closed_paragraph(
            #[trigger] others_a[i],
        ) by {
            assert(closed_paragraph(a[i + 1]));
        }
        assert forall|i: int| 0 <= i < others_b.len() implies closed_paragraph(
            #[trigger] others_b[i],
        ) by {
            assert(closed_paragraph(b[i + 1]));
        }
        lemma_paragraphs(others_a, rest_a, others_b, rest_b);
        assert forall|i: int| 0 <= i < a.len() implies same_paragraph(#[trigger] a[i], b[i]) by {
            if i > 0 {
                assert(same_paragraph(others_a[i - 1], others_b[i - 1]));
            }
        }
    }
}

/// It can be told where the bytes of a run of closed cells end, where their number is known.
proof fn lemma_cells(a: Seq<Cell>, rest_a: Seq<u8>, b: Seq<Cell>, rest_b: Seq<u8>)
    requires
        a.len() == b.len(),
        closed_cells(a),
        closed_cells(b),
        cells_bytes(a) + rest_a == cells_bytes(b) + rest_b,
    ensures
        rest_a == rest_b,
        same_cells(a, b),
    decreases a,
{
    if a.len() == 0 {
        assert(cells_bytes(a) + rest_a =~= rest_a);
        assert(cells_bytes(b) + rest_b =~= rest_b);
    } else {
        let others_a = a.drop_first();
        let others_b = b.drop_first();
        lemma_cells_around(a, 0);
        lemma_cells_around(b, 0);
        assert(a.take(0) =~= Seq::empty());
        assert(b.take(0) =~= Seq::empty());
        assert(a.skip(1) =~= others_a);
        assert(b.skip(1) =~= others_b);
        lemma_nothing_before(cell_bytes(a[0]) + cells_bytes(others_a));
        lemma_nothing_before(cell_bytes(b[0]) + cells_bytes(others_b));
        let after_a = cells_bytes(others_a) + rest_a;
        let after_b = cells_bytes(others_b) + rest_b;
        let body_a = paragraphs_bytes(a[0].paragraphs@);
        let body_b = paragraphs_bytes(b[0].paragraphs@);
        lemma_regroup(cell_bytes(a[0]), cells_bytes(others_a), rest_a);
        lemma_regroup(cell_bytes(b[0]), cells_bytes(others_b), rest_b);
        lemma_regroup(cell_head_bytes(a[0]), body_a, after_a);
        lemma_regroup(cell_head_bytes(b[0]), body_b, after_b);
        lemma_cell_head(a[0], b[0]);
        lemma_cell_head(b[0], a[0]);
        lemma_parts(
            cell_head_bytes(a[0]),
            body_a + after_a,
            cell_head_bytes(b[0]),
            body_b + after_b,
        );
        assert(closed_cell(a[0]) && closed_cell(b[0]));
        lemma_paragraphs(a[0].paragraphs@, after_a, b[0].paragraphs@, after_b);
        assert forall|i: int| 0 <= i < others_a.len() implies closed_cell(
            #[trigger] others_a[i],
        ) by {
            assert(closed_cell(a[i + 1]));
        }
        assert forall|i: int| 0 <= i < others_b.len() implies closed_cell(
            #[trigger] others_b[i],
        ) by {
            assert(closed_cell(b[i + 1]));
        }
        lemma_cells(others_a, rest_a, others_b, rest_b);
        assert forall|i: int| 0 <= i < a.len() implies same_cell(#[trigger] a[i], b[i]) by {
            if i > 0 {
                assert(same_cell(others_a[i - 1], others_b[i - 1]));
            }
        }
    }
}

/// Closed sections show their layouts, and their paragraphs.
proof fn lemma_sections(a: Seq<Section>, b: Seq<Section>)
    requires
        a.len() == b.len(),
        closed_sections(a),
        closed_sections(b),
        sections_bytes(a) == sections_bytes(b),
    ensures
        forall|s: int|
            0 <= s < a.len() ==> {
                &&& (#[trigger] a[s]).section_def == b[s].section_def
                &&& same_paragraphs(a[s].paragraphs@, b[s].paragraphs@)
            },
    decreases a.len(),
{
    if a.len() > 0 {
        let others_a = a.drop_first();
        let others_b = b.drop_first();
        lemma_sections_around(a, 0);
        lemma_sections_around(b, 0);
        assert(a.take(0) =~= Seq::empty());
        assert(b.take(0) =~= Seq::empty());
        assert(a.skip(1) =~= others_a);
        assert(b.skip(1) =~= others_b);
        let rest_a = sections_bytes(others_a);
        let rest_b = sections_bytes(others_b);
        lemma_nothing_before(section_bytes(a[0]) + rest_a);
        lemma_nothing_before(section_bytes(b[0]) + rest_b);
        let layout_a = section_layout_bytes(a[0].section_def);
        let layout_b = section_layout_bytes(b[0].section_def);
        let count_a = le_bytes(a[0].paragraphs.len() as nat, 8);
        let count_b = le_bytes(b[0].paragraphs.len() as nat, 8);
        let body_a = paragraphs_bytes(a[0].paragraphs@);
        let body_b = paragraphs_bytes(b[0].paragraphs@);
        lemma_ranges();
        lemma_width(a[0].paragraphs.len() as nat, 8);
        lemma_width(b[0].paragraphs.len() as nat, 8);
        lemma_layout(a[0].section_def, b[0].section_def);
        lemma_layout(b[0].section_def, a[0].section_def);
        lemma_regroup(layout_a + count_a, body_a, rest_a);
        lemma_regroup(layout_b + count_b, body_b, rest_b);
        lemma_parts(layout_a + count_a, body_a + rest_a, layout_b + count_b, body_b + rest_b);
        lemma_last_number(
            layout_a,
            a[0].paragraphs.len() as nat,
            layout_b,
            b[0].paragraphs.len() as nat,
            8,
        );
        assert(closed_paragraphs(a[0].paragraphs@) && closed_paragraphs(b[0].paragraphs@));
        lemma_paragraphs(a[0].paragraphs@, rest_a, b[0].paragraphs@, rest_b);
        assert forall|s: int| 0 <= s < others_a.len() implies closed_paragraphs(
            (#[trigger] others_a[s]).paragraphs@,
        ) by {
            assert(closed_paragraphs(a[s + 1].paragraphs@));
        }
        assert forall|s: int| 0 <= s < others_b.len() implies closed_paragraphs(
            (#[trigger] others_b[s]).paragraphs@,
        ) by {
            assert(closed_paragraphs(b[s + 1].paragraphs@));
        }
        lemma_sections(others_a, others_b);
        assert forall|s: int| 0 <= s < a.len() implies {
            &&& (#[trigger] a[s]).section_def == b[s].section_def
            &&& same_paragraphs(a[s].paragraphs@, b[s].paragraphs@)
        } by {
            if s > 0 {
                assert(others_a[s - 1].section_def == others_b[s - 1].section_def);
            }
        }
    }
}

/// Whether two documents have one structure.
pub open spec fn same_documents(a: Document, b: Document) -> bool {
    &&& a.sections@.len() == b.sections@.len()
    &&& a.bin_data_count == b.bin_data_count
    &&& forall|s: int|
        0 <= s < a.sections@.len() ==> {
            &&& (#[trigger] a.sections@[s]).section_def == b.sections@[s].section_def
            &&& same_paragraphs(a.sections@[s].paragraphs@, b.sections@[s].paragraphs@)
        }
}

/// Paragraphs of one structure have equal bytes.
pub proof fn lemma_same_paragraphs(a: Seq<Paragraph>, b: Seq<Paragraph>)
    requires
        same_paragraphs(a, b),
    ensures
        paragraphs_bytes(a) == paragraphs_bytes(b),
    decreases a,
{
    if a.len() > 0 {
        let init_a = a.drop_last();
        let init_b = b.drop_last();
        assert(same_paragraph(a[a.len() - 1], b[a.len() - 1]));
        assert forall|i: int| 0 <= i < init_a.len() implies same_paragraph(
            #[trigger] init_a[i],
            init_b[i],
        ) by {
            assert(same_paragraph(a[i], b[i]));
        }
        lemma_same_paragraphs(init_a, init_b);
        lemma_same_controls(a.last().controls@, b.last().controls@);
        assert(paragraph_bytes(a.last()) == paragraph_bytes(b.last()));
    }
}

/// Controls of one structure have equal bytes.
pub proof fn lemma_same_controls(a: Seq<Control>, b: Seq<Control>)
    requires
        same_controls(a, b),
    ensures
        controls_bytes(a) == controls_bytes(b),
    decreases a,
{
    if a.len() > 0 {
        let init_a = a.drop_last();
        let init_b = b.drop_last();
        assert(same_control(a[a.len() - 1], b[a.len() - 1]));
        assert forall|i: int| 0 <= i < init_a.len() implies same_control(
            #[trigger] init_a[i],
            init_b[i],
        ) by {
            assert(same_control(a[i], b[i]));
        }
        lemma_same_controls(init_a, init_b);
        lemma_same_control(a.last(), b.last());
    }
}

/// A control of one structure with another has equal bytes.
proof fn lemma_same_control(a: Control, b: Control)
    requires
        same_control(a, b),
    ensures
        control_bytes(a) == control_bytes(b),
    decreases a,
{
    match a {
        Control::Table(s) => {
            lemma_same_cells(s.cells@, b->Table_0.cells@);
        },
        Control::Header(s) => {
            lemma_same_paragraphs(s@, b->Header_0@);
        },
        Control::Footer(s) => {
            lemma_same_paragraphs(s@, b->Footer_0@);
        },
        Control::Footnote(s) => {
            lemma_same_paragraphs(s@, b->Footnote_0@);
        },
        Control::Endnote(s) => {
            lemma_same_paragraphs(s@, b->Endnote_0@);
        },
        _ => {},
    }
}

/// Cells of one structure have equal bytes.
pub proof fn lemma_same_cells(a: Seq<Cell>, b: Seq<Cell>)
    requires
        same_cells(a, b),
    ensures
        cells_bytes(a) == cells_bytes(b),
    decreases a,
{
    if a.len() > 0 {
        let init_a = a.drop_last();
        let init_b = b.drop_last();
        assert(same_cell(a[a.len() - 1], b[a.len() - 1]));
        assert forall|i: int| 0 <= i < init_a.len() implies same_cell(
            #[trigger] init_a[i],
            init_b[i],
        ) by {
            assert(same_cell(a[i], b[i]));
        }
        lemma_same_cells(init_a, init_b);
        lemma_same_paragraphs(a.last().paragraphs@, b.last().paragraphs@);
    }
}

/// Sections of one structure have equal bytes.
proof fn lemma_same_sections(a: Seq<Section>, b: Seq<Section>)
    requires
        a.len() == b.len(),
        forall|s: int|
            0 <= s < a.len() ==> {
                &&& (#[trigger] a[s]).section_def == b[s].section_def
                &&& same_paragraphs(a[s].paragraphs@, b[s].paragraphs@)
            },
    ensures
        sections_bytes(a) == sections_bytes(b),
    decreases a.len(),
{
    if a.len() > 0 {
        let init_a = a.drop_last();
        let init_b = b.drop_last();
        let last = a.len() - 1;
        assert(a[last].section_def == b[last].section_def);
        assert forall|s: int| 0 <= s < init_a.len() implies {
            &&& (#[trigger] init_a[s]).section_def == init_b[s].section_def
            &&& same_paragraphs(init_a[s].paragraphs@, init_b[s].paragraphs@)
        } by {
            assert(a[s].section_def == b[s].section_def);
        }
        lemma_same_sections(init_a, init_b);
        lemma_same_paragraphs(a[last].paragraphs@, b[last].paragraphs@);
    }
}

/// The bytes that a document is known by tell its whole structure and nothing else: documents of
/// one structure have equal bytes, and where they hold no header, footer or note, documents with
/// equal bytes have one structure. So every control's kind, every identifier of a field, and every
/// attribute of a section, a paragraph, a table and a cell shows, at any depth.
pub proof fn law_bytes_are_the_structure(a: Document, b: Document)
    ensures
        same_documents(a, b) ==> structure_bytes(a) == structure_bytes(b),
        closed_sections(a.sections@) && closed_sections(b.sections@) && structure_bytes(a)
            == structure_bytes(b) ==> same_documents(a, b),
{
    if same_documents(a, b) {
        lemma_same_sections(a.sections@, b.sections@);
    }
    if closed_sections(a.sections@) && closed_sections(b.sections@) && structure_bytes(a)
        == structure_bytes(b) {
        law_document_difference_shows(a, b);
        lemma_sections(a.sections@, b.sections@);
    }
}

} // verus!
