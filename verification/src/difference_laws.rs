//! That every difference in structure shows in what a document is known by.

use vstd::prelude::*;
use vstd::utf8::{is_ascii_chars, is_ascii_chars_encode_utf8};

use crate::digest::{
    cell_head_bytes, cells_bytes, control_bytes, controls_bytes, le_bytes, paragraph_bytes,
    paragraphs_bytes, sections_bytes, structure_bytes, table_head_bytes, tag,
};
use crate::digest_laws::{alike_cell_frame, alike_frame};
use crate::encoding_laws::{
    alike_before_section, cell_bytes, law_section_difference_shows, lemma_cell_head,
    lemma_cells_around, lemma_controls_around, lemma_paragraph_head, lemma_paragraphs_around,
    lemma_parts, lemma_regroup, lemma_table_head,
};
use crate::model::{Cell, Control, Document, Paragraph};
use crate::reading_laws::same_head;
use crate::structure_laws::{
    lemma_field, lemma_same_cells, lemma_same_controls, lemma_same_paragraphs, same_cells,
    same_controls, same_paragraphs,
};

verus! {

/// The kind of a control, as a number.
pub open spec fn kind_of(control: Control) -> int {
    match control {
        Control::SectionDef => 0,
        Control::ColumnDef => 1,
        Control::Table(_) => 2,
        Control::Shape(_) => 3,
        Control::Picture => 4,
        Control::Header(_) => 5,
        Control::Footer(_) => 6,
        Control::Footnote(_) => 7,
        Control::Endnote(_) => 8,
        Control::AutoNumber => 9,
        Control::NewNumber => 10,
        Control::PageNumberPos => 11,
        Control::Bookmark => 12,
        Control::Hyperlink => 13,
        Control::Ruby => 14,
        Control::CharOverlap => 15,
        Control::PageHide => 16,
        Control::HiddenComment => 17,
        Control::Equation => 18,
        Control::Field(_) => 19,
        Control::Form => 20,
        Control::Unknown => 21,
    }
}

/// The name that stands for a kind of control.
spec fn name_of(control: Control) -> &'static str {
    match control {
        Control::SectionDef => "section-def",
        Control::ColumnDef => "column-def",
        Control::Table(_) => "table",
        Control::Shape(_) => "shape",
        Control::Picture => "picture",
        Control::Header(_) => "header",
        Control::Footer(_) => "footer",
        Control::Footnote(_) => "footnote",
        Control::Endnote(_) => "endnote",
        Control::AutoNumber => "auto-number",
        Control::NewNumber => "new-number",
        Control::PageNumberPos => "page-number",
        Control::Bookmark => "bookmark",
        Control::Hyperlink => "hyperlink",
        Control::Ruby => "ruby",
        Control::CharOverlap => "char-overlap",
        Control::PageHide => "page-hide",
        Control::HiddenComment => "hidden-comment",
        Control::Equation => "equation",
        Control::Field(_) => "field",
        Control::Form => "form",
        Control::Unknown => "unknown",
    }
}

/// The bytes by which the name of a control is told from the others: its first three, and the fifth
/// or the sixth of those that share them.
spec fn letters_of(control: Control) -> (u8, u8, u8, u8, u8) {
    match control {
        Control::SectionDef => (115, 101, 99, 0, 0),
        Control::ColumnDef => (99, 111, 108, 0, 0),
        Control::Table(_) => (116, 97, 98, 0, 0),
        Control::Shape(_) => (115, 104, 97, 0, 0),
        Control::Picture => (112, 105, 99, 0, 0),
        Control::Header(_) => (104, 101, 97, 0, 0),
        Control::Footer(_) => (102, 111, 111, 101, 0),
        Control::Footnote(_) => (102, 111, 111, 110, 0),
        Control::Endnote(_) => (101, 110, 100, 0, 0),
        Control::AutoNumber => (97, 117, 116, 0, 0),
        Control::NewNumber => (110, 101, 119, 0, 0),
        Control::PageNumberPos => (112, 97, 103, 0, 110),
        Control::Bookmark => (98, 111, 111, 0, 0),
        Control::Hyperlink => (104, 121, 112, 0, 0),
        Control::Ruby => (114, 117, 98, 0, 0),
        Control::CharOverlap => (99, 104, 97, 0, 0),
        Control::PageHide => (112, 97, 103, 0, 104),
        Control::HiddenComment => (104, 105, 100, 0, 0),
        Control::Equation => (101, 113, 117, 0, 0),
        Control::Field(_) => (102, 105, 101, 0, 0),
        Control::Form => (102, 111, 114, 0, 0),
        Control::Unknown => (117, 110, 107, 0, 0),
    }
}

/// The name of a control has its letters.
proof fn lemma_letters(control: Control)
    ensures
        tag(name_of(control)).len() == name_of(control)@.len() >= 4,
        tag(name_of(control))[0] == letters_of(control).0,
        tag(name_of(control))[1] == letters_of(control).1,
        tag(name_of(control))[2] == letters_of(control).2,
        letters_of(control).3 != 0 ==> name_of(control)@.len() > 5 && tag(name_of(control))[4]
            == letters_of(control).3,
        letters_of(control).4 != 0 ==> name_of(control)@.len() > 5 && tag(name_of(control))[5]
            == letters_of(control).4,
{
    let text = name_of(control);
    match control {
        Control::SectionDef => reveal_strlit("section-def"),
        Control::ColumnDef => reveal_strlit("column-def"),
        Control::Table(_) => reveal_strlit("table"),
        Control::Shape(_) => reveal_strlit("shape"),
        Control::Picture => reveal_strlit("picture"),
        Control::Header(_) => reveal_strlit("header"),
        Control::Footer(_) => reveal_strlit("footer"),
        Control::Footnote(_) => reveal_strlit("footnote"),
        Control::Endnote(_) => reveal_strlit("endnote"),
        Control::AutoNumber => reveal_strlit("auto-number"),
        Control::NewNumber => reveal_strlit("new-number"),
        Control::PageNumberPos => reveal_strlit("page-number"),
        Control::Bookmark => reveal_strlit("bookmark"),
        Control::Hyperlink => reveal_strlit("hyperlink"),
        Control::Ruby => reveal_strlit("ruby"),
        Control::CharOverlap => reveal_strlit("char-overlap"),
        Control::PageHide => reveal_strlit("page-hide"),
        Control::HiddenComment => reveal_strlit("hidden-comment"),
        Control::Equation => reveal_strlit("equation"),
        Control::Field(_) => reveal_strlit("field"),
        Control::Form => reveal_strlit("form"),
        Control::Unknown => reveal_strlit("unknown"),
    }
    assert(is_ascii_chars(text@));
    is_ascii_chars_encode_utf8(text@);
    assert(text@[0] as u8 == letters_of(control).0);
    assert(text@[1] as u8 == letters_of(control).1);
    assert(text@[2] as u8 == letters_of(control).2);
    assert(letters_of(control).3 != 0 ==> text@[4] as u8 == letters_of(control).3);
    assert(letters_of(control).4 != 0 ==> text@[5] as u8 == letters_of(control).4);
}

/// What is hashed of a control starts with its name.
proof fn lemma_named(control: Control)
    ensures
        control_bytes(control).len() >= tag(name_of(control)).len(),
        control_bytes(control).take(tag(name_of(control)).len() as int) == tag(name_of(control)),
{
    let start = tag(name_of(control));
    match control {
        Control::Table(table) => {
            assert(table_head_bytes(table).take(start.len() as int) =~= start);
        },
        _ => {},
    }
    assert(control_bytes(control).take(start.len() as int) =~= start);
}

/// Controls that start equal bytes are of one kind.
proof fn lemma_kind(a: Control, rest_a: Seq<u8>, b: Control, rest_b: Seq<u8>)
    requires
        control_bytes(a) + rest_a == control_bytes(b) + rest_b,
    ensures
        kind_of(a) == kind_of(b),
{
    lemma_letters(a);
    lemma_letters(b);
    lemma_named(a);
    lemma_named(b);
    let whole = control_bytes(a) + rest_a;
    let other = control_bytes(b) + rest_b;
    let start_a = tag(name_of(a));
    let start_b = tag(name_of(b));
    assert forall|k: int| 0 <= k < start_a.len() implies #[trigger] whole[k] == start_a[k] by {
        assert(control_bytes(a).take(start_a.len() as int)[k] == control_bytes(a)[k]);
    }
    assert forall|k: int| 0 <= k < start_b.len() implies #[trigger] other[k] == start_b[k] by {
        assert(control_bytes(b).take(start_b.len() as int)[k] == control_bytes(b)[k]);
    }
    assert(whole[0] == letters_of(a).0 && other[0] == letters_of(b).0);
    assert(whole[1] == letters_of(a).1 && other[1] == letters_of(b).1);
    assert(whole[2] == letters_of(a).2 && other[2] == letters_of(b).2);
    if letters_of(a).3 != 0 && letters_of(b).3 != 0 {
        assert(whole[4] == letters_of(a).3 && other[4] == letters_of(b).3);
    }
    if letters_of(a).4 != 0 && letters_of(b).4 != 0 {
        assert(whole[5] == letters_of(a).4 && other[5] == letters_of(b).4);
    }
    lemma_kind_by_letters(a, b);
}

/// Controls of the same letters are of one kind.
proof fn lemma_kind_by_letters(a: Control, b: Control)
    requires
        letters_of(a).0 == letters_of(b).0,
        letters_of(a).1 == letters_of(b).1,
        letters_of(a).2 == letters_of(b).2,
        letters_of(a).3 != 0 && letters_of(b).3 != 0 ==> letters_of(a).3 == letters_of(b).3,
        letters_of(a).4 != 0 && letters_of(b).4 != 0 ==> letters_of(a).4 == letters_of(b).4,
    ensures
        kind_of(a) == kind_of(b),
{
}

/// Whether two runs of paragraphs first differ in structure in some paragraph that both have: those
/// before it have one structure.
pub open spec fn differ_in_paragraphs(a: Seq<Paragraph>, b: Seq<Paragraph>) -> bool
    decreases a,
{
    exists|i: int|
        0 <= i < a.len() && i < b.len() && same_paragraphs(a.take(i), b.take(i))
            && differ_in_paragraph(#[trigger] a[i], b[i])
}

/// Whether two paragraphs differ in shape, style or number of controls, or first differ in some
/// control.
pub open spec fn differ_in_paragraph(a: Paragraph, b: Paragraph) -> bool
    decreases a,
{
    !same_head(a, b) || differ_in_controls(a.controls@, b.controls@)
}

/// Whether two runs of controls first differ in some control that both have.
pub open spec fn differ_in_controls(a: Seq<Control>, b: Seq<Control>) -> bool
    decreases a,
{
    exists|i: int|
        0 <= i < a.len() && i < b.len() && same_controls(a.take(i), b.take(i))
            && differ_in_control(#[trigger] a[i], b[i])
}

/// Whether two controls differ: in their kinds, in the identifiers of fields, in the attributes of
/// tables or the number of their cells, or first in what they hold.
pub open spec fn differ_in_control(a: Control, b: Control) -> bool
    decreases a,
{
    kind_of(a) != kind_of(b) || match a {
        Control::Table(s) => {
            let t = b->Table_0;
            !alike_frame(s, t) || s.cells@.len() != t.cells@.len() || differ_in_cells(
                s.cells@,
                t.cells@,
            )
        },
        Control::Field(f) => f != b->Field_0,
        Control::Header(s) => differ_in_paragraphs(s@, b->Header_0@),
        Control::Footer(s) => differ_in_paragraphs(s@, b->Footer_0@),
        Control::Footnote(s) => differ_in_paragraphs(s@, b->Footnote_0@),
        Control::Endnote(s) => differ_in_paragraphs(s@, b->Endnote_0@),
        _ => false,
    }
}

/// Whether two runs of cells first differ in some cell that both have.
pub open spec fn differ_in_cells(a: Seq<Cell>, b: Seq<Cell>) -> bool
    decreases a,
{
    exists|i: int|
        0 <= i < a.len() && i < b.len() && same_cells(a.take(i), b.take(i)) && differ_in_cell(
            #[trigger] a[i],
            b[i],
        )
}

/// Whether two cells differ in their attributes, in the number of their paragraphs, or first in some
/// paragraph.
pub open spec fn differ_in_cell(a: Cell, b: Cell) -> bool
    decreases a,
{
    !alike_cell_frame(a, b) || a.paragraphs@.len() != b.paragraphs@.len() || differ_in_paragraphs(
        a.paragraphs@,
        b.paragraphs@,
    )
}

/// Runs of paragraphs that first differ somewhere differ in what is hashed, whatever follows.
proof fn lemma_paragraphs_differ(
    a: Seq<Paragraph>,
    rest_a: Seq<u8>,
    b: Seq<Paragraph>,
    rest_b: Seq<u8>,
)
    requires
        differ_in_paragraphs(a, b),
    ensures
        paragraphs_bytes(a) + rest_a != paragraphs_bytes(b) + rest_b,
    decreases a,
{
    if paragraphs_bytes(a) + rest_a == paragraphs_bytes(b) + rest_b {
        let i = choose|i: int|
            0 <= i < a.len() && i < b.len() && same_paragraphs(a.take(i), b.take(i))
                && differ_in_paragraph(#[trigger] a[i], b[i]);
        lemma_paragraphs_around(a, i);
        lemma_paragraphs_around(b, i);
        lemma_same_paragraphs(a.take(i), b.take(i));
        let before = paragraphs_bytes(a.take(i));
        let one_a = paragraph_bytes(a[i]);
        let one_b = paragraph_bytes(b[i]);
        let tail_a = paragraphs_bytes(a.skip(i + 1));
        let tail_b = paragraphs_bytes(b.skip(i + 1));
        lemma_regroup(before, one_a + tail_a, rest_a);
        lemma_regroup(before, one_b + tail_b, rest_b);
        lemma_regroup(one_a, tail_a, rest_a);
        lemma_regroup(one_b, tail_b, rest_b);
        lemma_parts(before, one_a + (tail_a + rest_a), before, one_b + (tail_b + rest_b));
        lemma_paragraph_head(a[i], tail_a + rest_a, b[i], tail_b + rest_b);
        if differ_in_controls(a[i].controls@, b[i].controls@) {
            lemma_controls_differ(
                a[i].controls@,
                tail_a + rest_a,
                b[i].controls@,
                tail_b + rest_b,
            );
        }
    }
}

/// Runs of controls that first differ somewhere differ in what is hashed, whatever follows.
proof fn lemma_controls_differ(
    a: Seq<Control>,
    rest_a: Seq<u8>,
    b: Seq<Control>,
    rest_b: Seq<u8>,
)
    requires
        differ_in_controls(a, b),
    ensures
        controls_bytes(a) + rest_a != controls_bytes(b) + rest_b,
    decreases a,
{
    if controls_bytes(a) + rest_a == controls_bytes(b) + rest_b {
        let i = choose|i: int|
            0 <= i < a.len() && i < b.len() && same_controls(a.take(i), b.take(i))
                && differ_in_control(#[trigger] a[i], b[i]);
        lemma_controls_around(a, i);
        lemma_controls_around(b, i);
        lemma_same_controls(a.take(i), b.take(i));
        let before = controls_bytes(a.take(i));
        let one_a = control_bytes(a[i]);
        let one_b = control_bytes(b[i]);
        let tail_a = controls_bytes(a.skip(i + 1));
        let tail_b = controls_bytes(b.skip(i + 1));
        lemma_regroup(before, one_a + tail_a, rest_a);
        lemma_regroup(before, one_b + tail_b, rest_b);
        lemma_regroup(one_a, tail_a, rest_a);
        lemma_regroup(one_b, tail_b, rest_b);
        lemma_parts(before, one_a + (tail_a + rest_a), before, one_b + (tail_b + rest_b));
        lemma_control_differs(a[i], tail_a + rest_a, b[i], tail_b + rest_b);
    }
}

/// Controls that first differ somewhere differ in what is hashed, whatever follows.
proof fn lemma_control_differs(a: Control, rest_a: Seq<u8>, b: Control, rest_b: Seq<u8>)
    requires
        differ_in_control(a, b),
    ensures
        control_bytes(a) + rest_a != control_bytes(b) + rest_b,
    decreases a,
{
    if control_bytes(a) + rest_a == control_bytes(b) + rest_b {
        lemma_kind(a, rest_a, b, rest_b);
        match a {
            Control::Table(s) => {
                let t = b->Table_0;
                lemma_regroup(table_head_bytes(s), cells_bytes(s.cells@), rest_a);
                lemma_regroup(table_head_bytes(t), cells_bytes(t.cells@), rest_b);
                lemma_table_head(
                    s,
                    cells_bytes(s.cells@) + rest_a,
                    t,
                    cells_bytes(t.cells@) + rest_b,
                );
                if differ_in_cells(s.cells@, t.cells@) {
                    lemma_cells_differ(s.cells@, rest_a, t.cells@, rest_b);
                }
            },
            Control::Header(s) => {
                lemma_behind_tag("header", s@, rest_a, b->Header_0@, rest_b);
                lemma_paragraphs_differ(s@, rest_a, b->Header_0@, rest_b);
            },
            Control::Footer(s) => {
                lemma_behind_tag("footer", s@, rest_a, b->Footer_0@, rest_b);
                lemma_paragraphs_differ(s@, rest_a, b->Footer_0@, rest_b);
            },
            Control::Footnote(s) => {
                lemma_behind_tag("footnote", s@, rest_a, b->Footnote_0@, rest_b);
                lemma_paragraphs_differ(s@, rest_a, b->Footnote_0@, rest_b);
            },
            Control::Endnote(s) => {
                lemma_behind_tag("endnote", s@, rest_a, b->Endnote_0@, rest_b);
                lemma_paragraphs_differ(s@, rest_a, b->Endnote_0@, rest_b);
            },
            Control::Field(f) => {
                let g = b->Field_0;
                let start = tag("field");
                let ids_f = le_bytes(f.field_id as nat, 4) + le_bytes(f.ctrl_id as nat, 4);
                let ids_g = le_bytes(g.field_id as nat, 4) + le_bytes(g.ctrl_id as nat, 4);
                assert(control_bytes(a) =~= start + ids_f);
                assert(control_bytes(b) =~= start + ids_g);
                assert(control_bytes(a).skip(start.len() as int) =~= ids_f);
                assert(control_bytes(b).skip(start.len() as int) =~= ids_g);
                lemma_regroup(start, ids_f, rest_a);
                lemma_regroup(start, ids_g, rest_b);
                lemma_parts(start, ids_f + rest_a, start, ids_g + rest_b);
                lemma_field(f, ids_f, rest_a, g, ids_g, rest_b);
            },
            _ => {},
        }
    }
}

/// Behind one tag, equal bytes are of equal paragraphs.
proof fn lemma_behind_tag(
    name: &str,
    a: Seq<Paragraph>,
    rest_a: Seq<u8>,
    b: Seq<Paragraph>,
    rest_b: Seq<u8>,
)
    requires
        tag(name) + paragraphs_bytes(a) + rest_a == tag(name) + paragraphs_bytes(b) + rest_b,
    ensures
        paragraphs_bytes(a) + rest_a == paragraphs_bytes(b) + rest_b,
{
    lemma_regroup(tag(name), paragraphs_bytes(a), rest_a);
    lemma_regroup(tag(name), paragraphs_bytes(b), rest_b);
    lemma_parts(
        tag(name),
        paragraphs_bytes(a) + rest_a,
        tag(name),
        paragraphs_bytes(b) + rest_b,
    );
}

/// Runs of cells that first differ somewhere differ in what is hashed, whatever follows.
proof fn lemma_cells_differ(a: Seq<Cell>, rest_a: Seq<u8>, b: Seq<Cell>, rest_b: Seq<u8>)
    requires
        differ_in_cells(a, b),
    ensures
        cells_bytes(a) + rest_a != cells_bytes(b) + rest_b,
    decreases a,
{
    if cells_bytes(a) + rest_a == cells_bytes(b) + rest_b {
        let i = choose|i: int|
            0 <= i < a.len() && i < b.len() && same_cells(a.take(i), b.take(i))
                && differ_in_cell(#[trigger] a[i], b[i]);
        lemma_cells_around(a, i);
        lemma_cells_around(b, i);
        lemma_same_cells(a.take(i), b.take(i));
        let before = cells_bytes(a.take(i));
        let one_a = cell_bytes(a[i]);
        let one_b = cell_bytes(b[i]);
        let tail_a = cells_bytes(a.skip(i + 1));
        let tail_b = cells_bytes(b.skip(i + 1));
        let body_a = paragraphs_bytes(a[i].paragraphs@);
        let body_b = paragraphs_bytes(b[i].paragraphs@);
        lemma_regroup(before, one_a + tail_a, rest_a);
        lemma_regroup(before, one_b + tail_b, rest_b);
        lemma_regroup(one_a, tail_a, rest_a);
        lemma_regroup(one_b, tail_b, rest_b);
        lemma_parts(before, one_a + (tail_a + rest_a), before, one_b + (tail_b + rest_b));
        lemma_regroup(cell_head_bytes(a[i]), body_a, tail_a + rest_a);
        lemma_regroup(cell_head_bytes(b[i]), body_b, tail_b + rest_b);
        lemma_cell_head(a[i], b[i]);
        lemma_cell_head(b[i], a[i]);
        lemma_parts(
            cell_head_bytes(a[i]),
            body_a + (tail_a + rest_a),
            cell_head_bytes(b[i]),
            body_b + (tail_b + rest_b),
        );
        if differ_in_paragraphs(a[i].paragraphs@, b[i].paragraphs@) {
            lemma_paragraphs_differ(
                a[i].paragraphs@,
                tail_a + rest_a,
                b[i].paragraphs@,
                tail_b + rest_b,
            );
        }
    }
}

/// Every difference in structure shows in what is hashed of a document, at any depth, in the body, a
/// cell, a header, a footer or a note: documents that first differ in the shape or the style of a
/// paragraph, in the number or the kind of its controls, in the identifiers of a field, or in an
/// attribute of a table or a cell differ in what is hashed, whatever comes after it.
pub proof fn law_every_difference_shows(a: Document, b: Document, s: int)
    requires
        0 <= s < a.sections@.len(),
        s < b.sections@.len(),
        alike_before_section(a, b, s),
        differ_in_paragraphs(a.sections@[s].paragraphs@, b.sections@[s].paragraphs@),
    ensures
        structure_bytes(a) != structure_bytes(b),
{
    if structure_bytes(a) == structure_bytes(b) {
        law_section_difference_shows(a, b, s);
        lemma_paragraphs_differ(
            a.sections@[s].paragraphs@,
            sections_bytes(a.sections@.skip(s + 1)),
            b.sections@[s].paragraphs@,
            sections_bytes(b.sections@.skip(s + 1)),
        );
    }
}

} // verus!
