//! What holds of the protection of documents.

use vstd::prelude::*;

use crate::digest_laws::{
    alike_cell, alike_cells, alike_control, alike_controls, alike_documents, alike_paragraph,
    alike_paragraphs,
};
use crate::model::{Cell, Control, DocumentCore, Paragraph, Section, ShapeObject};
use crate::preflight::protected;
use crate::protection::{
    cells_counts, control_counts, controls_counts, document_counts, paragraphs_counts, reasons_of,
    sections_counts, status_of, where_holds, ComplexityStats, Counts, ProtectionReason,
    ProtectionStatus,
};

verus! {

/// Alike runs of paragraphs are equally complex.
proof fn lemma_paragraphs_counts(a: Seq<Paragraph>, b: Seq<Paragraph>, inside_table: bool)
    requires
        alike_paragraphs(a, b),
    ensures
        paragraphs_counts(a, inside_table) == paragraphs_counts(b, inside_table),
    decreases a,
{
    if a.len() > 0 {
        let last = a.len() - 1;
        assert(alike_paragraph(a[last], b[last]));
        assert forall|i: int| 0 <= i < last implies alike_paragraph(
            #[trigger] a.drop_last()[i],
            b.drop_last()[i],
        ) by {
            assert(alike_paragraph(a[i], b[i]));
        }
        lemma_paragraphs_counts(a.drop_last(), b.drop_last(), inside_table);
        lemma_controls_counts(a[last].controls@, b[last].controls@, inside_table);
    }
}

/// Alike runs of controls are equally complex.
proof fn lemma_controls_counts(a: Seq<Control>, b: Seq<Control>, inside_table: bool)
    requires
        alike_controls(a, b),
    ensures
        controls_counts(a, inside_table) == controls_counts(b, inside_table),
    decreases a,
{
    if a.len() > 0 {
        let last = a.len() - 1;
        assert(alike_control(a[last], b[last]));
        assert forall|i: int| 0 <= i < last implies alike_control(
            #[trigger] a.drop_last()[i],
            b.drop_last()[i],
        ) by {
            assert(alike_control(a[i], b[i]));
        }
        lemma_controls_counts(a.drop_last(), b.drop_last(), inside_table);
        lemma_control_counts(a[last], b[last], inside_table);
    }
}

/// Alike controls are equally complex.
proof fn lemma_control_counts(a: Control, b: Control, inside_table: bool)
    requires
        alike_control(a, b),
    ensures
        control_counts(a, inside_table) == control_counts(b, inside_table),
    decreases a,
{
    match a {
        Control::Table(s) => lemma_cells_counts(s.cells@, b->Table_0.cells@),
        Control::Header(s) => lemma_paragraphs_counts(s@, b->Header_0@, false),
        Control::Footer(s) => lemma_paragraphs_counts(s@, b->Footer_0@, false),
        Control::Footnote(s) => lemma_paragraphs_counts(s@, b->Footnote_0@, false),
        Control::Endnote(s) => lemma_paragraphs_counts(s@, b->Endnote_0@, false),
        _ => {},
    }
}

/// Alike runs of cells are equally complex.
proof fn lemma_cells_counts(a: Seq<Cell>, b: Seq<Cell>)
    requires
        alike_cells(a, b),
    ensures
        cells_counts(a) == cells_counts(b),
    decreases a,
{
    if a.len() > 0 {
        let last = a.len() - 1;
        assert(alike_cell(a[last], b[last]));
        assert forall|i: int| 0 <= i < last implies alike_cell(
            #[trigger] a.drop_last()[i],
            b.drop_last()[i],
        ) by {
            assert(alike_cell(a[i], b[i]));
        }
        lemma_cells_counts(a.drop_last(), b.drop_last());
        lemma_paragraphs_counts(a[last].paragraphs@, b[last].paragraphs@, true);
    }
}

/// Alike runs of sections are equally complex.
proof fn lemma_sections_counts(a: Seq<Section>, b: Seq<Section>)
    requires
        a.len() == b.len(),
        forall|i: int|
            0 <= i < a.len() ==> alike_paragraphs(
                (#[trigger] a[i]).paragraphs@,
                b[i].paragraphs@,
            ),
    ensures
        sections_counts(a) == sections_counts(b),
    decreases a.len(),
{
    if a.len() > 0 {
        let last = a.len() - 1;
        assert forall|i: int| 0 <= i < last implies alike_paragraphs(
            (#[trigger] a.drop_last()[i]).paragraphs@,
            b.drop_last()[i].paragraphs@,
        ) by {
            assert(alike_paragraphs(a[i].paragraphs@, b[i].paragraphs@));
        }
        lemma_sections_counts(a.drop_last(), b.drop_last());
        assert(alike_paragraphs(a[last].paragraphs@, b[last].paragraphs@));
        lemma_paragraphs_counts(a[last].paragraphs@, b[last].paragraphs@, false);
    }
}

/// Protection does not see texts: documents that differ in nothing but texts, the shapes of
/// characters and the numbering of tables hold the same tables, pictures and drawing objects, and
/// where they have as many pages, both are protected or neither is.
pub proof fn law_protection_ignores_text(a: DocumentCore, b: DocumentCore)
    requires
        alike_documents(a.document, b.document),
    ensures
        document_counts(a.document) == document_counts(b.document),
        a.page_count == b.page_count ==> protected(a) == protected(b),
{
    let s = a.document.sections@;
    let t = b.document.sections@;
    assert forall|i: int| 0 <= i < s.len() implies alike_paragraphs(
        (#[trigger] s[i]).paragraphs@,
        t[i].paragraphs@,
    ) by {
        assert(s[i].section_def == t[i].section_def);
    }
    lemma_sections_counts(s, t);
}

/// A document does not lose its protection by growing: more pages, tables, nested tables,
/// pictures or drawing objects leave a protected document protected.
pub proof fn law_protection_grows(
    page_count: u32,
    stats: ComplexityStats,
    more_pages: u32,
    more: ComplexityStats,
)
    requires
        page_count <= more_pages,
        stats.table_count <= more.table_count,
        stats.nested_table_count <= more.nested_table_count,
        stats.picture_count <= more.picture_count,
        stats.shape_count <= more.shape_count,
    ensures
        status_of(page_count, stats) == ProtectionStatus::Protected ==> status_of(more_pages, more)
            == ProtectionStatus::Protected,
{
}

/// Which documents are protected, by what is counted: those with a nested table, those with twenty
/// tables, and those of which two things hold among four pages, twelve tables, five pictures, a
/// nested table and five drawing objects. Every pair of these is enough, and nothing less is.
pub proof fn law_protected_by_its_counts(page_count: u32, stats: ComplexityStats)
    ensures
        status_of(page_count, stats) == ProtectionStatus::Protected <==> {
            ||| stats.nested_table_count > 0
            ||| stats.table_count >= 20
            ||| page_count >= 4 && stats.table_count >= 12
            ||| page_count >= 4 && stats.picture_count >= 5
            ||| page_count >= 4 && stats.nested_table_count > 0
            ||| page_count >= 4 && stats.shape_count >= 5
            ||| stats.table_count >= 12 && stats.picture_count >= 5
            ||| stats.table_count >= 12 && stats.nested_table_count > 0
            ||| stats.table_count >= 12 && stats.shape_count >= 5
            ||| stats.picture_count >= 5 && stats.nested_table_count > 0
            ||| stats.picture_count >= 5 && stats.shape_count >= 5
            ||| stats.nested_table_count > 0 && stats.shape_count >= 5
        },
{
}

/// What speaks for protecting a document: each reason is given exactly where its count is reached,
/// none is given twice, and they come in the order in which they are named here.
pub proof fn law_reasons_by_their_counts(page_count: u32, stats: ComplexityStats)
    ensures
        reasons_of(page_count, stats).contains(ProtectionReason::ManyPages) <==> page_count >= 4,
        reasons_of(page_count, stats).contains(ProtectionReason::ManyTables) <==> stats.table_count
            >= 12,
        reasons_of(page_count, stats).contains(ProtectionReason::ManyImages)
            <==> stats.picture_count >= 5,
        reasons_of(page_count, stats).contains(ProtectionReason::NestedTables)
            <==> stats.nested_table_count > 0,
        reasons_of(page_count, stats).contains(ProtectionReason::MixedDrawingObjects)
            <==> stats.shape_count >= 5,
        forall|i: int, j: int|
            0 <= i < j < reasons_of(page_count, stats).len() ==> rank(
                #[trigger] reasons_of(page_count, stats)[i],
            ) < rank(#[trigger] reasons_of(page_count, stats)[j]),
{
    let s1 = where_holds(page_count >= 4, ProtectionReason::ManyPages);
    let s2 = s1 + where_holds(stats.table_count >= 12, ProtectionReason::ManyTables);
    let s3 = s2 + where_holds(stats.picture_count >= 5, ProtectionReason::ManyImages);
    let s4 = s3 + where_holds(stats.nested_table_count > 0, ProtectionReason::NestedTables);
    let none = Seq::<ProtectionReason>::empty();
    assert(none + s1 =~= s1);
    lemma_appended(none, page_count >= 4, ProtectionReason::ManyPages);
    lemma_appended(s1, stats.table_count >= 12, ProtectionReason::ManyTables);
    lemma_appended(s2, stats.picture_count >= 5, ProtectionReason::ManyImages);
    lemma_appended(s3, stats.nested_table_count > 0, ProtectionReason::NestedTables);
    lemma_appended(s4, stats.shape_count >= 5, ProtectionReason::MixedDrawingObjects);
}

/// Whether reasons ascend, and all come before the given place.
pub open spec fn ranked(reasons: Seq<ProtectionReason>, end: int) -> bool {
    &&& forall|i: int| 0 <= i < reasons.len() ==> rank(#[trigger] reasons[i]) < end
    &&& forall|i: int, j: int|
        0 <= i < j < reasons.len() ==> rank(#[trigger] reasons[i]) < rank(#[trigger] reasons[j])
}

/// A reason that comes after the others is appended where it holds.
proof fn lemma_appended(reasons: Seq<ProtectionReason>, holds: bool, reason: ProtectionReason)
    requires
        ranked(reasons, rank(reason)),
    ensures
        ranked(reasons + where_holds(holds, reason), rank(reason) + 1),
        forall|other: ProtectionReason| #[trigger]
            (reasons + where_holds(holds, reason)).contains(other) <==> reasons.contains(other)
                || holds && other == reason,
{
    let more = reasons + where_holds(holds, reason);
    assert forall|other: ProtectionReason| #[trigger]
        more.contains(other) <==> reasons.contains(other) || holds && other == reason by {
        if reasons.contains(other) {
            let k = choose|k: int| 0 <= k < reasons.len() && reasons[k] == other;
            assert(more[k] == other);
        }
        if holds {
            assert(more[reasons.len() as int] == reason);
        }
        if more.contains(other) {
            let k = choose|k: int| 0 <= k < more.len() && more[k] == other;
            if k < reasons.len() {
                assert(reasons[k] == other);
            }
        }
    }
}

/// The place of a reason among the reasons.
pub open spec fn rank(reason: ProtectionReason) -> int {
    match reason {
        ProtectionReason::ManyPages => 0,
        ProtectionReason::ManyTables => 1,
        ProtectionReason::ManyImages => 2,
        ProtectionReason::NestedTables => 3,
        ProtectionReason::MixedDrawingObjects => 4,
    }
}

/// The controls of a run of paragraphs, each with whether it stands in a cell, those inside other
/// controls among them.
pub open spec fn held_by_paragraphs(paragraphs: Seq<Paragraph>, in_cell: bool) -> Seq<
    (Control, bool),
>
    decreases paragraphs,
{
    if paragraphs.len() == 0 {
        seq![]
    } else {
        held_by_paragraphs(paragraphs.drop_last(), in_cell) + held_by_controls(
            paragraphs.last().controls@,
            in_cell,
        )
    }
}

/// The controls of a run of controls and inside them.
pub open spec fn held_by_controls(controls: Seq<Control>, in_cell: bool) -> Seq<(Control, bool)>
    decreases controls,
{
    if controls.len() == 0 {
        seq![]
    } else {
        held_by_controls(controls.drop_last(), in_cell) + held_by(controls.last(), in_cell)
    }
}

/// A control and the controls inside it. What a table holds stands in a cell; what headers,
/// footers and notes hold does not.
pub open spec fn held_by(control: Control, in_cell: bool) -> Seq<(Control, bool)>
    decreases control,
{
    seq![(control, in_cell)] + match control {
        Control::Table(table) => held_by_cells(table.cells@),
        Control::Header(paragraphs) => held_by_paragraphs(paragraphs@, false),
        Control::Footer(paragraphs) => held_by_paragraphs(paragraphs@, false),
        Control::Footnote(paragraphs) => held_by_paragraphs(paragraphs@, false),
        Control::Endnote(paragraphs) => held_by_paragraphs(paragraphs@, false),
        _ => seq![],
    }
}

/// The controls inside a run of cells.
pub open spec fn held_by_cells(cells: Seq<Cell>) -> Seq<(Control, bool)>
    decreases cells,
{
    if cells.len() == 0 {
        seq![]
    } else {
        held_by_cells(cells.drop_last()) + held_by_paragraphs(cells.last().paragraphs@, true)
    }
}

/// The controls of a run of sections.
pub open spec fn held_by_sections(sections: Seq<Section>) -> Seq<(Control, bool)>
    decreases sections.len(),
{
    if sections.len() == 0 {
        seq![]
    } else {
        held_by_sections(sections.drop_last()) + held_by_paragraphs(
            sections.last().paragraphs@,
            false,
        )
    }
}

/// How many of the controls are tables, tables in cells, pictures and drawing objects.
pub open spec fn tallied(held: Seq<(Control, bool)>) -> Counts {
    Counts {
        tables: held.filter(|h: (Control, bool)| h.0 is Table).len(),
        nested_tables: held.filter(|h: (Control, bool)| h.0 is Table && h.1).len(),
        pictures: held.filter(
            |h: (Control, bool)|
                h.0 is Picture || h.0 == Control::Shape(ShapeObject::Picture),
        ).len(),
        shapes: held.filter(|h: (Control, bool)| h.0 is Shape).len(),
    }
}

/// Tallies add up.
proof fn lemma_tally_adds(a: Seq<(Control, bool)>, b: Seq<(Control, bool)>)
    ensures
        tallied(a + b) == tallied(a).plus(tallied(b)),
{
    Seq::filter_distributes_over_add(a, b, |h: (Control, bool)| h.0 is Table);
    Seq::filter_distributes_over_add(a, b, |h: (Control, bool)| h.0 is Table && h.1);
    Seq::filter_distributes_over_add(
        a,
        b,
        |h: (Control, bool)| h.0 is Picture || h.0 == Control::Shape(ShapeObject::Picture),
    );
    Seq::filter_distributes_over_add(a, b, |h: (Control, bool)| h.0 is Shape);
}

/// The tally of one control.
proof fn lemma_tally_one(control: Control, in_cell: bool)
    ensures
        tallied(seq![(control, in_cell)]) == (Counts {
            tables: if control is Table {
                1
            } else {
                0
            },
            nested_tables: if control is Table && in_cell {
                1
            } else {
                0
            },
            pictures: if control is Picture || control == Control::Shape(ShapeObject::Picture) {
                1
            } else {
                0
            },
            shapes: if control is Shape {
                1
            } else {
                0
            },
        }),
{
    reveal_with_fuel(Seq::filter, 2);
    let one = seq![(control, in_cell)];
    assert(one.drop_last() =~= seq![]);
    assert(one.last() == (control, in_cell));
}

/// The tally of nothing.
proof fn lemma_tally_none()
    ensures
        tallied(seq![]) == Counts::none(),
{
    reveal(Seq::filter);
}

/// A run of paragraphs is counted as its controls are tallied.
proof fn lemma_paragraphs_tallied(paragraphs: Seq<Paragraph>, in_cell: bool)
    ensures
        paragraphs_counts(paragraphs, in_cell) == tallied(held_by_paragraphs(paragraphs, in_cell)),
    decreases paragraphs,
{
    if paragraphs.len() == 0 {
        lemma_tally_none();
    } else {
        lemma_paragraphs_tallied(paragraphs.drop_last(), in_cell);
        lemma_controls_tallied(paragraphs.last().controls@, in_cell);
        lemma_tally_adds(
            held_by_paragraphs(paragraphs.drop_last(), in_cell),
            held_by_controls(paragraphs.last().controls@, in_cell),
        );
    }
}

/// A run of controls is counted as they are tallied.
proof fn lemma_controls_tallied(controls: Seq<Control>, in_cell: bool)
    ensures
        controls_counts(controls, in_cell) == tallied(held_by_controls(controls, in_cell)),
    decreases controls,
{
    if controls.len() == 0 {
        lemma_tally_none();
    } else {
        lemma_controls_tallied(controls.drop_last(), in_cell);
        lemma_control_tallied(controls.last(), in_cell);
        lemma_tally_adds(
            held_by_controls(controls.drop_last(), in_cell),
            held_by(controls.last(), in_cell),
        );
    }
}

/// A control is counted as it and what it holds are tallied.
proof fn lemma_control_tallied(control: Control, in_cell: bool)
    ensures
        control_counts(control, in_cell) == tallied(held_by(control, in_cell)),
    decreases control,
{
    let inner: Seq<(Control, bool)> = match control {
        Control::Table(table) => {
            lemma_cells_tallied(table.cells@);
            held_by_cells(table.cells@)
        },
        Control::Header(paragraphs) => {
            lemma_paragraphs_tallied(paragraphs@, false);
            held_by_paragraphs(paragraphs@, false)
        },
        Control::Footer(paragraphs) => {
            lemma_paragraphs_tallied(paragraphs@, false);
            held_by_paragraphs(paragraphs@, false)
        },
        Control::Footnote(paragraphs) => {
            lemma_paragraphs_tallied(paragraphs@, false);
            held_by_paragraphs(paragraphs@, false)
        },
        Control::Endnote(paragraphs) => {
            lemma_paragraphs_tallied(paragraphs@, false);
            held_by_paragraphs(paragraphs@, false)
        },
        _ => {
            lemma_tally_none();
            seq![]
        },
    };
    lemma_tally_one(control, in_cell);
    lemma_tally_adds(seq![(control, in_cell)], inner);
    if let Control::Shape(shape) = control {
        assert(control == Control::Shape(ShapeObject::Picture) <==> shape is Picture);
    }
}

/// A run of cells is counted as what it holds is tallied.
proof fn lemma_cells_tallied(cells: Seq<Cell>)
    ensures
        cells_counts(cells) == tallied(held_by_cells(cells)),
    decreases cells,
{
    if cells.len() == 0 {
        lemma_tally_none();
    } else {
        lemma_cells_tallied(cells.drop_last());
        lemma_paragraphs_tallied(cells.last().paragraphs@, true);
        lemma_tally_adds(
            held_by_cells(cells.drop_last()),
            held_by_paragraphs(cells.last().paragraphs@, true),
        );
    }
}

/// A run of sections is counted as its controls are tallied.
proof fn lemma_sections_tallied(sections: Seq<Section>)
    ensures
        sections_counts(sections) == tallied(held_by_sections(sections)),
    decreases sections.len(),
{
    if sections.len() == 0 {
        lemma_tally_none();
    } else {
        lemma_sections_tallied(sections.drop_last());
        lemma_paragraphs_tallied(sections.last().paragraphs@, false);
        lemma_tally_adds(
            held_by_sections(sections.drop_last()),
            held_by_paragraphs(sections.last().paragraphs@, false),
        );
    }
}

/// Every control of the document is counted for what it is, at whatever depth it stands: each
/// table, each table in a cell, each picture, inline or drawn, and each drawing object, once. A
/// count that passes the largest `usize` is reported as that.
pub proof fn law_every_control_is_counted(core: DocumentCore)
    ensures
        ({
            let held = held_by_sections(core.document.sections@);
            let stats = document_counts(core.document).reported();
            let tables = held.filter(|h: (Control, bool)| h.0 is Table).len();
            let nested = held.filter(|h: (Control, bool)| h.0 is Table && h.1).len();
            let pictures = held.filter(
                |h: (Control, bool)|
                    h.0 is Picture || h.0 == Control::Shape(ShapeObject::Picture),
            ).len();
            let shapes = held.filter(|h: (Control, bool)| h.0 is Shape).len();
            &&& tables <= usize::MAX ==> stats.table_count == tables
            &&& tables > usize::MAX ==> stats.table_count == usize::MAX
            &&& nested <= usize::MAX ==> stats.nested_table_count == nested
            &&& nested > usize::MAX ==> stats.nested_table_count == usize::MAX
            &&& pictures <= usize::MAX ==> stats.picture_count == pictures
            &&& pictures > usize::MAX ==> stats.picture_count == usize::MAX
            &&& shapes <= usize::MAX ==> stats.shape_count == shapes
            &&& shapes > usize::MAX ==> stats.shape_count == usize::MAX
        }),
{
    lemma_sections_tallied(core.document.sections@);
}

} // verus!
