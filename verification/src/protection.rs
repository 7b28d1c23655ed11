//! Which documents are too complex to be edited as a simple template.

use vstd::prelude::*;

use crate::model::{Cell, Control, Document, Paragraph, Section, ShapeObject};
use crate::text::clamped;

verus! {

/// How much of a document makes it complex. A count that does not fit is held at the largest
/// `usize`.
#[derive(Debug, Clone, Copy, PartialEq, Eq, Structural)]
pub struct ComplexityStats {
    pub table_count: usize,
    pub nested_table_count: usize,
    pub picture_count: usize,
    pub shape_count: usize,
}

/// The same counts as natural numbers.
pub struct Counts {
    pub tables: nat,
    pub nested_tables: nat,
    pub pictures: nat,
    pub shapes: nat,
}

impl Counts {
    /// Nothing counted.
    pub open spec fn none() -> Counts {
        Counts { tables: 0, nested_tables: 0, pictures: 0, shapes: 0 }
    }

    /// Both counts together.
    pub open spec fn plus(self, other: Counts) -> Counts {
        Counts {
            tables: self.tables + other.tables,
            nested_tables: self.nested_tables + other.nested_tables,
            pictures: self.pictures + other.pictures,
            shapes: self.shapes + other.shapes,
        }
    }

    /// The counts as they are reported.
    pub open spec fn reported(self) -> ComplexityStats {
        ComplexityStats {
            table_count: clamped(self.tables),
            nested_table_count: clamped(self.nested_tables),
            picture_count: clamped(self.pictures),
            shape_count: clamped(self.shapes),
        }
    }
}

/// What a run of paragraphs holds; `inside_table` tells whether it stands in a cell.
pub open spec fn paragraphs_counts(paragraphs: Seq<Paragraph>, inside_table: bool) -> Counts
    decreases paragraphs,
{
    if paragraphs.len() == 0 {
        Counts::none()
    } else {
        paragraphs_counts(paragraphs.drop_last(), inside_table).plus(
            controls_counts(paragraphs.last().controls@, inside_table),
        )
    }
}

/// What a run of controls holds.
pub open spec fn controls_counts(controls: Seq<Control>, inside_table: bool) -> Counts
    decreases controls,
{
    if controls.len() == 0 {
        Counts::none()
    } else {
        controls_counts(controls.drop_last(), inside_table).plus(
            control_counts(controls.last(), inside_table),
        )
    }
}

/// What a control holds. A table in a cell is nested; the text of headers, footers and notes
/// stands in no cell.
pub open spec fn control_counts(control: Control, inside_table: bool) -> Counts
    decreases control,
{
    match control {
        Control::Table(table) => (Counts {
            tables: 1,
            nested_tables: if inside_table {
                1
            } else {
                0
            },
            pictures: 0,
            shapes: 0,
        }).plus(cells_counts(table.cells@)),
        Control::Picture => Counts { tables: 0, nested_tables: 0, pictures: 1, shapes: 0 },
        Control::Shape(shape) => Counts {
            tables: 0,
            nested_tables: 0,
            pictures: if shape is Picture {
                1
            } else {
                0
            },
            shapes: 1,
        },
        Control::Header(paragraphs) => paragraphs_counts(paragraphs@, false),
        Control::Footer(paragraphs) => paragraphs_counts(paragraphs@, false),
        Control::Footnote(paragraphs) => paragraphs_counts(paragraphs@, false),
        Control::Endnote(paragraphs) => paragraphs_counts(paragraphs@, false),
        _ => Counts::none(),
    }
}

/// What the cells of a table hold.
pub open spec fn cells_counts(cells: Seq<Cell>) -> Counts
    decreases cells,
{
    if cells.len() == 0 {
        Counts::none()
    } else {
        cells_counts(cells.drop_last()).plus(paragraphs_counts(cells.last().paragraphs@, true))
    }
}

/// What a run of sections holds.
pub open spec fn sections_counts(sections: Seq<Section>) -> Counts
    decreases sections.len(),
{
    if sections.len() == 0 {
        Counts::none()
    } else {
        sections_counts(sections.drop_last()).plus(
            paragraphs_counts(sections.last().paragraphs@, false),
        )
    }
}

/// What a document holds.
pub open spec fn document_counts(document: Document) -> Counts {
    sections_counts(document.sections@)
}

/// `stats` with `counts` added to it.
pub open spec fn added(stats: ComplexityStats, counts: Counts) -> ComplexityStats {
    ComplexityStats {
        table_count: clamped(stats.table_count as nat + counts.tables),
        nested_table_count: clamped(stats.nested_table_count as nat + counts.nested_tables),
        picture_count: clamped(stats.picture_count as nat + counts.pictures),
        shape_count: clamped(stats.shape_count as nat + counts.shapes),
    }
}

/// Counts what a run of paragraphs holds.
fn visit_paragraphs(paragraphs: &Vec<Paragraph>, inside_table: bool, stats: &mut ComplexityStats)
    ensures
        *final(stats) == added(*old(stats), paragraphs_counts(paragraphs@, inside_table)),
    decreases paragraphs@,
{
    let ghost before = *stats;
    let mut i: usize = 0;
    while i < paragraphs.len()
        invariant
            i <= paragraphs@.len(),
            *stats == added(before, paragraphs_counts(paragraphs@.take(i as int), inside_table)),
        decreases paragraphs@.len() - i,
    {
        visit_controls(&paragraphs[i].controls, inside_table, stats);
        assert(paragraphs@.take(i + 1).drop_last() =~= paragraphs@.take(i as int));
        i += 1;
    }
    assert(paragraphs@.take(paragraphs@.len() as int) =~= paragraphs@);
}

/// Counts what a run of controls holds.
fn visit_controls(controls: &Vec<Control>, inside_table: bool, stats: &mut ComplexityStats)
    ensures
        *final(stats) == added(*old(stats), controls_counts(controls@, inside_table)),
    decreases controls@,
{
    let ghost before = *stats;
    let mut i: usize = 0;
    while i < controls.len()
        invariant
            i <= controls@.len(),
            *stats == added(before, controls_counts(controls@.take(i as int), inside_table)),
        decreases controls@.len() - i,
    {
        visit_control(&controls[i], inside_table, stats);
        assert(controls@.take(i + 1).drop_last() =~= controls@.take(i as int));
        i += 1;
    }
    assert(controls@.take(controls@.len() as int) =~= controls@);
}

/// Counts what the cells of a table hold.
fn visit_cells(cells: &Vec<Cell>, stats: &mut ComplexityStats)
    ensures
        *final(stats) == added(*old(stats), cells_counts(cells@)),
    decreases cells@,
{
    let ghost before = *stats;
    let mut i: usize = 0;
    while i < cells.len()
        invariant
            i <= cells@.len(),
            *stats == added(before, cells_counts(cells@.take(i as int))),
        decreases cells@.len() - i,
    {
        visit_paragraphs(&cells[i].paragraphs, true, stats);
        assert(cells@.take(i + 1).drop_last() =~= cells@.take(i as int));
        i += 1;
    }
    assert(cells@.take(cells@.len() as int) =~= cells@);
}

/// Counts what a control holds.
fn visit_control(control: &Control, inside_table: bool, stats: &mut ComplexityStats)
    ensures
        *final(stats) == added(*old(stats), control_counts(*control, inside_table)),
    decreases *control,
{
    match control {
        Control::Table(table) => {
            stats.table_count = stats.table_count.saturating_add(1);
            if inside_table {
                stats.nested_table_count = stats.nested_table_count.saturating_add(1);
            }
            visit_cells(&table.cells, stats);
        },
        Control::Picture => {
            stats.picture_count = stats.picture_count.saturating_add(1);
        },
        Control::Shape(shape) => {
            stats.shape_count = stats.shape_count.saturating_add(1);
            match shape {
                ShapeObject::Picture => {
                    stats.picture_count = stats.picture_count.saturating_add(1);
                },
                ShapeObject::Drawing => {},
            }
        },
        Control::Header(paragraphs) => visit_paragraphs(paragraphs, false, stats),
        Control::Footer(paragraphs) => visit_paragraphs(paragraphs, false, stats),
        Control::Footnote(paragraphs) => visit_paragraphs(paragraphs, false, stats),
        Control::Endnote(paragraphs) => visit_paragraphs(paragraphs, false, stats),
        _ => {},
    }
}

/// Counts the tables, pictures and drawing objects of a document.
pub fn complexity_stats(document: &Document) -> (stats: ComplexityStats)
    ensures
        stats == document_counts(*document).reported(),
{
    let mut stats: ComplexityStats = ComplexityStats {
        table_count: 0,
        nested_table_count: 0,
        picture_count: 0,
        shape_count: 0,
    };
    let sections: &Vec<Section> = &document.sections;
    let mut i: usize = 0;
    while i < sections.len()
        invariant
            i <= sections@.len(),
            stats == sections_counts(sections@.take(i as int)).reported(),
        decreases sections@.len() - i,
    {
        visit_paragraphs(&sections[i].paragraphs, false, &mut stats);
        assert(sections@.take(i + 1).drop_last() =~= sections@.take(i as int));
        i += 1;
    }
    assert(sections@.take(sections@.len() as int) =~= sections@);
    stats
}

/// Whether a document may be edited as a template.
#[derive(Debug, Clone, Copy, PartialEq, Eq, Structural)]
pub enum ProtectionStatus {
    Standard,
    Protected,
}

impl ProtectionStatus {
    /// The name that is reported.
    pub open spec fn text(self) -> Seq<char> {
        match self {
            ProtectionStatus::Standard => "standard"@,
            ProtectionStatus::Protected => "protected"@,
        }
    }

    /// The name that is reported.
    pub fn name(self) -> (name: &'static str)
        ensures
            name@ == self.text(),
    {
        match self {
            ProtectionStatus::Standard => "standard",
            ProtectionStatus::Protected => "protected",
        }
    }
}

/// What speaks for protecting a document.
#[derive(Debug, Clone, Copy, PartialEq, Eq, Structural)]
pub enum ProtectionReason {
    ManyPages,
    ManyTables,
    ManyImages,
    NestedTables,
    MixedDrawingObjects,
}

impl ProtectionReason {
    /// The name that is reported.
    pub open spec fn text(self) -> Seq<char> {
        match self {
            ProtectionReason::ManyPages => "many-pages"@,
            ProtectionReason::ManyTables => "many-tables"@,
            ProtectionReason::ManyImages => "many-images"@,
            ProtectionReason::NestedTables => "nested-tables"@,
            ProtectionReason::MixedDrawingObjects => "mixed-drawing-objects"@,
        }
    }

    /// The name that is reported.
    pub fn name(self) -> (name: &'static str)
        ensures
            name@ == self.text(),
    {
        match self {
            ProtectionReason::ManyPages => "many-pages",
            ProtectionReason::ManyTables => "many-tables",
            ProtectionReason::ManyImages => "many-images",
            ProtectionReason::NestedTables => "nested-tables",
            ProtectionReason::MixedDrawingObjects => "mixed-drawing-objects",
        }
    }
}

/// `reason`, if `holds`.
pub open spec fn where_holds(holds: bool, reason: ProtectionReason) -> Seq<ProtectionReason> {
    if holds {
        seq![reason]
    } else {
        seq![]
    }
}

/// What speaks for protecting a document of `page_count` pages.
pub open spec fn reasons_of(page_count: u32, stats: ComplexityStats) -> Seq<ProtectionReason> {
    where_holds(page_count >= 4, ProtectionReason::ManyPages) + where_holds(
        stats.table_count >= 12,
        ProtectionReason::ManyTables,
    ) + where_holds(stats.picture_count >= 5, ProtectionReason::ManyImages) + where_holds(
        stats.nested_table_count > 0,
        ProtectionReason::NestedTables,
    ) + where_holds(stats.shape_count >= 5, ProtectionReason::MixedDrawingObjects)
}

/// A document is protected where a table is nested, where it has twenty tables or more, or where
/// two or more reasons speak for it.
pub open spec fn status_of(page_count: u32, stats: ComplexityStats) -> ProtectionStatus {
    if stats.nested_table_count > 0 || stats.table_count >= 20 || reasons_of(
        page_count,
        stats,
    ).len() >= 2 {
        ProtectionStatus::Protected
    } else {
        ProtectionStatus::Standard
    }
}

/// Lists what speaks for protecting a document.
pub fn protection_reasons(page_count: u32, stats: ComplexityStats) -> (reasons: Vec<
    ProtectionReason,
>)
    ensures
        reasons@ == reasons_of(page_count, stats),
{
    let mut reasons: Vec<ProtectionReason> = Vec::new();
    if page_count >= 4 {
        reasons.push(ProtectionReason::ManyPages);
    }
    if stats.table_count >= 12 {
        reasons.push(ProtectionReason::ManyTables);
    }
    if stats.picture_count >= 5 {
        reasons.push(ProtectionReason::ManyImages);
    }
    if stats.nested_table_count > 0 {
        reasons.push(ProtectionReason::NestedTables);
    }
    if stats.shape_count >= 5 {
        reasons.push(ProtectionReason::MixedDrawingObjects);
    }
    assert(reasons@ =~= reasons_of(page_count, stats));
    reasons
}

/// Decides whether a document may be edited as a template.
pub fn protection_status(page_count: u32, stats: ComplexityStats) -> (status: ProtectionStatus)
    ensures
        status == status_of(page_count, stats),
{
    let reasons: Vec<ProtectionReason> = protection_reasons(page_count, stats);
    if stats.nested_table_count > 0 || stats.table_count >= 20 || reasons.len() >= 2 {
        ProtectionStatus::Protected
    } else {
        ProtectionStatus::Standard
    }
}

} // verus!
