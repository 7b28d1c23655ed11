//! Listing what of a document can be registered as an editable template, by hashes only.

use serde_json::Value;
use vstd::prelude::*;

use crate::digest::{approved_structure_digest, digest_text, is_digest, structure_bytes};
use crate::json::{
    items, json_bool, json_content, json_list, json_number, json_object, json_str, json_string,
    json_text, json_to_string, json_usize, members, number, object, put, put_item, JsonTree,
};
use crate::label::{
    adjacent_bytes, adjacent_label_digest, body_adjacent_bytes, body_adjacent_label_digest,
    text_hash, text_hash_of,
};
use crate::model::{
    Cell, Document, DocumentCore, FieldEntry, FileFormat, Paragraph, Section, Table, TableGrid,
};
use crate::protection::{
    complexity_stats, document_counts, protection_reasons, protection_status, reasons_of, status_of,
    ComplexityStats, ProtectionReason, ProtectionStatus,
};
use crate::report::views;
use crate::table::{
    blocked_reasons_of, body_paragraph_is_safe, cell_blocked_reasons, cell_text, cell_text_of,
    find_table, plain_body, table_at, top_level_count, top_level_count_of, BlockedReason,
};
use crate::text::clamped;

verus! {

/// The most body paragraphs, and the most cells, that an inspection lists.
pub const MAX_INSPECTION_CANDIDATES: usize = 2_000;

/// A field, with the hash of its value.
#[derive(Debug)]
pub struct InspectedField {
    pub field_id: u32,
    pub editable: bool,
    pub value_hash: String,
}

/// A field as a mathematical value.
pub struct FieldModel {
    pub field_id: u32,
    pub editable: bool,
    pub value_hash: Seq<char>,
}

impl View for InspectedField {
    type V = FieldModel;

    open spec fn view(&self) -> FieldModel {
        FieldModel {
            field_id: self.field_id,
            editable: self.editable,
            value_hash: self.value_hash@,
        }
    }
}

/// A body paragraph whose text can be replaced, with the hashes that a request for it needs.
#[derive(Debug)]
pub struct BodyCandidate {
    pub section_index: usize,
    pub paragraph_index: usize,
    pub text_hash: String,
    pub adjacent_label_digest: String,
}

/// A body paragraph as a mathematical value.
pub struct BodyModel {
    pub section_index: int,
    pub paragraph_index: int,
    pub text_hash: Seq<char>,
    pub adjacent_label_digest: Seq<char>,
}

impl View for BodyCandidate {
    type V = BodyModel;

    open spec fn view(&self) -> BodyModel {
        BodyModel {
            section_index: self.section_index as int,
            paragraph_index: self.paragraph_index as int,
            text_hash: self.text_hash@,
            adjacent_label_digest: self.adjacent_label_digest@,
        }
    }
}

/// A cell of a table of the body, with the hashes that a request for it needs.
#[derive(Debug)]
pub struct InspectedCell {
    pub table_index: usize,
    pub row: u16,
    pub col: u16,
    pub row_span: u16,
    pub col_span: u16,
    pub text_hash: String,
    pub adjacent_label_digest: String,
    pub blocked_reasons: Vec<BlockedReason>,
    pub section_index: usize,
    pub paragraph_index: usize,
    pub control_index: usize,
    pub cell_index: usize,
}

/// A cell as a mathematical value.
pub struct CellModel {
    pub table_index: usize,
    pub row: u16,
    pub col: u16,
    pub row_span: u16,
    pub col_span: u16,
    pub text_hash: Seq<char>,
    pub adjacent_label_digest: Seq<char>,
    pub blocked_reasons: Seq<BlockedReason>,
    pub section_index: usize,
    pub paragraph_index: usize,
    pub control_index: usize,
    pub cell_index: int,
}

impl View for InspectedCell {
    type V = CellModel;

    open spec fn view(&self) -> CellModel {
        CellModel {
            table_index: self.table_index,
            row: self.row,
            col: self.col,
            row_span: self.row_span,
            col_span: self.col_span,
            text_hash: self.text_hash@,
            adjacent_label_digest: self.adjacent_label_digest@,
            blocked_reasons: self.blocked_reasons@,
            section_index: self.section_index,
            paragraph_index: self.paragraph_index,
            control_index: self.control_index,
            cell_index: self.cell_index as int,
        }
    }
}

/// Whether a document is protected, and what speaks for it.
#[derive(Debug)]
pub struct Protection {
    pub status: ProtectionStatus,
    pub page_count: u32,
    pub stats: ComplexityStats,
    pub reasons: Vec<ProtectionReason>,
}

/// The protection of a document as a mathematical value.
pub struct ProtectionModel {
    pub status: ProtectionStatus,
    pub page_count: u32,
    pub stats: ComplexityStats,
    pub reasons: Seq<ProtectionReason>,
}

impl View for Protection {
    type V = ProtectionModel;

    open spec fn view(&self) -> ProtectionModel {
        ProtectionModel {
            status: self.status,
            page_count: self.page_count,
            stats: self.stats,
            reasons: self.reasons@,
        }
    }
}

/// What an inspection reports.
#[derive(Debug)]
pub struct Inspection {
    pub format: FileFormat,
    pub structure_digest: String,
    pub section_count: usize,
    pub paragraph_count: usize,
    pub top_level_table_count: usize,
    pub bin_data_count: usize,
    pub protection: Protection,
    pub native_fields: Vec<InspectedField>,
    pub body_candidates: Vec<BodyCandidate>,
    pub table_cells: Vec<InspectedCell>,
    pub truncated: bool,
}

/// What an inspection reports, as a mathematical value.
pub struct InspectionModel {
    pub format: FileFormat,
    pub structure_digest: Seq<char>,
    pub section_count: nat,
    pub paragraph_count: usize,
    pub top_level_table_count: nat,
    pub bin_data_count: usize,
    pub protection: ProtectionModel,
    pub native_fields: Seq<FieldModel>,
    pub body_candidates: Seq<BodyModel>,
    pub table_cells: Seq<CellModel>,
    pub truncated: bool,
}

impl View for Inspection {
    type V = InspectionModel;

    open spec fn view(&self) -> InspectionModel {
        InspectionModel {
            format: self.format,
            structure_digest: self.structure_digest@,
            section_count: self.section_count as nat,
            paragraph_count: self.paragraph_count,
            top_level_table_count: self.top_level_table_count as nat,
            bin_data_count: self.bin_data_count,
            protection: self.protection@,
            native_fields: views(self.native_fields@),
            body_candidates: views(self.body_candidates@),
            table_cells: views(self.table_cells@),
            truncated: self.truncated,
        }
    }
}

impl InspectionModel {
    /// Every text of the inspection has the form of a digest.
    pub open spec fn digests_only(self) -> bool {
        &&& is_digest(self.structure_digest)
        &&& forall|i: int|
            0 <= i < self.native_fields.len() ==> is_digest(
                (#[trigger] self.native_fields[i]).value_hash,
            )
        &&& forall|i: int|
            0 <= i < self.body_candidates.len() ==> is_digest(
                (#[trigger] self.body_candidates[i]).text_hash,
            ) && is_digest(self.body_candidates[i].adjacent_label_digest)
        &&& forall|i: int|
            0 <= i < self.table_cells.len() ==> is_digest(
                (#[trigger] self.table_cells[i]).text_hash,
            ) && is_digest(self.table_cells[i].adjacent_label_digest)
    }
}

/// The first items, as many as an inspection lists.
pub open spec fn listed<T>(all: Seq<T>) -> Seq<T> {
    if all.len() <= MAX_INSPECTION_CANDIDATES {
        all
    } else {
        all.take(MAX_INSPECTION_CANDIDATES as int)
    }
}

/// A body paragraph as it is reported.
pub open spec fn body_model(
    paragraphs: Seq<Paragraph>,
    section_index: int,
    paragraph_index: int,
) -> BodyModel {
    BodyModel {
        section_index,
        paragraph_index,
        text_hash: text_hash_of(paragraphs[paragraph_index].text@),
        adjacent_label_digest: digest_text(body_adjacent_bytes(paragraphs, paragraph_index)),
    }
}

/// Whether the text of a body paragraph is worth listing: there is some, and it can be replaced.
pub open spec fn is_candidate(paragraph: Paragraph) -> bool {
    paragraph.text@.len() > 0 && plain_body(paragraph)
}

/// The candidates among the first `n` paragraphs of a section.
pub open spec fn section_candidates(
    paragraphs: Seq<Paragraph>,
    section_index: int,
    n: nat,
) -> Seq<BodyModel>
    decreases n,
{
    if n == 0 {
        seq![]
    } else {
        let earlier = section_candidates(paragraphs, section_index, (n - 1) as nat);
        if is_candidate(paragraphs[n - 1]) {
            earlier.push(body_model(paragraphs, section_index, n - 1))
        } else {
            earlier
        }
    }
}

/// The candidates of the first `n` sections.
pub open spec fn body_candidates_of(sections: Seq<Section>, n: nat) -> Seq<BodyModel>
    decreases n,
{
    if n == 0 {
        seq![]
    } else {
        body_candidates_of(sections, (n - 1) as nat) + section_candidates(
            sections[n - 1].paragraphs@,
            n - 1,
            sections[n - 1].paragraphs@.len(),
        )
    }
}

/// A cell as it is reported.
pub open spec fn cell_model(grid: TableGrid, table: Table, cell_index: int) -> CellModel {
    let cell = table.cells@[cell_index];
    CellModel {
        table_index: grid.index,
        row: cell.row,
        col: cell.col,
        row_span: cell.row_span,
        col_span: cell.col_span,
        text_hash: text_hash_of(cell_text_of(cell)),
        adjacent_label_digest: digest_text(adjacent_bytes(table, cell.row, cell.col)),
        blocked_reasons: blocked_reasons_of(cell),
        section_index: grid.section,
        paragraph_index: grid.paragraph,
        control_index: grid.control,
        cell_index,
    }
}

/// The cells of a numbered table of the body; none where the grid is no such table.
pub open spec fn grid_cells(document: Document, grid: TableGrid) -> Seq<CellModel> {
    match table_at(document, grid.section as int, grid.paragraph as int, grid.control as int) {
        Some(table) => if grid.top_level() {
            Seq::new(table.cells@.len(), |i: int| cell_model(grid, table, i))
        } else {
            seq![]
        },
        None => seq![],
    }
}

/// The cells of the first `n` numbered tables.
pub open spec fn table_cells_of(document: Document, n: nat) -> Seq<CellModel>
    decreases n,
{
    if n == 0 {
        seq![]
    } else {
        table_cells_of(document, (n - 1) as nat) + grid_cells(document, document.tables@[n - 1])
    }
}

/// The fields among the first `n` that are controls of the document.
pub open spec fn native_fields_of(fields: Seq<FieldEntry>, n: nat) -> Seq<FieldModel>
    decreases n,
{
    if n == 0 {
        seq![]
    } else {
        let earlier = native_fields_of(fields, (n - 1) as nat);
        let entry = fields[n - 1];
        if entry.field.ctrl_id != 0 {
            earlier.push(
                FieldModel {
                    field_id: entry.field.field_id,
                    editable: entry.editable_in_form,
                    value_hash: text_hash_of(entry.value@),
                },
            )
        } else {
            earlier
        }
    }
}

/// How many paragraphs the first `n` sections have.
pub open spec fn paragraph_count_of(sections: Seq<Section>, n: nat) -> nat
    decreases n,
{
    if n == 0 {
        0
    } else {
        paragraph_count_of(sections, (n - 1) as nat) + sections[n - 1].paragraphs@.len()
    }
}

/// The protection of an open document.
pub open spec fn protection_of(core: DocumentCore) -> ProtectionModel {
    let stats = document_counts(core.document).reported();
    ProtectionModel {
        status: status_of(core.page_count, stats),
        page_count: core.page_count,
        stats,
        reasons: reasons_of(core.page_count, stats),
    }
}

/// What the inspection of an open document reports.
pub open spec fn inspection_of(core: DocumentCore) -> InspectionModel {
    let document = core.document;
    let body = listed(body_candidates_of(document.sections@, document.sections@.len()));
    let cells = listed(table_cells_of(document, document.tables@.len()));
    InspectionModel {
        format: core.source_format,
        structure_digest: digest_text(structure_bytes(document)),
        section_count: document.sections@.len(),
        paragraph_count: clamped(paragraph_count_of(document.sections@, document.sections@.len())),
        top_level_table_count: top_level_count_of(document.tables@),
        bin_data_count: document.bin_data_count,
        protection: protection_of(core),
        native_fields: native_fields_of(core.fields@, core.fields@.len()),
        body_candidates: body,
        table_cells: cells,
        truncated: body.len() >= MAX_INSPECTION_CANDIDATES || cells.len()
            >= MAX_INSPECTION_CANDIDATES,
    }
}

/// Appending an item to what is listed.
proof fn lemma_listed_push<T>(all: Seq<T>, item: T)
    ensures
        listed(all.push(item)) == if listed(all).len() < MAX_INSPECTION_CANDIDATES {
            listed(all).push(item)
        } else {
            listed(all)
        },
{
    assert(listed(all.push(item)) =~= if listed(all).len() < MAX_INSPECTION_CANDIDATES {
        listed(all).push(item)
    } else {
        listed(all)
    });
}

/// Collects the body paragraphs whose text can be replaced.
fn collect_body(sections: &Vec<Section>) -> (candidates: Vec<BodyCandidate>)
    ensures
        views(candidates@) == listed(body_candidates_of(sections@, sections@.len())),
        forall|i: int|
            0 <= i < candidates@.len() ==> is_digest(
                (#[trigger] views(candidates@)[i]).text_hash,
            ) && is_digest(views(candidates@)[i].adjacent_label_digest),
{
    let mut candidates: Vec<BodyCandidate> = Vec::new();
    let mut s: usize = 0;
    assert(views(candidates@) =~= listed(body_candidates_of(sections@, 0)));
    while s < sections.len()
        invariant
            s <= sections@.len(),
            forall|i: int|
                0 <= i < candidates@.len() ==> is_digest(
                    (#[trigger] views(candidates@)[i]).text_hash,
                ) && is_digest(views(candidates@)[i].adjacent_label_digest),
            views(candidates@) == listed(body_candidates_of(sections@, s as nat)),
        decreases sections@.len() - s,
    {
        let paragraphs: &Vec<Paragraph> = &sections[s].paragraphs;
        let ghost earlier = body_candidates_of(sections@, s as nat);
        let mut p: usize = 0;
        assert(earlier + section_candidates(paragraphs@, s as int, 0) =~= earlier);
        while p < paragraphs.len()
            invariant
                p <= paragraphs@.len(),
                forall|i: int|
                    0 <= i < candidates@.len() ==> is_digest(
                        (#[trigger] views(candidates@)[i]).text_hash,
                    ) && is_digest(views(candidates@)[i].adjacent_label_digest),
                s < sections@.len(),
                paragraphs@ == sections@[s as int].paragraphs@,
                earlier == body_candidates_of(sections@, s as nat),
                views(candidates@) == listed(
                    earlier + section_candidates(paragraphs@, s as int, p as nat),
                ),
            decreases paragraphs@.len() - p,
        {
            let paragraph: &Paragraph = &paragraphs[p];
            let ghost so_far = earlier + section_candidates(paragraphs@, s as int, p as nat);
            let ghost model = body_model(paragraphs@, s as int, p as int);
            proof {
                lemma_listed_push(so_far, model);
                assert(earlier + section_candidates(paragraphs@, s as int, p as nat).push(model)
                    =~= so_far.push(model));
                assert(views(candidates@).len() == candidates@.len());
            }
            if candidates.len() < MAX_INSPECTION_CANDIDATES && !paragraph.text.as_str().is_empty()
                && body_paragraph_is_safe(paragraph) {
                let ghost before = views(candidates@);
                candidates.push(
                    BodyCandidate {
                        section_index: s,
                        paragraph_index: p,
                        text_hash: text_hash(paragraph.text.as_str()),
                        adjacent_label_digest: body_adjacent_label_digest(paragraphs, p),
                    },
                );
                assert(views(candidates@) =~= before.push(model));
            }
            p += 1;
        }
        s += 1;
    }
    candidates
}

/// Collects the cells of the tables of the body.
fn collect_cells(document: &Document) -> (cells: Vec<InspectedCell>)
    ensures
        views(cells@) == listed(table_cells_of(*document, document.tables@.len())),
        forall|i: int|
            0 <= i < cells@.len() ==> is_digest((#[trigger] views(cells@)[i]).text_hash)
                && is_digest(views(cells@)[i].adjacent_label_digest),
{
    let mut cells: Vec<InspectedCell> = Vec::new();
    let mut g: usize = 0;
    assert(views(cells@) =~= listed(table_cells_of(*document, 0)));
    while g < document.tables.len()
        invariant
            g <= document.tables@.len(),
            forall|i: int|
                0 <= i < cells@.len() ==> is_digest(
                    (#[trigger] views(cells@)[i]).text_hash,
                ) && is_digest(views(cells@)[i].adjacent_label_digest),
            views(cells@) == listed(table_cells_of(*document, g as nat)),
        decreases document.tables@.len() - g,
    {
        let grid: &TableGrid = &document.tables[g];
        let ghost earlier = table_cells_of(*document, g as nat);
        match find_table(document, grid.section, grid.paragraph, grid.control) {
            Some(table) if grid.container_path.len() == 0 => {
                let ghost here = grid_cells(*document, *grid);
                let mut c: usize = 0;
                assert(earlier + here.take(0) =~= earlier);
                while c < table.cells.len()
                    invariant
                        c <= table.cells@.len(),
                        forall|i: int|
                            0 <= i < cells@.len() ==> is_digest(
                                (#[trigger] views(cells@)[i]).text_hash,
                            ) && is_digest(views(cells@)[i].adjacent_label_digest),
                        grid.top_level(),
                        table_at(
                            *document,
                            grid.section as int,
                            grid.paragraph as int,
                            grid.control as int,
                        ) == Some(*table),
                        here == grid_cells(*document, *grid),
                        views(cells@) == listed(earlier + here.take(c as int)),
                    decreases table.cells@.len() - c,
                {
                    let cell: &Cell = &table.cells[c];
                    let ghost so_far = earlier + here.take(c as int);
                    let ghost model = cell_model(*grid, *table, c as int);
                    proof {
                        lemma_listed_push(so_far, model);
                        assert(here[c as int] == model);
                        assert(earlier + here.take(c + 1) =~= so_far.push(model));
                        assert(views(cells@).len() == cells@.len());
                    }
                    if cells.len() < MAX_INSPECTION_CANDIDATES {
                        let ghost before = views(cells@);
                        let text: String = cell_text(cell);
                        cells.push(
                            InspectedCell {
                                table_index: grid.index,
                                row: cell.row,
                                col: cell.col,
                                row_span: cell.row_span,
                                col_span: cell.col_span,
                                text_hash: text_hash(text.as_str()),
                                adjacent_label_digest: adjacent_label_digest(
                                    table,
                                    cell.row,
                                    cell.col,
                                ),
                                blocked_reasons: cell_blocked_reasons(cell),
                                section_index: grid.section,
                                paragraph_index: grid.paragraph,
                                control_index: grid.control,
                                cell_index: c,
                            },
                        );
                        assert(views(cells@) =~= before.push(model));
                    }
                    c += 1;
                }
                assert(here.take(here.len() as int) =~= here);
            },
            _ => {
                assert(earlier + grid_cells(*document, *grid) =~= earlier);
            },
        }
        g += 1;
    }
    cells
}

/// Collects the fields that are controls of the document.
fn collect_fields(fields: &Vec<FieldEntry>) -> (native: Vec<InspectedField>)
    ensures
        views(native@) == native_fields_of(fields@, fields@.len()),
        forall|i: int|
            0 <= i < native@.len() ==> is_digest((#[trigger] views(native@)[i]).value_hash),
{
    let mut native: Vec<InspectedField> = Vec::new();
    let mut i: usize = 0;
    assert(views(native@) =~= native_fields_of(fields@, 0));
    while i < fields.len()
        invariant
            i <= fields@.len(),
            forall|k: int|
                0 <= k < native@.len() ==> is_digest((#[trigger] views(native@)[k]).value_hash),
            views(native@) == native_fields_of(fields@, i as nat),
        decreases fields@.len() - i,
    {
        let entry: &FieldEntry = &fields[i];
        if entry.field.ctrl_id != 0 {
            let ghost before = views(native@);
            native.push(
                InspectedField {
                    field_id: entry.field.field_id,
                    editable: entry.editable_in_form,
                    value_hash: text_hash(entry.value.as_str()),
                },
            );
            assert(views(native@) =~= before.push(native@.last()@));
        }
        i += 1;
    }
    native
}

/// Counts the paragraphs of the body.
fn count_paragraphs(sections: &Vec<Section>) -> (count: usize)
    ensures
        count == clamped(paragraph_count_of(sections@, sections@.len())),
{
    let mut count: usize = 0;
    let mut i: usize = 0;
    while i < sections.len()
        invariant
            i <= sections@.len(),
            count == clamped(paragraph_count_of(sections@, i as nat)),
        decreases sections@.len() - i,
    {
        count = count.saturating_add(sections[i].paragraphs.len());
        i += 1;
    }
    count
}

impl DocumentCore {
    /// Lists the structure digest of the document and what of it can be registered as a target.
    /// Texts are reported by their hashes only.
    pub fn inspect_approved_template(&self) -> (inspection: Inspection)
        requires
            self.document.well_formed(),
        ensures
            inspection@ == inspection_of(*self),
            inspection@.digests_only(),
    {
        let document: &Document = &self.document;
        let stats: ComplexityStats = complexity_stats(document);
        let body_candidates: Vec<BodyCandidate> = collect_body(&document.sections);
        let table_cells: Vec<InspectedCell> = collect_cells(document);
        proof {
            assert(views(body_candidates@).len() == body_candidates@.len());
            assert(views(table_cells@).len() == table_cells@.len());
        }
        let truncated: bool = body_candidates.len() >= MAX_INSPECTION_CANDIDATES
            || table_cells.len() >= MAX_INSPECTION_CANDIDATES;
        Inspection {
            format: self.source_format,
            structure_digest: approved_structure_digest(document),
            section_count: document.sections.len(),
            paragraph_count: count_paragraphs(&document.sections),
            top_level_table_count: top_level_count(&document.tables),
            bin_data_count: document.bin_data_count,
            protection: Protection {
                status: protection_status(self.page_count, stats),
                page_count: self.page_count,
                stats,
                reasons: protection_reasons(self.page_count, stats),
            },
            native_fields: collect_fields(&self.fields),
            body_candidates,
            table_cells,
            truncated,
        }
    }
}

/// The name of a format.
pub open spec fn format_text(format: FileFormat) -> Seq<char> {
    match format {
        FileFormat::Hwp => "hwp"@,
        FileFormat::Hwpx => "hwpx"@,
        FileFormat::Hwp3 => "hwp3"@,
        FileFormat::Hml => "hml"@,
        FileFormat::DrmProtected => "drm-protected"@,
        FileFormat::Empty => "empty"@,
        FileFormat::Unknown => "unknown"@,
    }
}

/// Names a format.
pub fn source_format_name(format: FileFormat) -> (name: &'static str)
    ensures
        name@ == format_text(format),
{
    match format {
        FileFormat::Hwp => "hwp",
        FileFormat::Hwpx => "hwpx",
        FileFormat::Hwp3 => "hwp3",
        FileFormat::Hml => "hml",
        FileFormat::DrmProtected => "drm-protected",
        FileFormat::Empty => "empty",
        FileFormat::Unknown => "unknown",
    }
}

/// The protection of a document in JSON.
pub open spec fn protection_tree(protection: ProtectionModel) -> JsonTree {
    object(
        seq![
            ("schemaVersion"@, number(1)),
            ("status"@, JsonTree::Text(protection.status.text())),
            ("pageCount"@, number(protection.page_count as nat)),
            ("tableCount"@, number(protection.stats.table_count as nat)),
            ("nestedTableCount"@, number(protection.stats.nested_table_count as nat)),
            ("pictureCount"@, number(protection.stats.picture_count as nat)),
            ("shapeCount"@, number(protection.stats.shape_count as nat)),
            (
                "reasons"@,
                JsonTree::List(
                    protection.reasons.map_values(
                        |reason: ProtectionReason| JsonTree::Text(reason.text()),
                    ),
                ),
            ),
        ],
    )
}

/// A field in JSON.
pub open spec fn field_tree(field: FieldModel) -> JsonTree {
    object(
        seq![
            ("fieldId"@, number(field.field_id as nat)),
            ("editable"@, JsonTree::Bool(field.editable)),
            ("valueHash"@, JsonTree::Text(field.value_hash)),
        ],
    )
}

/// A body paragraph in JSON.
pub open spec fn body_tree(candidate: BodyModel) -> JsonTree {
    object(
        seq![
            ("sectionIndex"@, number(candidate.section_index as nat)),
            ("paragraphIndex"@, number(candidate.paragraph_index as nat)),
            ("textHash"@, JsonTree::Text(candidate.text_hash)),
            ("adjacentLabelDigest"@, JsonTree::Text(candidate.adjacent_label_digest)),
        ],
    )
}

/// The anchor of a cell in JSON.
pub open spec fn anchor_tree(row: u16, col: u16) -> JsonTree {
    object(seq![("row"@, number(row as nat)), ("col"@, number(col as nat))])
}

/// The place of a cell in JSON.
pub open spec fn cell_address_tree(cell: CellModel) -> JsonTree {
    object(
        seq![
            ("sectionIndex"@, number(cell.section_index as nat)),
            ("paragraphIndex"@, number(cell.paragraph_index as nat)),
            ("controlIndex"@, number(cell.control_index as nat)),
            ("cellIndex"@, number(cell.cell_index as nat)),
        ],
    )
}

/// What keeps a cell from being edited, in JSON.
pub open spec fn blocked_tree(reasons: Seq<BlockedReason>) -> JsonTree {
    JsonTree::List(reasons.map_values(|reason: BlockedReason| JsonTree::Text(reason.text())))
}

/// A cell in JSON.
pub open spec fn cell_tree(cell: CellModel) -> JsonTree {
    object(
        seq![
            ("tableIndex"@, number(cell.table_index as nat)),
            ("row"@, number(cell.row as nat)),
            ("col"@, number(cell.col as nat)),
            ("rowSpan"@, number(cell.row_span as nat)),
            ("colSpan"@, number(cell.col_span as nat)),
            ("mergedAnchor"@, anchor_tree(cell.row, cell.col)),
            ("textHash"@, JsonTree::Text(cell.text_hash)),
            ("adjacentLabelDigest"@, JsonTree::Text(cell.adjacent_label_digest)),
            ("safe"@, JsonTree::Bool(cell.blocked_reasons.len() == 0)),
            ("blockedReasons"@, blocked_tree(cell.blocked_reasons)),
            ("resolvedAddress"@, cell_address_tree(cell)),
        ],
    )
}

/// Fields in JSON.
pub open spec fn fields_tree(fields: Seq<FieldModel>) -> JsonTree {
    JsonTree::List(fields.map_values(|entry: FieldModel| field_tree(entry)))
}

/// Body paragraphs in JSON.
pub open spec fn bodies_tree(candidates: Seq<BodyModel>) -> JsonTree {
    JsonTree::List(candidates.map_values(|entry: BodyModel| body_tree(entry)))
}

/// Cells in JSON.
pub open spec fn cells_tree(cells: Seq<CellModel>) -> JsonTree {
    JsonTree::List(cells.map_values(|entry: CellModel| cell_tree(entry)))
}

/// What an inspection reports, in JSON.
pub open spec fn inspection_tree(inspection: InspectionModel) -> JsonTree {
    let stats = inspection.protection.stats;
    object(
        seq![
            ("schemaVersion"@, number(1)),
            ("format"@, JsonTree::Text(format_text(inspection.format))),
            ("structureDigest"@, JsonTree::Text(inspection.structure_digest)),
            ("pageCount"@, number(inspection.protection.page_count as nat)),
            ("sectionCount"@, number(inspection.section_count)),
            ("paragraphCount"@, number(inspection.paragraph_count as nat)),
            ("topLevelTableCount"@, number(inspection.top_level_table_count)),
            ("nestedTableCount"@, number(stats.nested_table_count as nat)),
            ("pictureCount"@, number(stats.picture_count as nat)),
            ("shapeCount"@, number(stats.shape_count as nat)),
            ("binDataCount"@, number(inspection.bin_data_count as nat)),
            ("protection"@, protection_tree(inspection.protection)),
            ("nativeFields"@, fields_tree(inspection.native_fields)),
            ("bodyCandidates"@, bodies_tree(inspection.body_candidates)),
            ("tableCells"@, cells_tree(inspection.table_cells)),
            ("truncated"@, JsonTree::Bool(inspection.truncated)),
        ],
    )
}

/// Writes the protection of a document in JSON.
fn protection_json(protection: &Protection) -> (value: Value)
    ensures
        json_content(value) == protection_tree(protection@),
{
    let mut reasons: Vec<Value> = Vec::new();
    let mut i: usize = 0;
    while i < protection.reasons.len()
        invariant
            i <= protection.reasons@.len(),
            items(reasons@) =~= protection.reasons@.take(i as int).map_values(
                |reason: ProtectionReason| JsonTree::Text(reason.text()),
            ),
        decreases protection.reasons@.len() - i,
    {
        put_item(&mut reasons, json_str(protection.reasons[i].name()));
        i += 1;
    }
    assert(protection.reasons@.take(protection.reasons@.len() as int) =~= protection.reasons@);
    let mut entries: Vec<(String, Value)> = Vec::new();
    put(&mut entries, "schemaVersion", json_number(1));
    put(&mut entries, "status", json_str(protection.status.name()));
    put(&mut entries, "pageCount", json_number(protection.page_count as u64));
    put(&mut entries, "tableCount", json_usize(protection.stats.table_count));
    put(&mut entries, "nestedTableCount", json_usize(protection.stats.nested_table_count));
    put(&mut entries, "pictureCount", json_usize(protection.stats.picture_count));
    put(&mut entries, "shapeCount", json_usize(protection.stats.shape_count));
    put(&mut entries, "reasons", json_list(reasons));
    assert(members(entries@) =~= seq![
        ("schemaVersion"@, number(1)),
        ("status"@, JsonTree::Text(protection@.status.text())),
        ("pageCount"@, number(protection@.page_count as nat)),
        ("tableCount"@, number(protection@.stats.table_count as nat)),
        ("nestedTableCount"@, number(protection@.stats.nested_table_count as nat)),
        ("pictureCount"@, number(protection@.stats.picture_count as nat)),
        ("shapeCount"@, number(protection@.stats.shape_count as nat)),
        (
            "reasons"@,
            JsonTree::List(
                protection@.reasons.map_values(
                    |reason: ProtectionReason| JsonTree::Text(reason.text()),
                ),
            ),
        ),
    ]);
    json_object(entries)
}

/// Writes a field in JSON.
fn field_json(field: InspectedField) -> (value: Value)
    ensures
        json_content(value) == field_tree(field@),
{
    let mut entries: Vec<(String, Value)> = Vec::new();
    put(&mut entries, "fieldId", json_number(field.field_id as u64));
    put(&mut entries, "editable", json_bool(field.editable));
    put(&mut entries, "valueHash", json_string(field.value_hash));
    assert(members(entries@) =~= seq![
        ("fieldId"@, number(field@.field_id as nat)),
        ("editable"@, JsonTree::Bool(field@.editable)),
        ("valueHash"@, JsonTree::Text(field@.value_hash)),
    ]);
    json_object(entries)
}

/// Writes a body paragraph in JSON.
fn body_json(candidate: BodyCandidate) -> (value: Value)
    ensures
        json_content(value) == body_tree(candidate@),
{
    let mut entries: Vec<(String, Value)> = Vec::new();
    put(&mut entries, "sectionIndex", json_usize(candidate.section_index));
    put(&mut entries, "paragraphIndex", json_usize(candidate.paragraph_index));
    put(&mut entries, "textHash", json_string(candidate.text_hash));
    put(&mut entries, "adjacentLabelDigest", json_string(candidate.adjacent_label_digest));
    assert(members(entries@) =~= seq![
        ("sectionIndex"@, number(candidate@.section_index as nat)),
        ("paragraphIndex"@, number(candidate@.paragraph_index as nat)),
        ("textHash"@, JsonTree::Text(candidate@.text_hash)),
        ("adjacentLabelDigest"@, JsonTree::Text(candidate@.adjacent_label_digest)),
    ]);
    json_object(entries)
}

/// Writes the anchor of a cell in JSON.
fn anchor_json(row: u16, col: u16) -> (value: Value)
    ensures
        json_content(value) == anchor_tree(row, col),
{
    let mut entries: Vec<(String, Value)> = Vec::new();
    put(&mut entries, "row", json_number(row as u64));
    put(&mut entries, "col", json_number(col as u64));
    assert(members(entries@) =~= seq![
        ("row"@, number(row as nat)),
        ("col"@, number(col as nat)),
    ]);
    json_object(entries)
}

/// Writes the place of a cell in JSON.
fn cell_address_json(cell: &InspectedCell) -> (value: Value)
    ensures
        json_content(value) == cell_address_tree(cell@),
{
    let mut entries: Vec<(String, Value)> = Vec::new();
    put(&mut entries, "sectionIndex", json_usize(cell.section_index));
    put(&mut entries, "paragraphIndex", json_usize(cell.paragraph_index));
    put(&mut entries, "controlIndex", json_usize(cell.control_index));
    put(&mut entries, "cellIndex", json_usize(cell.cell_index));
    assert(members(entries@) =~= seq![
        ("sectionIndex"@, number(cell@.section_index as nat)),
        ("paragraphIndex"@, number(cell@.paragraph_index as nat)),
        ("controlIndex"@, number(cell@.control_index as nat)),
        ("cellIndex"@, number(cell@.cell_index as nat)),
    ]);
    json_object(entries)
}

/// Writes what keeps a cell from being edited in JSON.
fn blocked_json(reasons: &Vec<BlockedReason>) -> (value: Value)
    ensures
        json_content(value) == blocked_tree(reasons@),
{
    let mut list: Vec<Value> = Vec::new();
    let mut i: usize = 0;
    while i < reasons.len()
        invariant
            i <= reasons@.len(),
            items(list@) =~= reasons@.take(i as int).map_values(
                |reason: BlockedReason| JsonTree::Text(reason.text()),
            ),
        decreases reasons@.len() - i,
    {
        put_item(&mut list, json_str(reasons[i].name()));
        i += 1;
    }
    assert(reasons@.take(reasons@.len() as int) =~= reasons@);
    json_list(list)
}

/// Writes a cell in JSON.
fn cell_json(cell: InspectedCell) -> (value: Value)
    ensures
        json_content(value) == cell_tree(cell@),
{
    let ghost model = cell@;
    let address: Value = cell_address_json(&cell);
    let mut entries: Vec<(String, Value)> = Vec::new();
    put(&mut entries, "tableIndex", json_usize(cell.table_index));
    put(&mut entries, "row", json_number(cell.row as u64));
    put(&mut entries, "col", json_number(cell.col as u64));
    put(&mut entries, "rowSpan", json_number(cell.row_span as u64));
    put(&mut entries, "colSpan", json_number(cell.col_span as u64));
    put(&mut entries, "mergedAnchor", anchor_json(cell.row, cell.col));
    put(&mut entries, "textHash", json_string(cell.text_hash));
    put(&mut entries, "adjacentLabelDigest", json_string(cell.adjacent_label_digest));
    put(&mut entries, "safe", json_bool(cell.blocked_reasons.len() == 0));
    put(&mut entries, "blockedReasons", blocked_json(&cell.blocked_reasons));
    put(&mut entries, "resolvedAddress", address);
    assert(members(entries@) =~= seq![
        ("tableIndex"@, number(model.table_index as nat)),
        ("row"@, number(model.row as nat)),
        ("col"@, number(model.col as nat)),
        ("rowSpan"@, number(model.row_span as nat)),
        ("colSpan"@, number(model.col_span as nat)),
        ("mergedAnchor"@, anchor_tree(model.row, model.col)),
        ("textHash"@, JsonTree::Text(model.text_hash)),
        ("adjacentLabelDigest"@, JsonTree::Text(model.adjacent_label_digest)),
        ("safe"@, JsonTree::Bool(model.blocked_reasons.len() == 0)),
        ("blockedReasons"@, blocked_tree(model.blocked_reasons)),
        ("resolvedAddress"@, cell_address_tree(model)),
    ]);
    json_object(entries)
}

/// Writes fields in JSON.
fn fields_json(entries: Vec<InspectedField>) -> (value: Value)
    ensures
        json_content(value) == fields_tree(views(entries@)),
{
    let ghost all = views(entries@);
    let mut list: Vec<Value> = Vec::new();
    for entry in it: entries
        invariant
            views(it.seq()) == all,
            items(list@) =~= all.take(it.index()).map_values(|entry: FieldModel| field_tree(entry)),
    {
        assert(all[it.index()] == entry@);
        put_item(&mut list, field_json(entry));
    }
    assert(all.take(all.len() as int) =~= all);
    json_list(list)
}

/// Writes body paragraphs in JSON.
fn bodies_json(entries: Vec<BodyCandidate>) -> (value: Value)
    ensures
        json_content(value) == bodies_tree(views(entries@)),
{
    let ghost all = views(entries@);
    let mut list: Vec<Value> = Vec::new();
    for entry in it: entries
        invariant
            views(it.seq()) == all,
            items(list@) =~= all.take(it.index()).map_values(|entry: BodyModel| body_tree(entry)),
    {
        assert(all[it.index()] == entry@);
        put_item(&mut list, body_json(entry));
    }
    assert(all.take(all.len() as int) =~= all);
    json_list(list)
}

/// Writes cells in JSON.
fn cells_json(entries: Vec<InspectedCell>) -> (value: Value)
    ensures
        json_content(value) == cells_tree(views(entries@)),
{
    let ghost all = views(entries@);
    let mut list: Vec<Value> = Vec::new();
    for entry in it: entries
        invariant
            views(it.seq()) == all,
            items(list@) =~= all.take(it.index()).map_values(|entry: CellModel| cell_tree(entry)),
    {
        assert(all[it.index()] == entry@);
        put_item(&mut list, cell_json(entry));
    }
    assert(all.take(all.len() as int) =~= all);
    json_list(list)
}

/// Writes what an inspection reports in JSON.
pub fn inspection_json(inspection: Inspection) -> (value: Value)
    ensures
        json_content(value) == inspection_tree(inspection@),
{
    let ghost model = inspection@;
    let stats: ComplexityStats = inspection.protection.stats;
    let mut entries: Vec<(String, Value)> = Vec::new();
    put(&mut entries, "schemaVersion", json_number(1));
    put(&mut entries, "format", json_str(source_format_name(inspection.format)));
    put(&mut entries, "structureDigest", json_string(inspection.structure_digest));
    put(&mut entries, "pageCount", json_number(inspection.protection.page_count as u64));
    put(&mut entries, "sectionCount", json_usize(inspection.section_count));
    put(&mut entries, "paragraphCount", json_usize(inspection.paragraph_count));
    put(&mut entries, "topLevelTableCount", json_usize(inspection.top_level_table_count));
    put(&mut entries, "nestedTableCount", json_usize(stats.nested_table_count));
    put(&mut entries, "pictureCount", json_usize(stats.picture_count));
    put(&mut entries, "shapeCount", json_usize(stats.shape_count));
    put(&mut entries, "binDataCount", json_usize(inspection.bin_data_count));
    put(&mut entries, "protection", protection_json(&inspection.protection));
    put(&mut entries, "nativeFields", fields_json(inspection.native_fields));
    put(&mut entries, "bodyCandidates", bodies_json(inspection.body_candidates));
    put(&mut entries, "tableCells", cells_json(inspection.table_cells));
    put(&mut entries, "truncated", json_bool(inspection.truncated));
    assert(members(entries@) =~= seq![
        ("schemaVersion"@, number(1)),
        ("format"@, JsonTree::Text(format_text(model.format))),
        ("structureDigest"@, JsonTree::Text(model.structure_digest)),
        ("pageCount"@, number(model.protection.page_count as nat)),
        ("sectionCount"@, number(model.section_count)),
        ("paragraphCount"@, number(model.paragraph_count as nat)),
        ("topLevelTableCount"@, number(model.top_level_table_count)),
        ("nestedTableCount"@, number(model.protection.stats.nested_table_count as nat)),
        ("pictureCount"@, number(model.protection.stats.picture_count as nat)),
        ("shapeCount"@, number(model.protection.stats.shape_count as nat)),
        ("binDataCount"@, number(model.bin_data_count as nat)),
        ("protection"@, protection_tree(model.protection)),
        ("nativeFields"@, fields_tree(model.native_fields)),
        ("bodyCandidates"@, bodies_tree(model.body_candidates)),
        ("tableCells"@, cells_tree(model.table_cells)),
        ("truncated"@, JsonTree::Bool(model.truncated)),
    ]);
    json_object(entries)
}

impl DocumentCore {
    /// Inspects the document and answers in JSON. Texts are reported by their hashes only.
    pub fn inspect_approved_template_json(&self) -> (text: String)
        requires
            self.document.well_formed(),
        ensures
            text@ == json_text(inspection_tree(inspection_of(*self))),
            inspection_of(*self).digests_only(),
    {
        json_to_string(&inspection_json(self.inspect_approved_template()))
    }
}

} // verus!
