//! What an inspection lists, and that it leaves out nothing.

use vstd::prelude::*;

use crate::digest::{digest_text, structure_bytes};
use crate::finding_laws::{has_stand_in, law_tables_of_the_body_are_counted, leads_to, lemma_object};
use crate::inspect::{
    body_candidates_of, body_model, cell_model, grid_cells, inspection_of, is_candidate,
    native_fields_of, paragraph_count_of, section_candidates, table_cells_of, BodyModel, CellModel,
    FieldModel,
};
use crate::label::{adjacent_bytes, body_adjacent_bytes, text_hash_of};
use crate::model::{
    Control, Document, DocumentCore, FieldEntry, Paragraph, Section, Table, TableGrid,
};
use crate::protection::{document_counts, reasons_of, ProtectionStatus};
use crate::protection_laws::law_protected_by_its_counts;
use crate::table::{blocked_reasons_of, cell_text_of, layout_control, table_at};
use crate::verdict_laws::too_complex;

verus! {

/// Whether the text of a body paragraph can be replaced: there is some, it holds no U+FFFC, and no
/// control stands in the paragraph but definitions of sections and of columns.
pub open spec fn replaceable(paragraph: Paragraph) -> bool {
    &&& paragraph.text@.len() > 0
    &&& !has_stand_in(paragraph.text@)
    &&& forall|i: int|
        0 <= i < paragraph.controls@.len() ==> (#[trigger] paragraph.controls@[i])
            == Control::SectionDef || paragraph.controls@[i] == Control::ColumnDef
}

/// The paragraphs that are candidates are those whose text can be replaced.
proof fn lemma_candidate(paragraph: Paragraph)
    ensures
        is_candidate(paragraph) <==> replaceable(paragraph),
{
    lemma_object(paragraph.text@);
    assert forall|i: int| 0 <= i < paragraph.controls@.len() implies (layout_control(
        #[trigger] paragraph.controls@[i],
    ) <==> (paragraph.controls@[i] == Control::SectionDef || paragraph.controls@[i]
        == Control::ColumnDef)) by {}
}

/// Whether `(s, p)` names a body paragraph whose text can be replaced.
pub open spec fn body_place(sections: Seq<Section>, s: int, p: int) -> bool {
    &&& 0 <= s < sections.len()
    &&& 0 <= p < sections[s].paragraphs@.len()
    &&& replaceable(sections[s].paragraphs@[p])
}

/// Whether `(s, p)` comes before `(t, q)` in the document.
pub open spec fn earlier(s: int, p: int, t: int, q: int) -> bool {
    s < t || s == t && p < q
}

/// Whether an entry tells of the body paragraph `(s, p)`: where it is, and the hashes of its text
/// and of the paragraphs beside it.
pub open spec fn tells_of(sections: Seq<Section>, entry: BodyModel, s: int, p: int) -> bool {
    &&& entry.section_index == s
    &&& entry.paragraph_index == p
    &&& entry.text_hash == text_hash_of(sections[s].paragraphs@[p].text@)
    &&& entry.adjacent_label_digest == digest_text(body_adjacent_bytes(sections[s].paragraphs@, p))
}

/// The candidates of a section are its paragraphs whose texts can be replaced, in order.
proof fn lemma_section_listing(paragraphs: Seq<Paragraph>, s: int, n: nat)
    requires
        n <= paragraphs.len(),
    ensures
        ({
            let list = section_candidates(paragraphs, s, n);
            &&& forall|k: int|
                0 <= k < list.len() ==> 0 <= (#[trigger] list[k]).paragraph_index < n
                    && replaceable(paragraphs[list[k].paragraph_index]) && list[k] == body_model(
                    paragraphs,
                    s,
                    list[k].paragraph_index,
                )
            &&& forall|k: int, l: int|
                0 <= k < l < list.len() ==> (#[trigger] list[k]).paragraph_index < (
                #[trigger] list[l]).paragraph_index
            &&& forall|p: int|
                0 <= p < n && replaceable(#[trigger] paragraphs[p]) ==> exists|k: int|
                    0 <= k < list.len() && (#[trigger] list[k]).paragraph_index == p
        }),
    decreases n,
{
    if n > 0 {
        let before = section_candidates(paragraphs, s, (n - 1) as nat);
        let list = section_candidates(paragraphs, s, n);
        lemma_section_listing(paragraphs, s, (n - 1) as nat);
        lemma_candidate(paragraphs[n - 1]);
        assert forall|p: int| 0 <= p < n && replaceable(#[trigger] paragraphs[p]) implies exists|
            k: int,
        |
            0 <= k < list.len() && (#[trigger] list[k]).paragraph_index == p by {
            if p < n - 1 {
                let k = choose|k: int|
                    0 <= k < before.len() && (#[trigger] before[k]).paragraph_index == p;
                assert(list[k].paragraph_index == p);
            } else {
                assert(list[before.len() as int].paragraph_index == p);
            }
        }
    }
}

/// The candidates of a run of sections are its paragraphs whose texts can be replaced, in order.
proof fn lemma_body_listing(sections: Seq<Section>, n: nat)
    requires
        n <= sections.len(),
    ensures
        ({
            let list = body_candidates_of(sections, n);
            &&& forall|k: int|
                0 <= k < list.len() ==> (#[trigger] list[k]).section_index < n && body_place(
                    sections,
                    list[k].section_index,
                    list[k].paragraph_index,
                ) && tells_of(sections, list[k], list[k].section_index, list[k].paragraph_index)
            &&& forall|k: int, l: int|
                0 <= k < l < list.len() ==> earlier(
                    (#[trigger] list[k]).section_index,
                    list[k].paragraph_index,
                    (#[trigger] list[l]).section_index,
                    list[l].paragraph_index,
                )
            &&& forall|s: int, p: int|
                s < n && #[trigger] body_place(sections, s, p) ==> exists|k: int|
                    0 <= k < list.len() && tells_of(sections, #[trigger] list[k], s, p)
        }),
    decreases n,
{
    if n > 0 {
        let s0 = n - 1;
        let paragraphs = sections[s0].paragraphs@;
        let before = body_candidates_of(sections, (n - 1) as nat);
        let here = section_candidates(paragraphs, s0, paragraphs.len());
        let list = body_candidates_of(sections, n);
        assert(list == before + here);
        lemma_body_listing(sections, (n - 1) as nat);
        lemma_section_listing(paragraphs, s0, paragraphs.len());
        assert forall|k: int| 0 <= k < list.len() implies (#[trigger] list[k]).section_index < n
            && body_place(sections, list[k].section_index, list[k].paragraph_index) && tells_of(
            sections,
            list[k],
            list[k].section_index,
            list[k].paragraph_index,
        ) by {
            if k < before.len() {
                assert(list[k] == before[k]);
            } else {
                assert(list[k] == here[k - before.len()]);
            }
        }
        assert forall|k: int, l: int| 0 <= k < l < list.len() implies earlier(
            (#[trigger] list[k]).section_index,
            list[k].paragraph_index,
            (#[trigger] list[l]).section_index,
            list[l].paragraph_index,
        ) by {
            if l < before.len() {
                assert(list[k] == before[k]);
                assert(list[l] == before[l]);
            } else {
                assert(list[l] == here[l - before.len()]);
                if k < before.len() {
                    assert(list[k] == before[k]);
                } else {
                    assert(list[k] == here[k - before.len()]);
                }
            }
        }
        assert forall|s: int, p: int|
            s < n && #[trigger] body_place(sections, s, p) implies exists|k: int|
            0 <= k < list.len() && tells_of(sections, #[trigger] list[k], s, p) by {
            if s < n - 1 {
                let k = choose|k: int|
                    0 <= k < before.len() && tells_of(sections, #[trigger] before[k], s, p);
                assert(list[k] == before[k]);
            } else {
                assert(replaceable(paragraphs[p]));
                let k = choose|k: int|
                    0 <= k < here.len() && (#[trigger] here[k]).paragraph_index == p;
                assert(list[before.len() + k] == here[k]);
                assert(tells_of(sections, list[before.len() + k], s, p));
            }
        }
    }
}

/// Every entry of the listed body paragraphs tells of one whose text can be replaced, and they
/// come in the order of the document, none of them twice. No more than 2000 are listed.
pub proof fn law_listed_paragraphs_can_be_replaced(core: DocumentCore)
    ensures
        ({
            let sections = core.document.sections@;
            let list = inspection_of(core).body_candidates;
            &&& list.len() <= 2_000
            &&& forall|k: int|
                0 <= k < list.len() ==> body_place(
                    sections,
                    (#[trigger] list[k]).section_index,
                    list[k].paragraph_index,
                ) && tells_of(sections, list[k], list[k].section_index, list[k].paragraph_index)
            &&& forall|k: int, l: int|
                0 <= k < l < list.len() ==> earlier(
                    (#[trigger] list[k]).section_index,
                    list[k].paragraph_index,
                    (#[trigger] list[l]).section_index,
                    list[l].paragraph_index,
                )
        }),
{
    lemma_body_listing(core.document.sections@, core.document.sections@.len());
}

/// Every body paragraph whose text can be replaced is listed, whatever its style and shape, unless
/// the list is full with 2000 earlier ones. So a list that is not cut holds every one of them.
pub proof fn law_every_replaceable_paragraph_is_listed(core: DocumentCore, s: int, p: int)
    requires
        body_place(core.document.sections@, s, p),
    ensures
        ({
            let list = inspection_of(core).body_candidates;
            let listed = exists|k: int|
                0 <= k < list.len() && tells_of(
                    core.document.sections@,
                    #[trigger] list[k],
                    s,
                    p,
                );
            &&& listed || list.len() == 2_000 && (forall|k: int|
                0 <= k < list.len() ==> earlier(
                    (#[trigger] list[k]).section_index,
                    list[k].paragraph_index,
                    s,
                    p,
                ))
            &&& !inspection_of(core).truncated ==> listed
        }),
{
    let sections = core.document.sections@;
    let all = body_candidates_of(sections, sections.len());
    let list = inspection_of(core).body_candidates;
    lemma_body_listing(sections, sections.len());
    let at = choose|k: int| 0 <= k < all.len() && tells_of(sections, #[trigger] all[k], s, p);
    if at < list.len() {
        assert(list[at] == all[at]);
    } else {
        assert forall|k: int| 0 <= k < list.len() implies earlier(
            (#[trigger] list[k]).section_index,
            list[k].paragraph_index,
            s,
            p,
        ) by {
            assert(list[k] == all[k]);
        }
    }
}

/// Whether `(g, i)` names a cell of a numbered table of the body: the `i`th of the `g`th one.
pub open spec fn cell_place(document: Document, g: int, table: Table, i: int) -> bool {
    &&& 0 <= g < document.tables@.len()
    &&& document.tables@[g].container_path@.len() == 0
    &&& leads_to(document, document.tables@[g], table)
    &&& 0 <= i < table.cells@.len()
}

/// Whether an entry tells of the `i`th cell of `table`, which stands where `grid` leads to: its
/// table's number and place, its anchor and spans, the hashes of its text and of the cells around
/// it, and what keeps it from being edited.
pub open spec fn tells_of_cell(entry: CellModel, grid: TableGrid, table: Table, i: int) -> bool {
    let cell = table.cells@[i];
    &&& entry.table_index == grid.index
    &&& entry.section_index == grid.section
    &&& entry.paragraph_index == grid.paragraph
    &&& entry.control_index == grid.control
    &&& entry.cell_index == i
    &&& entry.row == cell.row
    &&& entry.col == cell.col
    &&& entry.row_span == cell.row_span
    &&& entry.col_span == cell.col_span
    &&& entry.text_hash == text_hash_of(cell_text_of(cell))
    &&& entry.adjacent_label_digest == digest_text(adjacent_bytes(table, cell.row, cell.col))
    &&& entry.blocked_reasons == blocked_reasons_of(cell)
}

/// Whether an entry tells of the cell that `way` names.
pub open spec fn tells_of_way(document: Document, entry: CellModel, way: (int, int)) -> bool {
    exists|table: Table| #[trigger]
        cell_place(document, way.0, table, way.1) && tells_of_cell(
            entry,
            document.tables@[way.0],
            table,
            way.1,
        )
}

/// Whether `ways` tells, entry by entry, which cell of which numbered table each entry of `list` is
/// of, table after table and cell after cell.
pub open spec fn cells_in_order(
    document: Document,
    list: Seq<CellModel>,
    ways: Seq<(int, int)>,
) -> bool {
    &&& ways.len() == list.len()
    &&& forall|k: int|
        0 <= k < list.len() ==> tells_of_way(document, list[k], #[trigger] ways[k])
    &&& forall|k: int, l: int|
        0 <= k < l < list.len() ==> earlier(
            (#[trigger] ways[k]).0,
            ways[k].1,
            (#[trigger] ways[l]).0,
            ways[l].1,
        )
}

/// A grid leads to a table exactly where there is one.
proof fn lemma_leads_to(document: Document, grid: TableGrid, table: Table)
    ensures
        leads_to(document, grid, table) <==> table_at(
            document,
            grid.section as int,
            grid.paragraph as int,
            grid.control as int,
        ) == Some(table),
{
}

/// The cells of the first numbered tables are listed table after table and cell after cell, and
/// none is left out.
proof fn lemma_cell_listing(document: Document, n: nat) -> (ways: Seq<(int, int)>)
    requires
        n <= document.tables@.len(),
    ensures
        cells_in_order(document, table_cells_of(document, n), ways),
        forall|k: int| 0 <= k < ways.len() ==> (#[trigger] ways[k]).0 < n,
        forall|g: int, table: Table, i: int| #[trigger]
            cell_place(document, g, table, i) && g < n ==> ways.contains((g, i)),
    decreases n,
{
    if n == 0 {
        Seq::empty()
    } else {
        let g0 = n - 1;
        let grid = document.tables@[g0];
        let before = table_cells_of(document, (n - 1) as nat);
        let here = grid_cells(document, grid);
        let list = table_cells_of(document, n);
        assert(list == before + here);
        let ways_before = lemma_cell_listing(document, (n - 1) as nat);
        let ways = ways_before + Seq::new(here.len(), |i: int| (g0, i));
        assert forall|k: int| 0 <= k < list.len() implies tells_of_way(
            document,
            list[k],
            #[trigger] ways[k],
        ) by {
            if k < before.len() {
                assert(list[k] == before[k]);
                assert(ways[k] == ways_before[k]);
                assert(tells_of_way(document, before[k], ways_before[k]));
            } else {
                let i = k - before.len();
                assert(list[k] == here[i]);
                assert(ways[k] == (g0, i));
                let table = table_at(
                    document,
                    grid.section as int,
                    grid.paragraph as int,
                    grid.control as int,
                )->0;
                lemma_leads_to(document, grid, table);
                assert(0 <= i < here.len());
                assert(grid.top_level());
                assert(cell_place(document, g0, table, i));
                assert(here[i] == cell_model(grid, table, i));
                assert(tells_of_cell(list[k], grid, table, i));
                assert(ways[k].0 == g0 && ways[k].1 == i);
                assert(cell_place(document, ways[k].0, table, ways[k].1));
            }
        }
        assert forall|k: int, l: int| 0 <= k < l < list.len() implies earlier(
            (#[trigger] ways[k]).0,
            ways[k].1,
            (#[trigger] ways[l]).0,
            ways[l].1,
        ) by {
            if l < before.len() {
                assert(ways[k] == ways_before[k]);
                assert(ways[l] == ways_before[l]);
            } else if k < before.len() {
                assert(ways[k] == ways_before[k]);
            }
        }
        assert forall|g: int, table: Table, i: int| #[trigger]
            cell_place(document, g, table, i) && g < n implies ways.contains((g, i)) by {
            if g < n - 1 {
                let k = choose|k: int| 0 <= k < ways_before.len() && ways_before[k] == (g, i);
                assert(ways[k] == (g, i));
            } else {
                lemma_leads_to(document, grid, table);
                assert(ways[before.len() + i] == (g, i));
            }
        }
        ways
    }
}

/// Every entry of the listed cells tells of a cell of a numbered table of the body, and they come
/// table after table and cell after cell. Every such cell is listed, unless the list is full with
/// 2000 earlier ones; so a list that is not cut holds every one of them.
pub proof fn law_every_cell_is_listed(core: DocumentCore)
    ensures
        ({
            let list = inspection_of(core).table_cells;
            &&& list.len() <= 2_000
            &&& exists|ways: Seq<(int, int)>| #[trigger]
                cells_in_order(core.document, list, ways) && forall|g: int, table: Table, i: int|
                    #[trigger]
                    cell_place(core.document, g, table, i) ==> {
                        ||| ways.contains((g, i))
                        ||| list.len() == 2_000 && inspection_of(core).truncated && forall|k: int|
                            0 <= k < list.len() ==> earlier((#[trigger] ways[k]).0, ways[k].1, g, i)
                    }
        }),
{
    let document = core.document;
    let list = inspection_of(core).table_cells;
    let all = table_cells_of(document, document.tables@.len());
    let all_ways = lemma_cell_listing(document, document.tables@.len());
    let ways = all_ways.take(list.len() as int);
    assert forall|k: int| 0 <= k < list.len() implies tells_of_way(
        document,
        list[k],
        #[trigger] ways[k],
    ) by {
        assert(list[k] == all[k]);
        assert(ways[k] == all_ways[k]);
    }
    assert forall|k: int, l: int| 0 <= k < l < list.len() implies earlier(
        (#[trigger] ways[k]).0,
        ways[k].1,
        (#[trigger] ways[l]).0,
        ways[l].1,
    ) by {
        assert(ways[k] == all_ways[k]);
        assert(ways[l] == all_ways[l]);
    }
    assert(cells_in_order(document, list, ways));
    assert forall|g: int, table: Table, i: int| #[trigger]
        cell_place(document, g, table, i) implies ways.contains((g, i)) || (list.len() == 2_000
        && inspection_of(core).truncated && forall|k: int|
        0 <= k < list.len() ==> earlier((#[trigger] ways[k]).0, ways[k].1, g, i)) by {
        let at = choose|k: int| 0 <= k < all_ways.len() && all_ways[k] == (g, i);
        if at < list.len() {
            assert(ways[at] == (g, i));
        } else {
            assert forall|k: int| 0 <= k < list.len() implies earlier(
                (#[trigger] ways[k]).0,
                ways[k].1,
                g,
                i,
            ) by {
                assert(ways[k] == all_ways[k]);
                assert(earlier(all_ways[k].0, all_ways[k].1, all_ways[at].0, all_ways[at].1));
            }
        }
    }
}

/// Whether `ways` tells, entry by entry, which field of the document each entry of `list` is of.
pub open spec fn fields_in_order(
    fields: Seq<FieldEntry>,
    list: Seq<FieldModel>,
    ways: Seq<int>,
) -> bool {
    &&& ways.len() == list.len()
    &&& forall|k: int|
        0 <= k < list.len() ==> {
            &&& 0 <= #[trigger] ways[k] < fields.len()
            &&& fields[ways[k]].field.ctrl_id != 0
            &&& list[k].field_id == fields[ways[k]].field.field_id
            &&& list[k].editable == fields[ways[k]].editable_in_form
            &&& list[k].value_hash == text_hash_of(fields[ways[k]].value@)
        }
    &&& forall|k: int, l: int| 0 <= k < l < list.len() ==> #[trigger] ways[k] < #[trigger] ways[l]
    &&& forall|f: int|
        0 <= f < fields.len() && (#[trigger] fields[f]).field.ctrl_id != 0 ==> ways.contains(f)
}

/// The fields among the first are listed in order, and none that is a control is left out.
proof fn lemma_field_listing(fields: Seq<FieldEntry>, n: nat) -> (ways: Seq<int>)
    requires
        n <= fields.len(),
    ensures
        fields_in_order(fields.take(n as int), native_fields_of(fields, n), ways),
    decreases n,
{
    let some = fields.take(n as int);
    let list = native_fields_of(fields, n);
    if n == 0 {
        Seq::empty()
    } else {
        let fewer = fields.take(n - 1);
        let before = native_fields_of(fields, (n - 1) as nat);
        let ways_before = lemma_field_listing(fields, (n - 1) as nat);
        let last = n - 1;
        let ways = if fields[last].field.ctrl_id != 0 {
            ways_before.push(last)
        } else {
            ways_before
        };
        assert forall|k: int| 0 <= k < list.len() implies {
            &&& 0 <= #[trigger] ways[k] < some.len()
            &&& some[ways[k]].field.ctrl_id != 0
            &&& list[k].field_id == some[ways[k]].field.field_id
            &&& list[k].editable == some[ways[k]].editable_in_form
            &&& list[k].value_hash == text_hash_of(some[ways[k]].value@)
        } by {
            if k < before.len() {
                assert(ways[k] == ways_before[k]);
                assert(some[ways[k]] == fewer[ways[k]]);
            }
        }
        assert forall|k: int, l: int| 0 <= k < l < list.len() implies #[trigger] ways[k]
            < #[trigger] ways[l] by {
            assert(ways[k] == ways_before[k]);
            if l < before.len() {
                assert(ways[l] == ways_before[l]);
            }
        }
        assert forall|f: int|
            0 <= f < some.len() && (#[trigger] some[f]).field.ctrl_id
                != 0 implies ways.contains(f) by {
            if f < n - 1 {
                assert(fewer[f] == some[f]);
                let k = choose|k: int| 0 <= k < ways_before.len() && ways_before[k] == f;
                assert(ways[k] == f);
            } else {
                assert(ways[ways.len() - 1] == f);
            }
        }
        ways
    }
}

/// The listed fields are those that are controls of the document, every one of them, in the order
/// of the document.
pub proof fn law_every_native_field_is_listed(core: DocumentCore)
    ensures
        exists|ways: Seq<int>| #[trigger]
            fields_in_order(core.fields@, inspection_of(core).native_fields, ways),
{
    let ways = lemma_field_listing(core.fields@, core.fields@.len());
    assert(core.fields@.take(core.fields@.len() as int) =~= core.fields@);
    assert(fields_in_order(core.fields@, inspection_of(core).native_fields, ways));
}

/// How many paragraphs the sections have is the sum over them.
proof fn lemma_paragraph_count(sections: Seq<Section>, n: nat)
    requires
        n <= sections.len(),
    ensures
        paragraph_count_of(sections, n) == sections.take(n as int).fold_left(
            0nat,
            |sum: nat, section: Section| sum + section.paragraphs@.len(),
        ),
    decreases n,
{
    if n > 0 {
        lemma_paragraph_count(sections, (n - 1) as nat);
        assert(sections.take(n as int).drop_last() =~= sections.take(n - 1));
    }
}

/// The other numbers of an inspection: its sections, the sum of their paragraphs, held at the
/// largest `usize`, the tables that are in no other, and what the document says of itself.
pub proof fn law_inspected_numbers(core: DocumentCore)
    ensures
        ({
            let found = inspection_of(core);
            let sections = core.document.sections@;
            let paragraphs = sections.fold_left(
                0nat,
                |sum: nat, section: Section| sum + section.paragraphs@.len(),
            );
            &&& found.section_count == sections.len()
            &&& paragraphs <= usize::MAX ==> found.paragraph_count == paragraphs
            &&& paragraphs > usize::MAX ==> found.paragraph_count == usize::MAX
            &&& found.top_level_table_count == core.document.tables@.filter(
                |grid: TableGrid| grid.container_path@.len() == 0,
            ).len()
            &&& found.bin_data_count == core.document.bin_data_count
            &&& found.format == core.source_format
            &&& found.structure_digest == digest_text(structure_bytes(core.document))
            &&& found.truncated <==> found.body_candidates.len() == 2_000
                || found.table_cells.len() == 2_000
        }),
{
    let sections = core.document.sections@;
    lemma_paragraph_count(sections, sections.len());
    assert(sections.take(sections.len() as int) =~= sections);
    law_tables_of_the_body_are_counted(core.document.tables@);
}

/// The protection that an inspection reports is that of the document: protected exactly where it is
/// too complex by its pages and by what is counted in it.
pub proof fn law_inspected_protection(core: DocumentCore)
    ensures
        ({
            let found = inspection_of(core).protection;
            let stats = document_counts(core.document).reported();
            &&& found.page_count == core.page_count
            &&& found.stats == stats
            &&& found.status == ProtectionStatus::Protected <==> too_complex(core.page_count, stats)
            &&& found.status == ProtectionStatus::Standard <==> !too_complex(
                core.page_count,
                stats,
            )
            &&& found.reasons == reasons_of(core.page_count, stats)
        }),
{
    law_protected_by_its_counts(
        core.page_count,
        document_counts(core.document).reported(),
    );
}

} // verus!
