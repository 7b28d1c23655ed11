//! How cells are found by their coordinates, and tables by their numbers.

use vstd::prelude::*;

use crate::model::{Cell, Control, Document, Paragraph, Table, TableGrid};
use crate::table::{
    anchored_from, blocked_reasons_of, cell_at, covering_from, holds_mixed, joined, lemma_anchored,
    mixed, numbered_from, place_of, resolved_at, table_at, top_level_count_of, BlockedReason,
    CellFault, CellPlace,
};
use crate::text::{decimal, OBJECT_REPLACEMENT};
use crate::text_laws::{law_trimming_leaves_the_middle, middle};

verus! {

/// Whether a cell lies over the given coordinates: they are no less than its anchor, less than its
/// spans away from it, and short of the last coordinate there is.
pub open spec fn lies_over(cell: Cell, row: int, col: int) -> bool {
    &&& 0 <= row - cell.row < cell.row_span
    &&& 0 <= col - cell.col < cell.col_span
    &&& row < 65_535
    &&& col < 65_535
}

/// Whether the `i`th cell lies over the given coordinates, and none before it does.
pub open spec fn first_over(cells: Seq<Cell>, row: int, col: int, i: int) -> bool {
    &&& 0 <= i < cells.len()
    &&& lies_over(cells[i], row, col)
    &&& forall|k: int| 0 <= k < i ==> !lies_over(#[trigger] cells[k], row, col)
}

/// The search for a covering cell ends at the first cell from `from` on that lies over the
/// coordinates.
proof fn lemma_covering(cells: Seq<Cell>, row: u16, col: u16, from: int)
    requires
        0 <= from,
    ensures
        match covering_from(cells, row, col, from) {
            Some(i) => from <= i < cells.len() && lies_over(cells[i], row as int, col as int) && (
            forall|k: int|
                from <= k < i ==> !lies_over(#[trigger] cells[k], row as int, col as int)),
            None => forall|k: int|
                from <= k < cells.len() ==> !lies_over(
                    #[trigger] cells[k],
                    row as int,
                    col as int,
                ),
        },
    decreases cells.len() - from,
{
    if from < cells.len() {
        lemma_covering(cells, row, col, from + 1);
    }
}

/// The cell that is found to cover a coordinate is the first one that lies over it, and none is
/// found exactly where none does.
pub proof fn law_first_covering_cell_is_found(cells: Seq<Cell>, row: u16, col: u16, i: int)
    ensures
        covering_from(cells, row, col, 0) == Some(i) <==> first_over(
            cells,
            row as int,
            col as int,
            i,
        ),
        covering_from(cells, row, col, 0) is None <==> forall|k: int|
            0 <= k < cells.len() ==> !lies_over(#[trigger] cells[k], row as int, col as int),
{
    lemma_covering(cells, row, col, 0);
    if let Some(f) = covering_from(cells, row, col, 0) {
        if first_over(cells, row as int, col as int, i) {
            if i < f {
                assert(!lies_over(cells[i], row as int, col as int));
            }
            if f < i {
                assert(!lies_over(cells[f], row as int, col as int));
            }
        }
    }
}

/// Whether a grid is of a table of the body that bears the given number.
pub open spec fn bears(grid: TableGrid, table_no: usize) -> bool {
    grid.index == table_no && grid.container_path@.len() == 0
}

/// Whether the `g`th grid is of a table of the body that bears the given number, and none before
/// it is.
pub open spec fn first_bearing(tables: Seq<TableGrid>, table_no: usize, g: int) -> bool {
    &&& 0 <= g < tables.len()
    &&& bears(tables[g], table_no)
    &&& forall|h: int| 0 <= h < g ==> !bears(#[trigger] tables[h], table_no)
}

/// Whether the control that a grid leads to is there, and is `table`.
pub open spec fn leads_to(document: Document, grid: TableGrid, table: Table) -> bool {
    &&& grid.section < document.sections@.len()
    &&& grid.paragraph < document.sections@[grid.section as int].paragraphs@.len()
    &&& grid.control
        < document.sections@[grid.section as int].paragraphs@[grid.paragraph as int].controls@.len()
    &&& document.sections@[grid.section as int].paragraphs@[grid.paragraph as int].controls@[grid.control as int]
        == Control::Table(table)
}

/// Whether the `i`th cell is anchored at the given coordinates, and none before it is.
pub open spec fn first_anchored(cells: Seq<Cell>, row: u16, col: u16, i: int) -> bool {
    &&& 0 <= i < cells.len()
    &&& cells[i].row == row
    &&& cells[i].col == col
    &&& forall|k: int| 0 <= k < i ==> !((#[trigger] cells[k]).row == row && cells[k].col == col)
}

/// The search for a number ends at the first table of the body from `from` on that bears it.
pub proof fn lemma_numbered_from(tables: Seq<TableGrid>, table_no: usize, from: int)
    requires
        0 <= from,
    ensures
        match numbered_from(tables, table_no, from) {
            Some(g) => from <= g < tables.len() && bears(tables[g], table_no) && (forall|h: int|
                from <= h < g ==> !bears(#[trigger] tables[h], table_no)),
            None => forall|h: int|
                from <= h < tables.len() ==> !bears(#[trigger] tables[h], table_no),
        },
    decreases tables.len() - from,
{
    if from < tables.len() {
        lemma_numbered_from(tables, table_no, from + 1);
    }
}

/// The tables of the body are counted.
proof fn lemma_top_level_count(tables: Seq<TableGrid>)
    ensures
        top_level_count_of(tables) == tables.filter(
            |grid: TableGrid| grid.container_path@.len() == 0,
        ).len(),
        top_level_count_of(tables) <= tables.len(),
    decreases tables.len(),
{
    reveal(Seq::filter);
    if tables.len() > 0 {
        lemma_top_level_count(tables.drop_last());
    }
}

/// The tables of the body are those that are in no other: as many are counted as there are grids
/// with an empty way to them.
pub proof fn law_tables_of_the_body_are_counted(tables: Seq<TableGrid>)
    ensures
        top_level_count_of(tables) == tables.filter(
            |grid: TableGrid| grid.container_path@.len() == 0,
        ).len(),
{
    lemma_top_level_count(tables);
}

/// A number that no table of the body bears is answered with how many tables the body has.
pub proof fn law_unknown_number(document: Document, table_no: usize, row: u16, col: u16)
    requires
        document.tables@.len() <= usize::MAX,
    ensures
        (forall|h: int|
            0 <= h < document.tables@.len() ==> !bears(#[trigger] document.tables@[h], table_no))
            <==> place_of(document, table_no, row, col) matches Err(CellFault::UnknownTable { .. }),
        place_of(document, table_no, row, col) matches Err(
            CellFault::UnknownTable { top_level },
        ) ==> top_level == document.tables@.filter(
            |grid: TableGrid| grid.container_path@.len() == 0,
        ).len(),
{
    lemma_numbered_from(document.tables@, table_no, 0);
    lemma_top_level_count(document.tables@);
}

/// The first table of the body that bears a number is the one that is looked into; where its
/// place holds no table, that is the answer.
pub proof fn law_number_leads_to_no_table(
    document: Document,
    table_no: usize,
    row: u16,
    col: u16,
    g: int,
)
    requires
        first_bearing(document.tables@, table_no, g),
    ensures
        (forall|table: Table| !#[trigger] leads_to(document, document.tables@[g], table))
            <==> place_of(document, table_no, row, col) == Err::<CellPlace, CellFault>(CellFault::NotATable),
{
    lemma_first_bearing(document.tables@, table_no, g);
    let grid = document.tables@[g];
    match table_at(document, grid.section as int, grid.paragraph as int, grid.control as int) {
        Some(table) => {
            assert(leads_to(document, grid, table));
        },
        None => {
            assert forall|table: Table| !#[trigger] leads_to(document, grid, table) by {}
        },
    }
}

/// The search for a number ends at the first that bears it.
proof fn lemma_first_bearing(tables: Seq<TableGrid>, table_no: usize, g: int)
    requires
        first_bearing(tables, table_no, g),
    ensures
        numbered_from(tables, table_no, 0) == Some(g),
{
    lemma_numbered_from(tables, table_no, 0);
    assert(bears(tables[g], table_no));
    let found = numbered_from(tables, table_no, 0)->0;
    if found < g {
        assert(!bears(tables[found], table_no));
    }
}

/// Which answer coordinates in a numbered table get: outside the grid, that they are; at an
/// anchor, the first cell anchored there; elsewhere under a cell, the anchor of the first that lies
/// over them; and elsewhere, that there is none.
pub proof fn law_coordinates_find_their_cell(
    document: Document,
    table_no: usize,
    row: u16,
    col: u16,
    g: int,
    table: Table,
    i: int,
)
    requires
        first_bearing(document.tables@, table_no, g),
        leads_to(document, document.tables@[g], table),
    ensures
        ({
            let found = place_of(document, table_no, row, col);
            let inside = row < table.row_count && col < table.col_count;
            let anchored = exists|k: int|
                0 <= k < table.cells@.len() && (#[trigger] table.cells@[k]).row == row
                    && table.cells@[k].col == col;
            let covered = exists|k: int|
                0 <= k < table.cells@.len() && lies_over(
                    #[trigger] table.cells@[k],
                    row as int,
                    col as int,
                );
            &&& !inside <==> found == Err::<CellPlace, CellFault>(
                CellFault::OutOfGrid { row_count: table.row_count, col_count: table.col_count },
            )
            &&& inside && first_anchored(table.cells@, row, col, i) <==> found
                == Ok::<CellPlace, CellFault>(CellPlace { grid: document.tables@[g], cell: i })
            &&& inside && !anchored && first_over(table.cells@, row as int, col as int, i) ==> found
                == Err::<CellPlace, CellFault>(
                CellFault::Covered { row: table.cells@[i].row, col: table.cells@[i].col },
            )
            &&& inside && !anchored && !covered <==> found == Err::<CellPlace, CellFault>(CellFault::Vacant)
        }),
{
    lemma_first_bearing(document.tables@, table_no, g);
    lemma_anchored(table.cells@, row, col, 0);
    law_first_covering_cell_is_found(table.cells@, row, col, i);
    if let Some(found) = anchored_from(table.cells@, row, col, 0) {
        assert(table.cells@[found].row == row);
        if first_anchored(table.cells@, row, col, i) {
            if i < found {
                assert(table.cells@[i].row != row || table.cells@[i].col != col);
            }
            if found < i {
                assert(!(table.cells@[found].row == row && table.cells@[found].col == col));
            }
        }
    }
    if let Some(found) = covering_from(table.cells@, row, col, 0) {
        law_first_covering_cell_is_found(table.cells@, row, col, found);
        assert(lies_over(table.cells@[found], row as int, col as int));
    }
}

/// A resolved cell is described by the place it was found at, by how many characters each of its
/// paragraphs holds, and by what it says.
pub proof fn law_resolved_cell_is_described(
    document: Document,
    table_no: usize,
    row: u16,
    col: u16,
    g: int,
    table: Table,
    i: int,
)
    requires
        first_bearing(document.tables@, table_no, g),
        leads_to(document, document.tables@[g], table),
        row < table.row_count,
        col < table.col_count,
        first_anchored(table.cells@, row, col, i),
        table.cells@.len() <= usize::MAX,
    ensures
        place_of(document, table_no, row, col) matches Ok(place) && ({
            let resolved = resolved_at(document, place);
            &&& resolved.section_index == document.tables@[g].section
            &&& resolved.paragraph_index == document.tables@[g].paragraph
            &&& resolved.control_index == document.tables@[g].control
            &&& resolved.cell_index == i
            &&& resolved.paragraph_lengths.len() == table.cells@[i].paragraphs@.len()
            &&& forall|k: int|
                0 <= k < table.cells@[i].paragraphs@.len() ==> #[trigger] resolved.paragraph_lengths[k]
                    == table.cells@[i].paragraphs@[k].text@.len()
            &&& exists|from: int, to: int| #[trigger]
                middle(joined(table.cells@[i].paragraphs@), from, to) && resolved.old_text
                    == joined(table.cells@[i].paragraphs@).subrange(from, to)
        }),
{
    law_coordinates_find_their_cell(document, table_no, row, col, g, table, i);
    law_trimming_leaves_the_middle(joined(table.cells@[i].paragraphs@));
}

/// A cell can be edited where it has one paragraph, no control and no stand-in for one; what is
/// missing of that is listed, in that order.
pub proof fn law_blocked_cells(cell: Cell)
    ensures
        ({
            let many = cell.paragraphs@.len() != 1;
            let mixed = exists|i: int|
                0 <= i < cell.paragraphs@.len() && holds_object(#[trigger] cell.paragraphs@[i]);
            &&& many && mixed ==> blocked_reasons_of(cell) == seq![
                BlockedReason::MultipleParagraphs,
                BlockedReason::MixedControlContent,
            ]
            &&& many && !mixed ==> blocked_reasons_of(cell) == seq![
                BlockedReason::MultipleParagraphs,
            ]
            &&& !many && mixed ==> blocked_reasons_of(cell) == seq![
                BlockedReason::MixedControlContent,
            ]
            &&& !many && !mixed ==> blocked_reasons_of(cell).len() == 0
        }),
{
    assert forall|i: int| 0 <= i < cell.paragraphs@.len() implies (mixed(
        #[trigger] cell.paragraphs@[i],
    ) <==> holds_object(cell.paragraphs@[i])) by {
        lemma_object(cell.paragraphs@[i].text@);
    }
    if holds_mixed(cell) {
        let i = choose|i: int|
            0 <= i < cell.paragraphs@.len() && mixed(#[trigger] cell.paragraphs@[i]);
        assert(holds_object(cell.paragraphs@[i]));
    }
}

/// Whether a paragraph of a cell holds a control, or U+FFFC, the stand-in for one.
pub open spec fn holds_object(paragraph: Paragraph) -> bool {
    paragraph.controls@.len() > 0 || has_stand_in(paragraph.text@)
}

/// Whether a text holds U+FFFC.
pub open spec fn has_stand_in(text: Seq<char>) -> bool {
    exists|k: int| 0 <= k < text.len() && #[trigger] text[k] == '\u{fffc}'
}

/// A text that holds the stand-in holds U+FFFC.
pub proof fn lemma_object(text: Seq<char>)
    ensures
        text.contains(OBJECT_REPLACEMENT) <==> has_stand_in(text),
{
}

/// A document is well formed where every table of the body stands in a paragraph that exists.
pub proof fn law_well_formed_documents(document: Document)
    ensures
        document.well_formed() <==> forall|g: int|
            0 <= g < document.tables@.len() && (#[trigger] document.tables@[g]).container_path@.len()
                == 0 ==> document.tables@[g].section < document.sections@.len()
                && document.tables@[g].paragraph
                < document.sections@[document.tables@[g].section as int].paragraphs@.len(),
{
    assert forall|g: int| 0 <= g < document.tables@.len() implies ((
    #[trigger] document.tables@[g]).top_level() <==> document.tables@[g].container_path@.len()
        == 0) by {}
}

/// The cell at a place of the document is the one that the place holds, and none is there exactly
/// where it holds no table or the table no such cell.
pub proof fn law_cells_by_their_places(document: Document, grid: TableGrid, table: Table, i: int)
    requires
        leads_to(document, grid, table),
    ensures
        0 <= i < table.cells@.len() ==> cell_at(
            document,
            grid.section as int,
            grid.paragraph as int,
            grid.control as int,
            i,
        ) == Some(table.cells@[i]),
        !(0 <= i < table.cells@.len()) ==> cell_at(
            document,
            grid.section as int,
            grid.paragraph as int,
            grid.control as int,
            i,
        ) is None,
{
}

/// Where a place holds no table, no cell is there.
pub proof fn law_no_cell_without_its_table(document: Document, grid: TableGrid, i: int)
    requires
        forall|table: Table| !#[trigger] leads_to(document, grid, table),
    ensures
        cell_at(
            document,
            grid.section as int,
            grid.paragraph as int,
            grid.control as int,
            i,
        ) is None,
{
    if let Some(table) = table_at(
        document,
        grid.section as int,
        grid.paragraph as int,
        grid.control as int,
    ) {
        assert(leads_to(document, grid, table));
    }
}

/// What a caller is told of a fault: the coordinates that were asked for and the table, the size of
/// its grid, the anchor that covers them, or how many tables the body has, in decimal digits. The
/// coordinates are to blame but where there is no such table.
pub proof fn law_faults_are_told(
    table_no: usize,
    row: u16,
    col: u16,
    top_level: usize,
    rows: u16,
    cols: u16,
)
    ensures
        ({
            let unknown = CellFault::UnknownTable { top_level };
            let outside = CellFault::OutOfGrid { row_count: rows, col_count: cols };
            let covered = CellFault::Covered { row: rows, col: cols };
            let at = "오류: ("@ + decimal(row as nat) + ","@ + decimal(col as nat);
            &&& !unknown.is_usage()
            &&& !CellFault::NotATable.is_usage()
            &&& outside.is_usage()
            &&& covered.is_usage()
            &&& CellFault::Vacant.is_usage()
            &&& unknown.message(table_no, row, col) == "오류: 본문 최상위 표 "@ + decimal(
                table_no as nat,
            ) + " 번이 없습니다 (최상위 표 "@ + decimal(top_level as nat)
                + "개; 중첩 표는 v1 범위 밖)."@
            &&& CellFault::NotATable.message(table_no, row, col)
                == "오류: 표 컨트롤 좌표 해석 실패 (내부 불일치)."@
            &&& outside.message(table_no, row, col) == "오류: 좌표가 격자를 벗어났습니다 — 표 "@ + decimal(
                table_no as nat,
            ) + " 는 "@ + decimal(rows as nat) + "x"@ + decimal(cols as nat) + " 입니다."@
            &&& covered.message(table_no, row, col) == at + ") 는 병합으로 덮인 칸입니다 — 앵커 ("@ + decimal(
                rows as nat,
            ) + ","@ + decimal(cols as nat) + ") 를 지정하세요."@
            &&& CellFault::Vacant.message(table_no, row, col) == at + ") 위치에 셀이 없습니다."@
        }),
{
}

} // verus!
