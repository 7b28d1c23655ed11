//! Finding cells of numbered tables, and reading what they hold.

use vstd::prelude::*;
use vstd::string::{StrSliceExecFns, StringExecFns};

use crate::model::{Cell, Control, Document, Paragraph, Table, TableGrid};
use crate::text::{append_decimal, contains_char, decimal, trim_text, trimmed, OBJECT_REPLACEMENT};

verus! {

/// A cell of a table of the body, by its place in the document.
#[derive(Debug, Clone)]
pub struct ResolvedTableCell {
    pub section_index: usize,
    pub paragraph_index: usize,
    pub control_index: usize,
    pub cell_index: usize,
    /// How many characters each paragraph of the cell holds.
    pub paragraph_lengths: Vec<usize>,
    pub old_text: String,
}

/// Why no cell was found: the caller's coordinates are wrong, or the document has no such table.
#[derive(Debug, Clone)]
pub enum CellResolveError {
    Usage(String),
    Runtime(String),
}

/// A resolved cell as a mathematical value.
pub struct ResolvedCellModel {
    pub section_index: usize,
    pub paragraph_index: usize,
    pub control_index: usize,
    pub cell_index: usize,
    pub paragraph_lengths: Seq<nat>,
    pub old_text: Seq<char>,
}

impl View for ResolvedTableCell {
    type V = ResolvedCellModel;

    open spec fn view(&self) -> ResolvedCellModel {
        ResolvedCellModel {
            section_index: self.section_index,
            paragraph_index: self.paragraph_index,
            control_index: self.control_index,
            cell_index: self.cell_index,
            paragraph_lengths: self.paragraph_lengths@.map_values(|length: usize| length as nat),
            old_text: self.old_text@,
        }
    }
}

/// Why no cell was found, in detail.
#[derive(Debug, Clone, Copy, PartialEq, Eq, Structural)]
pub enum CellFault {
    /// The body has no table of that number; it has `top_level` tables in all.
    UnknownTable { top_level: usize },
    /// The numbering names a control that is no table.
    NotATable,
    /// The coordinates lie outside the grid of the table.
    OutOfGrid { row_count: u16, col_count: u16 },
    /// The coordinates are covered by the merged cell that is anchored at `(row, col)`.
    Covered { row: u16, col: u16 },
    /// No cell stands there.
    Vacant,
}

impl CellFault {
    /// Whether the caller's coordinates are to blame.
    pub open spec fn is_usage(self) -> bool {
        match self {
            CellFault::UnknownTable { .. } => false,
            CellFault::NotATable => false,
            CellFault::OutOfGrid { .. } => true,
            CellFault::Covered { .. } => true,
            CellFault::Vacant => true,
        }
    }

    /// What the caller is told of the fault.
    pub open spec fn message(self, table_no: usize, row: u16, col: u16) -> Seq<char> {
        match self {
            CellFault::UnknownTable { top_level } => "오류: 본문 최상위 표 "@ + decimal(
                table_no as nat,
            ) + " 번이 없습니다 (최상위 표 "@ + decimal(top_level as nat)
                + "개; 중첩 표는 v1 범위 밖)."@,
            CellFault::NotATable => "오류: 표 컨트롤 좌표 해석 실패 (내부 불일치)."@,
            CellFault::OutOfGrid { row_count, col_count } => "오류: 좌표가 격자를 벗어났습니다 — 표 "@
                + decimal(table_no as nat) + " 는 "@ + decimal(row_count as nat) + "x"@ + decimal(
                col_count as nat,
            ) + " 입니다."@,
            CellFault::Covered { row: anchor_row, col: anchor_col } => "오류: ("@ + decimal(
                row as nat,
            ) + ","@ + decimal(col as nat) + ") 는 병합으로 덮인 칸입니다 — 앵커 ("@ + decimal(
                anchor_row as nat,
            ) + ","@ + decimal(anchor_col as nat) + ") 를 지정하세요."@,
            CellFault::Vacant => "오류: ("@ + decimal(row as nat) + ","@ + decimal(col as nat)
                + ") 위치에 셀이 없습니다."@,
        }
    }

    /// The error that reports the fault.
    fn into_error(self, table_no: usize, row: u16, col: u16) -> (error: CellResolveError)
        ensures
            match error {
                CellResolveError::Usage(message) => self.is_usage() && message@ == self.message(
                    table_no,
                    row,
                    col,
                ),
                CellResolveError::Runtime(message) => !self.is_usage() && message@ == self.message(
                    table_no,
                    row,
                    col,
                ),
            },
    {
        match self {
            CellFault::UnknownTable { top_level } => {
                let mut message: String = "오류: 본문 최상위 표 ".to_owned();
                append_decimal(&mut message, table_no);
                message.append(" 번이 없습니다 (최상위 표 ");
                append_decimal(&mut message, top_level);
                message.append("개; 중첩 표는 v1 범위 밖).");
                CellResolveError::Runtime(message)
            },
            CellFault::NotATable => CellResolveError::Runtime(
                "오류: 표 컨트롤 좌표 해석 실패 (내부 불일치).".to_owned(),
            ),
            CellFault::OutOfGrid { row_count, col_count } => {
                let mut message: String = "오류: 좌표가 격자를 벗어났습니다 — 표 ".to_owned();
                append_decimal(&mut message, table_no);
                message.append(" 는 ");
                append_decimal(&mut message, row_count as usize);
                message.append("x");
                append_decimal(&mut message, col_count as usize);
                message.append(" 입니다.");
                CellResolveError::Usage(message)
            },
            CellFault::Covered { row: anchor_row, col: anchor_col } => {
                let mut message: String = "오류: (".to_owned();
                append_decimal(&mut message, row as usize);
                message.append(",");
                append_decimal(&mut message, col as usize);
                message.append(") 는 병합으로 덮인 칸입니다 — 앵커 (");
                append_decimal(&mut message, anchor_row as usize);
                message.append(",");
                append_decimal(&mut message, anchor_col as usize);
                message.append(") 를 지정하세요.");
                CellResolveError::Usage(message)
            },
            CellFault::Vacant => {
                let mut message: String = "오류: (".to_owned();
                append_decimal(&mut message, row as usize);
                message.append(",");
                append_decimal(&mut message, col as usize);
                message.append(") 위치에 셀이 없습니다.");
                CellResolveError::Usage(message)
            },
        }
    }
}

/// The texts of `paragraphs`, one to a line.
pub open spec fn joined(paragraphs: Seq<Paragraph>) -> Seq<char>
    decreases paragraphs.len(),
{
    if paragraphs.len() == 0 {
        seq![]
    } else if paragraphs.len() == 1 {
        paragraphs[0].text@
    } else {
        joined(paragraphs.drop_last()) + "\n"@ + paragraphs.last().text@
    }
}

/// What a cell says: its paragraphs one to a line, without white space at either end.
pub open spec fn cell_text_of(cell: Cell) -> Seq<char> {
    trimmed(joined(cell.paragraphs@))
}

/// Reads what a cell says.
pub fn cell_text(cell: &Cell) -> (text: String)
    ensures
        text@ == cell_text_of(*cell),
{
    let paragraphs: &Vec<Paragraph> = &cell.paragraphs;
    let mut all: String = String::new();
    let mut i: usize = 0;
    while i < paragraphs.len()
        invariant
            i <= paragraphs@.len(),
            all@ == joined(paragraphs@.take(i as int)),
        decreases paragraphs@.len() - i,
    {
        if i > 0 {
            all.append("\n");
        }
        all.append(paragraphs[i].text.as_str());
        proof {
            let next = paragraphs@.take(i + 1);
            assert(next.drop_last() =~= paragraphs@.take(i as int));
            assert(all@ =~= joined(next));
        }
        i += 1;
    }
    assert(paragraphs@.take(paragraphs@.len() as int) =~= paragraphs@);
    trim_text(all.as_str())
}

/// Whether a cell reaches over the given coordinates. A span that passes the largest
/// coordinate ends there.
pub open spec fn covers(cell: Cell, row: u16, col: u16) -> bool {
    &&& cell.row <= row < cell.row.saturating_add(cell.row_span)
    &&& cell.col <= col < cell.col.saturating_add(cell.col_span)
}

/// The first cell from the `from`th on that reaches over the given coordinates.
pub open spec fn covering_from(cells: Seq<Cell>, row: u16, col: u16, from: int) -> Option<int>
    decreases cells.len() - from,
{
    if from < 0 || from >= cells.len() {
        None
    } else if covers(cells[from], row, col) {
        Some(from)
    } else {
        covering_from(cells, row, col, from + 1)
    }
}

/// The first cell from the `from`th on that is anchored at the given coordinates.
pub open spec fn anchored_from(cells: Seq<Cell>, row: u16, col: u16, from: int) -> Option<int>
    decreases cells.len() - from,
{
    if from < 0 || from >= cells.len() {
        None
    } else if cells[from].row == row && cells[from].col == col {
        Some(from)
    } else {
        anchored_from(cells, row, col, from + 1)
    }
}

/// The cell that is found is anchored there, and no earlier one is.
pub proof fn lemma_anchored(cells: Seq<Cell>, row: u16, col: u16, from: int)
    requires
        0 <= from,
    ensures
        match anchored_from(cells, row, col, from) {
            Some(i) => {
                &&& from <= i < cells.len()
                &&& cells[i].row == row
                &&& cells[i].col == col
                &&& forall|j: int|
                    from <= j < i ==> (#[trigger] cells[j]).row != row || cells[j].col != col
            },
            None => forall|j: int|
                from <= j < cells.len() ==> (#[trigger] cells[j]).row != row || cells[j].col != col,
        },
    decreases cells.len() - from,
{
    if from < cells.len() && !(cells[from].row == row && cells[from].col == col) {
        lemma_anchored(cells, row, col, from + 1);
    }
}

/// Finds the first cell of `table` that reaches over `(row, col)`.
pub fn covering_cell(table: &Table, row: u16, col: u16) -> (found: Option<&Cell>)
    ensures
        match covering_from(table.cells@, row, col, 0) {
            Some(i) => found == Some(&table.cells@[i]) && 0 <= i < table.cells@.len(),
            None => found is None,
        },
{
    let mut i: usize = 0;
    while i < table.cells.len()
        invariant
            i <= table.cells@.len(),
            covering_from(table.cells@, row, col, 0) == covering_from(
                table.cells@,
                row,
                col,
                i as int,
            ),
        decreases table.cells@.len() - i,
    {
        let cell: &Cell = &table.cells[i];
        if cell.row <= row && row < cell.row.saturating_add(cell.row_span) && cell.col <= col && col
            < cell.col.saturating_add(cell.col_span) {
            return Some(cell);
        }
        i += 1;
    }
    None
}

/// The table that a control is.
pub open spec fn table_of(control: Control) -> Option<Table> {
    match control {
        Control::Table(table) => Some(table),
        _ => None,
    }
}

/// The table at the given place of the document.
pub open spec fn table_at(
    document: Document,
    section: int,
    paragraph: int,
    control: int,
) -> Option<Table> {
    if 0 <= section < document.sections@.len() && 0 <= paragraph
        < document.sections@[section].paragraphs@.len() && 0 <= control
        < document.sections@[section].paragraphs@[paragraph].controls@.len() {
        table_of(document.sections@[section].paragraphs@[paragraph].controls@[control])
    } else {
        None
    }
}

/// Finds the table at the given place of the document.
pub fn find_table(
    document: &Document,
    section_index: usize,
    paragraph_index: usize,
    control_index: usize,
) -> (found: Option<&Table>)
    ensures
        match table_at(
            *document,
            section_index as int,
            paragraph_index as int,
            control_index as int,
        ) {
            Some(table) => found == Some(&table),
            None => found is None,
        },
{
    if section_index >= document.sections.len() {
        return None;
    }
    let paragraphs: &Vec<Paragraph> = &document.sections[section_index].paragraphs;
    if paragraph_index >= paragraphs.len() {
        return None;
    }
    let controls: &Vec<Control> = &paragraphs[paragraph_index].controls;
    if control_index >= controls.len() {
        return None;
    }
    match &controls[control_index] {
        Control::Table(table) => Some(table),
        _ => None,
    }
}

/// The cell at the given place of the document.
pub open spec fn cell_at(
    document: Document,
    section: int,
    paragraph: int,
    control: int,
    cell: int,
) -> Option<Cell> {
    match table_at(document, section, paragraph, control) {
        Some(table) => if 0 <= cell < table.cells@.len() {
            Some(table.cells@[cell])
        } else {
            None
        },
        None => None,
    }
}

/// Finds the cell at the given place of the document.
pub fn table_cell(
    document: &Document,
    section_index: usize,
    paragraph_index: usize,
    control_index: usize,
    cell_index: usize,
) -> (found: Option<&Cell>)
    ensures
        match cell_at(
            *document,
            section_index as int,
            paragraph_index as int,
            control_index as int,
            cell_index as int,
        ) {
            Some(cell) => found == Some(&cell),
            None => found is None,
        },
{
    match find_table(document, section_index, paragraph_index, control_index) {
        Some(table) => if cell_index < table.cells.len() {
            Some(&table.cells[cell_index])
        } else {
            None
        },
        None => None,
    }
}

/// The first table of the body from the `from`th grid on that bears the given number.
pub open spec fn numbered_from(tables: Seq<TableGrid>, table_no: usize, from: int) -> Option<int>
    decreases tables.len() - from,
{
    if from < 0 || from >= tables.len() {
        None
    } else if tables[from].index == table_no && tables[from].top_level() {
        Some(from)
    } else {
        numbered_from(tables, table_no, from + 1)
    }
}

/// How many of the grids stand in the body itself.
pub open spec fn top_level_count_of(tables: Seq<TableGrid>) -> nat
    decreases tables.len(),
{
    if tables.len() == 0 {
        0
    } else {
        top_level_count_of(tables.drop_last()) + if tables.last().top_level() {
            1nat
        } else {
            0nat
        }
    }
}

/// Counts the tables of the body.
pub fn top_level_count(tables: &Vec<TableGrid>) -> (count: usize)
    ensures
        count as nat == top_level_count_of(tables@),
{
    let mut count: usize = 0;
    let mut i: usize = 0;
    while i < tables.len()
        invariant
            i <= tables@.len(),
            count <= i,
            count as nat == top_level_count_of(tables@.take(i as int)),
        decreases tables@.len() - i,
    {
        assert(tables@.take(i + 1).drop_last() =~= tables@.take(i as int));
        if tables[i].container_path.len() == 0 {
            count += 1;
        }
        i += 1;
    }
    assert(tables@.take(tables@.len() as int) =~= tables@);
    count
}

/// A place of a cell: its table's grid, and its position among the cells of that table.
pub struct CellPlace {
    pub grid: TableGrid,
    pub cell: int,
}

/// Where the cell anchored at `(row, col)` of the table numbered `table_no` stands, or why there
/// is none.
pub open spec fn place_of(document: Document, table_no: usize, row: u16, col: u16) -> Result<
    CellPlace,
    CellFault,
> {
    match numbered_from(document.tables@, table_no, 0) {
        None => Err(
            CellFault::UnknownTable { top_level: top_level_count_of(document.tables@) as usize },
        ),
        Some(g) => {
            let grid = document.tables@[g];
            match table_at(
                document,
                grid.section as int,
                grid.paragraph as int,
                grid.control as int,
            ) {
                None => Err(CellFault::NotATable),
                Some(table) => if row >= table.row_count || col >= table.col_count {
                    Err(
                        CellFault::OutOfGrid {
                            row_count: table.row_count,
                            col_count: table.col_count,
                        },
                    )
                } else {
                    match anchored_from(table.cells@, row, col, 0) {
                        Some(i) => Ok(CellPlace { grid, cell: i }),
                        None => match covering_from(table.cells@, row, col, 0) {
                            Some(i) => Err(
                                CellFault::Covered {
                                    row: table.cells@[i].row,
                                    col: table.cells@[i].col,
                                },
                            ),
                            None => Err(CellFault::Vacant),
                        },
                    }
                },
            }
        },
    }
}

/// The cell at `place`.
pub open spec fn cell_of(document: Document, place: CellPlace) -> Cell {
    cell_at(
        document,
        place.grid.section as int,
        place.grid.paragraph as int,
        place.grid.control as int,
        place.cell,
    )->0
}

/// The resolved cell at `place`: its address, and what it holds.
pub open spec fn resolved_at(document: Document, place: CellPlace) -> ResolvedCellModel {
    let cell = cell_of(document, place);
    ResolvedCellModel {
        section_index: place.grid.section,
        paragraph_index: place.grid.paragraph,
        control_index: place.grid.control,
        cell_index: place.cell as usize,
        paragraph_lengths: cell.paragraphs@.map_values(|p: Paragraph| p.text@.len()),
        old_text: cell_text_of(cell),
    }
}

/// Counts the characters of each paragraph.
fn lengths_of(paragraphs: &Vec<Paragraph>) -> (lengths: Vec<usize>)
    ensures
        lengths@.map_values(|length: usize| length as nat) == paragraphs@.map_values(
            |p: Paragraph| p.text@.len(),
        ),
{
    let mut lengths: Vec<usize> = Vec::new();
    let mut i: usize = 0;
    while i < paragraphs.len()
        invariant
            i <= paragraphs@.len(),
            lengths@.len() == i,
            forall|j: int|
                0 <= j < i ==> (#[trigger] lengths@[j]) as nat == paragraphs@[j].text@.len(),
        decreases paragraphs@.len() - i,
    {
        lengths.push(paragraphs[i].text.as_str().unicode_len());
        i += 1;
    }
    assert(lengths@.map_values(|length: usize| length as nat) =~= paragraphs@.map_values(
        |p: Paragraph| p.text@.len(),
    ));
    lengths
}

/// Finds the cell anchored at `(row, col)` of the table of the body numbered `table_no`, or tells
/// why there is none.
pub fn locate_cell(document: &Document, table_no: usize, row: u16, col: u16) -> (found: Result<
    ResolvedTableCell,
    CellFault,
>)
    ensures
        match place_of(*document, table_no, row, col) {
            Ok(place) => found matches Ok(resolved) && resolved@ == resolved_at(*document, place),
            Err(fault) => found == Err::<ResolvedTableCell, CellFault>(fault),
        },
{
    let tables: &Vec<TableGrid> = &document.tables;
    let mut g: usize = 0;
    while g < tables.len() && !(tables[g].index == table_no && tables[g].container_path.len() == 0)
        invariant
            g <= tables@.len(),
            tables@ == document.tables@,
            numbered_from(tables@, table_no, 0) == numbered_from(tables@, table_no, g as int),
        decreases tables@.len() - g,
    {
        g += 1;
    }
    if g == tables.len() {
        return Err(CellFault::UnknownTable { top_level: top_level_count(tables) });
    }
    let grid: &TableGrid = &tables[g];
    let table: &Table = match find_table(document, grid.section, grid.paragraph, grid.control) {
        Some(table) => table,
        None => {
            return Err(CellFault::NotATable);
        },
    };
    if row >= table.row_count || col >= table.col_count {
        return Err(
            CellFault::OutOfGrid { row_count: table.row_count, col_count: table.col_count },
        );
    }
    let mut i: usize = 0;
    while i < table.cells.len() && !(table.cells[i].row == row && table.cells[i].col == col)
        invariant
            i <= table.cells@.len(),
            anchored_from(table.cells@, row, col, 0) == anchored_from(
                table.cells@,
                row,
                col,
                i as int,
            ),
        decreases table.cells@.len() - i,
    {
        i += 1;
    }
    if i == table.cells.len() {
        return match covering_cell(table, row, col) {
            Some(anchor) => Err(CellFault::Covered { row: anchor.row, col: anchor.col }),
            None => Err(CellFault::Vacant),
        };
    }
    let cell: &Cell = &table.cells[i];
    Ok(
        ResolvedTableCell {
            section_index: grid.section,
            paragraph_index: grid.paragraph,
            control_index: grid.control,
            cell_index: i,
            paragraph_lengths: lengths_of(&cell.paragraphs),
            old_text: cell_text(cell),
        },
    )
}

/// Resolves the number of a table of the body and an anchor in its grid to the place of a cell.
///
/// Table numbers are those of the document's table numbering. A coordinate that a merged cell
/// covers is no anchor; the error names the one that is.
pub fn resolve_table_cell_details(
    document: &Document,
    table_no: usize,
    row: u16,
    col: u16,
) -> (resolved: Result<ResolvedTableCell, CellResolveError>)
    requires
        document.well_formed(),
    ensures
        match place_of(*document, table_no, row, col) {
            Ok(place) => resolved matches Ok(cell) && cell@ == resolved_at(*document, place),
            Err(fault) => match resolved {
                Ok(_) => false,
                Err(CellResolveError::Usage(message)) => fault.is_usage() && message@
                    == fault.message(table_no, row, col),
                Err(CellResolveError::Runtime(message)) => !fault.is_usage() && message@
                    == fault.message(table_no, row, col),
            },
        },
{
    match locate_cell(document, table_no, row, col) {
        Ok(cell) => Ok(cell),
        Err(fault) => Err(fault.into_error(table_no, row, col)),
    }
}

/// As `resolve_table_cell_details`, with the parts of the resolved cell as a tuple.
pub fn resolve_table_cell(document: &Document, table_no: usize, row: u16, col: u16) -> (resolved:
    Result<(usize, usize, usize, usize, Vec<usize>, String), CellResolveError>)
    requires
        document.well_formed(),
    ensures
        match place_of(*document, table_no, row, col) {
            Ok(place) => resolved matches Ok(parts) && (ResolvedTableCell {
                section_index: parts.0,
                paragraph_index: parts.1,
                control_index: parts.2,
                cell_index: parts.3,
                paragraph_lengths: parts.4,
                old_text: parts.5,
            })@ == resolved_at(*document, place),
            Err(fault) => match resolved {
                Ok(_) => false,
                Err(CellResolveError::Usage(message)) => fault.is_usage() && message@
                    == fault.message(table_no, row, col),
                Err(CellResolveError::Runtime(message)) => !fault.is_usage() && message@
                    == fault.message(table_no, row, col),
            },
        },
{
    match resolve_table_cell_details(document, table_no, row, col) {
        Ok(cell) => Ok(
            (
                cell.section_index,
                cell.paragraph_index,
                cell.control_index,
                cell.cell_index,
                cell.paragraph_lengths,
                cell.old_text,
            ),
        ),
        Err(error) => Err(error),
    }
}

/// Whether a control only sets the layout of the section or its columns.
pub open spec fn layout_control(control: Control) -> bool {
    control is SectionDef || control is ColumnDef
}

/// Whether a body paragraph holds nothing but text: no control but those for layout, and no
/// stand-in for one.
pub open spec fn plain_body(paragraph: Paragraph) -> bool {
    &&& forall|i: int|
        0 <= i < paragraph.controls@.len() ==> layout_control(#[trigger] paragraph.controls@[i])
    &&& !paragraph.text@.contains(OBJECT_REPLACEMENT)
}

/// Whether the text of a body paragraph can be replaced as a whole.
pub fn body_paragraph_is_safe(paragraph: &Paragraph) -> (safe: bool)
    ensures
        safe == plain_body(*paragraph),
{
    let mut i: usize = 0;
    while i < paragraph.controls.len()
        invariant
            i <= paragraph.controls@.len(),
            forall|j: int| 0 <= j < i ==> layout_control(#[trigger] paragraph.controls@[j]),
        decreases paragraph.controls@.len() - i,
    {
        match &paragraph.controls[i] {
            Control::SectionDef => {},
            Control::ColumnDef => {},
            _ => {
                assert(!layout_control(paragraph.controls@[i as int]));
                return false;
            },
        }
        i += 1;
    }
    !contains_char(paragraph.text.as_str(), OBJECT_REPLACEMENT)
}

/// Why the text of a cell cannot be replaced.
#[derive(Debug, Clone, Copy, PartialEq, Eq, Structural)]
pub enum BlockedReason {
    MultipleParagraphs,
    MixedControlContent,
}

impl BlockedReason {
    /// The name that is reported.
    pub open spec fn text(self) -> Seq<char> {
        match self {
            BlockedReason::MultipleParagraphs => "multiple-paragraphs"@,
            BlockedReason::MixedControlContent => "mixed-control-content"@,
        }
    }

    /// The name that is reported.
    pub fn name(self) -> (name: &'static str)
        ensures
            name@ == self.text(),
    {
        match self {
            BlockedReason::MultipleParagraphs => "multiple-paragraphs",
            BlockedReason::MixedControlContent => "mixed-control-content",
        }
    }
}

/// Whether a paragraph of a cell holds a control or a stand-in for one.
pub open spec fn mixed(paragraph: Paragraph) -> bool {
    paragraph.controls@.len() != 0 || paragraph.text@.contains(OBJECT_REPLACEMENT)
}

/// Whether some paragraph of the cell holds a control or a stand-in for one.
pub open spec fn holds_mixed(cell: Cell) -> bool {
    exists|i: int| 0 <= i < cell.paragraphs@.len() && mixed(#[trigger] cell.paragraphs@[i])
}

/// What keeps the text of a cell from being replaced.
pub open spec fn blocked_reasons_of(cell: Cell) -> Seq<BlockedReason> {
    (if cell.paragraphs@.len() != 1 {
        seq![BlockedReason::MultipleParagraphs]
    } else {
        seq![]
    }) + (if holds_mixed(cell) {
        seq![BlockedReason::MixedControlContent]
    } else {
        seq![]
    })
}

/// Lists what keeps the text of a cell from being replaced; nothing where it can be.
pub fn cell_blocked_reasons(cell: &Cell) -> (reasons: Vec<BlockedReason>)
    ensures
        reasons@ == blocked_reasons_of(*cell),
{
    let mut reasons: Vec<BlockedReason> = Vec::new();
    if cell.paragraphs.len() != 1 {
        reasons.push(BlockedReason::MultipleParagraphs);
    }
    let mut blocked: bool = false;
    let mut i: usize = 0;
    while i < cell.paragraphs.len()
        invariant
            i <= cell.paragraphs@.len(),
            blocked == exists|j: int| 0 <= j < i && mixed(#[trigger] cell.paragraphs@[j]),
        decreases cell.paragraphs@.len() - i,
    {
        let paragraph: &Paragraph = &cell.paragraphs[i];
        if paragraph.controls.len() != 0 || contains_char(
            paragraph.text.as_str(),
            OBJECT_REPLACEMENT,
        ) {
            assert(mixed(cell.paragraphs@[i as int]));
            blocked = true;
        }
        i += 1;
    }
    if blocked {
        reasons.push(BlockedReason::MixedControlContent);
    }
    assert(reasons@ =~= blocked_reasons_of(*cell));
    reasons
}

/// The base size of the first character shape of the cell's first paragraph.
pub open spec fn base_size_of(document: Document, cell: Cell) -> Option<i32> {
    if cell.paragraphs@.len() > 0 && cell.paragraphs@[0].char_shape_ids@.len() > 0
        && cell.paragraphs@[0].char_shape_ids@[0] < document.char_shape_sizes@.len() {
        Some(document.char_shape_sizes@[cell.paragraphs@[0].char_shape_ids@[0] as int])
    } else {
        None
    }
}

/// The character size in which the text of the cell at the given place is measured.
pub open spec fn measured_size(
    document: Document,
    section: int,
    paragraph: int,
    control: int,
    cell: int,
) -> i32 {
    match cell_at(document, section, paragraph, control, cell) {
        Some(found) => match base_size_of(document, found) {
            Some(base) => base,
            None => 1000,
        },
        None => 1000,
    }
}

/// The character size in which the text of a cell is measured: the base size of the shape that
/// the cell starts with, or 1000 HWPUNIT where it names none.
pub fn cell_base_size(
    document: &Document,
    section_index: usize,
    paragraph_index: usize,
    control_index: usize,
    cell_index: usize,
) -> (size: i32)
    ensures
        size == match cell_at(
            *document,
            section_index as int,
            paragraph_index as int,
            control_index as int,
            cell_index as int,
        ) {
            Some(cell) => match base_size_of(*document, cell) {
                Some(base) => base,
                None => 1000,
            },
            None => 1000,
        },
        size == measured_size(
            *document,
            section_index as int,
            paragraph_index as int,
            control_index as int,
            cell_index as int,
        ),
{
    match table_cell(document, section_index, paragraph_index, control_index, cell_index) {
        Some(cell) => {
            if cell.paragraphs.len() > 0 && cell.paragraphs[0].char_shape_ids.len() > 0 {
                let shape: usize = cell.paragraphs[0].char_shape_ids[0] as usize;
                if shape < document.char_shape_sizes.len() {
                    return document.char_shape_sizes[shape];
                }
            }
            1000
        },
        None => 1000,
    }
}

/// The width that a cell leaves for text.
pub open spec fn width_left(cell: Cell, horizontal_padding: i16) -> i32 {
    if cell.width - horizontal_padding > i32::MAX {
        i32::MAX
    } else {
        (cell.width - horizontal_padding) as i32
    }
}

/// The width that a cell leaves for text, in HWPUNIT: its width less its left and right padding
/// taken together, held to what an `i32` can express.
pub fn inner_width(cell: &Cell, horizontal_padding: i16) -> (width: i32)
    ensures
        width == ({
            let free = cell.width - horizontal_padding;
            if free > i32::MAX {
                i32::MAX as int
            } else {
                free
            }
        }),
        width == width_left(*cell, horizontal_padding),
{
    let free: i64 = cell.width as i64 - horizontal_padding as i64;
    if free > i32::MAX as i64 {
        i32::MAX
    } else {
        free as i32
    }
}

} // verus!
