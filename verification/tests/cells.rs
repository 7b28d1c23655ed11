use approved_template::model::{
    Cell, CommonObjAttr, Control, Document, Padding, PageDef, Paragraph, Section, SectionDef, Table,
    TableGrid, TablePageBreak, VerticalAlign,
};
use approved_template::table::{
    body_paragraph_is_safe, cell_base_size, cell_blocked_reasons, cell_text, covering_cell,
    inner_width, locate_cell, resolve_table_cell, resolve_table_cell_details, table_cell,
    top_level_count, BlockedReason, CellFault, CellResolveError,
};

fn padding() -> Padding {
    Padding { left: 0, right: 0, top: 0, bottom: 0 }
}

fn paragraph(text: &str) -> Paragraph {
    Paragraph {
        text: text.to_string(),
        para_shape_id: 0,
        style_id: 0,
        char_shape_ids: Vec::new(),
        controls: Vec::new(),
    }
}

fn paragraph_with(text: &str, controls: Vec<Control>) -> Paragraph {
    let mut made = paragraph(text);
    made.controls = controls;
    made
}

fn cell(row: u16, col: u16, row_span: u16, col_span: u16, text: &str) -> Cell {
    Cell {
        row,
        col,
        row_span,
        col_span,
        width: 10000,
        padding: padding(),
        border_fill_id: 0,
        text_direction: 0,
        vertical_align: VerticalAlign::Top,
        apply_inner_margin: false,
        is_header: false,
        cell_protect: false,
        paragraphs: vec![paragraph(text)],
    }
}

fn table(row_count: u16, col_count: u16, cells: Vec<Cell>) -> Table {
    Table {
        attr: 0,
        row_count,
        col_count,
        cell_spacing: 0,
        padding: padding(),
        border_fill_id: 0,
        page_break: TablePageBreak::NoBreak,
        repeat_header: false,
        common: CommonObjAttr { horizontal_offset: 0, width: 0, treat_as_char: false },
        zones: Vec::new(),
        cells,
    }
}

fn section(paragraphs: Vec<Paragraph>) -> Section {
    Section {
        section_def: SectionDef {
            flags: 0,
            column_spacing: 0,
            line_grid: 0,
            char_grid: 0,
            default_tab_spacing: 0,
            text_direction: 0,
            page_def: PageDef {
                width: 0,
                height: 0,
                margin_left: 0,
                margin_right: 0,
                margin_top: 0,
                margin_bottom: 0,
                margin_header: 0,
                margin_footer: 0,
                margin_gutter: 0,
                attr: 0,
                landscape: false,
            },
        },
        paragraphs,
    }
}

fn grid(index: usize, section: usize, paragraph: usize, control: usize) -> TableGrid {
    TableGrid { index, container_path: Vec::new(), section, paragraph, control }
}

fn document(sections: Vec<Section>, tables: Vec<TableGrid>) -> Document {
    Document { sections, bin_data_count: 0, char_shape_sizes: Vec::new(), tables }
}

/// A body with two tables: one of three rows with merged cells, and one whose text is untrimmed.
fn sample() -> Document {
    let first = table(
        3,
        3,
        vec![
            cell(0, 0, 1, 2, "이름"),
            cell(0, 2, 1, 1, "홍길동"),
            cell(1, 0, 2, 2, "비고"),
            cell(2, 2, 1, 1, "끝"),
        ],
    );
    let mut second = table(1, 1, vec![cell(0, 0, 1, 1, "  값 \n")]);
    second.cells[0].paragraphs.push(paragraph("둘째\u{3000}"));
    let mut nested = grid(7, 0, 1, 0);
    nested.container_path = vec![0];
    document(
        vec![section(vec![
            paragraph("머리"),
            paragraph_with("", vec![Control::Bookmark, Control::Table(first)]),
            paragraph_with("", vec![Control::Table(second)]),
        ])],
        vec![nested, grid(0, 0, 1, 1), grid(1, 0, 2, 0), grid(2, 0, 1, 0), grid(3, 0, 1, 9)],
    )
}

fn usage(document: &Document, table_no: usize, row: u16, col: u16) -> String {
    match resolve_table_cell_details(document, table_no, row, col) {
        Err(CellResolveError::Usage(message)) => message,
        other => panic!("{:?}", other),
    }
}

fn runtime(document: &Document, table_no: usize, row: u16, col: u16) -> String {
    match resolve_table_cell_details(document, table_no, row, col) {
        Err(CellResolveError::Runtime(message)) => message,
        other => panic!("{:?}", other),
    }
}

#[test]
fn an_anchor_resolves_to_its_cell() {
    let document = sample();
    assert!(document.is_well_formed());
    let resolved = resolve_table_cell_details(&document, 0, 1, 0).unwrap();
    assert_eq!(resolved.section_index, 0);
    assert_eq!(resolved.paragraph_index, 1);
    assert_eq!(resolved.control_index, 1);
    assert_eq!(resolved.cell_index, 2);
    assert_eq!(resolved.paragraph_lengths, vec![2]);
    assert_eq!(resolved.old_text, "비고");
}

#[test]
fn lengths_are_of_paragraphs_and_text_is_trimmed() {
    let document = sample();
    let (section, paragraph, control, cell, lengths, text) =
        resolve_table_cell(&document, 1, 0, 0).unwrap();
    assert_eq!((section, paragraph, control, cell), (0, 2, 0, 0));
    assert_eq!(lengths, vec![5, 3]);
    assert_eq!(text, "값 \n\n둘째");
}

#[test]
fn an_unknown_table_is_reported_with_the_number_of_tables() {
    let document = sample();
    assert_eq!(
        runtime(&document, 42, 0, 0),
        "오류: 본문 최상위 표 42 번이 없습니다 (최상위 표 4개; 중첩 표는 v1 범위 밖)."
    );
    assert_eq!(top_level_count(&document.tables), 4);
}

#[test]
fn a_nested_table_has_no_number_of_its_own() {
    let document = sample();
    assert!(matches!(
        locate_cell(&document, 7, 0, 0),
        Err(CellFault::UnknownTable { top_level: 4 })
    ));
}

#[test]
fn a_number_that_leads_to_no_table_is_an_inconsistency() {
    let document = sample();
    let message = "오류: 표 컨트롤 좌표 해석 실패 (내부 불일치).";
    assert_eq!(runtime(&document, 2, 0, 0), message);
    assert_eq!(runtime(&document, 3, 0, 0), message);
    assert!(matches!(resolve_table_cell(&document, 3, 0, 0), Err(CellResolveError::Runtime(_))));
}

#[test]
fn coordinates_outside_the_grid_are_refused() {
    let document = sample();
    let message = "오류: 좌표가 격자를 벗어났습니다 — 표 0 는 3x3 입니다.";
    assert_eq!(usage(&document, 0, 3, 0), message);
    assert_eq!(usage(&document, 0, 0, 3), message);
}

#[test]
fn a_covered_coordinate_names_an_anchor_that_resolves() {
    let document = sample();
    assert_eq!(
        usage(&document, 0, 2, 1),
        "오류: (2,1) 는 병합으로 덮인 칸입니다 — 앵커 (1,0) 를 지정하세요."
    );
    assert!(resolve_table_cell_details(&document, 0, 1, 0).is_ok());
    match locate_cell(&document, 0, 0, 1) {
        Err(CellFault::Covered { row, col }) => {
            assert_eq!((row, col), (0, 0));
            assert!(locate_cell(&document, 0, row, col).is_ok());
        }
        other => panic!("{:?}", other),
    }
}

#[test]
fn a_vacant_coordinate_is_refused() {
    let document = sample();
    assert_eq!(usage(&document, 0, 1, 2), "오류: (1,2) 위치에 셀이 없습니다.");
}

#[test]
fn a_resolved_cell_is_anchored_where_it_was_asked_for() {
    let document = sample();
    for row in 0..3 {
        for col in 0..3 {
            if let Ok(found) = locate_cell(&document, 0, row, col) {
                let there = table_cell(
                    &document,
                    found.section_index,
                    found.paragraph_index,
                    found.control_index,
                    found.cell_index,
                )
                .unwrap();
                assert_eq!((there.row, there.col), (row, col));
            }
        }
    }
}

#[test]
fn a_span_ends_at_the_largest_coordinate() {
    let tall = table(u16::MAX, 1, vec![cell(10, 0, u16::MAX, 1, "a")]);
    assert!(covering_cell(&tall, 9, 0).is_none());
    assert!(covering_cell(&tall, 10, 0).is_some());
    assert!(covering_cell(&tall, u16::MAX - 1, 0).is_some());
    assert!(covering_cell(&tall, u16::MAX, 0).is_none());
    assert!(covering_cell(&tall, 10, 1).is_none());
}

#[test]
fn the_first_covering_cell_is_taken() {
    let overlapping = table(2, 2, vec![cell(0, 0, 2, 2, "a"), cell(1, 1, 1, 1, "b")]);
    assert_eq!(covering_cell(&overlapping, 1, 1).unwrap().paragraphs[0].text, "a");
}

#[test]
fn cells_are_found_by_their_place() {
    let document = sample();
    assert_eq!(table_cell(&document, 0, 1, 1, 3).unwrap().paragraphs[0].text, "끝");
    assert!(table_cell(&document, 1, 0, 0, 0).is_none());
    assert!(table_cell(&document, 0, 3, 0, 0).is_none());
    assert!(table_cell(&document, 0, 1, 2, 0).is_none());
    assert!(table_cell(&document, 0, 1, 0, 0).is_none());
    assert!(table_cell(&document, 0, 1, 1, 4).is_none());
}

#[test]
fn the_text_of_a_cell_is_one_line_per_paragraph() {
    let mut made = cell(0, 0, 1, 1, "");
    made.paragraphs.clear();
    assert_eq!(cell_text(&made), "");
    made.paragraphs = vec![paragraph(" a"), paragraph(""), paragraph("b ")];
    assert_eq!(cell_text(&made), "a\n\nb");
}

#[test]
fn a_body_paragraph_is_safe_without_inline_content() {
    assert!(body_paragraph_is_safe(&paragraph("")));
    assert!(body_paragraph_is_safe(&paragraph_with(
        "본문",
        vec![Control::SectionDef, Control::ColumnDef],
    )));
    assert!(!body_paragraph_is_safe(&paragraph_with(
        "본문",
        vec![Control::SectionDef, Control::Bookmark],
    )));
    assert!(!body_paragraph_is_safe(&paragraph("본\u{fffc}문")));
}

#[test]
fn a_cell_is_blocked_by_paragraphs_and_by_inline_content() {
    let plain = cell(0, 0, 1, 1, "a");
    assert_eq!(cell_blocked_reasons(&plain), Vec::<BlockedReason>::new());
    let mut two = cell(0, 0, 1, 1, "a");
    two.paragraphs.push(paragraph("b"));
    assert_eq!(cell_blocked_reasons(&two), vec![BlockedReason::MultipleParagraphs]);
    let mut none = cell(0, 0, 1, 1, "a");
    none.paragraphs.clear();
    assert_eq!(cell_blocked_reasons(&none), vec![BlockedReason::MultipleParagraphs]);
    let stand_in = cell(0, 0, 1, 1, "a\u{fffc}");
    assert_eq!(cell_blocked_reasons(&stand_in), vec![BlockedReason::MixedControlContent]);
    let mut both = cell(0, 0, 1, 1, "a");
    both.paragraphs.push(paragraph_with("b", vec![Control::SectionDef]));
    assert_eq!(
        cell_blocked_reasons(&both),
        vec![BlockedReason::MultipleParagraphs, BlockedReason::MixedControlContent]
    );
    assert_eq!(BlockedReason::MultipleParagraphs.name(), "multiple-paragraphs");
    assert_eq!(BlockedReason::MixedControlContent.name(), "mixed-control-content");
}

#[test]
fn the_base_size_is_that_of_the_first_shape() {
    let mut document = sample();
    assert_eq!(cell_base_size(&document, 0, 1, 1, 0), 1000);
    document.char_shape_sizes = vec![900, 1200];
    if let Control::Table(first) = &mut document.sections[0].paragraphs[1].controls[1] {
        first.cells[0].paragraphs[0].char_shape_ids = vec![1, 0];
        first.cells[1].paragraphs[0].char_shape_ids = vec![2];
        first.cells[2].paragraphs.clear();
    }
    assert_eq!(cell_base_size(&document, 0, 1, 1, 0), 1200);
    assert_eq!(cell_base_size(&document, 0, 1, 1, 1), 1000);
    assert_eq!(cell_base_size(&document, 0, 1, 1, 2), 1000);
    assert_eq!(cell_base_size(&document, 9, 0, 0, 0), 1000);
}

#[test]
fn the_inner_width_leaves_out_the_padding() {
    let mut made = cell(0, 0, 1, 1, "a");
    assert_eq!(inner_width(&made, 283), 9717);
    made.width = 100;
    assert_eq!(inner_width(&made, 283), -183);
    assert_eq!(inner_width(&made, -58), 158);
    made.width = 0;
    assert_eq!(inner_width(&made, i16::MAX), -32767);
    made.width = u32::MAX;
    assert_eq!(inner_width(&made, i16::MAX), i32::MAX);
}

#[test]
fn a_table_of_the_body_needs_its_paragraph() {
    let mut document = sample();
    document.tables.push(grid(9, 0, 3, 0));
    assert!(!document.is_well_formed());
    document.tables[5].paragraph = 2;
    assert!(document.is_well_formed());
    document.tables[5].section = 1;
    assert!(!document.is_well_formed());
    document.tables[5].container_path = vec![1];
    assert!(document.is_well_formed());
}
