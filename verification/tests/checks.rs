use approved_template::edit::{HwpError, ResolvedEdit};
use approved_template::digest::approved_structure_digest;
use approved_template::label::{
    adjacent_label_digest, body_adjacent_label_digest, preflight_token, text_hash,
};
use approved_template::model::{
    Cell, CommonObjAttr, Control, Document, DocumentCore, Field, FieldEntry, FileFormat, Padding,
    PageDef, Paragraph, Section, SectionDef, Table, TableGrid, TablePageBreak, VerticalAlign,
};
use approved_template::preflight::{
    LayoutReport, PreflightState, MAX_REQUEST_BYTES, MAX_TARGETS, MAX_VALUE_CHARS, MAX_VALUE_LINES,
};
use approved_template::report::{
    deduplicate_rejections, rejected_target, CellOverflow, FailureReason, RejectReason, WarningCode,
};
use approved_template::request::{
    ApprovedEditTargetV1, ApprovedTemplateEditRequestV1, EncodedRequest, MergedAnchorV1,
};
use approved_template::table::resolve_table_cell_details;
use serde_json::Value;

fn padding() -> Padding {
    Padding { left: 0, right: 0, top: 0, bottom: 0 }
}

fn paragraph(text: &str) -> Paragraph {
    Paragraph {
        text: text.to_string(),
        para_shape_id: 0,
        style_id: 0,
        char_shape_ids: Vec::new(),
        controls: Vec::new(),
    }
}

fn paragraph_with(text: &str, controls: Vec<Control>) -> Paragraph {
    let mut made = paragraph(text);
    made.controls = controls;
    made
}

fn cell(row: u16, col: u16, row_span: u16, col_span: u16, text: &str) -> Cell {
    Cell {
        row,
        col,
        row_span,
        col_span,
        width: 10000,
        padding: padding(),
        border_fill_id: 0,
        text_direction: 0,
        vertical_align: VerticalAlign::Top,
        apply_inner_margin: false,
        is_header: false,
        cell_protect: false,
        paragraphs: vec![paragraph(text)],
    }
}

fn table(row_count: u16, col_count: u16, cells: Vec<Cell>) -> Table {
    Table {
        attr: 0,
        row_count,
        col_count,
        cell_spacing: 0,
        padding: padding(),
        border_fill_id: 0,
        page_break: TablePageBreak::NoBreak,
        repeat_header: false,
        common: CommonObjAttr { horizontal_offset: 0, width: 0, treat_as_char: false },
        zones: Vec::new(),
        cells,
    }
}

fn section(paragraphs: Vec<Paragraph>) -> Section {
    Section {
        section_def: SectionDef {
            flags: 0,
            column_spacing: 0,
            line_grid: 0,
            char_grid: 0,
            default_tab_spacing: 0,
            text_direction: 0,
            page_def: PageDef {
                width: 0,
                height: 0,
                margin_left: 0,
                margin_right: 0,
                margin_top: 0,
                margin_bottom: 0,
                margin_header: 0,
                margin_footer: 0,
                margin_gutter: 0,
                attr: 0,
                landscape: false,
            },
        },
        paragraphs,
    }
}

fn grid(index: usize, section: usize, paragraph: usize, control: usize) -> TableGrid {
    TableGrid { index, container_path: Vec::new(), section, paragraph, control }
}

fn document(sections: Vec<Section>, tables: Vec<TableGrid>) -> Document {
    Document { sections, bin_data_count: 0, char_shape_sizes: Vec::new(), tables }
}

fn field(field_id: u32, ctrl_id: u32, editable: bool, value: &str, para_index: usize) -> FieldEntry {
    FieldEntry {
        field: Field { field_id, ctrl_id },
        editable_in_form: editable,
        value: value.to_string(),
        section_index: 0,
        para_index,
    }
}

/// A form: a labelled paragraph, a table with a merged cell, and fields.
fn form() -> DocumentCore {
    let entries = table(
        2,
        2,
        vec![cell(0, 0, 1, 1, "이름"), cell(0, 1, 1, 1, " 홍길동 "), cell(1, 0, 1, 2, "비고")],
    );
    DocumentCore {
        document: document(
            vec![section(vec![
                paragraph_with("신청서", vec![Control::SectionDef]),
                paragraph("제목: 미정"),
                paragraph_with("", vec![Control::Table(entries)]),
                paragraph("그림 \u{fffc}"),
            ])],
            vec![grid(0, 0, 2, 0)],
        ),
        source_format: FileFormat::Hwpx,
        page_count: 1,
        fields: vec![
            field(11, 7, true, "서울", 3),
            field(12, 7, false, "고정", 0),
            field(13, 0, true, "가짜", 0),
            field(14, 7, true, "", 1),
        ],
    }
}

fn body_target(core: &DocumentCore, id: &str, paragraph: usize, value: &str) -> ApprovedEditTargetV1 {
    let paragraphs = &core.document.sections[0].paragraphs;
    ApprovedEditTargetV1::BodyPlaceholder {
        target_id: id.to_string(),
        section_index: 0,
        paragraph_index: paragraph,
        expected_text_hash: text_hash(&paragraphs[paragraph].text),
        adjacent_label_digest: body_adjacent_label_digest(paragraphs, paragraph),
        value: value.to_string(),
        max_chars: 20,
        max_lines: 2,
    }
}

fn cell_target(core: &DocumentCore, id: &str, row: u16, col: u16, value: &str) -> ApprovedEditTargetV1 {
    let text = match resolve_table_cell_details(&core.document, 0, row, col) {
        Ok(resolved) => resolved.old_text,
        Err(_) => String::new(),
    };
    let labels = match &core.document.sections[0].paragraphs[2].controls[0] {
        Control::Table(entries) => adjacent_label_digest(entries, row, col),
        _ => unreachable!(),
    };
    ApprovedEditTargetV1::TableCell {
        target_id: id.to_string(),
        table_index: 0,
        row,
        col,
        expected_text_hash: text_hash(&text),
        adjacent_label_digest: labels,
        merged_anchor: MergedAnchorV1 { row, col },
        value: value.to_string(),
        max_chars: 20,
        max_lines: 2,
        keep_style: true,
    }
}

fn field_target(id: &str, field_id: u32, held: &str, value: &str) -> ApprovedEditTargetV1 {
    ApprovedEditTargetV1::NativeField {
        target_id: id.to_string(),
        field_id,
        expected_value_hash: text_hash(held),
        value: value.to_string(),
        max_chars: 20,
        max_lines: 2,
    }
}

fn request(core: &DocumentCore, targets: Vec<ApprovedEditTargetV1>) -> ApprovedTemplateEditRequestV1 {
    ApprovedTemplateEditRequestV1 {
        schema_version: 1,
        template_id: "form-v1".to_string(),
        expected_structure_digest: approved_structure_digest(&core.document),
        targets,
    }
}

fn encoded(request: ApprovedTemplateEditRequestV1) -> Result<EncodedRequest, String> {
    Ok(EncodedRequest { request, encoding: Ok(b"{\"request\":1}".to_vec()) })
}

fn no_layout() -> LayoutReport {
    LayoutReport { overflow: None, changed_pages: Vec::new() }
}

fn check(core: &mut DocumentCore, targets: Vec<ApprovedEditTargetV1>) -> PreflightState {
    check_with(core, targets, no_layout())
}

fn check_with(
    core: &mut DocumentCore,
    targets: Vec<ApprovedEditTargetV1>,
    layout: LayoutReport,
) -> PreflightState {
    assert!(core.document.is_well_formed());
    let decoded = encoded(request(core, targets));
    core.preflight_approved_template_edits("{}", &decoded, layout).unwrap()
}

fn reasons(state: &PreflightState) -> Vec<(&str, RejectReason)> {
    state.report.rejected_targets.iter().map(|r| (r.target_id.as_str(), r.reason)).collect()
}

fn assert_refused(state: &PreflightState, expected: Vec<(&str, RejectReason)>) {
    assert_eq!(reasons(state), expected);
    assert!(!state.report.ok);
    assert_eq!(state.report.reason, Some(FailureReason::PreflightRejected));
    assert!(state.report.changed_pages.is_none());
    assert!(state.report.preflight_token.is_none());
    assert!(state.report.targets.is_empty());
    assert!(state.edits.is_empty());
    assert!(state.changed_paragraphs.is_empty());
    assert!(state.token.is_none());
}

fn overflow(lines: usize) -> Option<CellOverflow> {
    Some(CellOverflow {
        cell_width_px: Value::from(133.33),
        text_width_px: Value::from(200),
        lines,
    })
}

fn parsed(text: &str) -> Value {
    serde_json::from_str(text).unwrap()
}

#[test]
fn a_body_paragraph_is_accepted() {
    let mut core = form();
    let target = body_target(&core, "title", 1, "제목: 확정");
    let decoded = encoded(request(&core, vec![target]));
    let state = core
        .preflight_approved_template_edits(
            "{}",
            &decoded,
            LayoutReport { overflow: None, changed_pages: vec![0] },
        )
        .unwrap();
    assert!(state.report.ok);
    assert_eq!(state.report.reason, None);
    assert_eq!(state.changed_paragraphs, vec![(0, 1)]);
    assert_eq!(
        state.token,
        Some(preflight_token(
            &approved_structure_digest(&core.document),
            b"{\"request\":1}",
        ))
    );
    assert_eq!(state.report.preflight_token, state.token);
    assert_eq!(state.report.changed_pages, Some(vec![0]));
    assert_eq!(state.report.warnings.len(), 1);
    assert_eq!(state.report.warnings[0].target_id, None);
    assert_eq!(state.report.warnings[0].code, WarningCode::ChangedPagesConservative);
    match &state.edits[0] {
        ResolvedEdit::BodyPlaceholder { target_id, section_index, paragraph_index, old_value, value } => {
            assert_eq!(target_id, "title");
            assert_eq!((*section_index, *paragraph_index), (0, 1));
            assert_eq!(old_value, "제목: 미정");
            assert_eq!(value, "제목: 확정");
        }
        other => panic!("{:?}", other),
    }
}

#[test]
fn an_accepted_check_is_answered_in_json() {
    let mut core = form();
    let target = body_target(&core, "title", 1, "줄\n\"둘\"");
    let token = preflight_token(&approved_structure_digest(&core.document), b"{\"request\":1}");
    let decoded = encoded(request(&core, vec![target]));
    let answer = core
        .preflight_approved_template_edits_native(
            "{}",
            &decoded,
            LayoutReport { overflow: None, changed_pages: vec![0, 12] },
        )
        .unwrap();
    assert_eq!(
        answer,
        format!(
            "{{\"changedPages\":[0,12],\"ok\":true,\"overflowTargets\":[],\"preflightToken\":\"{}\",\
             \"reason\":null,\"rejectedTargets\":[],\"schemaVersion\":1,\"targets\":[{{\
             \"changed\":true,\"originalValue\":\"제목: 미정\",\
             \"proposedValue\":\"줄\\n\\\"둘\\\"\",\"targetId\":\"title\"}}],\"updated\":0,\
             \"warnings\":[{{\"code\":\"changed-pages-conservative\",\"targetId\":null}}]}}",
            token
        )
    );
}

#[test]
fn a_refused_check_is_answered_in_json() {
    let mut core = form();
    let target = body_target(&core, "picture", 3, "글");
    let decoded = encoded(request(&core, vec![target]));
    let answer =
        core.preflight_approved_template_edits_native("{}", &decoded, no_layout()).unwrap();
    assert_eq!(
        answer,
        "{\"changedPages\":null,\"ok\":false,\"overflowTargets\":[],\"preflightToken\":null,\
         \"reason\":\"preflight-rejected\",\"rejectedTargets\":[{\"reason\":\"mixed-body-content\",\
         \"targetId\":\"picture\"}],\"schemaVersion\":1,\"targets\":[],\"updated\":0,\
         \"warnings\":[]}"
    );
}

#[test]
fn a_check_changes_nothing() {
    let mut core = form();
    let before = core.inspect_approved_template_json();
    let accepted = body_target(&core, "title", 1, "제목: 확정");
    assert!(check(&mut core, vec![accepted]).report.ok);
    let refused = body_target(&core, "picture", 3, "글");
    assert!(!check(&mut core, vec![refused]).report.ok);
    assert_eq!(core.inspect_approved_template_json(), before);
    assert_eq!(core.document.sections[0].paragraphs[1].text, "제목: 미정");
}

#[test]
fn a_cell_is_accepted_by_its_trimmed_text() {
    let mut core = form();
    let target = cell_target(&core, "name", 0, 1, "임꺽정");
    let state = check(&mut core, vec![target]);
    assert!(state.report.ok, "{:?}", state);
    assert_eq!(state.changed_paragraphs, vec![(0, 2)]);
    assert_eq!(state.report.targets[0].original_value, "홍길동");
    assert_eq!(state.report.targets[0].proposed_value, "임꺽정");
    assert!(state.report.targets[0].changed);
    assert!(state.report.warnings.is_empty());
    match &state.edits[0] {
        ResolvedEdit::TableCell { resolved, .. } => {
            assert_eq!(resolved.paragraph_lengths, vec![5]);
            assert_eq!(resolved.cell_index, 1);
        }
        other => panic!("{:?}", other),
    }
}

#[test]
fn a_cell_that_wraps_is_accepted_with_a_warning() {
    let mut core = form();
    let target = cell_target(&core, "name", 0, 1, "임꺽정");
    let layout = LayoutReport { overflow: overflow(2), changed_pages: vec![3] };
    let state = check_with(&mut core, vec![target], layout);
    assert!(state.report.ok);
    assert_eq!(state.report.warnings.len(), 2);
    assert_eq!(state.report.warnings[0].code, WarningCode::CellWrapExpected);
    assert_eq!(state.report.warnings[0].target_id, Some("name".to_string()));
    assert_eq!(state.report.warnings[1].code, WarningCode::ChangedPagesConservative);
    assert_eq!(state.report.overflow_targets.len(), 1);
    assert_eq!(state.report.overflow_targets[0].max_lines, 2);
    assert_eq!(state.report.overflow_targets[0].overflow.lines, 2);
}

#[test]
fn a_cell_that_overflows_is_rejected() {
    let mut core = form();
    let target = cell_target(&core, "name", 0, 1, "임꺽정");
    let decoded = encoded(request(&core, vec![target]));
    let layout = LayoutReport { overflow: overflow(3), changed_pages: vec![3] };
    let answer = core.preflight_approved_template_edits_native("{}", &decoded, layout).unwrap();
    let report = parsed(&answer);
    assert_eq!(report["ok"], false);
    assert_eq!(report["changedPages"], Value::Null);
    assert_eq!(report["warnings"].as_array().unwrap().len(), 0);
    assert_eq!(report["rejectedTargets"][0]["reason"], "confirmed-overflow");
    assert_eq!(
        report["overflowTargets"].to_string(),
        "[{\"cellWidthPx\":133.33,\"lines\":3,\"maxLines\":2,\"targetId\":\"name\",\
         \"textWidthPx\":200}]"
    );
}

#[test]
fn several_fields_are_accepted_and_paragraphs_are_sorted() {
    let mut core = form();
    let targets = vec![field_target("city", 11, "서울", "부산"), field_target("memo", 14, "", "없음")];
    let state = check(&mut core, targets);
    assert!(state.report.ok);
    assert_eq!(state.changed_paragraphs, vec![(0, 1), (0, 3)]);
    assert_eq!(state.report.targets.len(), 2);
    assert_eq!(state.report.targets[0].target_id, "city");
    assert_eq!(state.report.targets[1].target_id, "memo");
}

#[test]
fn changed_paragraphs_ascend_without_repetition() {
    let mut core = form();
    core.fields = vec![
        field(1, 7, true, "a", 5),
        field(2, 7, true, "b", 2),
        field(3, 7, true, "c", 5),
        field(4, 7, true, "d", 0),
    ];
    core.fields[3].section_index = 1;
    let targets = vec![
        field_target("d", 4, "d", "x"),
        field_target("a", 1, "a", "x"),
        field_target("b", 2, "b", "x"),
        field_target("c", 3, "c", "x"),
    ];
    assert_eq!(check(&mut core, targets).changed_paragraphs, vec![(0, 2), (0, 5), (1, 0)]);
}

#[test]
fn a_value_that_is_there_already_is_accepted() {
    let mut core = form();
    let mut body = body_target(&core, "title", 1, "제목: 미정");
    if let ApprovedEditTargetV1::BodyPlaceholder { expected_text_hash, .. } = &mut body {
        *expected_text_hash = text_hash("그 전의 글");
    }
    let state = check(&mut core, vec![body]);
    assert!(state.report.ok);
    assert!(!state.report.targets[0].changed);
    let fields = vec![field_target("city", 11, "그 전의 글", "서울")];
    assert!(check(&mut core, fields).report.ok);
    let mut name = cell_target(&core, "name", 0, 1, "홍길동");
    if let ApprovedEditTargetV1::TableCell { expected_text_hash, .. } = &mut name {
        *expected_text_hash = text_hash("그 전의 글");
    }
    assert!(check(&mut core, vec![name]).report.ok);
}

#[test]
fn another_text_is_rejected() {
    let mut core = form();
    let mut body = body_target(&core, "title", 1, "새 글");
    if let ApprovedEditTargetV1::BodyPlaceholder { expected_text_hash, .. } = &mut body {
        *expected_text_hash = text_hash("다른 글");
    }
    assert_refused(&check(&mut core, vec![body]), vec![("title", RejectReason::TargetTextMismatch)]);
    let city = field_target("city", 11, "부산", "대구");
    assert_refused(&check(&mut core, vec![city]), vec![("city", RejectReason::TargetTextMismatch)]);
    let mut name = cell_target(&core, "name", 0, 1, "새 글");
    if let ApprovedEditTargetV1::TableCell { expected_text_hash, .. } = &mut name {
        *expected_text_hash = text_hash(" 홍길동 ");
    }
    assert_refused(&check(&mut core, vec![name]), vec![("name", RejectReason::TargetTextMismatch)]);
}

#[test]
fn another_label_is_rejected() {
    let mut core = form();
    let mut body = body_target(&core, "title", 1, "새 글");
    if let ApprovedEditTargetV1::BodyPlaceholder { adjacent_label_digest, .. } = &mut body {
        *adjacent_label_digest = text_hash("");
    }
    assert_refused(
        &check(&mut core, vec![body]),
        vec![("title", RejectReason::AdjacentLabelMismatch)],
    );
    let mut name = cell_target(&core, "name", 0, 1, "새 글");
    if let ApprovedEditTargetV1::TableCell { adjacent_label_digest, .. } = &mut name {
        *adjacent_label_digest = text_hash("");
    }
    assert_refused(
        &check(&mut core, vec![name]),
        vec![("name", RejectReason::AdjacentLabelMismatch)],
    );
}

#[test]
fn fields_that_cannot_be_edited_are_rejected() {
    let mut core = form();
    let targets = vec![
        field_target("none", 99, "", "x"),
        field_target("locked", 12, "고정", "x"),
        field_target("fake", 13, "가짜", "x"),
        field_target("city", 11, "서울", "부산"),
    ];
    assert_refused(
        &check(&mut core, targets),
        vec![
            ("none", RejectReason::UnknownField),
            ("locked", RejectReason::UnsupportedField),
            ("fake", RejectReason::UnsupportedField),
        ],
    );
}

#[test]
fn the_first_field_of_an_identifier_is_taken() {
    let mut core = form();
    core.fields.push(field(11, 7, true, "나중", 0));
    let later = field_target("city", 11, "나중", "x");
    assert_refused(&check(&mut core, vec![later]), vec![("city", RejectReason::TargetTextMismatch)]);
}

#[test]
fn paragraphs_that_do_not_exist_or_hold_more_than_text_are_rejected() {
    let mut core = form();
    let mut beyond = body_target(&core, "beyond", 1, "x");
    if let ApprovedEditTargetV1::BodyPlaceholder { paragraph_index, .. } = &mut beyond {
        *paragraph_index = 4;
    }
    assert_refused(
        &check(&mut core, vec![beyond]),
        vec![("beyond", RejectReason::UnknownBodyParagraph)],
    );
    let mut outside = body_target(&core, "outside", 1, "x");
    if let ApprovedEditTargetV1::BodyPlaceholder { section_index, .. } = &mut outside {
        *section_index = usize::MAX;
    }
    assert_refused(
        &check(&mut core, vec![outside]),
        vec![("outside", RejectReason::UnknownBodyParagraph)],
    );
    let picture = body_target(&core, "picture", 3, "x");
    assert_refused(&check(&mut core, vec![picture]), vec![("picture", RejectReason::MixedBodyContent)]);
    let holder = body_target(&core, "holder", 2, "x");
    assert_refused(&check(&mut core, vec![holder]), vec![("holder", RejectReason::MixedBodyContent)]);
    let layout_only = body_target(&core, "heading", 0, "x");
    assert!(check(&mut core, vec![layout_only]).report.ok);
}

#[test]
fn cells_must_be_named_by_their_anchor() {
    let mut core = form();
    let covered = cell_target(&core, "covered", 1, 1, "x");
    assert_refused(
        &check(&mut core, vec![covered]),
        vec![("covered", RejectReason::CoveredMergedCell)],
    );
    let outside = cell_target(&core, "outside", 2, 0, "x");
    assert_refused(
        &check(&mut core, vec![outside]),
        vec![("outside", RejectReason::InvalidCellAddress)],
    );
    let mut unknown = cell_target(&core, "unknown", 0, 1, "x");
    if let ApprovedEditTargetV1::TableCell { table_index, .. } = &mut unknown {
        *table_index = 1;
    }
    assert_refused(
        &check(&mut core, vec![unknown]),
        vec![("unknown", RejectReason::UnknownOrNestedTable)],
    );
    if let Control::Table(entries) = &mut core.document.sections[0].paragraphs[2].controls[0] {
        entries.cells.pop();
    }
    let vacant = cell_target(&core, "vacant", 1, 0, "x");
    assert_refused(
        &check(&mut core, vec![vacant]),
        vec![("vacant", RejectReason::InvalidCellAddress)],
    );
    core.document.tables[0].control = 5;
    let lost = cell_target(&core, "lost", 0, 1, "x");
    assert_refused(
        &check(&mut core, vec![lost]),
        vec![("lost", RejectReason::UnknownOrNestedTable)],
    );
}

#[test]
fn cells_keep_their_style_and_anchor() {
    let mut core = form();
    let mut restyled = cell_target(&core, "restyled", 0, 1, "x");
    if let ApprovedEditTargetV1::TableCell { keep_style, .. } = &mut restyled {
        *keep_style = false;
    }
    assert_refused(
        &check(&mut core, vec![restyled]),
        vec![("restyled", RejectReason::UnsafeCellOptions)],
    );
    for wrong in [MergedAnchorV1 { row: 1, col: 1 }, MergedAnchorV1 { row: 0, col: 0 }] {
        let mut moved = cell_target(&core, "moved", 0, 1, "x");
        if let ApprovedEditTargetV1::TableCell { merged_anchor, .. } = &mut moved {
            *merged_anchor = wrong;
        }
        assert_refused(
            &check(&mut core, vec![moved]),
            vec![("moved", RejectReason::UnsafeCellOptions)],
        );
    }
}

#[test]
fn cells_that_hold_more_than_one_text_are_rejected() {
    let mut core = form();
    if let Control::Table(entries) = &mut core.document.sections[0].paragraphs[2].controls[0] {
        entries.cells[1].paragraphs.push(paragraph("둘째"));
    }
    let name = cell_target(&core, "name", 0, 1, "x");
    assert_refused(&check(&mut core, vec![name]), vec![("name", RejectReason::MixedCellContent)]);
}

#[test]
fn identifiers_must_be_safe_and_distinct() {
    let mut core = form();
    let targets = vec![
        field_target("same", 11, "서울", "x"),
        field_target("same", 14, "", "x"),
        field_target("not safe", 12, "고정", "x"),
    ];
    assert_refused(
        &check(&mut core, targets),
        vec![
            ("same", RejectReason::InvalidOrDuplicateTargetId),
            ("not safe", RejectReason::InvalidOrDuplicateTargetId),
        ],
    );
}

#[test]
fn places_must_be_distinct() {
    let mut core = form();
    let targets = vec![
        field_target("one", 11, "서울", "x"),
        field_target("two", 11, "서울", "y"),
        field_target("three", 11, "서울", "z"),
    ];
    assert_refused(
        &check(&mut core, targets),
        vec![
            ("two", RejectReason::DuplicateTargetAddress),
            ("three", RejectReason::DuplicateTargetAddress),
        ],
    );
}

#[test]
fn values_are_limited() {
    let mut core = form();
    let value_of = |value: &str, chars: usize, lines: usize| ApprovedEditTargetV1::NativeField {
        target_id: "city".to_string(),
        field_id: 11,
        expected_value_hash: text_hash("서울"),
        value: value.to_string(),
        max_chars: chars,
        max_lines: lines,
    };
    let invalid = vec![("city", RejectReason::InvalidValue)];
    assert_refused(&check(&mut core, vec![value_of("", 0, 1)]), invalid.clone());
    assert_refused(&check(&mut core, vec![value_of("x", MAX_VALUE_CHARS + 1, 1)]), invalid.clone());
    assert_refused(&check(&mut core, vec![value_of("가나다", 2, 1)]), invalid.clone());
    assert_refused(&check(&mut core, vec![value_of("a\tb", 5, 1)]), invalid);
    assert!(check(&mut core, vec![value_of("가나다", 3, 1)]).report.ok);
    assert!(check(&mut core, vec![value_of(&"가".repeat(MAX_VALUE_CHARS), MAX_VALUE_CHARS, 1)]).report.ok);
    assert!(check(&mut core, vec![value_of("", 1, 1)]).report.ok);
    let limit = vec![("city", RejectReason::InvalidMaxLines)];
    assert_refused(&check(&mut core, vec![value_of("x", 5, 0)]), limit.clone());
    assert_refused(&check(&mut core, vec![value_of("x", 5, MAX_VALUE_LINES + 1)]), limit);
    assert!(check(&mut core, vec![value_of("x", 5, MAX_VALUE_LINES)]).report.ok);
    assert_refused(
        &check(&mut core, vec![value_of("a\nb", 5, 1)]),
        vec![("city", RejectReason::MaxLinesExceeded)],
    );
    assert!(check(&mut core, vec![value_of("a\nb", 5, 2)]).report.ok);
    assert_refused(
        &check(&mut core, vec![value_of("a\n", 1, 1)]),
        vec![("city", RejectReason::InvalidValue), ("city", RejectReason::MaxLinesExceeded)],
    );
}

#[test]
fn virtual_targets_stand_alone() {
    let mut core = form();
    let mixed = RejectReason::MixedOrMultipleVirtualTargets;
    let title = body_target(&core, "title", 1, "x");
    let heading = body_target(&core, "heading", 0, "x");
    assert_refused(
        &check(&mut core, vec![title, heading]),
        vec![("title", mixed), ("heading", mixed)],
    );
    let name = cell_target(&core, "name", 0, 1, "x");
    let city = field_target("city", 11, "서울", "x");
    assert_refused(&check(&mut core, vec![name, city]), vec![("name", mixed), ("city", mixed)]);
    let title = body_target(&core, "title", 1, "x");
    let name = cell_target(&core, "name", 0, 1, "x");
    assert_refused(&check(&mut core, vec![title, name]), vec![("title", mixed), ("name", mixed)]);
    let name = cell_target(&core, "name", 0, 1, "x");
    let note = cell_target(&core, "note", 1, 0, "x");
    assert_refused(&check(&mut core, vec![name, note]), vec![("name", mixed), ("note", mixed)]);
}

#[test]
fn a_protected_document_refuses_every_target() {
    let mut core = form();
    core.page_count = 4;
    core.document.sections[0].paragraphs[3].controls =
        vec![Control::Picture, Control::Picture, Control::Picture, Control::Picture, Control::Picture];
    let targets = vec![field_target("city", 11, "서울", "x"), field_target("memo", 14, "", "x")];
    assert_refused(
        &check(&mut core, targets),
        vec![
            ("city", RejectReason::ProtectedDocument),
            ("memo", RejectReason::ProtectedDocument),
        ],
    );
}

#[test]
fn another_structure_refuses_every_target() {
    let mut core = form();
    let made = request(
        &core,
        vec![field_target("city", 11, "서울", "x"), field_target("memo", 14, "", "x")],
    );
    core.document.sections[0].paragraphs.push(paragraph("더"));
    let state = core
        .preflight_approved_template_edits("{}", &encoded(made), no_layout())
        .unwrap();
    assert_refused(
        &state,
        vec![
            ("city", RejectReason::StructureMismatch),
            ("memo", RejectReason::StructureMismatch),
        ],
    );
}

#[test]
fn gates_report_in_order() {
    let mut core = form();
    core.page_count = 9;
    let nested = table(1, 1, vec![cell(0, 0, 1, 1, "")]);
    if let Control::Table(entries) = &mut core.document.sections[0].paragraphs[2].controls[0] {
        entries.cells[2].paragraphs[0].controls.push(Control::Table(nested));
    }
    let mut made = request(
        &core,
        vec![body_target(&core, "a b", 1, "\u{7f}"), field_target("city", 11, "서울", "x")],
    );
    made.expected_structure_digest.clear();
    let state = core
        .preflight_approved_template_edits("{}", &encoded(made), no_layout())
        .unwrap();
    assert_refused(
        &state,
        vec![
            ("a b", RejectReason::InvalidOrDuplicateTargetId),
            ("a b", RejectReason::InvalidValue),
            ("a b", RejectReason::MixedOrMultipleVirtualTargets),
            ("city", RejectReason::MixedOrMultipleVirtualTargets),
            ("a b", RejectReason::ProtectedDocument),
            ("city", RejectReason::ProtectedDocument),
            ("a b", RejectReason::StructureMismatch),
            ("city", RejectReason::StructureMismatch),
        ],
    );
}

#[test]
fn rejections_are_reported_once() {
    let mut rejected = vec![
        rejected_target("a", RejectReason::InvalidValue),
        rejected_target("b", RejectReason::InvalidValue),
        rejected_target("a", RejectReason::InvalidValue),
        rejected_target("a", RejectReason::UnknownField),
        rejected_target("b", RejectReason::InvalidValue),
    ];
    deduplicate_rejections(&mut rejected);
    let left: Vec<(&str, RejectReason)> =
        rejected.iter().map(|r| (r.target_id.as_str(), r.reason)).collect();
    assert_eq!(
        left,
        vec![
            ("a", RejectReason::InvalidValue),
            ("b", RejectReason::InvalidValue),
            ("a", RejectReason::UnknownField),
        ]
    );
}

#[test]
fn requests_of_another_shape_are_invalid() {
    let mut core = form();
    let good = || vec![field_target("city", 11, "서울", "x")];
    let mut version = request(&core, good());
    version.schema_version = 2;
    let mut unnamed = request(&core, good());
    unnamed.template_id = "form v1".to_string();
    let empty = request(&core, Vec::new());
    let many = request(
        &core,
        (0..=MAX_TARGETS)
            .map(|i| field_target(&format!("t{}", i), i as u32, "", "x"))
            .collect(),
    );
    for made in [version, unnamed, empty, many] {
        let state = core
            .preflight_approved_template_edits("{}", &encoded(made), no_layout())
            .unwrap();
        assert!(!state.report.ok);
        assert_eq!(state.report.reason, Some(FailureReason::InvalidRequest));
        assert!(state.report.rejected_targets.is_empty());
        assert!(state.token.is_none());
    }
    let most = request(
        &core,
        (0..MAX_TARGETS).map(|i| field_target(&format!("t{}", i), i as u32, "", "x")).collect(),
    );
    let state = core
        .preflight_approved_template_edits("{}", &encoded(most), no_layout())
        .unwrap();
    assert_eq!(state.report.reason, Some(FailureReason::PreflightRejected));
}

#[test]
fn a_request_that_is_too_long_is_invalid_whatever_it_holds() {
    let mut core = form();
    let long = " ".repeat(MAX_REQUEST_BYTES + 1);
    let answer = core
        .preflight_approved_template_edits_native(&long, &Err("무엇이든".to_string()), no_layout())
        .unwrap();
    assert_eq!(parsed(&answer)["reason"], "invalid-request");
    assert_eq!(parsed(&answer)["rejectedTargets"].as_array().unwrap().len(), 0);
    let short = "가".repeat(MAX_REQUEST_BYTES / 3);
    assert!(core
        .preflight_approved_template_edits_native(&short, &Err("e".to_string()), no_layout())
        .is_err());
    let wide = "가".repeat(MAX_REQUEST_BYTES / 3 + 1);
    assert!(core
        .preflight_approved_template_edits_native(&wide, &Err("e".to_string()), no_layout())
        .is_ok());
}

#[test]
fn a_request_that_cannot_be_decoded_is_an_error() {
    let mut core = form();
    let broken = Err("expected value at line 1 column 1".to_string());
    match core.preflight_approved_template_edits("?", &broken, no_layout()) {
        Err(HwpError::RenderError(message)) => {
            assert_eq!(message, "승인 편집 요청 JSON 오류: expected value at line 1 column 1");
        }
        other => panic!("{:?}", other),
    }
}

#[test]
fn a_request_that_cannot_be_encoded_is_an_error_once_it_passes() {
    let mut core = form();
    let made = request(&core, vec![field_target("city", 11, "서울", "x")]);
    let decoded = Ok(EncodedRequest { request: made, encoding: Err("깨짐".to_string()) });
    match core.preflight_approved_template_edits_native("{}", &decoded, no_layout()) {
        Err(HwpError::RenderError(message)) => {
            assert_eq!(message, "preflight token 생성 실패: 깨짐");
        }
        other => panic!("{:?}", other),
    }
    let made = request(&core, vec![field_target("city", 99, "서울", "x")]);
    let decoded = Ok(EncodedRequest { request: made, encoding: Err("깨짐".to_string()) });
    assert!(core.preflight_approved_template_edits_native("{}", &decoded, no_layout()).is_ok());
}

#[test]
fn every_rejection_has_its_name() {
    for (reason, name) in [
        (RejectReason::InvalidOrDuplicateTargetId, "invalid-or-duplicate-target-id"),
        (RejectReason::InvalidValue, "invalid-value"),
        (RejectReason::InvalidMaxLines, "invalid-max-lines"),
        (RejectReason::MaxLinesExceeded, "max-lines-exceeded"),
        (RejectReason::DuplicateTargetAddress, "duplicate-target-address"),
        (RejectReason::MixedOrMultipleVirtualTargets, "mixed-or-multiple-virtual-targets"),
        (RejectReason::ProtectedDocument, "protected-document"),
        (RejectReason::StructureMismatch, "structure-mismatch"),
        (RejectReason::UnknownField, "unknown-field"),
        (RejectReason::UnsupportedField, "unsupported-field"),
        (RejectReason::TargetTextMismatch, "target-text-mismatch"),
        (RejectReason::UnknownBodyParagraph, "unknown-body-paragraph"),
        (RejectReason::MixedBodyContent, "mixed-body-content"),
        (RejectReason::AdjacentLabelMismatch, "adjacent-label-mismatch"),
        (RejectReason::UnsafeCellOptions, "unsafe-cell-options"),
        (RejectReason::CoveredMergedCell, "covered-merged-cell"),
        (RejectReason::InvalidCellAddress, "invalid-cell-address"),
        (RejectReason::UnknownOrNestedTable, "unknown-or-nested-table"),
        (RejectReason::MixedCellContent, "mixed-cell-content"),
        (RejectReason::ConfirmedOverflow, "confirmed-overflow"),
    ] {
        assert_eq!(reason.name(), name);
    }
    assert_eq!(FailureReason::StalePreflight.name(), "stale-preflight");
    assert_eq!(WarningCode::CellWrapExpected.name(), "cell-wrap-expected");
}

#[test]
fn layout_is_asked_about_what_would_change() {
    let core = form();
    let fields = request(
        &core,
        vec![field_target("city", 11, "서울", "x"), field_target("memo", 14, "", "x")],
    );
    let query = core.layout_query(&fields);
    assert!(query.wants_pages(&None));
    assert!(query.wants_pages(&overflow(100)));
    assert!(query.cell.is_none());
    assert_eq!(query.paragraphs, vec![(0, 1), (0, 3)]);
    let cells = request(&core, vec![cell_target(&core, "name", 0, 1, "임꺽정")]);
    let query = core.layout_query(&cells);
    assert_eq!(query.paragraphs, vec![(0, 2)]);
    assert!(query.wants_pages(&None));
    assert!(query.wants_pages(&overflow(2)));
    assert!(!query.wants_pages(&overflow(3)));
    let (resolved, value, lines) = query.cell.unwrap();
    assert_eq!(resolved.cell_index, 1);
    assert_eq!(lines, 2);
    assert_eq!(value, "임꺽정");
    let refused = request(&core, vec![cell_target(&core, "name", 1, 1, "임꺽정")]);
    let query = core.layout_query(&refused);
    assert!(!query.wants_pages(&None));
    assert!(query.cell.is_none());
    assert!(query.paragraphs.is_empty());
    let mut invalid = request(&core, vec![cell_target(&core, "name", 0, 1, "임꺽정")]);
    invalid.schema_version = 0;
    assert!(core.layout_query(&invalid).cell.is_none());
}

#[test]
fn what_is_inspected_is_accepted() {
    let mut core = form();
    let inspection = core.inspect_approved_template();
    assert_eq!(inspection.structure_digest, approved_structure_digest(&core.document));
    let body: Vec<ApprovedEditTargetV1> = inspection
        .body_candidates
        .iter()
        .map(|candidate| ApprovedEditTargetV1::BodyPlaceholder {
            target_id: "body".to_string(),
            section_index: candidate.section_index,
            paragraph_index: candidate.paragraph_index,
            expected_text_hash: candidate.text_hash.clone(),
            adjacent_label_digest: candidate.adjacent_label_digest.clone(),
            value: "새 값".to_string(),
            max_chars: 10,
            max_lines: 1,
        })
        .collect();
    assert_eq!(body.len(), 2);
    let cells: Vec<ApprovedEditTargetV1> = inspection
        .table_cells
        .iter()
        .filter(|listed| listed.blocked_reasons.is_empty())
        .map(|listed| ApprovedEditTargetV1::TableCell {
            target_id: "cell".to_string(),
            table_index: listed.table_index,
            row: listed.row,
            col: listed.col,
            expected_text_hash: listed.text_hash.clone(),
            adjacent_label_digest: listed.adjacent_label_digest.clone(),
            merged_anchor: MergedAnchorV1 { row: listed.row, col: listed.col },
            value: "새 값".to_string(),
            max_chars: 10,
            max_lines: 1,
            keep_style: true,
        })
        .collect();
    assert_eq!(cells.len(), 3);
    for target in body.into_iter().chain(cells) {
        let state = check(&mut core, vec![target]);
        assert!(state.report.ok, "{:?}", state);
    }
    let fields: Vec<ApprovedEditTargetV1> = inspection
        .native_fields
        .iter()
        .filter(|listed| listed.editable)
        .map(|listed| ApprovedEditTargetV1::NativeField {
            target_id: format!("field-{}", listed.field_id),
            field_id: listed.field_id,
            expected_value_hash: listed.value_hash.clone(),
            value: "새 값".to_string(),
            max_chars: 10,
            max_lines: 1,
        })
        .collect();
    assert_eq!(fields.len(), 2);
    assert!(check(&mut core, fields).report.ok);
}

#[test]
fn approved_complex_copy_is_protected_and_preflight_is_read_only() {
    let mut core = form();
    let nested = table(1, 1, vec![cell(0, 0, 1, 1, "안쪽")]);
    if let Control::Table(entries) = &mut core.document.sections[0].paragraphs[2].controls[0] {
        entries.cells[2].paragraphs[0].controls.push(Control::Table(nested));
    }
    let before_inspection = parsed(&core.inspect_approved_template_json());
    assert_eq!(
        before_inspection["protection"]["status"], "protected",
        "approved complex copy must remain outside the editable template scope"
    );
    let structure_digest = before_inspection["structureDigest"].as_str().unwrap().to_string();
    let zeros = format!("sha256:{}", "0".repeat(64));
    let probe = ApprovedTemplateEditRequestV1 {
        schema_version: 1,
        template_id: "complex-protection-probe".to_string(),
        expected_structure_digest: structure_digest.clone(),
        targets: vec![ApprovedEditTargetV1::BodyPlaceholder {
            target_id: "synthetic-probe".to_string(),
            section_index: 0,
            paragraph_index: 0,
            expected_text_hash: zeros.clone(),
            adjacent_label_digest: zeros.clone(),
            value: "SYNTHETIC".to_string(),
            max_chars: 20,
            max_lines: 1,
        }],
    };
    let text = format!(
        "{{\"schemaVersion\":1,\"templateId\":\"complex-protection-probe\",\
         \"expectedStructureDigest\":\"{}\",\"targets\":[{{\"kind\":\"body-placeholder\",\
         \"targetId\":\"synthetic-probe\",\"sectionIndex\":0,\"paragraphIndex\":0,\
         \"expectedTextHash\":\"{}\",\"adjacentLabelDigest\":\"{}\",\"value\":\"SYNTHETIC\",\
         \"maxChars\":20,\"maxLines\":1}}]}}",
        structure_digest, zeros, zeros
    );
    let decoded =
        Ok(EncodedRequest { request: probe, encoding: Ok(text.as_bytes().to_vec()) });
    let preflight = parsed(
        &core
            .preflight_approved_template_edits_native(&text, &decoded, no_layout())
            .expect("protected preflight must return a structured result"),
    );
    assert_eq!(preflight["ok"], false);
    assert!(
        preflight["rejectedTargets"]
            .as_array()
            .expect("protected preflight must list rejected targets")
            .iter()
            .any(|entry| entry["reason"] == "protected-document"),
        "complex copy must be rejected by the product-core protection gate"
    );
    let after_inspection = parsed(&core.inspect_approved_template_json());
    assert_eq!(
        before_inspection, after_inspection,
        "preflight must not change document structure or protection statistics"
    );
}
