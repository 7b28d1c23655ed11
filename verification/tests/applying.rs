use approved_template::apply::{ApplyPlan, ApplyRun, ApplyStart, EditStep, EngineAction};
use approved_template::edit::{EngineFailure, HwpError};
use approved_template::digest::approved_structure_digest;
use approved_template::label::{
    adjacent_label_digest, body_adjacent_label_digest, preflight_token, text_hash,
};
use approved_template::model::{
    Cell, CommonObjAttr, Control, Document, DocumentCore, Field, FieldEntry, FileFormat, Padding,
    PageDef, Paragraph, Section, SectionDef, Table, TableGrid, TablePageBreak, VerticalAlign,
};
use approved_template::preflight::LayoutReport;
use approved_template::report::RejectReason;
use approved_template::request::{
    ApprovedEditTargetV1, ApprovedTemplateEditRequestV1, EncodedRequest, MergedAnchorV1,
};
use approved_template::table::resolve_table_cell_details;
use serde_json::Value;

fn padding() -> Padding {
    Padding { left: 0, right: 0, top: 0, bottom: 0 }
}

fn paragraph(text: &str) -> Paragraph {
    Paragraph {
        text: text.to_string(),
        para_shape_id: 0,
        style_id: 0,
        char_shape_ids: Vec::new(),
        controls: Vec::new(),
    }
}

fn paragraph_with(text: &str, controls: Vec<Control>) -> Paragraph {
    let mut made = paragraph(text);
    made.controls = controls;
    made
}

fn cell(row: u16, col: u16, row_span: u16, col_span: u16, text: &str) -> Cell {
    Cell {
        row,
        col,
        row_span,
        col_span,
        width: 10000,
        padding: padding(),
        border_fill_id: 0,
        text_direction: 0,
        vertical_align: VerticalAlign::Top,
        apply_inner_margin: false,
        is_header: false,
        cell_protect: false,
        paragraphs: vec![paragraph(text)],
    }
}

fn table(row_count: u16, col_count: u16, cells: Vec<Cell>) -> Table {
    Table {
        attr: 0,
        row_count,
        col_count,
        cell_spacing: 0,
        padding: padding(),
        border_fill_id: 0,
        page_break: TablePageBreak::NoBreak,
        repeat_header: false,
        common: CommonObjAttr { horizontal_offset: 0, width: 0, treat_as_char: false },
        zones: Vec::new(),
        cells,
    }
}

fn section(paragraphs: Vec<Paragraph>) -> Section {
    Section {
        section_def: SectionDef {
            flags: 0,
            column_spacing: 0,
            line_grid: 0,
            char_grid: 0,
            default_tab_spacing: 0,
            text_direction: 0,
            page_def: PageDef {
                width: 0,
                height: 0,
                margin_left: 0,
                margin_right: 0,
                margin_top: 0,
                margin_bottom: 0,
                margin_header: 0,
                margin_footer: 0,
                margin_gutter: 0,
                attr: 0,
                landscape: false,
            },
        },
        paragraphs,
    }
}

fn grid(index: usize, section: usize, paragraph: usize, control: usize) -> TableGrid {
    TableGrid { index, container_path: Vec::new(), section, paragraph, control }
}

fn document(sections: Vec<Section>, tables: Vec<TableGrid>) -> Document {
    Document { sections, bin_data_count: 0, char_shape_sizes: Vec::new(), tables }
}

fn field(field_id: u32, ctrl_id: u32, editable: bool, value: &str, para_index: usize) -> FieldEntry {
    FieldEntry {
        field: Field { field_id, ctrl_id },
        editable_in_form: editable,
        value: value.to_string(),
        section_index: 0,
        para_index,
    }
}

/// A form: a labelled paragraph, a table with a merged cell, and fields.
fn form() -> DocumentCore {
    let entries = table(
        2,
        2,
        vec![cell(0, 0, 1, 1, "이름"), cell(0, 1, 1, 1, " 홍길동 "), cell(1, 0, 1, 2, "비고")],
    );
    DocumentCore {
        document: document(
            vec![section(vec![
                paragraph_with("신청서", vec![Control::SectionDef]),
                paragraph("제목: 미정"),
                paragraph_with("", vec![Control::Table(entries)]),
                paragraph("그림 \u{fffc}"),
            ])],
            vec![grid(0, 0, 2, 0)],
        ),
        source_format: FileFormat::Hwpx,
        page_count: 1,
        fields: vec![
            field(11, 7, true, "서울", 3),
            field(12, 7, false, "고정", 0),
            field(13, 0, true, "가짜", 0),
            field(14, 7, true, "", 1),
        ],
    }
}

fn body_target(core: &DocumentCore, id: &str, paragraph: usize, value: &str) -> ApprovedEditTargetV1 {
    let paragraphs = &core.document.sections[0].paragraphs;
    ApprovedEditTargetV1::BodyPlaceholder {
        target_id: id.to_string(),
        section_index: 0,
        paragraph_index: paragraph,
        expected_text_hash: text_hash(&paragraphs[paragraph].text),
        adjacent_label_digest: body_adjacent_label_digest(paragraphs, paragraph),
        value: value.to_string(),
        max_chars: 20,
        max_lines: 2,
    }
}

fn cell_target(core: &DocumentCore, id: &str, row: u16, col: u16, value: &str) -> ApprovedEditTargetV1 {
    let text = match resolve_table_cell_details(&core.document, 0, row, col) {
        Ok(resolved) => resolved.old_text,
        Err(_) => String::new(),
    };
    let labels = match &core.document.sections[0].paragraphs[2].controls[0] {
        Control::Table(entries) => adjacent_label_digest(entries, row, col),
        _ => unreachable!(),
    };
    ApprovedEditTargetV1::TableCell {
        target_id: id.to_string(),
        table_index: 0,
        row,
        col,
        expected_text_hash: text_hash(&text),
        adjacent_label_digest: labels,
        merged_anchor: MergedAnchorV1 { row, col },
        value: value.to_string(),
        max_chars: 20,
        max_lines: 2,
        keep_style: true,
    }
}

fn field_target(id: &str, field_id: u32, held: &str, value: &str) -> ApprovedEditTargetV1 {
    ApprovedEditTargetV1::NativeField {
        target_id: id.to_string(),
        field_id,
        expected_value_hash: text_hash(held),
        value: value.to_string(),
        max_chars: 20,
        max_lines: 2,
    }
}

fn request(core: &DocumentCore, targets: Vec<ApprovedEditTargetV1>) -> ApprovedTemplateEditRequestV1 {
    ApprovedTemplateEditRequestV1 {
        schema_version: 1,
        template_id: "form-v1".to_string(),
        expected_structure_digest: approved_structure_digest(&core.document),
        targets,
    }
}

fn encoded(request: ApprovedTemplateEditRequestV1) -> Result<EncodedRequest, String> {
    Ok(EncodedRequest { request, encoding: Ok(b"{\"request\":1}".to_vec()) })
}

fn no_layout() -> LayoutReport {
    LayoutReport { overflow: None, changed_pages: Vec::new() }
}

fn pages(changed_pages: Vec<u32>) -> LayoutReport {
    LayoutReport { overflow: None, changed_pages }
}

fn token(core: &DocumentCore) -> String {
    preflight_token(&approved_structure_digest(&core.document), b"{\"request\":1}")
}

fn start(core: &mut DocumentCore, targets: Vec<ApprovedEditTargetV1>, token: &str) -> ApplyStart {
    let decoded = encoded(request(core, targets));
    core.apply_approved_template_edits_native("{}", &decoded, pages(vec![0]), token).unwrap()
}

fn ready(core: &mut DocumentCore, targets: Vec<ApprovedEditTargetV1>) -> ApplyPlan {
    let good = token(core);
    match start(core, targets, &good) {
        ApplyStart::Ready(plan) => plan,
        other => panic!("{:?}", other),
    }
}

fn replaced(text: &str, offset: usize, count: usize, added: &str) -> String {
    let chars: Vec<char> = text.chars().collect();
    let mut out: String = chars[..offset].iter().collect();
    out.push_str(added);
    out.extend(chars[offset + count..].iter());
    out
}

/// An engine that fails at the given actions, counted from zero.
struct Engine {
    core: DocumentCore,
    saved: Option<(String, String, Vec<String>)>,
    batch: bool,
    done: Vec<String>,
    failing: Vec<usize>,
}

impl Engine {
    fn new(core: DocumentCore, failing: Vec<usize>) -> Engine {
        let saved = Some(Engine::content_of(&core));
        Engine { core, saved, batch: false, done: Vec::new(), failing }
    }

    fn content_of(core: &DocumentCore) -> (String, String, Vec<String>) {
        let body = core.document.sections[0].paragraphs[1].text.clone();
        let inner = match &core.document.sections[0].paragraphs[2].controls[0] {
            Control::Table(entries) => entries.cells[1].paragraphs[0].text.clone(),
            _ => unreachable!(),
        };
        (body, inner, core.fields.iter().map(|entry| entry.value.clone()).collect())
    }

    fn content(&self) -> (String, String, Vec<String>) {
        Engine::content_of(&self.core)
    }

    fn set_content(&mut self, content: (String, String, Vec<String>)) {
        self.core.document.sections[0].paragraphs[1].text = content.0;
        if let Control::Table(entries) = &mut self.core.document.sections[0].paragraphs[2].controls[0] {
            entries.cells[1].paragraphs[0].text = content.1;
        }
        for (entry, value) in self.core.fields.iter_mut().zip(content.2) {
            entry.value = value;
        }
    }

    fn edit(&mut self, step: &EditStep) {
        let mut content = self.content();
        match step {
            EditStep::SetField { field_id, value } => {
                for entry in self.core.fields.iter_mut() {
                    if entry.field.field_id == *field_id {
                        entry.value = value.clone();
                    }
                }
                return;
            }
            EditStep::DeleteText { offset, count, .. } => {
                content.0 = replaced(&content.0, *offset, *count, "");
            }
            EditStep::InsertText { offset, text, .. } => {
                content.0 = replaced(&content.0, *offset, 0, text);
            }
            EditStep::DeleteCellText { offset, count, .. } => {
                content.1 = replaced(&content.1, *offset, *count, "");
            }
            EditStep::InsertCellText { offset, text, .. } => {
                content.1 = replaced(&content.1, *offset, 0, text);
            }
        }
        self.set_content(content);
    }

    fn act(&mut self, action: &EngineAction) -> Result<(), EngineFailure> {
        let name = match action {
            EngineAction::BeginBatch => "begin",
            EngineAction::Edit(_) => "edit",
            EngineAction::EndBatch => "end",
            EngineAction::ClearBatchMode => "clear",
            EngineAction::RestoreSnapshot { snapshot } => {
                assert_eq!(*snapshot, 9);
                "restore"
            }
            EngineAction::DiscardSnapshot { snapshot } => {
                assert_eq!(*snapshot, 9);
                "discard"
            }
        };
        self.done.push(name.to_string());
        if self.failing.contains(&(self.done.len() - 1)) {
            let text = format!("{} failed", name);
            let display = format!("오류: {}", text);
            let error = if name == "end" {
                HwpError::RenderError(text)
            } else {
                HwpError::Engine(text)
            };
            return Err(EngineFailure { error, display });
        }
        match action {
            EngineAction::BeginBatch => self.batch = true,
            EngineAction::Edit(step) => self.edit(step),
            EngineAction::EndBatch => self.batch = false,
            EngineAction::ClearBatchMode => self.batch = false,
            EngineAction::RestoreSnapshot { .. } => {
                let saved = self.saved.clone().unwrap();
                self.set_content(saved);
            }
            EngineAction::DiscardSnapshot { .. } => self.saved = None,
        }
        Ok(())
    }

    fn carry_out(&mut self, plan: ApplyPlan) -> ApplyRun {
        let mut run = ApplyRun::begin(plan, 9);
        loop {
            let reply = match run.action() {
                Some(action) => self.act(&action),
                None => break,
            };
            run.advance(reply);
        }
        run
    }
}

fn engine_failure(answer: Result<String, HwpError>) -> String {
    match answer {
        Err(HwpError::Engine(text)) => text,
        other => panic!("{:?}", other),
    }
}

#[test]
fn a_failed_check_is_answered_as_such() {
    let mut core = form();
    let good = token(&core);
    let target = body_target(&core, "picture", 3, "글");
    match start(&mut core, vec![target], &good) {
        ApplyStart::Refused(answer) => {
            let report: Value = serde_json::from_str(&answer).unwrap();
            assert_eq!(report["ok"], false);
            assert_eq!(report["rejectedTargets"][0]["reason"], "mixed-body-content");
            assert_eq!(report["preflightToken"], Value::Null);
        }
        other => panic!("{:?}", other),
    }
}

#[test]
fn a_stale_token_is_refused() {
    let mut core = form();
    for stale in ["", "sha256:0", &text_hash("")] {
        let target = body_target(&core, "title", 1, "글");
        match start(&mut core, vec![target], stale) {
            ApplyStart::Refused(answer) => assert_eq!(
                answer,
                "{\"changedPages\":[],\"ok\":false,\"overflowTargets\":[],\
                 \"reason\":\"stale-preflight\",\"rejectedTargets\":[],\"schemaVersion\":1,\
                 \"updated\":0,\"warnings\":[]}"
            ),
            other => panic!("{:?}", other),
        }
    }
}

#[test]
fn the_token_of_a_check_starts_the_application() {
    let mut core = form();
    let target = body_target(&core, "title", 1, "글");
    let decoded = encoded(request(&core, vec![target]));
    let given = core
        .preflight_approved_template_edits("{}", &decoded, pages(vec![4, 5]))
        .unwrap()
        .token
        .unwrap();
    let again = core
        .apply_approved_template_edits_native("{}", &decoded, pages(Vec::new()), &given)
        .unwrap();
    assert!(matches!(again, ApplyStart::Ready(_)));
    core.document.sections[0].paragraphs.push(paragraph("더"));
    let late = core
        .apply_approved_template_edits_native("{}", &decoded, pages(Vec::new()), &given)
        .unwrap();
    assert!(matches!(late, ApplyStart::Refused(_)));
}

#[test]
fn an_application_that_cannot_be_read_is_an_error() {
    let mut core = form();
    let broken = Err("EOF".to_string());
    match core.apply_approved_template_edits_native("", &broken, pages(Vec::new()), "") {
        Err(HwpError::RenderError(message)) => {
            assert_eq!(message, "승인 편집 요청 JSON 오류: EOF");
        }
        other => panic!("{:?}", other),
    }
}

#[test]
fn text_is_deleted_before_it_is_inserted() {
    let mut core = form();
    let target = body_target(&core, "title", 1, "새 제목");
    let plan = ready(&mut core, vec![target]);
    assert_eq!(plan.updated, 1);
    assert_eq!(plan.changed_paragraphs, vec![(0, 1)]);
    assert_eq!(plan.script.len(), 2);
    assert!(matches!(
        plan.script[0],
        EditStep::DeleteText { section_index: 0, paragraph_index: 1, offset: 0, count: 6 }
    ));
    match &plan.script[1] {
        EditStep::InsertText { section_index, paragraph_index, offset, text } => {
            assert_eq!((*section_index, *paragraph_index, *offset), (0, 1, 0));
            assert_eq!(text, "새 제목");
        }
        other => panic!("{:?}", other),
    }
}

#[test]
fn cells_lose_their_whole_untrimmed_text() {
    let mut core = form();
    let target = cell_target(&core, "name", 0, 1, "");
    let plan = ready(&mut core, vec![target]);
    assert_eq!(plan.script.len(), 1);
    assert!(matches!(
        plan.script[0],
        EditStep::DeleteCellText {
            section_index: 0,
            paragraph_index: 2,
            control_index: 0,
            cell_index: 1,
            cell_paragraph: 0,
            offset: 0,
            count: 5,
        }
    ));
}

#[test]
fn empty_places_are_only_written_to() {
    let mut core = form();
    core.document.sections[0].paragraphs[1].text.clear();
    if let Control::Table(entries) = &mut core.document.sections[0].paragraphs[2].controls[0] {
        entries.cells[1].paragraphs[0].text.clear();
    }
    let title = body_target(&core, "title", 1, "글");
    let plan = ready(&mut core, vec![title]);
    assert_eq!(plan.script.len(), 1);
    assert!(matches!(plan.script[0], EditStep::InsertText { .. }));
    let name = cell_target(&core, "name", 0, 1, "글");
    let plan = ready(&mut core, vec![name]);
    assert_eq!(plan.script.len(), 1);
    assert!(matches!(plan.script[0], EditStep::InsertCellText { .. }));
}

#[test]
fn an_edit_writes_exactly_its_value() {
    let mut core = form();
    let title = body_target(&core, "title", 1, "새 제목");
    let plan = ready(&mut core, vec![title]);
    let mut engine = Engine::new(form(), Vec::new());
    engine.carry_out(plan);
    assert_eq!(engine.content().0, "새 제목");
    let name = cell_target(&core, "name", 0, 1, " 임꺽정");
    let plan = ready(&mut core, vec![name]);
    let mut engine = Engine::new(form(), Vec::new());
    engine.carry_out(plan);
    assert_eq!(engine.content().1, " 임꺽정");
    assert_eq!(engine.content().0, "제목: 미정");
}

#[test]
fn a_run_takes_every_step_in_one_batch() {
    let mut core = form();
    let targets = vec![
        field_target("city", 11, "서울", "부산"),
        field_target("memo", 14, "", ""),
    ];
    let plan = ready(&mut core, targets);
    assert_eq!(plan.updated, 1);
    let mut engine = Engine::new(form(), Vec::new());
    let run = engine.carry_out(plan);
    assert_eq!(engine.done, vec!["begin", "edit", "end", "discard"]);
    assert_eq!(engine.content().2[0], "부산");
    assert!(engine.saved.is_none());
    assert!(!engine.batch);
    assert_eq!(run.changed_paragraphs(), vec![(0, 1), (0, 3)]);
    assert_eq!(
        run.conclude(vec![2, 3]).unwrap(),
        "{\"changedPages\":[2,3],\"ok\":true,\"overflowTargets\":[],\"reason\":null,\
         \"rejectedTargets\":[],\"schemaVersion\":1,\"updated\":1,\
         \"warnings\":[{\"code\":\"changed-pages-conservative\",\"targetId\":null}]}"
    );
}

#[test]
fn applying_again_changes_nothing() {
    let mut core = form();
    core.document.sections[0].paragraphs[1].text = "새 제목".to_string();
    let mut target = body_target(&core, "title", 1, "새 제목");
    if let ApprovedEditTargetV1::BodyPlaceholder { expected_text_hash, .. } = &mut target {
        *expected_text_hash = text_hash("제목: 미정");
    }
    let plan = ready(&mut core, vec![target]);
    assert_eq!(plan.updated, 0);
    assert!(plan.script.is_empty());
    let mut engine = Engine::new(form(), Vec::new());
    let run = engine.carry_out(plan);
    assert_eq!(engine.done, vec!["begin", "end", "discard"]);
    assert!(run.changed_paragraphs().is_empty());
    let report: Value = serde_json::from_str(&run.conclude(vec![7]).unwrap()).unwrap();
    assert_eq!(report["updated"], 0);
    assert_eq!(report["changedPages"].as_array().unwrap().len(), 0);
}

#[test]
fn a_failed_step_is_rolled_back() {
    let mut core = form();
    for failing in [1usize, 2, 3] {
        let target = body_target(&core, "title", 1, "새 제목");
        let plan = ready(&mut core, vec![target]);
        let mut engine = Engine::new(form(), vec![failing]);
        let before = engine.content();
        let run = engine.carry_out(plan);
        assert_eq!(engine.content(), before);
        assert!(!engine.batch);
        assert!(engine.saved.is_none());
        let tail = &engine.done[failing + 1..];
        assert_eq!(tail, ["clear", "restore", "discard"]);
        assert!(run.changed_paragraphs().is_empty());
        match (failing, run.conclude(Vec::new())) {
            (3, Err(HwpError::RenderError(text))) => assert_eq!(text, "end failed"),
            (1 | 2, Err(HwpError::Engine(text))) => assert_eq!(text, "edit failed"),
            other => panic!("{:?}", other),
        }
    }
}

#[test]
fn a_batch_that_does_not_begin_is_not_rolled_back() {
    let mut core = form();
    let target = body_target(&core, "title", 1, "새 제목");
    let plan = ready(&mut core, vec![target]);
    let mut engine = Engine::new(form(), vec![0]);
    let before = engine.content();
    let run = engine.carry_out(plan);
    assert_eq!(engine.done, vec!["begin", "discard"]);
    assert_eq!(engine.content(), before);
    assert_eq!(engine_failure(run.conclude(Vec::new())), "begin failed");
}

#[test]
fn a_failed_rollback_is_reported_with_its_cause() {
    let mut core = form();
    let target = body_target(&core, "title", 1, "새 제목");
    let plan = ready(&mut core, vec![target]);
    let mut engine = Engine::new(form(), vec![2, 4]);
    let run = engine.carry_out(plan);
    assert_eq!(engine.done, vec!["begin", "edit", "edit", "clear", "restore", "discard"]);
    match run.conclude(vec![1]) {
        Err(HwpError::RenderError(message)) => assert_eq!(
            message,
            "승인 템플릿 적용 실패 후 rollback도 실패했습니다: 오류: edit failed; 오류: restore failed"
        ),
        other => panic!("{:?}", other),
    }
}

#[test]
fn the_snapshot_is_discarded_once_and_last() {
    let mut core = form();
    for failing in [vec![], vec![0], vec![1], vec![2], vec![3], vec![1, 3], vec![2, 4], vec![3, 5]] {
        let target = body_target(&core, "title", 1, "새 제목");
        let plan = ready(&mut core, vec![target]);
        let mut engine = Engine::new(form(), failing);
        engine.carry_out(plan);
        assert_eq!(engine.done.last().unwrap(), "discard");
        assert_eq!(engine.done.iter().filter(|name| *name == "discard").count(), 1);
    }
}

/// Applies a request and gives the document after it.
fn applied(
    mut core: DocumentCore,
    decoded: &Result<EncodedRequest, String>,
    given: &str,
) -> DocumentCore {
    let start = core
        .apply_approved_template_edits_native("{}", decoded, pages(Vec::new()), given)
        .unwrap();
    match start {
        ApplyStart::Ready(plan) => {
            let mut engine = Engine::new(core, Vec::new());
            engine.carry_out(plan);
            engine.core
        }
        other => panic!("{:?}", other),
    }
}

#[test]
fn an_applied_request_passes_again_and_changes_nothing() {
    let base = form();
    for targets in [
        vec![body_target(&base, "title", 1, " 새 제목 ")],
        vec![cell_target(&base, "name", 0, 1, "임꺽정")],
        vec![field_target("city", 11, "서울", "부산"), field_target("memo", 14, "", "없음")],
    ] {
        let decoded = encoded(request(&base, targets));
        let given = token(&base);
        let mut after = applied(form(), &decoded, &given);
        after.page_count = 5;
        assert_ne!(Engine::content_of(&after), Engine::content_of(&base));
        let again = after
            .preflight_approved_template_edits("{}", &decoded, pages(Vec::new()))
            .unwrap();
        assert!(again.report.ok, "{:?}", again);
        assert_eq!(again.token, Some(given.clone()));
        assert!(again.report.targets.iter().all(|summary| !summary.changed));
        match after
            .apply_approved_template_edits_native("{}", &decoded, pages(Vec::new()), &given)
            .unwrap()
        {
            ApplyStart::Ready(plan) => {
                assert_eq!(plan.updated, 0);
                assert!(plan.script.is_empty());
            }
            other => panic!("{:?}", other),
        }
    }
}

#[test]
fn an_untrimmed_cell_value_is_not_recognised_again() {
    let base = form();
    let decoded = encoded(request(&base, vec![cell_target(&base, "name", 0, 1, " 임꺽정")]));
    let mut after = applied(form(), &decoded, &token(&base));
    let again =
        after.preflight_approved_template_edits("{}", &decoded, pages(Vec::new())).unwrap();
    assert_eq!(again.report.rejected_targets[0].reason, RejectReason::TargetTextMismatch);
}

#[test]
fn a_cell_that_borders_itself_has_new_labels_after_an_edit() {
    let mut base = form();
    let mut before = form();
    for core in [&mut base, &mut before] {
        if let Control::Table(entries) = &mut core.document.sections[0].paragraphs[2].controls[0] {
            entries.cells[1].row_span = 2;
            entries.cells[2].col_span = 1;
        }
    }
    let decoded = encoded(request(&base, vec![cell_target(&base, "name", 0, 1, "임꺽정")]));
    let mut after = applied(before, &decoded, &token(&base));
    let again =
        after.preflight_approved_template_edits("{}", &decoded, pages(Vec::new())).unwrap();
    assert_eq!(again.report.rejected_targets[0].reason, RejectReason::AdjacentLabelMismatch);
}

#[test]
fn a_protected_document_refuses_even_what_was_applied() {
    let base = form();
    let decoded = encoded(request(&base, vec![body_target(&base, "title", 1, "새 제목")]));
    let mut after = applied(form(), &decoded, &token(&base));
    after.page_count = 9;
    after.document.sections[0].paragraphs[3].controls =
        vec![Control::Picture, Control::Picture, Control::Picture, Control::Picture, Control::Picture];
    let again =
        after.preflight_approved_template_edits("{}", &decoded, pages(Vec::new())).unwrap();
    assert!(!again.report.ok);
}

#[test]
fn the_token_of_another_request_is_stale() {
    let mut core = form();
    let target = || field_target("city", 11, "서울", "부산");
    let first = Ok(EncodedRequest {
        request: request(&core, vec![target()]),
        encoding: Ok(b"first".to_vec()),
    });
    let second = Ok(EncodedRequest {
        request: request(&core, vec![target()]),
        encoding: Ok(b"second".to_vec()),
    });
    let given = core
        .preflight_approved_template_edits("{}", &first, pages(Vec::new()))
        .unwrap()
        .token
        .unwrap();
    let own = core.apply_approved_template_edits_native(" {} ", &first, pages(vec![1]), &given);
    assert!(matches!(own, Ok(ApplyStart::Ready(_))));
    match core.apply_approved_template_edits_native("{}", &second, pages(Vec::new()), &given) {
        Ok(ApplyStart::Refused(answer)) => assert!(answer.contains("stale-preflight")),
        other => panic!("{:?}", other),
    }
}

#[test]
fn a_run_takes_only_the_steps_of_its_script() {
    let mut core = form();
    for failing in [vec![], vec![0], vec![1], vec![2]] {
        let target = body_target(&core, "title", 1, "제목: 미정");
        let plan = ready(&mut core, vec![target]);
        let mut engine = Engine::new(form(), failing);
        engine.carry_out(plan);
        assert!(!engine.done.contains(&"edit".to_string()));
    }
}
