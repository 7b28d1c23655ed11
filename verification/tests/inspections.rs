use approved_template::digest::approved_structure_digest;
use approved_template::label::{
    adjacent_label_digest, body_adjacent_label_digest, text_hash,
};
use approved_template::model::{
    Cell, CommonObjAttr, Control, Document, DocumentCore, Field, FieldEntry, FileFormat, Padding,
    PageDef, Paragraph, Section, SectionDef, Table, TableGrid, TablePageBreak, VerticalAlign,
};
use approved_template::inspect::{source_format_name, MAX_INSPECTION_CANDIDATES};
use approved_template::model::ShapeObject;
use approved_template::protection::{
    complexity_stats, protection_reasons, protection_status, ComplexityStats, ProtectionReason,
    ProtectionStatus,
};
use serde_json::Value;

fn padding() -> Padding {
    Padding { left: 0, right: 0, top: 0, bottom: 0 }
}

fn paragraph(text: &str) -> Paragraph {
    Paragraph {
        text: text.to_string(),
        para_shape_id: 0,
        style_id: 0,
        char_shape_ids: Vec::new(),
        controls: Vec::new(),
    }
}

fn paragraph_with(text: &str, controls: Vec<Control>) -> Paragraph {
    let mut made = paragraph(text);
    made.controls = controls;
    made
}

fn cell(row: u16, col: u16, row_span: u16, col_span: u16, text: &str) -> Cell {
    Cell {
        row,
        col,
        row_span,
        col_span,
        width: 10000,
        padding: padding(),
        border_fill_id: 0,
        text_direction: 0,
        vertical_align: VerticalAlign::Top,
        apply_inner_margin: false,
        is_header: false,
        cell_protect: false,
        paragraphs: vec![paragraph(text)],
    }
}

fn table(row_count: u16, col_count: u16, cells: Vec<Cell>) -> Table {
    Table {
        attr: 0,
        row_count,
        col_count,
        cell_spacing: 0,
        padding: padding(),
        border_fill_id: 0,
        page_break: TablePageBreak::NoBreak,
        repeat_header: false,
        common: CommonObjAttr { horizontal_offset: 0, width: 0, treat_as_char: false },
        zones: Vec::new(),
        cells,
    }
}

fn section(paragraphs: Vec<Paragraph>) -> Section {
    Section {
        section_def: SectionDef {
            flags: 0,
            column_spacing: 0,
            line_grid: 0,
            char_grid: 0,
            default_tab_spacing: 0,
            text_direction: 0,
            page_def: PageDef {
                width: 0,
                height: 0,
                margin_left: 0,
                margin_right: 0,
                margin_top: 0,
                margin_bottom: 0,
                margin_header: 0,
                margin_footer: 0,
                margin_gutter: 0,
                attr: 0,
                landscape: false,
            },
        },
        paragraphs,
    }
}

fn grid(index: usize, section: usize, paragraph: usize, control: usize) -> TableGrid {
    TableGrid { index, container_path: Vec::new(), section, paragraph, control }
}

fn document(sections: Vec<Section>, tables: Vec<TableGrid>) -> Document {
    Document { sections, bin_data_count: 0, char_shape_sizes: Vec::new(), tables }
}

fn field(field_id: u32, ctrl_id: u32, editable: bool, value: &str) -> FieldEntry {
    FieldEntry {
        field: Field { field_id, ctrl_id },
        editable_in_form: editable,
        value: value.to_string(),
        section_index: 0,
        para_index: 0,
    }
}

fn opened_with(document: Document, page_count: u32) -> DocumentCore {
    DocumentCore { document, source_format: FileFormat::Hwp, page_count, fields: Vec::new() }
}

fn stats(tables: usize, nested: usize, pictures: usize, shapes: usize) -> ComplexityStats {
    ComplexityStats {
        table_count: tables,
        nested_table_count: nested,
        picture_count: pictures,
        shape_count: shapes,
    }
}

fn inspected(core: &DocumentCore) -> Value {
    assert!(core.document.is_well_formed());
    serde_json::from_str(&core.inspect_approved_template_json()).unwrap()
}

#[test]
fn an_inspection_lists_what_can_be_edited() {
    let entries = table(
        2,
        2,
        vec![cell(0, 0, 1, 1, "이름"), cell(0, 1, 1, 1, "홍\u{fffc}"), cell(1, 0, 1, 2, "비고")],
    );
    let labels = adjacent_label_digest(&entries, 0, 0);
    let mut opened = opened_with(
        document(
            vec![
                section(vec![
                    paragraph_with("제목", vec![Control::SectionDef]),
                    paragraph(""),
                    paragraph_with("표", vec![Control::Table(entries)]),
                ]),
                section(vec![paragraph("끝")]),
            ],
            vec![grid(4, 0, 2, 0)],
        ),
        2,
    );
    opened.document.bin_data_count = 3;
    opened.fields =
        vec![field(5, 1, true, "값"), field(6, 0, true, "없음"), field(7, 1, false, "고정")];
    let report = inspected(&opened);
    assert_eq!(report["schemaVersion"], 1);
    assert_eq!(report["format"], "hwp");
    assert_eq!(report["structureDigest"], approved_structure_digest(&opened.document).as_str());
    assert_eq!(report["pageCount"], 2);
    assert_eq!(report["sectionCount"], 2);
    assert_eq!(report["paragraphCount"], 4);
    assert_eq!(report["topLevelTableCount"], 1);
    assert_eq!(report["nestedTableCount"], 0);
    assert_eq!(report["pictureCount"], 0);
    assert_eq!(report["shapeCount"], 0);
    assert_eq!(report["binDataCount"], 3);
    assert_eq!(report["truncated"], false);
    assert_eq!(
        report["protection"].to_string(),
        "{\"nestedTableCount\":0,\"pageCount\":2,\"pictureCount\":0,\"reasons\":[],\
         \"schemaVersion\":1,\"shapeCount\":0,\"status\":\"standard\",\"tableCount\":1}"
    );
    assert_eq!(
        report["nativeFields"].to_string(),
        format!(
            "[{{\"editable\":true,\"fieldId\":5,\"valueHash\":\"{}\"}},\
             {{\"editable\":false,\"fieldId\":7,\"valueHash\":\"{}\"}}]",
            text_hash("값"),
            text_hash("고정")
        )
    );
    let body = report["bodyCandidates"].as_array().unwrap();
    assert_eq!(body.len(), 2);
    assert_eq!(
        body[0].to_string(),
        format!(
            "{{\"adjacentLabelDigest\":\"{}\",\"paragraphIndex\":0,\"sectionIndex\":0,\
             \"textHash\":\"{}\"}}",
            body_adjacent_label_digest(&opened.document.sections[0].paragraphs, 0),
            text_hash("제목")
        )
    );
    assert_eq!(body[1]["sectionIndex"], 1);
    let cells = report["tableCells"].as_array().unwrap();
    assert_eq!(cells.len(), 3);
    assert_eq!(
        cells[0].to_string(),
        format!(
            "{{\"adjacentLabelDigest\":\"{}\",\"blockedReasons\":[],\"col\":0,\"colSpan\":1,\
             \"mergedAnchor\":{{\"col\":0,\"row\":0}},\"resolvedAddress\":{{\"cellIndex\":0,\
             \"controlIndex\":0,\"paragraphIndex\":2,\"sectionIndex\":0}},\"row\":0,\
             \"rowSpan\":1,\"safe\":true,\"tableIndex\":4,\"textHash\":\"{}\"}}",
            labels,
            text_hash("이름")
        )
    );
    assert_eq!(cells[1]["safe"], false);
    assert_eq!(cells[1]["blockedReasons"].to_string(), "[\"mixed-control-content\"]");
    assert_eq!(cells[2]["colSpan"], 2);
}

#[test]
fn an_inspection_holds_no_text() {
    let secret = "비밀스러운 글";
    let mut opened = opened_with(
        document(
            vec![section(vec![
                paragraph(secret),
                paragraph_with("", vec![Control::Table(table(1, 1, vec![cell(0, 0, 1, 1, secret)]))]),
            ])],
            vec![grid(0, 0, 1, 0)],
        ),
        1,
    );
    opened.fields = vec![field(1, 1, true, secret)];
    assert!(!opened.inspect_approved_template_json().contains(secret));
    let report = opened.inspect_approved_template();
    let mut digests = vec![report.structure_digest];
    for entry in report.native_fields {
        digests.push(entry.value_hash);
    }
    for entry in report.body_candidates {
        digests.push(entry.text_hash);
        digests.push(entry.adjacent_label_digest);
    }
    for entry in report.table_cells {
        digests.push(entry.text_hash);
        digests.push(entry.adjacent_label_digest);
    }
    assert_eq!(digests.len(), 6);
    for digest in digests {
        assert_eq!(digest.len(), 71);
        assert!(digest.starts_with("sha256:"));
    }
}

#[test]
fn nested_tables_and_lost_tables_are_not_listed() {
    let mut nested = grid(0, 0, 0, 0);
    nested.container_path = vec![2];
    let opened = opened_with(
        document(
            vec![section(vec![paragraph_with(
                "",
                vec![Control::Table(table(1, 1, vec![cell(0, 0, 1, 1, "a")]))],
            )])],
            vec![nested, grid(1, 0, 0, 3)],
        ),
        1,
    );
    let report = opened.inspect_approved_template();
    assert!(report.table_cells.is_empty());
    assert_eq!(report.top_level_table_count, 1);
}

#[test]
fn long_lists_are_cut() {
    let texts: Vec<Paragraph> =
        (0..MAX_INSPECTION_CANDIDATES - 1).map(|i| paragraph(&format!("글 {}", i))).collect();
    let mut opened = opened_with(document(vec![section(texts)], Vec::new()), 1);
    assert!(!opened.inspect_approved_template().truncated);
    opened.document.sections.push(section(vec![paragraph("마지막"), paragraph("하나 더")]));
    let report = opened.inspect_approved_template();
    assert!(report.truncated);
    assert_eq!(report.body_candidates.len(), MAX_INSPECTION_CANDIDATES);
    assert_eq!(report.body_candidates[MAX_INSPECTION_CANDIDATES - 1].section_index, 1);
    assert_eq!(report.body_candidates[MAX_INSPECTION_CANDIDATES - 1].paragraph_index, 0);
    assert_eq!(report.paragraph_count, MAX_INSPECTION_CANDIDATES + 1);
}

#[test]
fn formats_have_names() {
    for (format, name) in [
        (FileFormat::Hwp, "hwp"),
        (FileFormat::Hwpx, "hwpx"),
        (FileFormat::Hwp3, "hwp3"),
        (FileFormat::Hml, "hml"),
        (FileFormat::DrmProtected, "drm-protected"),
        (FileFormat::Empty, "empty"),
        (FileFormat::Unknown, "unknown"),
    ] {
        assert_eq!(source_format_name(format), name);
    }
}

#[test]
fn complexity_is_counted_at_every_depth() {
    let inner = table(1, 1, vec![cell(0, 0, 1, 1, "")]);
    let mut outer = table(1, 1, vec![cell(0, 0, 1, 1, "")]);
    outer.cells[0].paragraphs[0].controls = vec![
        Control::Table(inner),
        Control::Picture,
        Control::Footnote(vec![paragraph_with(
            "",
            vec![Control::Table(table(1, 1, Vec::new()))],
        )]),
    ];
    let made = document(
        vec![
            section(vec![paragraph_with(
                "",
                vec![
                    Control::Table(outer),
                    Control::Shape(ShapeObject::Picture),
                    Control::Shape(ShapeObject::Drawing),
                    Control::Header(vec![paragraph_with("", vec![Control::Picture])]),
                    Control::Footer(vec![paragraph_with("", vec![Control::Picture])]),
                    Control::Endnote(vec![paragraph_with("", vec![Control::Picture])]),
                    Control::Equation,
                ],
            )]),
            section(vec![paragraph_with("", vec![Control::Table(table(1, 1, Vec::new()))])]),
        ],
        Vec::new(),
    );
    assert_eq!(complexity_stats(&made), stats(4, 1, 5, 2));
}

#[test]
fn protection_has_thresholds() {
    assert_eq!(protection_reasons(3, stats(11, 0, 4, 4)), Vec::<ProtectionReason>::new());
    assert_eq!(
        protection_reasons(4, stats(12, 1, 5, 5)),
        vec![
            ProtectionReason::ManyPages,
            ProtectionReason::ManyTables,
            ProtectionReason::ManyImages,
            ProtectionReason::NestedTables,
            ProtectionReason::MixedDrawingObjects,
        ]
    );
    let names: Vec<&str> =
        protection_reasons(4, stats(12, 1, 5, 5)).iter().map(|reason| reason.name()).collect();
    assert_eq!(
        names,
        vec!["many-pages", "many-tables", "many-images", "nested-tables", "mixed-drawing-objects"]
    );
    assert_eq!(protection_status(4, stats(11, 0, 4, 4)), ProtectionStatus::Standard);
    assert_eq!(protection_status(1, stats(19, 0, 0, 0)), ProtectionStatus::Standard);
    assert_eq!(protection_status(1, stats(20, 0, 0, 0)), ProtectionStatus::Protected);
    assert_eq!(protection_status(1, stats(1, 1, 0, 0)), ProtectionStatus::Protected);
    assert_eq!(protection_status(4, stats(0, 0, 5, 0)), ProtectionStatus::Protected);
    assert_eq!(protection_status(1, stats(12, 0, 0, 5)), ProtectionStatus::Protected);
    assert_eq!(ProtectionStatus::Standard.name(), "standard");
    assert_eq!(ProtectionStatus::Protected.name(), "protected");
}

#[test]
fn protection_is_not_lost_by_growing() {
    assert_eq!(protection_status(4, stats(12, 0, 0, 0)), ProtectionStatus::Protected);
    for more in [stats(13, 0, 0, 0), stats(12, 1, 0, 0), stats(12, 0, 9, 0), stats(12, 0, 0, 9)] {
        assert_eq!(protection_status(5, more), ProtectionStatus::Protected);
    }
}

#[test]
fn protection_does_not_see_text() {
    let made = |text: &str| {
        document(
            vec![section(vec![
                paragraph_with(text, vec![Control::Table(table(1, 1, vec![cell(0, 0, 1, 1, text)]))]),
                paragraph_with(text, vec![Control::Header(vec![paragraph(text)]), Control::Picture]),
            ])],
            Vec::new(),
        )
    };
    assert_eq!(complexity_stats(&made("")), complexity_stats(&made("긴 글")));
    assert_eq!(complexity_stats(&made("긴 글")), stats(1, 0, 1, 0));
}
