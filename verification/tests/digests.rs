use approved_template::digest::{
    approved_structure_digest, digest_string, hash_control, hash_paragraphs, prefixed_sha256,
};
use approved_template::label::{
    adjacent_label_digest, body_adjacent_label_digest, preflight_token, text_hash,
};
use approved_template::model::{
    Cell, CommonObjAttr, Control, Document, Field, Padding, PageDef, Paragraph, Section, SectionDef,
    ShapeObject, Table, TableGrid, TablePageBreak, TableZone, VerticalAlign,
};

fn padding() -> Padding {
    Padding { left: 0, right: 0, top: 0, bottom: 0 }
}

fn paragraph(text: &str) -> Paragraph {
    Paragraph {
        text: text.to_string(),
        para_shape_id: 0,
        style_id: 0,
        char_shape_ids: Vec::new(),
        controls: Vec::new(),
    }
}

fn paragraph_with(text: &str, controls: Vec<Control>) -> Paragraph {
    let mut made = paragraph(text);
    made.controls = controls;
    made
}

fn cell(row: u16, col: u16, row_span: u16, col_span: u16, text: &str) -> Cell {
    Cell {
        row,
        col,
        row_span,
        col_span,
        width: 10000,
        padding: padding(),
        border_fill_id: 0,
        text_direction: 0,
        vertical_align: VerticalAlign::Top,
        apply_inner_margin: false,
        is_header: false,
        cell_protect: false,
        paragraphs: vec![paragraph(text)],
    }
}

fn table(row_count: u16, col_count: u16, cells: Vec<Cell>) -> Table {
    Table {
        attr: 0,
        row_count,
        col_count,
        cell_spacing: 0,
        padding: padding(),
        border_fill_id: 0,
        page_break: TablePageBreak::NoBreak,
        repeat_header: false,
        common: CommonObjAttr { horizontal_offset: 0, width: 0, treat_as_char: false },
        zones: Vec::new(),
        cells,
    }
}

fn section(paragraphs: Vec<Paragraph>) -> Section {
    Section {
        section_def: SectionDef {
            flags: 0,
            column_spacing: 0,
            line_grid: 0,
            char_grid: 0,
            default_tab_spacing: 0,
            text_direction: 0,
            page_def: PageDef {
                width: 0,
                height: 0,
                margin_left: 0,
                margin_right: 0,
                margin_top: 0,
                margin_bottom: 0,
                margin_header: 0,
                margin_footer: 0,
                margin_gutter: 0,
                attr: 0,
                landscape: false,
            },
        },
        paragraphs,
    }
}

fn grid(index: usize, section: usize, paragraph: usize, control: usize) -> TableGrid {
    TableGrid { index, container_path: Vec::new(), section, paragraph, control }
}

fn document(sections: Vec<Section>, tables: Vec<TableGrid>) -> Document {
    Document { sections, bin_data_count: 0, char_shape_sizes: Vec::new(), tables }
}

/// A document with every kind of control.
fn full() -> Document {
    let mut first = cell(0, 0, 1, 1, "이름");
    first.width = 20000;
    first.padding = Padding { left: 1, right: 2, top: 3, bottom: 4 };
    first.border_fill_id = 5;
    let mut second = cell(0, 1, 1, 1, "홍길동");
    second.width = 20001;
    second.padding = Padding { left: -1, right: -2, top: -3, bottom: -4 };
    second.border_fill_id = 6;
    second.text_direction = 1;
    second.vertical_align = VerticalAlign::Center;
    second.apply_inner_margin = true;
    second.is_header = true;
    second.cell_protect = true;
    let mut inner = paragraph_with("그림", vec![Control::Picture]);
    inner.para_shape_id = 9;
    inner.style_id = 8;
    second.paragraphs.push(inner);
    let mut third = cell(1, 0, 1, 2, "비고");
    third.width = 65536;
    third.text_direction = 2;
    third.vertical_align = VerticalAlign::Bottom;
    third.apply_inner_margin = true;
    third.cell_protect = true;
    let mut made = table(2, 2, vec![first, second, third]);
    made.attr = 0x1122_3344;
    made.cell_spacing = -1;
    made.padding = Padding { left: 141, right: 142, top: -5, bottom: 6 };
    made.border_fill_id = 7;
    made.page_break = TablePageBreak::RowBreak;
    made.repeat_header = true;
    made.common = CommonObjAttr { horizontal_offset: 9, width: 40000, treat_as_char: true };
    made.zones = vec![TableZone {
        start_col: 0,
        start_row: 1,
        end_col: 2,
        end_row: 3,
        border_fill_id: 4,
    }];
    let mut title = paragraph_with("제목", vec![Control::SectionDef, Control::ColumnDef]);
    title.para_shape_id = 3;
    title.style_id = 1;
    let mut body = paragraph_with(
        "본문",
        vec![
            Control::Table(made),
            Control::Shape(ShapeObject::Drawing),
            Control::Picture,
            Control::Header(vec![paragraph("머리말")]),
            Control::Footer(vec![paragraph("꼬리말"), paragraph("")]),
            Control::Footnote(Vec::new()),
            Control::Endnote(vec![paragraph("미주")]),
            Control::AutoNumber,
            Control::NewNumber,
            Control::PageNumberPos,
            Control::Bookmark,
            Control::Hyperlink,
            Control::Ruby,
            Control::CharOverlap,
            Control::PageHide,
            Control::HiddenComment,
            Control::Equation,
            Control::Field(Field { field_id: 0xAABB_CCDD, ctrl_id: 0x0102_0304 }),
            Control::Form,
            Control::Unknown,
        ],
    );
    body.para_shape_id = 0x0102;
    body.style_id = 2;
    let mut only = section(vec![title, body]);
    only.section_def.flags = 1;
    only.section_def.column_spacing = -2;
    only.section_def.line_grid = 3;
    only.section_def.char_grid = 4;
    only.section_def.default_tab_spacing = 8000;
    only.section_def.text_direction = 1;
    only.section_def.page_def = PageDef {
        width: 59528,
        height: 84186,
        margin_left: 8504,
        margin_right: 8505,
        margin_top: 5668,
        margin_bottom: 4252,
        margin_header: 4253,
        margin_footer: 4254,
        margin_gutter: 7,
        attr: 8,
        landscape: true,
    };
    let mut made = document(vec![only], vec![grid(0, 0, 1, 0)]);
    made.bin_data_count = 2;
    made
}

fn labelled() -> Table {
    table(2, 2, vec![cell(0, 0, 1, 1, " 이름"), cell(0, 1, 1, 1, "홍길동"), cell(1, 0, 1, 2, "비고")])
}

#[test]
fn digests_are_sha256_in_hexadecimal() {
    assert_eq!(
        digest_string(b"abc"),
        "sha256:ba7816bf8f01cfea414140de5dae2223b00361a396177a9cb410ff61f20015ad"
    );
    assert_eq!(
        digest_string(b""),
        "sha256:e3b0c44298fc1c149afbf4c8996fb92427ae41e4649b934ca495991b7852b855"
    );
    assert_eq!(prefixed_sha256(&[0, 1, 0xfe]), "sha256:0001fe");
}

#[test]
fn texts_are_hashed_under_their_own_tag() {
    assert_eq!(
        text_hash(""),
        "sha256:bb30323a60a1f971ba465b555480dee8f9cebc1344d4bd25dc9f021b35ecf7ee"
    );
    assert_eq!(
        text_hash("이름"),
        "sha256:39ff6185a1d2fe27d9425953a3441577a63f3f785e3b5a33cb4801bc8aff8f09"
    );
}

#[test]
fn structure_digests_cover_every_control() {
    assert_eq!(
        approved_structure_digest(&full()),
        "sha256:b8c4aea6650842e467210ff376ddc5a97d3a7ce13defa664792fbe8021cd3c73"
    );
    assert_eq!(
        approved_structure_digest(&document(Vec::new(), Vec::new())),
        "sha256:dbe06a0b01f49a2e6c7aef399e94a5864e8e0899ae704cf8348fd897172d65a2"
    );
    assert_eq!(
        approved_structure_digest(&document(vec![section(vec![paragraph("a")])], Vec::new())),
        "sha256:ee6e8c63dad3cb040a1b5b061db11b85caeacf0e2ac54964b4208ed137c6a0e7"
    );
}

#[test]
fn structure_digests_ignore_text() {
    let before = approved_structure_digest(&full());
    let mut edited = full();
    edited.tables.clear();
    edited.char_shape_sizes = vec![1];
    edited.sections[0].paragraphs[0].text = "다른 제목".to_string();
    edited.sections[0].paragraphs[1].char_shape_ids = vec![3];
    if let Control::Table(inner) = &mut edited.sections[0].paragraphs[1].controls[0] {
        inner.cells[1].paragraphs[1].text = "다른 값".to_string();
    }
    if let Control::Header(inner) = &mut edited.sections[0].paragraphs[1].controls[3] {
        inner[0].text.clear();
    }
    assert_eq!(approved_structure_digest(&edited), before);
}

#[test]
fn structure_digests_see_structure() {
    let before = approved_structure_digest(&full());
    let mut wider = full();
    if let Control::Table(inner) = &mut wider.sections[0].paragraphs[1].controls[0] {
        inner.cells[0].width += 1;
    }
    assert_ne!(approved_structure_digest(&wider), before);
    let mut longer = full();
    longer.sections[0].paragraphs.push(paragraph(""));
    assert_ne!(approved_structure_digest(&longer), before);
    let mut restyled = full();
    restyled.sections[0].paragraphs[0].style_id = 0;
    assert_ne!(approved_structure_digest(&restyled), before);
    let mut fuller = full();
    fuller.bin_data_count = 3;
    assert_ne!(approved_structure_digest(&fuller), before);
}

#[test]
fn label_digests_are_of_the_four_neighbours() {
    assert_eq!(
        adjacent_label_digest(&labelled(), 0, 1),
        "sha256:96a4fd088b9d51bff395e4fc0c7ff48787cedfe12ad15b3a88f93ec032dbd332"
    );
    let mut gap = labelled();
    gap.cells.pop();
    assert_eq!(
        adjacent_label_digest(&gap, 0, 1),
        "sha256:16acea05650a116a2af39dc17f838c448b4f410414c414d66f516997ebcaa02e"
    );
}

#[test]
fn label_digests_ignore_the_cell_itself() {
    let before = adjacent_label_digest(&labelled(), 0, 1);
    let mut edited = labelled();
    edited.cells[1].paragraphs[0].text = "임꺽정".to_string();
    assert_eq!(adjacent_label_digest(&edited, 0, 1), before);
    edited.cells[0].paragraphs[0].text = "성명".to_string();
    assert_ne!(adjacent_label_digest(&edited, 0, 1), before);
}

#[test]
fn label_digests_of_far_coordinates_end_at_the_grid() {
    let made = table(u16::MAX, u16::MAX, Vec::new());
    assert_eq!(
        adjacent_label_digest(&made, u16::MAX, u16::MAX),
        adjacent_label_digest(&made, u16::MAX - 1, u16::MAX - 1)
    );
}

#[test]
fn body_label_digests_are_of_the_paragraphs_around() {
    let mut named = paragraph("이름");
    named.para_shape_id = 3;
    named.style_id = 1;
    let mut paragraphs = vec![named, paragraph("홍길동")];
    assert_eq!(
        body_adjacent_label_digest(&paragraphs, 1),
        "sha256:8a070cebe3e3a5a6c00e40d86f0522e3adbf2dacd4ab11a00fdd3d23ef8ccf9d"
    );
    paragraphs.push(paragraph("끝"));
    assert_eq!(
        body_adjacent_label_digest(&paragraphs, 1),
        "sha256:bf24b4d73315e9f7c947d4ea4b06208b7cd421d2fc72052bb13b5cfb8f0e9627"
    );
    assert_eq!(
        body_adjacent_label_digest(&vec![paragraph("홀로")], 0),
        "sha256:c66482ec1d32ad2fe785cbbe6b34af1062c03b91593d8e1b99574096f9812f84"
    );
}

#[test]
fn tokens_are_of_structure_and_request() {
    let structure = approved_structure_digest(&document(Vec::new(), Vec::new()));
    let token = preflight_token(&structure, b"{}");
    assert_eq!(token, "sha256:aa604f2d34244e9ae9da0054dba34bbe4a4c5df737c6ffd1b4cf2fd51f88b3f6");
    assert_ne!(preflight_token(&structure, b"{} "), token);
    assert_ne!(preflight_token(&text_hash(""), b"{}"), token);
}

fn full_table(change: fn(&mut Table)) -> String {
    let mut made = full();
    if let Control::Table(inner) = &mut made.sections[0].paragraphs[1].controls[0] {
        change(inner);
    }
    approved_structure_digest(&made)
}

#[test]
fn every_attribute_of_a_table_shows() {
    let changes: Vec<fn(&mut Table)> = vec![
        |_| {},
        |t| t.attr += 1,
        |t| t.row_count += 1,
        |t| t.col_count += 1,
        |t| t.cell_spacing += 1,
        |t| t.padding.left += 1,
        |t| t.padding.right += 1,
        |t| t.padding.top += 1,
        |t| t.padding.bottom += 1,
        |t| t.border_fill_id += 1,
        |t| t.page_break = TablePageBreak::NoBreak,
        |t| t.page_break = TablePageBreak::CellBreak,
        |t| t.repeat_header = false,
        |t| t.common.horizontal_offset += 1,
        |t| t.common.width += 1,
        |t| t.common.treat_as_char = false,
        |t| t.zones.clear(),
        |t| t.zones[0].start_col += 1,
        |t| t.zones[0].start_row += 1,
        |t| t.zones[0].end_col += 1,
        |t| t.zones[0].end_row += 1,
        |t| t.zones[0].border_fill_id += 1,
        |t| t.cells.truncate(2),
        |t| t.cells[1].row += 1,
        |t| t.cells[1].col += 1,
        |t| t.cells[1].row_span += 1,
        |t| t.cells[1].col_span += 1,
        |t| t.cells[1].width += 1,
        |t| t.cells[1].padding.left += 1,
        |t| t.cells[1].border_fill_id += 1,
        |t| t.cells[1].text_direction += 1,
        |t| t.cells[1].vertical_align = VerticalAlign::Top,
        |t| t.cells[1].vertical_align = VerticalAlign::Bottom,
        |t| t.cells[1].apply_inner_margin = false,
        |t| t.cells[1].is_header = false,
        |t| t.cells[1].cell_protect = false,
        |t| t.cells[1].paragraphs.truncate(1),
        |t| t.cells[1].paragraphs[1].para_shape_id += 1,
        |t| t.cells[1].paragraphs[1].style_id += 1,
    ];
    let digests: Vec<String> = changes.into_iter().map(full_table).collect();
    assert_eq!(digests[0], approved_structure_digest(&full()));
    for i in 0..digests.len() {
        for j in 0..i {
            assert_ne!(digests[i], digests[j], "{} {}", i, j);
        }
    }
}

#[test]
fn section_layout_shows() {
    let before = approved_structure_digest(&full());
    let mut made = full();
    made.sections[0].section_def.page_def.margin_gutter += 1;
    assert_ne!(approved_structure_digest(&made), before);
    let mut made = full();
    made.sections[0].section_def.char_grid = -4;
    assert_ne!(approved_structure_digest(&made), before);
    let mut made = full();
    made.sections.push(section(Vec::new()));
    assert_ne!(approved_structure_digest(&made), before);
}

#[test]
fn paragraphs_of_notes_are_not_told_from_those_that_follow() {
    let shaped = |shape: u16, controls: Vec<Control>| {
        let mut made = paragraph_with("", controls);
        made.para_shape_id = shape;
        made
    };
    let inside = document(
        vec![section(vec![
            shaped(1, vec![Control::Header(vec![shaped(2, vec![Control::Footnote(Vec::new())])])]),
            shaped(3, Vec::new()),
        ])],
        Vec::new(),
    );
    let after = document(
        vec![section(vec![
            shaped(1, vec![Control::Header(Vec::new())]),
            shaped(2, vec![Control::Footnote(vec![shaped(3, Vec::new())])]),
        ])],
        Vec::new(),
    );
    assert_eq!(approved_structure_digest(&inside), approved_structure_digest(&after));
}

#[test]
fn each_neighbour_shows_in_the_labels() {
    let around = || {
        table(
            3,
            3,
            vec![
                cell(0, 0, 1, 1, "모서리"),
                cell(0, 1, 1, 1, "위"),
                cell(1, 0, 1, 1, "왼쪽"),
                cell(1, 1, 1, 1, "가운데"),
                cell(1, 2, 1, 1, "오른쪽"),
                cell(2, 1, 1, 1, "아래"),
            ],
        )
    };
    let before = adjacent_label_digest(&around(), 1, 1);
    for (index, same) in [(0, true), (1, false), (2, false), (3, true), (4, false), (5, false)] {
        let mut made = around();
        made.cells[index].paragraphs[0].text = "다른 글".to_string();
        assert_eq!(adjacent_label_digest(&made, 1, 1) == before, same, "{}", index);
    }
    let mut wider = around();
    wider.cells[1].col_span = 2;
    assert_ne!(adjacent_label_digest(&wider, 1, 1), before);
    let mut narrow = around();
    narrow.col_count = 2;
    assert_ne!(adjacent_label_digest(&narrow, 1, 1), before);
}

#[test]
fn each_neighbouring_paragraph_shows_in_the_labels() {
    let around = || vec![paragraph("앞"), paragraph("글"), paragraph("뒤"), paragraph("끝")];
    let before = body_adjacent_label_digest(&around(), 1);
    for (index, same) in [(0, false), (1, true), (2, false), (3, true)] {
        let mut made = around();
        made[index].text = "다른 글".to_string();
        assert_eq!(body_adjacent_label_digest(&made, 1) == before, same, "{}", index);
    }
    let mut styled = around();
    styled[2].style_id = 1;
    assert_ne!(body_adjacent_label_digest(&styled, 1), before);
    let mut shaped = around();
    shaped[0].para_shape_id = 1;
    assert_ne!(body_adjacent_label_digest(&shaped, 1), before);
}

#[test]
fn paragraphs_show_at_any_depth() {
    let mut digests = vec![approved_structure_digest(&full())];
    for control in [3usize, 4, 6] {
        for style in [false, true] {
            let mut made = full();
            let inner = match &mut made.sections[0].paragraphs[1].controls[control] {
                Control::Header(inner) | Control::Footer(inner) | Control::Endnote(inner) => inner,
                _ => unreachable!(),
            };
            if style {
                inner[0].style_id += 1;
            } else {
                inner[0].para_shape_id += 1;
            }
            digests.push(approved_structure_digest(&made));
        }
    }
    let mut deep = full();
    if let Control::Header(inner) = &mut deep.sections[0].paragraphs[1].controls[3] {
        let mut nested = table(1, 1, vec![cell(0, 0, 1, 1, "")]);
        nested.cells[0].paragraphs[0].controls.push(Control::Footnote(vec![paragraph("주")]));
        inner[0].controls.push(Control::Table(nested));
    }
    digests.push(approved_structure_digest(&deep));
    if let Control::Header(inner) = &mut deep.sections[0].paragraphs[1].controls[3] {
        if let Control::Table(nested) = &mut inner[0].controls[0] {
            if let Control::Footnote(note) = &mut nested.cells[0].paragraphs[0].controls[0] {
                note[0].style_id = 7;
            }
        }
    }
    digests.push(approved_structure_digest(&deep));
    for i in 0..digests.len() {
        for j in 0..i {
            assert_ne!(digests[i], digests[j], "{} {}", i, j);
        }
    }
}

#[test]
fn paragraphs_are_hashed_one_after_the_other() {
    let mut shaped = paragraph_with("글", vec![Control::Bookmark]);
    shaped.para_shape_id = 0x0201;
    shaped.style_id = 9;
    let mut out = vec![0xEE];
    hash_paragraphs(&mut out, &Vec::new());
    assert_eq!(out, vec![0xEE]);
    hash_paragraphs(&mut out, &vec![shaped, paragraph("다른 글")]);
    let mut expected = vec![0xEE, 1, 2, 9, 1, 0, 0, 0, 0, 0, 0, 0];
    expected.extend_from_slice(b"bookmark");
    expected.extend_from_slice(&[0; 11]);
    assert_eq!(out, expected);
    let mut field = Vec::new();
    hash_control(&mut field, &Control::Field(Field { field_id: 1, ctrl_id: 0x0102 }));
    assert_eq!(field, b"field\x01\0\0\0\x02\x01\0\0".to_vec());
}
