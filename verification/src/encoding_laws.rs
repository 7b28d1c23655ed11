//! What the bytes under a digest give away of the structure that was hashed.

use vstd::prelude::*;
use vstd::utf8::is_ascii_chars_encode_utf8;

use crate::digest::{
    cell_head_bytes, cells_bytes, common_bytes, control_bytes, controls_bytes, digest_text, flag,
    le_bytes, padding_bytes, page_break_byte, page_bytes, paragraph_bytes, paragraphs_bytes,
    section_bytes, section_layout_bytes, sections_bytes, sha256, structure_bytes, table_head_bytes,
    tag, twos_complement, vertical_align_byte, zone_bytes, zones_bytes,
};
use crate::digest_laws::{
    alike_cell, alike_cell_frame, alike_frame, alike_paragraph, alike_paragraphs, lemma_alike_cells,
    lemma_alike_paragraphs, lemma_alike_sections,
};
use crate::model::{
    Cell, CommonObjAttr, Control, Document, Padding, PageDef, Paragraph, Section, SectionDef, Table,
    TableZone,
};
use crate::text::{hex, lemma_hex};

verus! {

/// Equal sequences that are divided at one place have equal parts.
pub proof fn lemma_parts<T>(a: Seq<T>, b: Seq<T>, c: Seq<T>, d: Seq<T>)
    requires
        a + b == c + d,
        a.len() == c.len() || b.len() == d.len(),
    ensures
        a == c,
        b == d,
{
    assert((a + b).len() == (c + d).len());
    assert(a =~= (a + b).take(a.len() as int));
    assert(c =~= (c + d).take(c.len() as int));
    assert(b =~= (a + b).skip(a.len() as int));
    assert(d =~= (c + d).skip(c.len() as int));
}

/// Concatenation can be regrouped.
pub proof fn lemma_regroup<T>(a: Seq<T>, b: Seq<T>, c: Seq<T>)
    ensures
        (a + b) + c == a + (b + c),
{
    assert((a + b) + c =~= a + (b + c));
}

/// Nothing put in front changes nothing.
pub proof fn lemma_nothing_before<T>(a: Seq<T>)
    ensures
        Seq::<T>::empty() + a == a,
{
    assert(Seq::<T>::empty() + a =~= a);
}

/// How many numbers can be written in `width` bytes.
pub open spec fn range(width: nat) -> nat
    decreases width,
{
    if width == 0 {
        1
    } else {
        256 * range((width - 1) as nat)
    }
}

/// The ranges of the widths in use.
pub proof fn lemma_ranges()
    ensures
        range(2) == 0x1_0000,
        range(4) == 0x1_0000_0000,
        range(8) == 0x1_0000_0000_0000_0000,
{
    reveal_with_fuel(range, 9);
}

/// A number takes its width in bytes.
pub proof fn lemma_width(value: nat, width: nat)
    ensures
        le_bytes(value, width).len() == width,
    decreases width,
{
    if width > 0 {
        lemma_width(value / 256, (width - 1) as nat);
    }
}

/// A number in range can be read back from its bytes.
pub proof fn lemma_number(a: nat, b: nat, width: nat)
    requires
        a < range(width),
        b < range(width),
        le_bytes(a, width) == le_bytes(b, width),
    ensures
        a == b,
    decreases width,
{
    if width > 0 {
        let head_a = seq![(a % 256) as u8];
        let head_b = seq![(b % 256) as u8];
        lemma_parts(
            head_a,
            le_bytes(a / 256, (width - 1) as nat),
            head_b,
            le_bytes(b / 256, (width - 1) as nat),
        );
        assert(head_a[0] == head_b[0]);
        lemma_number(a / 256, b / 256, (width - 1) as nat);
    }
}

/// A number at the end of equal bytes can be read back, and what comes before it is equal.
pub proof fn lemma_last_number(head_a: Seq<u8>, a: nat, head_b: Seq<u8>, b: nat, width: nat)
    requires
        head_a + le_bytes(a, width) == head_b + le_bytes(b, width),
        a < range(width),
        b < range(width),
    ensures
        head_a == head_b,
        a == b,
{
    lemma_width(a, width);
    lemma_width(b, width);
    lemma_parts(head_a, le_bytes(a, width), head_b, le_bytes(b, width));
    lemma_number(a, b, width);
}

/// A byte at the end of equal bytes can be read back, and what comes before it is equal.
pub proof fn lemma_last_byte(head_a: Seq<u8>, a: u8, head_b: Seq<u8>, b: u8)
    requires
        head_a + seq![a] == head_b + seq![b],
    ensures
        head_a == head_b,
        a == b,
{
    lemma_parts(head_a, seq![a], head_b, seq![b]);
    assert(seq![a][0] == seq![b][0]);
}

/// The margins of a padding can be read back from its bytes.
proof fn lemma_padding(a: Padding, b: Padding)
    ensures
        padding_bytes(a).len() == 8,
        padding_bytes(a) == padding_bytes(b) ==> a == b,
{
    lemma_ranges();
    lemma_width(twos_complement(a.left), 2);
    lemma_width(twos_complement(a.right), 2);
    lemma_width(twos_complement(a.top), 2);
    lemma_width(twos_complement(a.bottom), 2);
    if padding_bytes(a) == padding_bytes(b) {
        let a1 = le_bytes(twos_complement(a.left), 2);
        let b1 = le_bytes(twos_complement(b.left), 2);
        let a2 = a1 + le_bytes(twos_complement(a.right), 2);
        let b2 = b1 + le_bytes(twos_complement(b.right), 2);
        let a3 = a2 + le_bytes(twos_complement(a.top), 2);
        let b3 = b2 + le_bytes(twos_complement(b.top), 2);
        lemma_last_number(a3, twos_complement(a.bottom), b3, twos_complement(b.bottom), 2);
        lemma_last_number(a2, twos_complement(a.top), b2, twos_complement(b.top), 2);
        lemma_last_number(a1, twos_complement(a.right), b1, twos_complement(b.right), 2);
        lemma_number(twos_complement(a.left), twos_complement(b.left), 2);
    }
}

/// A truth value at the end of equal bytes can be read back, and what comes before it is equal.
proof fn lemma_last_flag(head_a: Seq<u8>, a: bool, head_b: Seq<u8>, b: bool)
    requires
        head_a + flag(a) == head_b + flag(b),
    ensures
        head_a == head_b,
        a == b,
{
    lemma_parts(head_a, flag(a), head_b, flag(b));
    assert(flag(a)[0] == flag(b)[0]);
}

/// A padding at the end of equal bytes can be read back, and what comes before it is equal.
proof fn lemma_last_padding(head_a: Seq<u8>, a: Padding, head_b: Seq<u8>, b: Padding)
    requires
        head_a + padding_bytes(a) == head_b + padding_bytes(b),
    ensures
        head_a == head_b,
        a == b,
{
    lemma_padding(a, b);
    lemma_padding(b, a);
    lemma_parts(head_a, padding_bytes(a), head_b, padding_bytes(b));
}

/// The layout of a page can be read back from its bytes.
proof fn lemma_page(a: PageDef, b: PageDef)
    ensures
        page_bytes(a).len() == 41,
        page_bytes(a) == page_bytes(b) ==> a == b,
{
    lemma_ranges();
    lemma_width(a.width as nat, 4);
    lemma_width(a.height as nat, 4);
    lemma_width(a.margin_left as nat, 4);
    lemma_width(a.margin_right as nat, 4);
    lemma_width(a.margin_top as nat, 4);
    lemma_width(a.margin_bottom as nat, 4);
    lemma_width(a.margin_header as nat, 4);
    lemma_width(a.margin_footer as nat, 4);
    lemma_width(a.margin_gutter as nat, 4);
    lemma_width(a.attr as nat, 4);
    if page_bytes(a) == page_bytes(b) {
        let a0 = le_bytes(a.width as nat, 4);
        let b0 = le_bytes(b.width as nat, 4);
        let a1 = a0 + le_bytes(a.height as nat, 4);
        let b1 = b0 + le_bytes(b.height as nat, 4);
        let a2 = a1 + le_bytes(a.margin_left as nat, 4);
        let b2 = b1 + le_bytes(b.margin_left as nat, 4);
        let a3 = a2 + le_bytes(a.margin_right as nat, 4);
        let b3 = b2 + le_bytes(b.margin_right as nat, 4);
        let a4 = a3 + le_bytes(a.margin_top as nat, 4);
        let b4 = b3 + le_bytes(b.margin_top as nat, 4);
        let a5 = a4 + le_bytes(a.margin_bottom as nat, 4);
        let b5 = b4 + le_bytes(b.margin_bottom as nat, 4);
        let a6 = a5 + le_bytes(a.margin_header as nat, 4);
        let b6 = b5 + le_bytes(b.margin_header as nat, 4);
        let a7 = a6 + le_bytes(a.margin_footer as nat, 4);
        let b7 = b6 + le_bytes(b.margin_footer as nat, 4);
        let a8 = a7 + le_bytes(a.margin_gutter as nat, 4);
        let b8 = b7 + le_bytes(b.margin_gutter as nat, 4);
        let a9 = a8 + le_bytes(a.attr as nat, 4);
        let b9 = b8 + le_bytes(b.attr as nat, 4);
        lemma_last_flag(a9, a.landscape, b9, b.landscape);
        lemma_last_number(a8, a.attr as nat, b8, b.attr as nat, 4);
        lemma_last_number(a7, a.margin_gutter as nat, b7, b.margin_gutter as nat, 4);
        lemma_last_number(a6, a.margin_footer as nat, b6, b.margin_footer as nat, 4);
        lemma_last_number(a5, a.margin_header as nat, b5, b.margin_header as nat, 4);
        lemma_last_number(a4, a.margin_bottom as nat, b4, b.margin_bottom as nat, 4);
        lemma_last_number(a3, a.margin_top as nat, b3, b.margin_top as nat, 4);
        lemma_last_number(a2, a.margin_right as nat, b2, b.margin_right as nat, 4);
        lemma_last_number(a1, a.margin_left as nat, b1, b.margin_left as nat, 4);
        lemma_last_number(a0, a.height as nat, b0, b.height as nat, 4);
        lemma_number(a.width as nat, b.width as nat, 4);
    }
}

/// The tag of a section's layout is one sequence of bytes.
proof fn lemma_section_layout_tag()
    ensures
        tag("section-layout").len() == 14,
{
    reveal_strlit("section-layout");
    is_ascii_chars_encode_utf8("section-layout"@);
}

/// The layout of a section can be read back from its bytes.
pub proof fn lemma_layout(a: SectionDef, b: SectionDef)
    ensures
        section_layout_bytes(a).len() == 70,
        section_layout_bytes(a) == section_layout_bytes(b) ==> a == b,
{
    lemma_ranges();
    lemma_section_layout_tag();
    lemma_width(a.flags as nat, 4);
    lemma_width(twos_complement(a.column_spacing), 2);
    lemma_width(twos_complement(a.line_grid), 2);
    lemma_width(twos_complement(a.char_grid), 2);
    lemma_width(a.default_tab_spacing as nat, 4);
    lemma_page(a.page_def, b.page_def);
    if section_layout_bytes(a) == section_layout_bytes(b) {
        let a0 = tag("section-layout");
        let b0 = tag("section-layout");
        let a1 = a0 + le_bytes(a.flags as nat, 4);
        let b1 = b0 + le_bytes(b.flags as nat, 4);
        let a2 = a1 + le_bytes(twos_complement(a.column_spacing), 2);
        let b2 = b1 + le_bytes(twos_complement(b.column_spacing), 2);
        let a3 = a2 + le_bytes(twos_complement(a.line_grid), 2);
        let b3 = b2 + le_bytes(twos_complement(b.line_grid), 2);
        let a4 = a3 + le_bytes(twos_complement(a.char_grid), 2);
        let b4 = b3 + le_bytes(twos_complement(b.char_grid), 2);
        let a5 = a4 + le_bytes(a.default_tab_spacing as nat, 4);
        let b5 = b4 + le_bytes(b.default_tab_spacing as nat, 4);
        let a6 = a5 + seq![a.text_direction];
        let b6 = b5 + seq![b.text_direction];
        lemma_page(a.page_def, b.page_def);
        lemma_page(b.page_def, a.page_def);
        lemma_parts(a6, page_bytes(a.page_def), b6, page_bytes(b.page_def));
        lemma_last_byte(a5, a.text_direction, b5, b.text_direction);
        lemma_last_number(a4, a.default_tab_spacing as nat, b4, b.default_tab_spacing as nat, 4);
        lemma_last_number(a3, twos_complement(a.char_grid), b3, twos_complement(b.char_grid), 2);
        lemma_last_number(a2, twos_complement(a.line_grid), b2, twos_complement(b.line_grid), 2);
        lemma_last_number(
            a1,
            twos_complement(a.column_spacing),
            b1,
            twos_complement(b.column_spacing),
            2,
        );
        lemma_last_number(a0, a.flags as nat, b0, b.flags as nat, 4);
    }
}

/// The placement of a table can be read back from its bytes.
proof fn lemma_common(a: CommonObjAttr, b: CommonObjAttr)
    ensures
        common_bytes(a).len() == 9,
        common_bytes(a) == common_bytes(b) ==> a == b,
{
    lemma_ranges();
    lemma_width(a.horizontal_offset as nat, 4);
    lemma_width(a.width as nat, 4);
    if common_bytes(a) == common_bytes(b) {
        let a0 = le_bytes(a.horizontal_offset as nat, 4);
        let b0 = le_bytes(b.horizontal_offset as nat, 4);
        let a1 = a0 + le_bytes(a.width as nat, 4);
        let b1 = b0 + le_bytes(b.width as nat, 4);
        lemma_last_flag(a1, a.treat_as_char, b1, b.treat_as_char);
        lemma_last_number(a0, a.width as nat, b0, b.width as nat, 4);
        lemma_number(a.horizontal_offset as nat, b.horizontal_offset as nat, 4);
    }
}

/// A zone can be read back from its bytes.
proof fn lemma_zone(a: TableZone, b: TableZone)
    ensures
        zone_bytes(a).len() == 10,
        zone_bytes(a) == zone_bytes(b) ==> a == b,
{
    lemma_ranges();
    lemma_width(a.start_col as nat, 2);
    lemma_width(a.start_row as nat, 2);
    lemma_width(a.end_col as nat, 2);
    lemma_width(a.end_row as nat, 2);
    lemma_width(a.border_fill_id as nat, 2);
    if zone_bytes(a) == zone_bytes(b) {
        let a0 = le_bytes(a.start_col as nat, 2);
        let b0 = le_bytes(b.start_col as nat, 2);
        let a1 = a0 + le_bytes(a.start_row as nat, 2);
        let b1 = b0 + le_bytes(b.start_row as nat, 2);
        let a2 = a1 + le_bytes(a.end_col as nat, 2);
        let b2 = b1 + le_bytes(b.end_col as nat, 2);
        let a3 = a2 + le_bytes(a.end_row as nat, 2);
        let b3 = b2 + le_bytes(b.end_row as nat, 2);
        lemma_last_number(a3, a.border_fill_id as nat, b3, b.border_fill_id as nat, 2);
        lemma_last_number(a2, a.end_row as nat, b2, b.end_row as nat, 2);
        lemma_last_number(a1, a.end_col as nat, b1, b.end_col as nat, 2);
        lemma_last_number(a0, a.start_row as nat, b0, b.start_row as nat, 2);
        lemma_number(a.start_col as nat, b.start_col as nat, 2);
    }
}

/// What precedes the paragraphs of a cell can be read back from its bytes.
pub proof fn lemma_cell_head(a: Cell, b: Cell)
    ensures
        cell_head_bytes(a).len() == 35,
        cell_head_bytes(a) == cell_head_bytes(b) ==> alike_cell_frame(a, b)
            && a.paragraphs@.len() == b.paragraphs@.len(),
{
    lemma_ranges();
    lemma_width(a.row as nat, 2);
    lemma_width(a.col as nat, 2);
    lemma_width(a.row_span as nat, 2);
    lemma_width(a.col_span as nat, 2);
    lemma_width(a.width as nat, 4);
    lemma_padding(a.padding, b.padding);
    lemma_width(a.border_fill_id as nat, 2);
    lemma_width(a.paragraphs.len() as nat, 8);
    if cell_head_bytes(a) == cell_head_bytes(b) {
        let a0 = le_bytes(a.row as nat, 2);
        let b0 = le_bytes(b.row as nat, 2);
        let a1 = a0 + le_bytes(a.col as nat, 2);
        let b1 = b0 + le_bytes(b.col as nat, 2);
        let a2 = a1 + le_bytes(a.row_span as nat, 2);
        let b2 = b1 + le_bytes(b.row_span as nat, 2);
        let a3 = a2 + le_bytes(a.col_span as nat, 2);
        let b3 = b2 + le_bytes(b.col_span as nat, 2);
        let a4 = a3 + le_bytes(a.width as nat, 4);
        let b4 = b3 + le_bytes(b.width as nat, 4);
        let a5 = a4 + padding_bytes(a.padding);
        let b5 = b4 + padding_bytes(b.padding);
        let a6 = a5 + le_bytes(a.border_fill_id as nat, 2);
        let b6 = b5 + le_bytes(b.border_fill_id as nat, 2);
        let a7 = a6 + seq![a.text_direction];
        let b7 = b6 + seq![b.text_direction];
        let a8 = a7 + seq![vertical_align_byte(a.vertical_align)];
        let b8 = b7 + seq![vertical_align_byte(b.vertical_align)];
        let a9 = a8 + flag(a.apply_inner_margin);
        let b9 = b8 + flag(b.apply_inner_margin);
        let a10 = a9 + flag(a.is_header);
        let b10 = b9 + flag(b.is_header);
        let a11 = a10 + flag(a.cell_protect);
        let b11 = b10 + flag(b.cell_protect);
        lemma_last_number(a11, a.paragraphs.len() as nat, b11, b.paragraphs.len() as nat, 8);
        lemma_last_flag(a10, a.cell_protect, b10, b.cell_protect);
        lemma_last_flag(a9, a.is_header, b9, b.is_header);
        lemma_last_flag(a8, a.apply_inner_margin, b8, b.apply_inner_margin);
        lemma_last_byte(
            a7,
            vertical_align_byte(a.vertical_align),
            b7,
            vertical_align_byte(b.vertical_align),
        );
        lemma_last_byte(a6, a.text_direction, b6, b.text_direction);
        lemma_last_number(a5, a.border_fill_id as nat, b5, b.border_fill_id as nat, 2);
        lemma_last_padding(a4, a.padding, b4, b.padding);
        lemma_last_number(a3, a.width as nat, b3, b.width as nat, 4);
        lemma_last_number(a2, a.col_span as nat, b2, b.col_span as nat, 2);
        lemma_last_number(a1, a.row_span as nat, b1, b.row_span as nat, 2);
        lemma_last_number(a0, a.col as nat, b0, b.col as nat, 2);
        lemma_number(a.row as nat, b.row as nat, 2);
    }
}

/// Zones can be read back from their bytes, where their number is known.
proof fn lemma_zones(a: Seq<TableZone>, b: Seq<TableZone>)
    requires
        a.len() == b.len(),
    ensures
        zones_bytes(a).len() == 10 * a.len(),
        zones_bytes(a) == zones_bytes(b) ==> a == b,
    decreases a.len(),
{
    if a.len() > 0 {
        lemma_zones(a.drop_last(), b.drop_last());
        lemma_zone(a.last(), b.last());
        lemma_zone(b.last(), a.last());
        if zones_bytes(a) == zones_bytes(b) {
            lemma_parts(
                zones_bytes(a.drop_last()),
                zone_bytes(a.last()),
                zones_bytes(b.drop_last()),
                zone_bytes(b.last()),
            );
            assert(a =~= a.drop_last().push(a.last()));
            assert(b =~= b.drop_last().push(b.last()));
        }
    }
    assert(a.len() == 0 ==> a =~= b);
}

/// The structure of a run of paragraphs is that of its paragraphs, one after the other: an empty
/// run has none, and a run of two parts has that of the first and then that of the second.
pub proof fn law_paragraphs_are_hashed_in_order(a: Seq<Paragraph>, b: Seq<Paragraph>)
    ensures
        paragraphs_bytes(Seq::empty()) == Seq::<u8>::empty(),
        a.len() == 1 ==> paragraphs_bytes(a) == paragraph_bytes(a[0]),
        paragraphs_bytes(a + b) == paragraphs_bytes(a) + paragraphs_bytes(b),
    decreases b.len(),
{
    if a.len() == 1 {
        assert(a.drop_last() =~= Seq::empty());
        assert(paragraphs_bytes(a.drop_last()) == Seq::<u8>::empty());
        lemma_nothing_before(paragraph_bytes(a[0]));
    }
    if b.len() == 0 {
        assert(a + b =~= a);
        assert(paragraphs_bytes(a) + paragraphs_bytes(b) =~= paragraphs_bytes(a));
    } else {
        law_paragraphs_are_hashed_in_order(a, b.drop_last());
        assert((a + b).drop_last() =~= a + b.drop_last());
        lemma_regroup(
            paragraphs_bytes(a),
            paragraphs_bytes(b.drop_last()),
            paragraph_bytes(b.last()),
        );
    }
}

/// The structure of a run of sections is that of its parts.
proof fn lemma_sections_in_order(a: Seq<Section>, b: Seq<Section>)
    ensures
        sections_bytes(a + b) == sections_bytes(a) + sections_bytes(b),
    decreases b.len(),
{
    if b.len() == 0 {
        assert(a + b =~= a);
        assert(sections_bytes(a) + sections_bytes(b) =~= sections_bytes(a));
    } else {
        lemma_sections_in_order(a, b.drop_last());
        assert((a + b).drop_last() =~= a + b.drop_last());
        lemma_regroup(sections_bytes(a), sections_bytes(b.drop_last()), section_bytes(b.last()));
    }
}

/// The structure of one cell.
pub open spec fn cell_bytes(cell: Cell) -> Seq<u8> {
    cell_head_bytes(cell) + paragraphs_bytes(cell.paragraphs@)
}

/// The structure of a run of cells is that of its parts.
proof fn lemma_cells_in_order(a: Seq<Cell>, b: Seq<Cell>)
    ensures
        cells_bytes(a + b) == cells_bytes(a) + cells_bytes(b),
    decreases b.len(),
{
    if b.len() == 0 {
        assert(a + b =~= a);
        assert(cells_bytes(a) + cells_bytes(b) =~= cells_bytes(a));
    } else {
        lemma_cells_in_order(a, b.drop_last());
        assert((a + b).drop_last() =~= a + b.drop_last());
        lemma_regroup(cells_bytes(a), cells_bytes(b.drop_last()), cell_bytes(b.last()));
    }
}

/// The structure of a run of controls is that of its parts.
proof fn lemma_controls_in_order(a: Seq<Control>, b: Seq<Control>)
    ensures
        controls_bytes(a + b) == controls_bytes(a) + controls_bytes(b),
    decreases b.len(),
{
    if b.len() == 0 {
        assert(a + b =~= a);
        assert(controls_bytes(a) + controls_bytes(b) =~= controls_bytes(a));
    } else {
        lemma_controls_in_order(a, b.drop_last());
        assert((a + b).drop_last() =~= a + b.drop_last());
        lemma_regroup(controls_bytes(a), controls_bytes(b.drop_last()), control_bytes(b.last()));
    }
}

/// The structure of a run of controls around the `i`th.
pub proof fn lemma_controls_around(all: Seq<Control>, i: int)
    requires
        0 <= i < all.len(),
    ensures
        controls_bytes(all) == controls_bytes(all.take(i)) + (control_bytes(all[i])
            + controls_bytes(all.skip(i + 1))),
{
    let one = seq![all[i]];
    assert(controls_bytes(one) == control_bytes(all[i])) by {
        assert(one.drop_last() =~= Seq::empty());
        assert(controls_bytes(one.drop_last()) == Seq::<u8>::empty());
        lemma_nothing_before(control_bytes(all[i]));
    }
    lemma_controls_in_order(one, all.skip(i + 1));
    lemma_controls_in_order(all.take(i), one + all.skip(i + 1));
    assert(all =~= all.take(i) + (one + all.skip(i + 1)));
}

/// The structure of a run of paragraphs around the `i`th.
pub proof fn lemma_paragraphs_around(all: Seq<Paragraph>, i: int)
    requires
        0 <= i < all.len(),
    ensures
        paragraphs_bytes(all) == paragraphs_bytes(all.take(i)) + (paragraph_bytes(all[i])
            + paragraphs_bytes(all.skip(i + 1))),
{
    let one = seq![all[i]];
    law_paragraphs_are_hashed_in_order(one, all.skip(i + 1));
    law_paragraphs_are_hashed_in_order(all.take(i), one + all.skip(i + 1));
    assert(all =~= all.take(i) + (one + all.skip(i + 1)));
}

/// The structure of a run of sections around the `i`th.
pub proof fn lemma_sections_around(all: Seq<Section>, i: int)
    requires
        0 <= i < all.len(),
    ensures
        sections_bytes(all) == sections_bytes(all.take(i)) + (section_bytes(all[i])
            + sections_bytes(all.skip(i + 1))),
{
    let one = seq![all[i]];
    assert(sections_bytes(one) == section_bytes(all[i])) by {
        assert(one.drop_last() =~= Seq::empty());
        assert(sections_bytes(one.drop_last()) == Seq::<u8>::empty());
        lemma_nothing_before(section_bytes(all[i]));
    }
    lemma_sections_in_order(one, all.skip(i + 1));
    lemma_sections_in_order(all.take(i), one + all.skip(i + 1));
    assert(all =~= all.take(i) + (one + all.skip(i + 1)));
}

/// The structure of a run of cells around the `i`th.
pub proof fn lemma_cells_around(all: Seq<Cell>, i: int)
    requires
        0 <= i < all.len(),
    ensures
        cells_bytes(all) == cells_bytes(all.take(i)) + (cell_bytes(all[i]) + cells_bytes(
            all.skip(i + 1),
        )),
{
    let one = seq![all[i]];
    assert(cells_bytes(one) == cell_bytes(all[i])) by {
        assert(one.drop_last() =~= Seq::empty());
        assert(cells_bytes(one.drop_last()) == Seq::<u8>::empty());
        lemma_nothing_before(cell_bytes(all[i]));
    }
    lemma_cells_in_order(one, all.skip(i + 1));
    lemma_cells_in_order(all.take(i), one + all.skip(i + 1));
    assert(all =~= all.take(i) + (one + all.skip(i + 1)));
}

/// What of a table comes before its zones.
spec fn table_frame_bytes(table: Table) -> Seq<u8> {
    tag("table") + le_bytes(table.attr as nat, 4) + le_bytes(table.row_count as nat, 2) + le_bytes(
        table.col_count as nat,
        2,
    ) + le_bytes(twos_complement(table.cell_spacing), 2) + padding_bytes(table.padding) + le_bytes(
        table.border_fill_id as nat,
        2,
    ) + seq![page_break_byte(table.page_break)] + flag(table.repeat_header) + common_bytes(
        table.common,
    ) + le_bytes(table.zones.len() as nat, 8)
}

/// The tag of a table is one sequence of bytes.
proof fn lemma_table_tag()
    ensures
        tag("table").len() == 5,
{
    reveal_strlit("table");
    is_ascii_chars_encode_utf8("table"@);
}

/// What of a table comes before its zones can be read back from its bytes.
proof fn lemma_table_frame(a: Table, b: Table)
    ensures
        table_frame_bytes(a).len() == 44,
        table_frame_bytes(a) == table_frame_bytes(b) ==> {
            &&& a.attr == b.attr
            &&& a.row_count == b.row_count
            &&& a.col_count == b.col_count
            &&& a.cell_spacing == b.cell_spacing
            &&& a.padding == b.padding
            &&& a.border_fill_id == b.border_fill_id
            &&& a.page_break == b.page_break
            &&& a.repeat_header == b.repeat_header
            &&& a.common == b.common
            &&& a.zones@.len() == b.zones@.len()
        },
{
    lemma_ranges();
    lemma_table_tag();
    lemma_width(a.attr as nat, 4);
    lemma_width(a.row_count as nat, 2);
    lemma_width(a.col_count as nat, 2);
    lemma_width(twos_complement(a.cell_spacing), 2);
    lemma_padding(a.padding, b.padding);
    lemma_width(a.border_fill_id as nat, 2);
    lemma_common(a.common, b.common);
    lemma_width(a.zones.len() as nat, 8);
    if table_frame_bytes(a) == table_frame_bytes(b) {
        let a0 = tag("table");
        let b0 = tag("table");
        let a1 = a0 + le_bytes(a.attr as nat, 4);
        let b1 = b0 + le_bytes(b.attr as nat, 4);
        let a2 = a1 + le_bytes(a.row_count as nat, 2);
        let b2 = b1 + le_bytes(b.row_count as nat, 2);
        let a3 = a2 + le_bytes(a.col_count as nat, 2);
        let b3 = b2 + le_bytes(b.col_count as nat, 2);
        let a4 = a3 + le_bytes(twos_complement(a.cell_spacing), 2);
        let b4 = b3 + le_bytes(twos_complement(b.cell_spacing), 2);
        let a5 = a4 + padding_bytes(a.padding);
        let b5 = b4 + padding_bytes(b.padding);
        let a6 = a5 + le_bytes(a.border_fill_id as nat, 2);
        let b6 = b5 + le_bytes(b.border_fill_id as nat, 2);
        let a7 = a6 + seq![page_break_byte(a.page_break)];
        let b7 = b6 + seq![page_break_byte(b.page_break)];
        let a8 = a7 + flag(a.repeat_header);
        let b8 = b7 + flag(b.repeat_header);
        let a9 = a8 + common_bytes(a.common);
        let b9 = b8 + common_bytes(b.common);
        lemma_last_number(a9, a.zones.len() as nat, b9, b.zones.len() as nat, 8);
        lemma_common(a.common, b.common);
        lemma_common(b.common, a.common);
        lemma_parts(a8, common_bytes(a.common), b8, common_bytes(b.common));
        lemma_last_flag(a7, a.repeat_header, b7, b.repeat_header);
        lemma_last_byte(a6, page_break_byte(a.page_break), b6, page_break_byte(b.page_break));
        lemma_last_number(a5, a.border_fill_id as nat, b5, b.border_fill_id as nat, 2);
        lemma_last_padding(a4, a.padding, b4, b.padding);
        lemma_last_number(
            a3,
            twos_complement(a.cell_spacing),
            b3,
            twos_complement(b.cell_spacing),
            2,
        );
        lemma_last_number(a2, a.col_count as nat, b2, b.col_count as nat, 2);
        lemma_last_number(a1, a.row_count as nat, b1, b.row_count as nat, 2);
        lemma_last_number(a0, a.attr as nat, b0, b.attr as nat, 4);
    }
}

/// What precedes the cells of a table can be read back from its bytes, whatever follows them.
pub proof fn lemma_table_head(a: Table, rest_a: Seq<u8>, b: Table, rest_b: Seq<u8>)
    requires
        table_head_bytes(a) + rest_a == table_head_bytes(b) + rest_b,
    ensures
        alike_frame(a, b),
        a.cells@.len() == b.cells@.len(),
        table_head_bytes(a) == table_head_bytes(b),
        rest_a == rest_b,
{
    let zones_a = zones_bytes(a.zones@);
    let zones_b = zones_bytes(b.zones@);
    let count_a = le_bytes(a.cells.len() as nat, 8);
    let count_b = le_bytes(b.cells.len() as nat, 8);
    let frame_a = table_frame_bytes(a);
    let frame_b = table_frame_bytes(b);
    lemma_ranges();
    lemma_width(a.cells.len() as nat, 8);
    lemma_width(b.cells.len() as nat, 8);
    lemma_table_frame(a, b);
    lemma_table_frame(b, a);
    assert(table_head_bytes(a) == frame_a + zones_a + count_a);
    assert(table_head_bytes(b) == frame_b + zones_b + count_b);
    lemma_regroup(frame_a + zones_a, count_a, rest_a);
    lemma_regroup(frame_a, zones_a, count_a + rest_a);
    lemma_regroup(frame_b + zones_b, count_b, rest_b);
    lemma_regroup(frame_b, zones_b, count_b + rest_b);
    lemma_parts(
        frame_a,
        zones_a + (count_a + rest_a),
        frame_b,
        zones_b + (count_b + rest_b),
    );
    lemma_zones(a.zones@, b.zones@);
    lemma_zones(b.zones@, a.zones@);
    lemma_parts(zones_a, count_a + rest_a, zones_b, count_b + rest_b);
    lemma_parts(count_a, rest_a, count_b, rest_b);
    lemma_number(a.cells.len() as nat, b.cells.len() as nat, 8);
}

/// A table shows in what is hashed of it: two tables with equal bytes agree in every attribute, in
/// their zones, and in the number of their cells. So tables that differ in one of these differ in
/// what is hashed.
pub proof fn law_table_difference_shows(a: Table, b: Table)
    requires
        control_bytes(Control::Table(a)) == control_bytes(Control::Table(b)),
    ensures
        alike_frame(a, b),
        a.cells@.len() == b.cells@.len(),
        cells_bytes(a.cells@) == cells_bytes(b.cells@),
{
    lemma_table_head(a, cells_bytes(a.cells@), b, cells_bytes(b.cells@));
}

/// A cell shows in what is hashed of its table: where two tables have equal bytes, and their cells
/// before the `i`th differ in nothing but texts and the shapes of characters, then the `i`th cells
/// agree in every attribute and in the number of their paragraphs. So tables that first differ in
/// one of these differ in what is hashed.
pub proof fn law_cell_difference_shows(a: Table, b: Table, i: int)
    requires
        control_bytes(Control::Table(a)) == control_bytes(Control::Table(b)),
        0 <= i < a.cells@.len(),
        forall|j: int| 0 <= j < i && j < b.cells@.len() ==> alike_cell(
            #[trigger] a.cells@[j],
            b.cells@[j],
        ),
    ensures
        i < b.cells@.len(),
        alike_cell_frame(a.cells@[i], b.cells@[i]),
        a.cells@[i].paragraphs@.len() == b.cells@[i].paragraphs@.len(),
{
    law_table_difference_shows(a, b);
    let x = a.cells@;
    let y = b.cells@;
    lemma_cells_around(x, i);
    lemma_cells_around(y, i);
    assert forall|j: int| 0 <= j < x.take(i).len() implies alike_cell(
        #[trigger] x.take(i)[j],
        y.take(i)[j],
    ) by {
        assert(alike_cell(x[j], y[j]));
    }
    lemma_alike_cells(x.take(i), y.take(i));
    let head_x = cell_head_bytes(x[i]);
    let head_y = cell_head_bytes(y[i]);
    let body_x = paragraphs_bytes(x[i].paragraphs@);
    let body_y = paragraphs_bytes(y[i].paragraphs@);
    let rest_x = cells_bytes(x.skip(i + 1));
    let rest_y = cells_bytes(y.skip(i + 1));
    lemma_parts(
        cells_bytes(x.take(i)),
        cell_bytes(x[i]) + rest_x,
        cells_bytes(y.take(i)),
        cell_bytes(y[i]) + rest_y,
    );
    lemma_regroup(head_x, body_x, rest_x);
    lemma_regroup(head_y, body_y, rest_y);
    lemma_cell_head(x[i], y[i]);
    lemma_cell_head(y[i], x[i]);
    lemma_parts(head_x, body_x + rest_x, head_y, body_y + rest_y);
}

/// What is hashed of a document shows how many sections it has and how many binary items.
pub proof fn law_document_difference_shows(a: Document, b: Document)
    requires
        structure_bytes(a) == structure_bytes(b),
    ensures
        a.sections@.len() == b.sections@.len(),
        a.bin_data_count == b.bin_data_count,
        sections_bytes(a.sections@) == sections_bytes(b.sections@),
{
    let head = tag("rhwp-approved-template-structure-v1\0");
    let count_a = le_bytes(a.sections.len() as nat, 8);
    let count_b = le_bytes(b.sections.len() as nat, 8);
    let bins_a = le_bytes(a.bin_data_count as nat, 8);
    let bins_b = le_bytes(b.bin_data_count as nat, 8);
    lemma_ranges();
    lemma_width(a.sections.len() as nat, 8);
    lemma_width(b.sections.len() as nat, 8);
    lemma_width(a.bin_data_count as nat, 8);
    lemma_width(b.bin_data_count as nat, 8);
    lemma_parts(
        head + count_a + bins_a,
        sections_bytes(a.sections@),
        head + count_b + bins_b,
        sections_bytes(b.sections@),
    );
    lemma_last_number(
        head + count_a,
        a.bin_data_count as nat,
        head + count_b,
        b.bin_data_count as nat,
        8,
    );
    lemma_last_number(head, a.sections.len() as nat, head, b.sections.len() as nat, 8);
}

/// Whether two documents differ in nothing but texts and the shapes of characters up to section
/// `s`.
pub open spec fn alike_before_section(a: Document, b: Document, s: int) -> bool {
    forall|i: int|
        0 <= i < s && i < a.sections@.len() && i < b.sections@.len() ==> {
            &&& (#[trigger] a.sections@[i]).section_def == b.sections@[i].section_def
            &&& alike_paragraphs(a.sections@[i].paragraphs@, b.sections@[i].paragraphs@)
        }
}

/// A section shows in what is hashed of its document: where two documents have equal bytes, and
/// are alike before section `s`, then these sections have equal layouts and as many paragraphs. So
/// documents that first differ in one of these differ in what is hashed.
pub proof fn law_section_difference_shows(a: Document, b: Document, s: int)
    requires
        structure_bytes(a) == structure_bytes(b),
        0 <= s < a.sections@.len(),
        alike_before_section(a, b, s),
    ensures
        s < b.sections@.len(),
        a.sections@[s].section_def == b.sections@[s].section_def,
        a.sections@[s].paragraphs@.len() == b.sections@[s].paragraphs@.len(),
        paragraphs_bytes(a.sections@[s].paragraphs@) + sections_bytes(a.sections@.skip(s + 1))
            == paragraphs_bytes(b.sections@[s].paragraphs@) + sections_bytes(
            b.sections@.skip(s + 1),
        ),
{
    law_document_difference_shows(a, b);
    let x = a.sections@;
    let y = b.sections@;
    lemma_sections_around(x, s);
    lemma_sections_around(y, s);
    assert forall|i: int| 0 <= i < x.take(s).len() implies {
        &&& (#[trigger] x.take(s)[i]).section_def == y.take(s)[i].section_def
        &&& alike_paragraphs(x.take(s)[i].paragraphs@, y.take(s)[i].paragraphs@)
    } by {
        assert(x[i].section_def == y[i].section_def);
    }
    lemma_alike_sections(x.take(s), y.take(s));
    let layout_x = section_layout_bytes(x[s].section_def);
    let layout_y = section_layout_bytes(y[s].section_def);
    let count_x = le_bytes(x[s].paragraphs.len() as nat, 8);
    let count_y = le_bytes(y[s].paragraphs.len() as nat, 8);
    let body_x = paragraphs_bytes(x[s].paragraphs@);
    let body_y = paragraphs_bytes(y[s].paragraphs@);
    let rest_x = sections_bytes(x.skip(s + 1));
    let rest_y = sections_bytes(y.skip(s + 1));
    lemma_parts(
        sections_bytes(x.take(s)),
        section_bytes(x[s]) + rest_x,
        sections_bytes(y.take(s)),
        section_bytes(y[s]) + rest_y,
    );
    lemma_regroup(layout_x + count_x, body_x, rest_x);
    lemma_regroup(layout_y + count_y, body_y, rest_y);
    lemma_ranges();
    lemma_width(x[s].paragraphs.len() as nat, 8);
    lemma_width(y[s].paragraphs.len() as nat, 8);
    lemma_layout(x[s].section_def, y[s].section_def);
    lemma_layout(y[s].section_def, x[s].section_def);
    lemma_parts(layout_x + count_x, body_x + rest_x, layout_y + count_y, body_y + rest_y);
    lemma_last_number(
        layout_x,
        x[s].paragraphs.len() as nat,
        layout_y,
        y[s].paragraphs.len() as nat,
        8,
    );
}

/// A paragraph shows in what is hashed of its document: where two documents have equal bytes, and
/// are alike before paragraph `p` of section `s`, then these paragraphs have one shape, one style
/// and as many controls. So documents that first differ in one of these differ in what is hashed.
pub proof fn law_paragraph_difference_shows(a: Document, b: Document, s: int, p: int)
    requires
        structure_bytes(a) == structure_bytes(b),
        0 <= s < a.sections@.len(),
        alike_before_section(a, b, s),
        0 <= p < a.sections@[s].paragraphs@.len(),
        forall|i: int|
            0 <= i < p && s < b.sections@.len() && i < b.sections@[s].paragraphs@.len()
                ==> alike_paragraph(
                #[trigger] a.sections@[s].paragraphs@[i],
                b.sections@[s].paragraphs@[i],
            ),
    ensures
        s < b.sections@.len(),
        p < b.sections@[s].paragraphs@.len(),
        a.sections@[s].paragraphs@[p].para_shape_id == b.sections@[s].paragraphs@[p].para_shape_id,
        a.sections@[s].paragraphs@[p].style_id == b.sections@[s].paragraphs@[p].style_id,
        a.sections@[s].paragraphs@[p].controls@.len()
            == b.sections@[s].paragraphs@[p].controls@.len(),
{
    law_section_difference_shows(a, b, s);
    let x = a.sections@[s].paragraphs@;
    let y = b.sections@[s].paragraphs@;
    let rest_x = sections_bytes(a.sections@.skip(s + 1));
    let rest_y = sections_bytes(b.sections@.skip(s + 1));
    lemma_paragraphs_around(x, p);
    lemma_paragraphs_around(y, p);
    assert forall|i: int| 0 <= i < x.take(p).len() implies alike_paragraph(
        #[trigger] x.take(p)[i],
        y.take(p)[i],
    ) by {
        assert(alike_paragraph(x[i], y[i]));
    }
    lemma_alike_paragraphs(x.take(p), y.take(p));
    let before = paragraphs_bytes(x.take(p));
    let tail_x = paragraphs_bytes(x.skip(p + 1));
    let tail_y = paragraphs_bytes(y.skip(p + 1));
    lemma_regroup(before, paragraph_bytes(x[p]) + tail_x, rest_x);
    lemma_regroup(before, paragraph_bytes(y[p]) + tail_y, rest_y);
    lemma_parts(
        before,
        paragraph_bytes(x[p]) + tail_x + rest_x,
        before,
        paragraph_bytes(y[p]) + tail_y + rest_y,
    );
    lemma_regroup(paragraph_bytes(x[p]), tail_x, rest_x);
    lemma_regroup(paragraph_bytes(y[p]), tail_y, rest_y);
    lemma_paragraph_head(x[p], tail_x + rest_x, y[p], tail_y + rest_y);
}

/// The shape, the style and the number of controls of a paragraph can be read back from its bytes,
/// whatever follows them.
pub proof fn lemma_paragraph_head(a: Paragraph, rest_a: Seq<u8>, b: Paragraph, rest_b: Seq<u8>)
    requires
        paragraph_bytes(a) + rest_a == paragraph_bytes(b) + rest_b,
    ensures
        a.para_shape_id == b.para_shape_id,
        a.style_id == b.style_id,
        a.controls@.len() == b.controls@.len(),
        controls_bytes(a.controls@) + rest_a == controls_bytes(b.controls@) + rest_b,
{
    let shape_a = le_bytes(a.para_shape_id as nat, 2);
    let shape_b = le_bytes(b.para_shape_id as nat, 2);
    let count_a = le_bytes(a.controls.len() as nat, 8);
    let count_b = le_bytes(b.controls.len() as nat, 8);
    let head_a = shape_a + seq![a.style_id] + count_a;
    let head_b = shape_b + seq![b.style_id] + count_b;
    lemma_ranges();
    lemma_width(a.para_shape_id as nat, 2);
    lemma_width(b.para_shape_id as nat, 2);
    lemma_width(a.controls.len() as nat, 8);
    lemma_width(b.controls.len() as nat, 8);
    lemma_regroup(head_a, controls_bytes(a.controls@), rest_a);
    lemma_regroup(head_b, controls_bytes(b.controls@), rest_b);
    lemma_parts(
        head_a,
        controls_bytes(a.controls@) + rest_a,
        head_b,
        controls_bytes(b.controls@) + rest_b,
    );
    lemma_last_number(
        shape_a + seq![a.style_id],
        a.controls.len() as nat,
        shape_b + seq![b.style_id],
        b.controls.len() as nat,
        8,
    );
    lemma_last_byte(shape_a, a.style_id, shape_b, b.style_id);
    lemma_number(a.para_shape_id as nat, b.para_shape_id as nat, 2);
}

/// Hexadecimal digits are told apart.
proof fn lemma_digit(i: int, j: int)
    requires
        0 <= i < 16,
        0 <= j < 16,
        "0123456789abcdef"@[i] == "0123456789abcdef"@[j],
    ensures
        i == j,
{
    reveal_strlit("0123456789abcdef");
    let digits = "0123456789abcdef"@;
    assert(digits[i] as int == if i < 10 {
        48 + i
    } else {
        87 + i
    });
    assert(digits[j] as int == if j < 10 {
        48 + j
    } else {
        87 + j
    });
}

/// Bytes can be read back from their hexadecimal digits.
proof fn lemma_hex_digits(a: Seq<u8>, b: Seq<u8>)
    requires
        hex(a) == hex(b),
    ensures
        a == b,
    decreases a.len(),
{
    reveal_strlit("0123456789abcdef");
    lemma_hex(a);
    lemma_hex(b);
    if a.len() > 0 {
        let n = hex(a).len() as int;
        lemma_hex(a.drop_last());
        lemma_hex(b.drop_last());
        assert(hex(a)[n - 1] == "0123456789abcdef"@[a.last() as int % 16]);
        assert(hex(b)[n - 1] == "0123456789abcdef"@[b.last() as int % 16]);
        assert(hex(a)[n - 2] == "0123456789abcdef"@[a.last() as int / 16]);
        assert(hex(b)[n - 2] == "0123456789abcdef"@[b.last() as int / 16]);
        assert(hex(a.drop_last()) =~= hex(a).take(n - 2));
        assert(hex(b.drop_last()) =~= hex(b).take(n - 2));
        lemma_hex_digits(a.drop_last(), b.drop_last());
        lemma_digit(a.last() as int / 16, b.last() as int / 16);
        lemma_digit(a.last() as int % 16, b.last() as int % 16);
        assert(a =~= a.drop_last().push(a.last()));
        assert(b =~= b.drop_last().push(b.last()));
    } else {
        assert(a =~= b);
    }
}

/// Different bytes have different digests, unless SHA-256 gives both the same.
pub proof fn law_equal_digests_are_of_equal_hashes(a: Seq<u8>, b: Seq<u8>)
    requires
        digest_text(a) == digest_text(b),
    ensures
        sha256(a) == sha256(b),
{
    lemma_parts("sha256:"@, hex(sha256(a)), "sha256:"@, hex(sha256(b)));
    lemma_hex_digits(sha256(a), sha256(b));
}

} // verus!
