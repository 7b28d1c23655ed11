//! What the label digests give away of the texts around a target.

use vstd::prelude::*;
use vstd::utf8::{encode_utf8, encode_utf8_decode_utf8, is_ascii_chars_encode_utf8};

use crate::digest::{is_digest, le_bytes, sha256, tag};
use crate::digest_laws::lemma_digest_is_ascii;
use crate::encoding_laws::{
    law_equal_digests_are_of_equal_hashes, lemma_last_byte, lemma_last_number, lemma_number,
    lemma_parts, lemma_ranges, lemma_regroup, lemma_width,
};
use crate::finding_laws::{first_over, law_first_covering_cell_is_found};
use crate::label::{
    adjacent_bytes, beside, body_adjacent_bytes, body_neighbour_bytes, neighbour_bytes,
    text_hash_of, Side,
};
use crate::model::{Paragraph, Table};
use crate::table::{cell_text_of, covering_from};
use crate::text::hex_digit;

verus! {

/// What is at one side of a cell: the edge of the grid, a gap, or a cell, known by its anchor, its
/// spans and the hash of its text.
pub enum Neighbour {
    Edge,
    Missing,
    Cell { row: u16, col: u16, row_span: u16, col_span: u16, text_hash: Seq<char> },
}

/// What is at one side of `(row, col)`.
pub open spec fn neighbour(table: Table, row: u16, col: u16, side: Side) -> Neighbour {
    match beside(table, row, col, side) {
        None => Neighbour::Edge,
        Some(at) => match covering_from(table.cells@, at.0, at.1, 0) {
            None => Neighbour::Missing,
            Some(i) => Neighbour::Cell {
                row: table.cells@[i].row,
                col: table.cells@[i].col,
                row_span: table.cells@[i].row_span,
                col_span: table.cells@[i].col_span,
                text_hash: text_hash_of(cell_text_of(table.cells@[i])),
            },
        },
    }
}

/// Whether the hash that stands for a neighbour has the form of a digest, as every hash that
/// `text_hash` takes has.
pub open spec fn well_hashed(neighbour: Neighbour) -> bool {
    neighbour matches Neighbour::Cell { text_hash, .. } ==> is_digest(text_hash)
}

/// Whether the hashes of all four neighbours have the form of digests.
pub open spec fn well_labelled(table: Table, row: u16, col: u16) -> bool {
    forall|side: Side| well_hashed(#[trigger] neighbour(table, row, col, side))
}

/// The bytes that stand for a neighbour.
spec fn bytes_of(neighbour: Neighbour) -> Seq<u8> {
    match neighbour {
        Neighbour::Edge => tag("edge"),
        Neighbour::Missing => tag("missing"),
        Neighbour::Cell { row, col, row_span, col_span, text_hash } => le_bytes(row as nat, 2)
            + le_bytes(col as nat, 2) + le_bytes(row_span as nat, 2) + le_bytes(col_span as nat, 2)
            + encode_utf8(text_hash),
    }
}

/// The bytes of tags and of well-formed hashes.
proof fn lemma_tags()
    ensures
        tag("edge").len() == 4,
        tag("edge")[0] == 101,
        tag("missing").len() == 7,
        tag("missing")[0] == 109,
        tag("left").len() == 4,
        tag("left")[1] == 101,
        tag("right").len() == 5,
        tag("right")[1] == 105,
        tag("down").len() == 4,
        tag("down")[1] == 111,
        tag("next").len() == 4,
        tag("edge")[3] == 101,
{
    reveal_strlit("edge");
    reveal_strlit("missing");
    reveal_strlit("left");
    reveal_strlit("right");
    reveal_strlit("down");
    reveal_strlit("next");
    is_ascii_chars_encode_utf8("edge"@);
    is_ascii_chars_encode_utf8("missing"@);
    is_ascii_chars_encode_utf8("left"@);
    is_ascii_chars_encode_utf8("right"@);
    is_ascii_chars_encode_utf8("down"@);
    is_ascii_chars_encode_utf8("next"@);
    assert("edge"@[0] as u8 == 101);
    assert("edge"@[3] as u8 == 101);
    assert("missing"@[0] as u8 == 109);
    assert("left"@[1] as u8 == 101);
    assert("right"@[1] as u8 == 105);
    assert("down"@[1] as u8 == 111);
}

/// A digest starts with an `s`, and holds none after the colon.
proof fn lemma_digest_bytes(digest: Seq<char>)
    requires
        is_digest(digest),
    ensures
        encode_utf8(digest).len() == 71,
        encode_utf8(digest)[0] == 115,
        forall|i: int| 7 <= i < 71 ==> #[trigger] encode_utf8(digest)[i] != 115,
{
    reveal_strlit("sha256:");
    lemma_digest_is_ascii(digest);
    is_ascii_chars_encode_utf8(digest);
    assert(digest.take(7)[0] == digest[0]);
    assert forall|i: int| 7 <= i < 71 implies #[trigger] encode_utf8(digest)[i] != 115 by {
        assert(hex_digit(digest[i]));
        assert(digest[i] as u8 == encode_utf8(digest)[i]);
    }
}

/// A text can be read back from its bytes.
proof fn lemma_text(a: Seq<char>, b: Seq<char>)
    requires
        encode_utf8(a) == encode_utf8(b),
    ensures
        a == b,
{
    encode_utf8_decode_utf8(a);
    encode_utf8_decode_utf8(b);
}

/// The bytes of a cell: eight for its anchor and spans, and then its hash.
proof fn lemma_cell_bytes(cell: Neighbour)
    requires
        cell is Cell,
        well_hashed(cell),
    ensures
        bytes_of(cell).len() == 79,
        bytes_of(cell)[8] == 115,
        forall|i: int| 15 <= i < 79 ==> #[trigger] bytes_of(cell)[i] != 115,
{
    if let Neighbour::Cell { row, col, row_span, col_span, text_hash } = cell {
        lemma_width(row as nat, 2);
        lemma_width(col as nat, 2);
        lemma_width(row_span as nat, 2);
        lemma_width(col_span as nat, 2);
        lemma_digest_bytes(text_hash);
        assert forall|i: int| 15 <= i < 79 implies #[trigger] bytes_of(cell)[i] != 115 by {
            assert(bytes_of(cell)[i] == encode_utf8(text_hash)[i - 8]);
        }
    }
}

/// A neighbour of a known kind can be read back from its bytes.
proof fn lemma_same_kind(a: Neighbour, b: Neighbour)
    requires
        bytes_of(a) == bytes_of(b),
        a is Edge <==> b is Edge,
        a is Missing <==> b is Missing,
        well_hashed(a),
        well_hashed(b),
    ensures
        a == b,
{
    if let (
        Neighbour::Cell { row: r, col: c, row_span: rs, col_span: cs, text_hash: h },
        Neighbour::Cell { row: r2, col: c2, row_span: rs2, col_span: cs2, text_hash: h2 },
    ) = (a, b) {
        lemma_ranges();
        lemma_digest_bytes(h);
        lemma_digest_bytes(h2);
        let a1 = le_bytes(r as nat, 2);
        let b1 = le_bytes(r2 as nat, 2);
        let a2 = a1 + le_bytes(c as nat, 2);
        let b2 = b1 + le_bytes(c2 as nat, 2);
        let a3 = a2 + le_bytes(rs as nat, 2);
        let b3 = b2 + le_bytes(rs2 as nat, 2);
        let a4 = a3 + le_bytes(cs as nat, 2);
        let b4 = b3 + le_bytes(cs2 as nat, 2);
        lemma_parts(a4, encode_utf8(h), b4, encode_utf8(h2));
        lemma_last_number(a3, cs as nat, b3, cs2 as nat, 2);
        lemma_last_number(a2, rs as nat, b2, rs2 as nat, 2);
        lemma_last_number(a1, c as nat, b1, c2 as nat, 2);
        lemma_number(r as nat, r2 as nat, 2);
        lemma_text(h, h2);
    }
}

/// A neighbour can be read back from the bytes it starts, where it is known whether it is the edge
/// and what follows does not look like a hash.
proof fn lemma_first(a: Neighbour, rest_a: Seq<u8>, b: Neighbour, rest_b: Seq<u8>)
    requires
        bytes_of(a) + rest_a == bytes_of(b) + rest_b,
        a is Edge <==> b is Edge,
        well_hashed(a),
        well_hashed(b),
        rest_a.len() > 1,
        rest_a[1] != 115,
        rest_b.len() > 1,
        rest_b[1] != 115,
    ensures
        a == b,
        rest_a == rest_b,
{
    lemma_tags();
    let whole = bytes_of(a) + rest_a;
    if a is Cell {
        lemma_cell_bytes(a);
    }
    if b is Cell {
        lemma_cell_bytes(b);
    }
    if a is Missing && b is Cell {
        assert(whole[8] == rest_a[1]);
        assert((bytes_of(b) + rest_b)[8] == bytes_of(b)[8]);
    }
    if a is Cell && b is Missing {
        assert(whole[8] == bytes_of(a)[8]);
        assert((bytes_of(b) + rest_b)[8] == rest_b[1]);
    }
    lemma_parts(bytes_of(a), rest_a, bytes_of(b), rest_b);
    lemma_same_kind(a, b);
}

/// The last neighbour can be read back from its bytes.
proof fn lemma_last(a: Neighbour, b: Neighbour)
    requires
        bytes_of(a) == bytes_of(b),
        well_hashed(a),
        well_hashed(b),
    ensures
        a == b,
{
    lemma_tags();
    if a is Cell {
        lemma_cell_bytes(a);
    }
    if b is Cell {
        lemma_cell_bytes(b);
    }
    lemma_same_kind(a, b);
}

/// An edge before the last neighbour is not taken for anything else.
proof fn lemma_edge(a: Neighbour, down_a: Neighbour, b: Neighbour, down_b: Neighbour)
    requires
        bytes_of(a) + (tag("down") + bytes_of(down_a)) == bytes_of(b) + (tag("down") + bytes_of(
            down_b,
        )),
        well_hashed(a),
        well_hashed(b),
        well_hashed(down_a),
        a is Edge,
    ensures
        b is Edge,
{
    lemma_tags();
    let whole = bytes_of(a) + (tag("down") + bytes_of(down_a));
    let other = bytes_of(b) + (tag("down") + bytes_of(down_b));
    if b is Missing {
        assert(whole[0] == tag("edge")[0]);
        assert(other[0] == tag("missing")[0]);
    }
    if b is Cell {
        lemma_cell_bytes(b);
        assert(other[8] == 115);
        if down_a is Cell {
            lemma_cell_bytes(down_a);
            assert(whole[16] == bytes_of(down_a)[8]);
            assert(other[16] == bytes_of(b)[16]);
        } else {
            assert(whole[8] == bytes_of(down_a)[0]);
        }
    }
}

/// Labelled neighbours in the order in which they are hashed.
spec fn labels(up: Seq<u8>, left: Seq<u8>, right: Seq<u8>, down: Seq<u8>) -> Seq<u8> {
    let after_right = tag("down") + down;
    let after_left = tag("right") + (right + after_right);
    let after_up = tag("left") + (left + after_left);
    tag("up") + (up + after_up)
}

/// What the label digest of a cell is taken of, by the neighbours.
proof fn lemma_adjacent(table: Table, row: u16, col: u16)
    ensures
        adjacent_bytes(table, row, col) == tag("rhwp-approved-template-adjacent-label-v1\0")
            + labels(
            bytes_of(neighbour(table, row, col, Side::Up)),
            bytes_of(neighbour(table, row, col, Side::Left)),
            bytes_of(neighbour(table, row, col, Side::Right)),
            bytes_of(neighbour(table, row, col, Side::Down)),
        ),
{
    let head = tag("rhwp-approved-template-adjacent-label-v1\0");
    let up = bytes_of(neighbour(table, row, col, Side::Up));
    let left = bytes_of(neighbour(table, row, col, Side::Left));
    let right = bytes_of(neighbour(table, row, col, Side::Right));
    let down = bytes_of(neighbour(table, row, col, Side::Down));
    assert(neighbour_bytes(table, beside(table, row, col, Side::Up)) == up);
    assert(neighbour_bytes(table, beside(table, row, col, Side::Left)) == left);
    assert(neighbour_bytes(table, beside(table, row, col, Side::Right)) == right);
    assert(neighbour_bytes(table, beside(table, row, col, Side::Down)) == down);
    let after_right = tag("down") + down;
    let after_left = tag("right") + (right + after_right);
    let after_up = tag("left") + (left + after_left);
    lemma_regroup(
        head + (tag("up") + up) + (tag("left") + left),
        tag("right") + right,
        after_right,
    );
    lemma_regroup(tag("right"), right, after_right);
    lemma_regroup(head + (tag("up") + up), tag("left") + left, after_left);
    lemma_regroup(tag("left"), left, after_left);
    lemma_regroup(head, tag("up") + up, after_up);
    lemma_regroup(tag("up"), up, after_up);
}

/// The label digest of a place in a table is taken of its four neighbours and of nothing else: two
/// tables have equal bytes there exactly where the neighbours at each side are equal, by their
/// anchors, their spans and the hashes of their texts.
pub proof fn law_labels_are_the_neighbours(a: Table, b: Table, row: u16, col: u16)
    requires
        well_labelled(a, row, col),
        well_labelled(b, row, col),
    ensures
        adjacent_bytes(a, row, col) == adjacent_bytes(b, row, col) <==> (forall|side: Side|
            #[trigger] neighbour(a, row, col, side) == neighbour(b, row, col, side)),
{
    lemma_adjacent(a, row, col);
    lemma_adjacent(b, row, col);
    if adjacent_bytes(a, row, col) == adjacent_bytes(b, row, col) {
        lemma_tags();
        let up_a = neighbour(a, row, col, Side::Up);
        let up_b = neighbour(b, row, col, Side::Up);
        let left_a = neighbour(a, row, col, Side::Left);
        let left_b = neighbour(b, row, col, Side::Left);
        let right_a = neighbour(a, row, col, Side::Right);
        let right_b = neighbour(b, row, col, Side::Right);
        let down_a = neighbour(a, row, col, Side::Down);
        let down_b = neighbour(b, row, col, Side::Down);
        let head = tag("rhwp-approved-template-adjacent-label-v1\0");
        let after_right_a = tag("down") + bytes_of(down_a);
        let after_right_b = tag("down") + bytes_of(down_b);
        let after_left_a = tag("right") + (bytes_of(right_a) + after_right_a);
        let after_left_b = tag("right") + (bytes_of(right_b) + after_right_b);
        let after_up_a = tag("left") + (bytes_of(left_a) + after_left_a);
        let after_up_b = tag("left") + (bytes_of(left_b) + after_left_b);
        lemma_parts(
            head,
            tag("up") + (bytes_of(up_a) + after_up_a),
            head,
            tag("up") + (bytes_of(up_b) + after_up_b),
        );
        lemma_parts(
            tag("up"),
            bytes_of(up_a) + after_up_a,
            tag("up"),
            bytes_of(up_b) + after_up_b,
        );
        lemma_first(up_a, after_up_a, up_b, after_up_b);
        lemma_parts(
            tag("left"),
            bytes_of(left_a) + after_left_a,
            tag("left"),
            bytes_of(left_b) + after_left_b,
        );
        lemma_first(left_a, after_left_a, left_b, after_left_b);
        lemma_parts(
            tag("right"),
            bytes_of(right_a) + after_right_a,
            tag("right"),
            bytes_of(right_b) + after_right_b,
        );
        if right_a is Edge {
            lemma_edge(right_a, down_a, right_b, down_b);
        }
        if right_b is Edge {
            lemma_edge(right_b, down_b, right_a, down_a);
        }
        lemma_first(right_a, after_right_a, right_b, after_right_b);
        lemma_parts(tag("down"), bytes_of(down_a), tag("down"), bytes_of(down_b));
        lemma_last(down_a, down_b);
        assert forall|side: Side| #[trigger]
            neighbour(a, row, col, side) == neighbour(b, row, col, side) by {
            match side {
                Side::Up => {},
                Side::Left => {},
                Side::Right => {},
                Side::Down => {},
            }
        }
    }
}

/// A paragraph beside another: its shape, its style and the hash of its text; or none, where the
/// section ends.
pub open spec fn body_neighbour(paragraphs: Seq<Paragraph>, index: int) -> Option<
    (u16, u8, Seq<char>),
> {
    if 0 <= index < paragraphs.len() {
        Some(
            (
                paragraphs[index].para_shape_id,
                paragraphs[index].style_id,
                text_hash_of(paragraphs[index].text@),
            ),
        )
    } else {
        None
    }
}

/// Whether the hash that stands for a neighbouring paragraph has the form of a digest.
pub open spec fn body_well_hashed(paragraphs: Seq<Paragraph>, index: int) -> bool {
    body_neighbour(paragraphs, index) matches Some(found) ==> is_digest(found.2)
}

/// A neighbouring paragraph can be read back from its bytes, where it is known whether there is
/// one.
proof fn lemma_body_same(a: Seq<Paragraph>, i: int, b: Seq<Paragraph>, j: int)
    requires
        body_neighbour_bytes(a, i) == body_neighbour_bytes(b, j),
        body_neighbour(a, i) is Some <==> body_neighbour(b, j) is Some,
        body_well_hashed(a, i),
        body_well_hashed(b, j),
    ensures
        body_neighbour(a, i) == body_neighbour(b, j),
{
    if body_neighbour(a, i) is Some {
        let hash_a = text_hash_of(a[i].text@);
        let hash_b = text_hash_of(b[j].text@);
        lemma_ranges();
        lemma_digest_bytes(hash_a);
        lemma_digest_bytes(hash_b);
        let shape_a = le_bytes(a[i].para_shape_id as nat, 2);
        let shape_b = le_bytes(b[j].para_shape_id as nat, 2);
        lemma_parts(
            shape_a + seq![a[i].style_id],
            encode_utf8(hash_a),
            shape_b + seq![b[j].style_id],
            encode_utf8(hash_b),
        );
        lemma_last_byte(shape_a, a[i].style_id, shape_b, b[j].style_id);
        lemma_number(a[i].para_shape_id as nat, b[j].para_shape_id as nat, 2);
        lemma_text(hash_a, hash_b);
    }
}

/// The bytes of a neighbouring paragraph: three for its shape and style, and then its hash.
proof fn lemma_body_bytes(paragraphs: Seq<Paragraph>, index: int)
    requires
        body_well_hashed(paragraphs, index),
    ensures
        body_neighbour(paragraphs, index) is Some ==> body_neighbour_bytes(paragraphs, index).len()
            == 74 && body_neighbour_bytes(paragraphs, index)[3] == 115,
        body_neighbour(paragraphs, index) is None ==> body_neighbour_bytes(paragraphs, index)
            == tag("edge"),
{
    if body_neighbour(paragraphs, index) is Some {
        lemma_width(paragraphs[index].para_shape_id as nat, 2);
        lemma_digest_bytes(text_hash_of(paragraphs[index].text@));
    }
}

/// The label digest of a body paragraph is taken of the paragraphs before and after it and of
/// nothing else: the bytes are equal exactly where both are equal, by their shapes, their styles
/// and the hashes of their texts.
pub proof fn law_body_labels_are_the_neighbours(
    a: Seq<Paragraph>,
    i: int,
    b: Seq<Paragraph>,
    j: int,
)
    requires
        body_well_hashed(a, i - 1),
        body_well_hashed(a, i + 1),
        body_well_hashed(b, j - 1),
        body_well_hashed(b, j + 1),
    ensures
        body_adjacent_bytes(a, i) == body_adjacent_bytes(b, j) <==> (body_neighbour(a, i - 1)
            == body_neighbour(b, j - 1) && body_neighbour(a, i + 1) == body_neighbour(b, j + 1)),
{
    let head = tag("rhwp-approved-template-body-adjacent-label-v1\0");
    let previous_a = body_neighbour_bytes(a, i - 1);
    let previous_b = body_neighbour_bytes(b, j - 1);
    let next_a = tag("next") + body_neighbour_bytes(a, i + 1);
    let next_b = tag("next") + body_neighbour_bytes(b, j + 1);
    if body_adjacent_bytes(a, i) == body_adjacent_bytes(b, j) {
        lemma_tags();
        lemma_body_bytes(a, i - 1);
        lemma_body_bytes(a, i + 1);
        lemma_body_bytes(b, j - 1);
        lemma_body_bytes(b, j + 1);
        lemma_regroup(head, tag("previous"), previous_a);
        lemma_regroup(head + tag("previous"), previous_a, next_a);
        lemma_regroup(head, tag("previous"), previous_b);
        lemma_regroup(head + tag("previous"), previous_b, next_b);
        lemma_parts(
            head + tag("previous"),
            previous_a + next_a,
            head + tag("previous"),
            previous_b + next_b,
        );
        assert((previous_a + next_a)[3] == previous_a[3]);
        assert((previous_b + next_b)[3] == previous_b[3]);
        lemma_parts(previous_a, next_a, previous_b, next_b);
        lemma_body_same(a, i - 1, b, j - 1);
        lemma_parts(
            tag("next"),
            body_neighbour_bytes(a, i + 1),
            tag("next"),
            body_neighbour_bytes(b, j + 1),
        );
        lemma_body_same(a, i + 1, b, j + 1);
    }
}

/// What the hash that stands for a text is taken of: a mark for this use, and the whole text.
pub open spec fn text_source(text: Seq<char>) -> Seq<u8> {
    encode_utf8("rhwp-approved-template-text-v1\0"@) + encode_utf8(text)
}

/// Two different texts are hashed from different bytes.
proof fn lemma_text_source(a: Seq<char>, b: Seq<char>)
    requires
        text_source(a) == text_source(b),
    ensures
        a == b,
{
    let mark = encode_utf8("rhwp-approved-template-text-v1\0"@);
    lemma_parts(mark, encode_utf8(a), mark, encode_utf8(b));
    lemma_text(a, b);
}

/// Where SHA-256 gives two different texts the same hash.
pub open spec fn texts_collide(a: Seq<char>, b: Seq<char>) -> bool {
    text_source(a) != text_source(b) && sha256(text_source(a)) == sha256(text_source(b))
}

/// A hash stands for one text: two texts that have the same hash are the same in every character,
/// unless SHA-256 itself gives two different byte strings one digest, each of which holds one of
/// the texts as a whole.
pub proof fn law_text_hash_is_of_the_whole_text(a: Seq<char>, b: Seq<char>)
    ensures
        text_hash_of(a) == text_hash_of(b) <==> (a == b || texts_collide(a, b)),
        a != b ==> text_source(a) != text_source(b),
{
    if text_source(a) == text_source(b) {
        lemma_text_source(a, b);
    }
    if text_hash_of(a) == text_hash_of(b) {
        law_equal_digests_are_of_equal_hashes(text_source(a), text_source(b));
    }
}

/// Whether one step from `(row, col)` stays in the grid. A step up or to the left leaves it at the
/// first row or column, and one down or to the right at the last.
pub open spec fn stays_inside(
    table: Table,
    row: u16,
    col: u16,
    rows_down: int,
    cols_right: int,
) -> bool {
    &&& row + rows_down >= 0
    &&& col + cols_right >= 0
    &&& rows_down > 0 ==> row + rows_down < table.row_count
    &&& cols_right > 0 ==> col + cols_right < table.col_count
}

/// Whether two numbers name one of the four steps: up, left, right or down.
pub open spec fn one_step(rows_down: int, cols_right: int) -> bool {
    ||| rows_down == -1 && cols_right == 0
    ||| rows_down == 0 && cols_right == -1
    ||| rows_down == 0 && cols_right == 1
    ||| rows_down == 1 && cols_right == 0
}

/// Whether two tables show the same at the coordinates `(row, col)`: the first cell of each that
/// lies over them has the same anchor, the same spans and a text of the same hash, or none does.
pub open spec fn show_the_same(a: Table, b: Table, row: int, col: int) -> bool {
    &&& (exists|i: int| #[trigger] first_over(a.cells@, row, col, i)) <==> (exists|j: int| #[trigger]
        first_over(b.cells@, row, col, j))
    &&& forall|i: int, j: int| #[trigger]
        first_over(a.cells@, row, col, i) && #[trigger] first_over(b.cells@, row, col, j) ==> {
            &&& a.cells@[i].row == b.cells@[j].row
            &&& a.cells@[i].col == b.cells@[j].col
            &&& a.cells@[i].row_span == b.cells@[j].row_span
            &&& a.cells@[i].col_span == b.cells@[j].col_span
            &&& text_hash_of(cell_text_of(a.cells@[i])) == text_hash_of(cell_text_of(b.cells@[j]))
        }
}

/// Whether two tables show the same one step from `(row, col)`: the step leaves both grids, or
/// neither, and then the same lies there.
pub open spec fn same_beside(
    a: Table,
    b: Table,
    row: u16,
    col: u16,
    rows_down: int,
    cols_right: int,
) -> bool {
    &&& stays_inside(a, row, col, rows_down, cols_right) <==> stays_inside(
        b,
        row,
        col,
        rows_down,
        cols_right,
    )
    &&& stays_inside(a, row, col, rows_down, cols_right) ==> show_the_same(
        a,
        b,
        row + rows_down,
        col + cols_right,
    )
}

/// What is at one side is what is one step away there.
proof fn lemma_one_step(
    a: Table,
    b: Table,
    row: u16,
    col: u16,
    side: Side,
    rows_down: int,
    cols_right: int,
)
    requires
        match side {
            Side::Up => rows_down == -1 && cols_right == 0,
            Side::Left => rows_down == 0 && cols_right == -1,
            Side::Right => rows_down == 0 && cols_right == 1,
            Side::Down => rows_down == 1 && cols_right == 0,
        },
    ensures
        neighbour(a, row, col, side) == neighbour(b, row, col, side) <==> same_beside(
            a,
            b,
            row,
            col,
            rows_down,
            cols_right,
        ),
{
    if stays_inside(a, row, col, rows_down, cols_right) && stays_inside(
        b,
        row,
        col,
        rows_down,
        cols_right,
    ) {
        let r: u16 = (row + rows_down) as u16;
        let c: u16 = (col + cols_right) as u16;
        assert(beside(a, row, col, side) == Some((r, c)));
        assert(beside(b, row, col, side) == Some((r, c)));
        assert forall|i: int|
            #![trigger first_over(a.cells@, r as int, c as int, i)]
            covering_from(a.cells@, r, c, 0) == Some(i) <==> first_over(
                a.cells@,
                r as int,
                c as int,
                i,
            ) by {
            law_first_covering_cell_is_found(a.cells@, r, c, i);
        }
        assert forall|i: int|
            #![trigger first_over(b.cells@, r as int, c as int, i)]
            covering_from(b.cells@, r, c, 0) == Some(i) <==> first_over(
                b.cells@,
                r as int,
                c as int,
                i,
            ) by {
            law_first_covering_cell_is_found(b.cells@, r, c, i);
        }
        if let Some(i) = covering_from(a.cells@, r, c, 0) {
            assert(first_over(a.cells@, r as int, c as int, i));
        }
        if let Some(j) = covering_from(b.cells@, r, c, 0) {
            assert(first_over(b.cells@, r as int, c as int, j));
        }
    } else {
        assert(beside(a, row, col, side) is Some <==> stays_inside(
            a,
            row,
            col,
            rows_down,
            cols_right,
        ));
        assert(beside(b, row, col, side) is Some <==> stays_inside(
            b,
            row,
            col,
            rows_down,
            cols_right,
        ));
    }
}

/// The label of `(row, col)` is taken of the coordinates exactly one step away: the same column in
/// the rows before and after, and the same row in the columns before and after. Two tables have
/// equal label bytes there exactly where each of the four steps leaves both grids or neither, and
/// the first cells lying over the coordinates that it leads to have the same anchors, the same
/// spans and texts of the same hash.
pub proof fn law_labels_are_one_step_away(a: Table, b: Table, row: u16, col: u16)
    requires
        well_labelled(a, row, col),
        well_labelled(b, row, col),
    ensures
        adjacent_bytes(a, row, col) == adjacent_bytes(b, row, col) <==> (forall|
            rows_down: int,
            cols_right: int,
        |
            one_step(rows_down, cols_right) ==> #[trigger] same_beside(
                a,
                b,
                row,
                col,
                rows_down,
                cols_right,
            )),
{
    law_labels_are_the_neighbours(a, b, row, col);
    lemma_one_step(a, b, row, col, Side::Up, -1, 0);
    lemma_one_step(a, b, row, col, Side::Left, 0, -1);
    lemma_one_step(a, b, row, col, Side::Right, 0, 1);
    lemma_one_step(a, b, row, col, Side::Down, 1, 0);
    if forall|rows_down: int, cols_right: int|
        one_step(rows_down, cols_right) ==> #[trigger] same_beside(
            a,
            b,
            row,
            col,
            rows_down,
            cols_right,
        ) {
        assert(same_beside(a, b, row, col, -1, 0));
        assert(same_beside(a, b, row, col, 0, -1));
        assert(same_beside(a, b, row, col, 0, 1));
        assert(same_beside(a, b, row, col, 1, 0));
        assert forall|side: Side| #[trigger]
            neighbour(a, row, col, side) == neighbour(b, row, col, side) by {
            match side {
                Side::Up => {},
                Side::Left => {},
                Side::Right => {},
                Side::Down => {},
            }
        }
    }
}

/// A changed text one step away shows in the label: where the first cells lying over those
/// coordinates in two tables have texts of different hashes, the label bytes differ.
pub proof fn law_changed_text_beside_shows(
    a: Table,
    b: Table,
    row: u16,
    col: u16,
    rows_down: int,
    cols_right: int,
    i: int,
    j: int,
)
    requires
        well_labelled(a, row, col),
        well_labelled(b, row, col),
        one_step(rows_down, cols_right),
        stays_inside(a, row, col, rows_down, cols_right),
        first_over(a.cells@, row + rows_down, col + cols_right, i),
        first_over(b.cells@, row + rows_down, col + cols_right, j),
        text_hash_of(cell_text_of(a.cells@[i])) != text_hash_of(cell_text_of(b.cells@[j])),
    ensures
        adjacent_bytes(a, row, col) != adjacent_bytes(b, row, col),
{
    law_labels_are_one_step_away(a, b, row, col);
    assert(!same_beside(a, b, row, col, rows_down, cols_right));
}

} // verus!
