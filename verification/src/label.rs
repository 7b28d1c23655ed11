//! Hashes that stand for texts: of a target, of the labels around it, and of a checked request.

use vstd::prelude::*;
use vstd::utf8::encode_utf8;

use crate::digest::{
    digest_string, digest_text, hash_byte, hash_bytes, hash_le, hash_str, is_digest, le_bytes, tag,
};
use crate::model::{Cell, Paragraph, Table};
use crate::table::{cell_text, cell_text_of, covering_cell, covering_from};

verus! {

/// The hash that stands for `text`.
pub open spec fn text_hash_of(text: Seq<char>) -> Seq<char> {
    digest_text(tag("rhwp-approved-template-text-v1\0") + encode_utf8(text))
}

/// Hashes a text.
pub fn text_hash(text: &str) -> (hash: String)
    ensures
        hash@ == text_hash_of(text@),
        is_digest(hash@),
{
    let mut data: Vec<u8> = Vec::new();
    hash_str(&mut data, "rhwp-approved-template-text-v1\0");
    assert(data@ =~= tag("rhwp-approved-template-text-v1\0"));
    hash_str(&mut data, text);
    digest_string(data.as_slice())
}

/// The four neighbours of a cell, in the order in which they are hashed.
#[derive(Debug, Clone, Copy, PartialEq, Eq, Structural)]
pub enum Side {
    Up,
    Left,
    Right,
    Down,
}

/// The coordinates next to `(row, col)`, or none where the grid ends there.
pub open spec fn beside(table: Table, row: u16, col: u16, side: Side) -> Option<(u16, u16)> {
    match side {
        Side::Up => if row > 0 {
            Some(((row - 1) as u16, col))
        } else {
            None
        },
        Side::Left => if col > 0 {
            Some((row, (col - 1) as u16))
        } else {
            None
        },
        Side::Right => if col + 1 < table.col_count {
            Some((row, (col + 1) as u16))
        } else {
            None
        },
        Side::Down => if row + 1 < table.row_count {
            Some(((row + 1) as u16, col))
        } else {
            None
        },
    }
}

/// The bytes that stand for a neighbouring cell: its anchor, its spans and the hash of its text.
pub open spec fn neighbour_cell_bytes(cell: Cell) -> Seq<u8> {
    le_bytes(cell.row as nat, 2) + le_bytes(cell.col as nat, 2) + le_bytes(cell.row_span as nat, 2)
        + le_bytes(cell.col_span as nat, 2) + encode_utf8(text_hash_of(cell_text_of(cell)))
}

/// The bytes that stand for what is at one side of a cell.
pub open spec fn neighbour_bytes(table: Table, at: Option<(u16, u16)>) -> Seq<u8> {
    match at {
        Some((row, col)) => match covering_from(table.cells@, row, col, 0) {
            Some(i) => neighbour_cell_bytes(table.cells@[i]),
            None => tag("missing"),
        },
        None => tag("edge"),
    }
}

/// What the label digest of a cell is taken of.
pub open spec fn adjacent_bytes(table: Table, row: u16, col: u16) -> Seq<u8> {
    tag("rhwp-approved-template-adjacent-label-v1\0") + (tag("up") + neighbour_bytes(
        table,
        beside(table, row, col, Side::Up),
    )) + (tag("left") + neighbour_bytes(table, beside(table, row, col, Side::Left))) + (tag("right")
        + neighbour_bytes(table, beside(table, row, col, Side::Right))) + (tag("down")
        + neighbour_bytes(table, beside(table, row, col, Side::Down)))
}

/// Appends what is at one side of a cell.
fn hash_neighbour(out: &mut Vec<u8>, label: &str, table: &Table, at: Option<(u16, u16)>)
    ensures
        final(out)@ == old(out)@ + (tag(label) + neighbour_bytes(*table, at)),
{
    hash_str(out, label);
    match at {
        Some((row, col)) => match covering_cell(table, row, col) {
            Some(cell) => {
                hash_le(out, cell.row as u64, 2);
                hash_le(out, cell.col as u64, 2);
                hash_le(out, cell.row_span as u64, 2);
                hash_le(out, cell.col_span as u64, 2);
                let text: String = cell_text(cell);
                let hash: String = text_hash(text.as_str());
                hash_str(out, hash.as_str());
                assert(out@ =~= old(out)@ + (tag(label) + neighbour_cell_bytes(*cell)));
            },
            None => {
                hash_str(out, "missing");
                assert(out@ =~= old(out)@ + (tag(label) + tag("missing")));
            },
        },
        None => {
            hash_str(out, "edge");
            assert(out@ =~= old(out)@ + (tag(label) + tag("edge")));
        },
    }
}

/// The digest of the four cells around `(row, col)`.
pub fn adjacent_label_digest(table: &Table, row: u16, col: u16) -> (digest: String)
    ensures
        digest@ == digest_text(adjacent_bytes(*table, row, col)),
        is_digest(digest@),
{
    let up: Option<(u16, u16)> = if row > 0 {
        Some((row - 1, col))
    } else {
        None
    };
    let left: Option<(u16, u16)> = if col > 0 {
        Some((row, col - 1))
    } else {
        None
    };
    let right: Option<(u16, u16)> = if col < u16::MAX && col + 1 < table.col_count {
        Some((row, col + 1))
    } else {
        None
    };
    let down: Option<(u16, u16)> = if row < u16::MAX && row + 1 < table.row_count {
        Some((row + 1, col))
    } else {
        None
    };
    let mut data: Vec<u8> = Vec::new();
    hash_str(&mut data, "rhwp-approved-template-adjacent-label-v1\0");
    assert(data@ =~= tag("rhwp-approved-template-adjacent-label-v1\0"));
    hash_neighbour(&mut data, "up", table, up);
    hash_neighbour(&mut data, "left", table, left);
    hash_neighbour(&mut data, "right", table, right);
    hash_neighbour(&mut data, "down", table, down);
    digest_string(data.as_slice())
}

/// The bytes that stand for a neighbouring paragraph: its shape, its style and the hash of its
/// text; or for the end of the section.
pub open spec fn body_neighbour_bytes(paragraphs: Seq<Paragraph>, index: int) -> Seq<u8> {
    if 0 <= index < paragraphs.len() {
        le_bytes(paragraphs[index].para_shape_id as nat, 2) + seq![paragraphs[index].style_id]
            + encode_utf8(text_hash_of(paragraphs[index].text@))
    } else {
        tag("edge")
    }
}

/// What the label digest of a body paragraph is taken of.
pub open spec fn body_adjacent_bytes(paragraphs: Seq<Paragraph>, index: int) -> Seq<u8> {
    tag("rhwp-approved-template-body-adjacent-label-v1\0") + (tag("previous")
        + body_neighbour_bytes(paragraphs, index - 1)) + (tag("next") + body_neighbour_bytes(
        paragraphs,
        index + 1,
    ))
}

/// Appends a neighbouring paragraph.
fn hash_body_neighbour(out: &mut Vec<u8>, label: &str, paragraph: Option<&Paragraph>)
    ensures
        final(out)@ == old(out)@ + (tag(label) + match paragraph {
            Some(p) => body_neighbour_bytes(seq![*p], 0),
            None => tag("edge"),
        }),
{
    hash_str(out, label);
    match paragraph {
        Some(neighbour) => {
            hash_le(out, neighbour.para_shape_id as u64, 2);
            hash_byte(out, neighbour.style_id);
            let hash: String = text_hash(neighbour.text.as_str());
            hash_str(out, hash.as_str());
            assert(out@ =~= old(out)@ + (tag(label) + body_neighbour_bytes(seq![*neighbour], 0)));
        },
        None => {
            hash_str(out, "edge");
            assert(out@ =~= old(out)@ + (tag(label) + tag("edge")));
        },
    }
}

/// The digest of the paragraphs before and after the given one.
pub fn body_adjacent_label_digest(paragraphs: &Vec<Paragraph>, paragraph_index: usize) -> (digest:
    String)
    requires
        paragraph_index <= paragraphs@.len(),
    ensures
        digest@ == digest_text(body_adjacent_bytes(paragraphs@, paragraph_index as int)),
        is_digest(digest@),
{
    let previous: Option<&Paragraph> = if paragraph_index > 0 {
        Some(&paragraphs[paragraph_index - 1])
    } else {
        None
    };
    let next: Option<&Paragraph> = if paragraph_index < paragraphs.len() && paragraph_index + 1
        < paragraphs.len() {
        Some(&paragraphs[paragraph_index + 1])
    } else {
        None
    };
    let mut data: Vec<u8> = Vec::new();
    hash_str(&mut data, "rhwp-approved-template-body-adjacent-label-v1\0");
    assert(data@ =~= tag("rhwp-approved-template-body-adjacent-label-v1\0"));
    hash_body_neighbour(&mut data, "previous", previous);
    hash_body_neighbour(&mut data, "next", next);
    digest_string(data.as_slice())
}

/// What the token of a checked request is taken of: the structure digest of the document and the
/// encoded request.
pub open spec fn token_bytes(structure_digest: Seq<char>, request: Seq<u8>) -> Seq<u8> {
    tag("rhwp-approved-template-preflight-v1\0") + encode_utf8(structure_digest) + request
}

/// The token that a checked request is applied with.
pub fn preflight_token(structure_digest: &str, request: &[u8]) -> (token: String)
    ensures
        token@ == digest_text(token_bytes(structure_digest@, request@)),
        is_digest(token@),
{
    let mut data: Vec<u8> = Vec::new();
    hash_str(&mut data, "rhwp-approved-template-preflight-v1\0");
    assert(data@ =~= tag("rhwp-approved-template-preflight-v1\0"));
    hash_str(&mut data, structure_digest);
    hash_bytes(&mut data, request);
    digest_string(data.as_slice())
}

} // verus!
