//! Edit requests: what is to be written where, and under which conditions.

use vstd::prelude::*;

verus! {

/// A request to edit an approved template.
#[derive(Debug)]
pub struct ApprovedTemplateEditRequestV1 {
    pub schema_version: u8,
    pub template_id: String,
    pub expected_structure_digest: String,
    pub targets: Vec<ApprovedEditTargetV1>,
}

/// One place to edit, what it must hold now, and the value it is to hold.
#[derive(Debug)]
pub enum ApprovedEditTargetV1 {
    NativeField {
        target_id: String,
        field_id: u32,
        expected_value_hash: String,
        value: String,
        max_chars: usize,
        max_lines: usize,
    },
    BodyPlaceholder {
        target_id: String,
        section_index: usize,
        paragraph_index: usize,
        expected_text_hash: String,
        adjacent_label_digest: String,
        value: String,
        max_chars: usize,
        max_lines: usize,
    },
    TableCell {
        target_id: String,
        table_index: usize,
        row: u16,
        col: u16,
        expected_text_hash: String,
        adjacent_label_digest: String,
        merged_anchor: MergedAnchorV1,
        value: String,
        max_chars: usize,
        max_lines: usize,
        keep_style: bool,
    },
}

/// The anchor that the requester believes a cell to have.
#[derive(Debug, Clone, Copy, PartialEq, Eq, Structural)]
pub struct MergedAnchorV1 {
    pub row: u16,
    pub col: u16,
}

/// The place that a target names.
#[derive(Debug, Clone, Copy, PartialEq, Eq, Structural)]
pub enum TargetAddress {
    Native { field_id: u32 },
    Body { section_index: usize, paragraph_index: usize },
    Cell { table_index: usize, row: u16, col: u16 },
}

impl ApprovedEditTargetV1 {
    /// The identifier of the target.
    pub open spec fn id_text(self) -> Seq<char> {
        match self {
            ApprovedEditTargetV1::NativeField { target_id, .. } => target_id@,
            ApprovedEditTargetV1::BodyPlaceholder { target_id, .. } => target_id@,
            ApprovedEditTargetV1::TableCell { target_id, .. } => target_id@,
        }
    }

    /// The value that the target is to hold.
    pub open spec fn value_text(self) -> Seq<char> {
        match self {
            ApprovedEditTargetV1::NativeField { value, .. } => value@,
            ApprovedEditTargetV1::BodyPlaceholder { value, .. } => value@,
            ApprovedEditTargetV1::TableCell { value, .. } => value@,
        }
    }

    /// How many characters the value may have.
    pub open spec fn char_limit(self) -> usize {
        match self {
            ApprovedEditTargetV1::NativeField { max_chars, .. } => max_chars,
            ApprovedEditTargetV1::BodyPlaceholder { max_chars, .. } => max_chars,
            ApprovedEditTargetV1::TableCell { max_chars, .. } => max_chars,
        }
    }

    /// How many lines the value may take.
    pub open spec fn line_limit(self) -> usize {
        match self {
            ApprovedEditTargetV1::NativeField { max_lines, .. } => max_lines,
            ApprovedEditTargetV1::BodyPlaceholder { max_lines, .. } => max_lines,
            ApprovedEditTargetV1::TableCell { max_lines, .. } => max_lines,
        }
    }

    /// The place that the target names.
    pub open spec fn place(self) -> TargetAddress {
        match self {
            ApprovedEditTargetV1::NativeField { field_id, .. } => TargetAddress::Native {
                field_id,
            },
            ApprovedEditTargetV1::BodyPlaceholder { section_index, paragraph_index, .. } =>
                TargetAddress::Body { section_index, paragraph_index },
            ApprovedEditTargetV1::TableCell { table_index, row, col, .. } => TargetAddress::Cell {
                table_index,
                row,
                col,
            },
        }
    }

    /// The identifier of the target.
    pub fn target_id(&self) -> (id: &str)
        ensures
            id@ == self.id_text(),
    {
        match self {
            ApprovedEditTargetV1::NativeField { target_id, .. } => target_id.as_str(),
            ApprovedEditTargetV1::BodyPlaceholder { target_id, .. } => target_id.as_str(),
            ApprovedEditTargetV1::TableCell { target_id, .. } => target_id.as_str(),
        }
    }

    /// The value that the target is to hold.
    pub fn value(&self) -> (value: &str)
        ensures
            value@ == self.value_text(),
    {
        match self {
            ApprovedEditTargetV1::NativeField { value, .. } => value.as_str(),
            ApprovedEditTargetV1::BodyPlaceholder { value, .. } => value.as_str(),
            ApprovedEditTargetV1::TableCell { value, .. } => value.as_str(),
        }
    }

    /// How many characters the value may have.
    pub fn max_chars(&self) -> (limit: usize)
        ensures
            limit == self.char_limit(),
    {
        match self {
            ApprovedEditTargetV1::NativeField { max_chars, .. } => *max_chars,
            ApprovedEditTargetV1::BodyPlaceholder { max_chars, .. } => *max_chars,
            ApprovedEditTargetV1::TableCell { max_chars, .. } => *max_chars,
        }
    }

    /// How many lines the value may take.
    pub fn max_lines(&self) -> (limit: usize)
        ensures
            limit == self.line_limit(),
    {
        match self {
            ApprovedEditTargetV1::NativeField { max_lines, .. } => *max_lines,
            ApprovedEditTargetV1::BodyPlaceholder { max_lines, .. } => *max_lines,
            ApprovedEditTargetV1::TableCell { max_lines, .. } => *max_lines,
        }
    }

    /// The place that the target names.
    pub fn address(&self) -> (address: TargetAddress)
        ensures
            address == self.place(),
    {
        match self {
            ApprovedEditTargetV1::NativeField { field_id, .. } => TargetAddress::Native {
                field_id: *field_id,
            },
            ApprovedEditTargetV1::BodyPlaceholder { section_index, paragraph_index, .. } =>
                TargetAddress::Body {
                section_index: *section_index,
                paragraph_index: *paragraph_index,
            },
            ApprovedEditTargetV1::TableCell { table_index, row, col, .. } => TargetAddress::Cell {
                table_index: *table_index,
                row: *row,
                col: *col,
            },
        }
    }
}

/// A decoded request with its canonical encoding, or with what stood in the way of encoding it.
#[derive(Debug)]
pub struct EncodedRequest {
    pub request: ApprovedTemplateEditRequestV1,
    pub encoding: Result<Vec<u8>, String>,
}

} // verus!
