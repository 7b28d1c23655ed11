//! Edits that a request has been resolved to.

use vstd::prelude::*;

use crate::table::{ResolvedCellModel, ResolvedTableCell};

verus! {

/// What went wrong: a request that cannot be read or answered, or something of the document
/// engine's own.
#[derive(Debug)]
pub enum HwpError {
    RenderError(String),
    Engine(String),
}

/// An error as a mathematical value.
pub enum ErrorModel {
    RenderError(Seq<char>),
    Engine(Seq<char>),
}

impl View for HwpError {
    type V = ErrorModel;

    open spec fn view(&self) -> ErrorModel {
        match *self {
            HwpError::RenderError(text) => ErrorModel::RenderError(text@),
            HwpError::Engine(text) => ErrorModel::Engine(text@),
        }
    }
}

/// An error that the document engine answered, with the text that it is displayed as.
#[derive(Debug)]
pub struct EngineFailure {
    pub error: HwpError,
    pub display: String,
}

/// An answered error as a mathematical value.
pub struct FailureModel {
    pub error: ErrorModel,
    pub display: Seq<char>,
}

impl View for EngineFailure {
    type V = FailureModel;

    open spec fn view(&self) -> FailureModel {
        FailureModel { error: self.error@, display: self.display@ }
    }
}

/// An accepted target, resolved to the place where its text stands.
#[derive(Debug)]
pub enum ResolvedEdit {
    NativeField { target_id: String, field_id: u32, old_value: String, value: String },
    BodyPlaceholder {
        target_id: String,
        section_index: usize,
        paragraph_index: usize,
        old_value: String,
        value: String,
    },
    TableCell { target_id: String, resolved: ResolvedTableCell, old_value: String, value: String },
}

/// A resolved edit as a mathematical value.
pub enum EditModel {
    NativeField { target_id: Seq<char>, field_id: u32, old_value: Seq<char>, value: Seq<char> },
    BodyPlaceholder {
        target_id: Seq<char>,
        section_index: usize,
        paragraph_index: usize,
        old_value: Seq<char>,
        value: Seq<char>,
    },
    TableCell {
        target_id: Seq<char>,
        resolved: ResolvedCellModel,
        old_value: Seq<char>,
        value: Seq<char>,
    },
}

impl View for ResolvedEdit {
    type V = EditModel;

    open spec fn view(&self) -> EditModel {
        match *self {
            ResolvedEdit::NativeField { target_id, field_id, old_value, value } =>
                EditModel::NativeField {
                target_id: target_id@,
                field_id,
                old_value: old_value@,
                value: value@,
            },
            ResolvedEdit::BodyPlaceholder {
                target_id,
                section_index,
                paragraph_index,
                old_value,
                value,
            } => EditModel::BodyPlaceholder {
                target_id: target_id@,
                section_index,
                paragraph_index,
                old_value: old_value@,
                value: value@,
            },
            ResolvedEdit::TableCell { target_id, resolved, old_value, value } =>
                EditModel::TableCell {
                target_id: target_id@,
                resolved: resolved@,
                old_value: old_value@,
                value: value@,
            },
        }
    }
}

impl EditModel {
    /// The identifier of the target.
    pub open spec fn id_text(self) -> Seq<char> {
        match self {
            EditModel::NativeField { target_id, .. } => target_id,
            EditModel::BodyPlaceholder { target_id, .. } => target_id,
            EditModel::TableCell { target_id, .. } => target_id,
        }
    }

    /// The value that the target held when it was checked.
    pub open spec fn old_text(self) -> Seq<char> {
        match self {
            EditModel::NativeField { old_value, .. } => old_value,
            EditModel::BodyPlaceholder { old_value, .. } => old_value,
            EditModel::TableCell { old_value, .. } => old_value,
        }
    }

    /// The value that the target is to hold.
    pub open spec fn value_text(self) -> Seq<char> {
        match self {
            EditModel::NativeField { value, .. } => value,
            EditModel::BodyPlaceholder { value, .. } => value,
            EditModel::TableCell { value, .. } => value,
        }
    }

    /// Whether the edit would change anything.
    pub open spec fn changes(self) -> bool {
        self.old_text() != self.value_text()
    }
}

impl ResolvedEdit {
    /// The identifier of the target.
    pub fn target_id(&self) -> (id: &str)
        ensures
            id@ == self@.id_text(),
    {
        match self {
            ResolvedEdit::NativeField { target_id, .. } => target_id.as_str(),
            ResolvedEdit::BodyPlaceholder { target_id, .. } => target_id.as_str(),
            ResolvedEdit::TableCell { target_id, .. } => target_id.as_str(),
        }
    }

    /// The value that the target held when it was checked.
    pub fn old_value(&self) -> (old: &String)
        ensures
            old@ == self@.old_text(),
    {
        match self {
            ResolvedEdit::NativeField { old_value, .. } => old_value,
            ResolvedEdit::BodyPlaceholder { old_value, .. } => old_value,
            ResolvedEdit::TableCell { old_value, .. } => old_value,
        }
    }

    /// The value that the target is to hold.
    pub fn value(&self) -> (value: &String)
        ensures
            value@ == self@.value_text(),
    {
        match self {
            ResolvedEdit::NativeField { value, .. } => value,
            ResolvedEdit::BodyPlaceholder { value, .. } => value,
            ResolvedEdit::TableCell { value, .. } => value,
        }
    }
}

} // verus!
