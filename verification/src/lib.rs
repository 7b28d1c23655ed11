//! Narrow, hash-addressed editing of approved document templates.

pub mod answer_laws;
pub mod apply;
pub mod apply_laws;
pub mod approval_laws;
pub mod difference_laws;
pub mod digest;
pub mod digest_laws;
pub mod edit;
pub mod encoding_laws;
pub mod finding_laws;
pub mod inspect;
pub mod inspection_laws;
pub mod json;
pub mod label;
pub mod label_laws;
pub mod laws;
pub mod layout_laws;
pub mod listing_laws;
pub mod lookup_laws;
pub mod model;
pub mod order_laws;
pub mod plan_laws;
pub mod preflight;
pub mod protection;
pub mod protection_laws;
pub mod reading_laws;
pub mod repeat_laws;
pub mod report;
pub mod request;
pub mod run_laws;
pub mod structure_laws;
pub mod table;
pub mod text;
pub mod text_laws;
pub mod verdict_laws;

pub use model::DocumentCore;
pub use table::{
    resolve_table_cell, resolve_table_cell_details, CellResolveError, ResolvedTableCell,
};
