//! What an edit request is answered.

use serde_json::Value;
use vstd::prelude::*;

use crate::json::{
    items, json_bool, json_content, json_list, json_null, json_number, json_object, json_optional,
    json_str, json_string, json_usize, members, number, object, put, put_item, text_or_null,
    JsonTree,
};

verus! {

/// Why a target is rejected.
#[derive(Debug, Clone, Copy, PartialEq, Eq, Structural)]
pub enum RejectReason {
    InvalidOrDuplicateTargetId,
    InvalidValue,
    InvalidMaxLines,
    MaxLinesExceeded,
    DuplicateTargetAddress,
    MixedOrMultipleVirtualTargets,
    ProtectedDocument,
    StructureMismatch,
    UnknownField,
    UnsupportedField,
    TargetTextMismatch,
    UnknownBodyParagraph,
    MixedBodyContent,
    AdjacentLabelMismatch,
    UnsafeCellOptions,
    CoveredMergedCell,
    InvalidCellAddress,
    UnknownOrNestedTable,
    MixedCellContent,
    ConfirmedOverflow,
}

impl RejectReason {
    /// The reason as it is reported.
    pub open spec fn text(self) -> Seq<char> {
        match self {
            RejectReason::InvalidOrDuplicateTargetId => "invalid-or-duplicate-target-id"@,
            RejectReason::InvalidValue => "invalid-value"@,
            RejectReason::InvalidMaxLines => "invalid-max-lines"@,
            RejectReason::MaxLinesExceeded => "max-lines-exceeded"@,
            RejectReason::DuplicateTargetAddress => "duplicate-target-address"@,
            RejectReason::MixedOrMultipleVirtualTargets => "mixed-or-multiple-virtual-targets"@,
            RejectReason::ProtectedDocument => "protected-document"@,
            RejectReason::StructureMismatch => "structure-mismatch"@,
            RejectReason::UnknownField => "unknown-field"@,
            RejectReason::UnsupportedField => "unsupported-field"@,
            RejectReason::TargetTextMismatch => "target-text-mismatch"@,
            RejectReason::UnknownBodyParagraph => "unknown-body-paragraph"@,
            RejectReason::MixedBodyContent => "mixed-body-content"@,
            RejectReason::AdjacentLabelMismatch => "adjacent-label-mismatch"@,
            RejectReason::UnsafeCellOptions => "unsafe-cell-options"@,
            RejectReason::CoveredMergedCell => "covered-merged-cell"@,
            RejectReason::InvalidCellAddress => "invalid-cell-address"@,
            RejectReason::UnknownOrNestedTable => "unknown-or-nested-table"@,
            RejectReason::MixedCellContent => "mixed-cell-content"@,
            RejectReason::ConfirmedOverflow => "confirmed-overflow"@,
        }
    }

    /// The reason as it is reported.
    pub fn name(self) -> (name: &'static str)
        ensures
            name@ == self.text(),
    {
        match self {
            RejectReason::InvalidOrDuplicateTargetId => "invalid-or-duplicate-target-id",
            RejectReason::InvalidValue => "invalid-value",
            RejectReason::InvalidMaxLines => "invalid-max-lines",
            RejectReason::MaxLinesExceeded => "max-lines-exceeded",
            RejectReason::DuplicateTargetAddress => "duplicate-target-address",
            RejectReason::MixedOrMultipleVirtualTargets => "mixed-or-multiple-virtual-targets",
            RejectReason::ProtectedDocument => "protected-document",
            RejectReason::StructureMismatch => "structure-mismatch",
            RejectReason::UnknownField => "unknown-field",
            RejectReason::UnsupportedField => "unsupported-field",
            RejectReason::TargetTextMismatch => "target-text-mismatch",
            RejectReason::UnknownBodyParagraph => "unknown-body-paragraph",
            RejectReason::MixedBodyContent => "mixed-body-content",
            RejectReason::AdjacentLabelMismatch => "adjacent-label-mismatch",
            RejectReason::UnsafeCellOptions => "unsafe-cell-options",
            RejectReason::CoveredMergedCell => "covered-merged-cell",
            RejectReason::InvalidCellAddress => "invalid-cell-address",
            RejectReason::UnknownOrNestedTable => "unknown-or-nested-table",
            RejectReason::MixedCellContent => "mixed-cell-content",
            RejectReason::ConfirmedOverflow => "confirmed-overflow",
        }
    }
}

/// Why a request as a whole fails.
#[derive(Debug, Clone, Copy, PartialEq, Eq, Structural)]
pub enum FailureReason {
    InvalidRequest,
    PreflightRejected,
    StalePreflight,
}

impl FailureReason {
    /// The reason as it is reported.
    pub open spec fn text(self) -> Seq<char> {
        match self {
            FailureReason::InvalidRequest => "invalid-request"@,
            FailureReason::PreflightRejected => "preflight-rejected"@,
            FailureReason::StalePreflight => "stale-preflight"@,
        }
    }

    /// The reason as it is reported.
    pub fn name(self) -> (name: &'static str)
        ensures
            name@ == self.text(),
    {
        match self {
            FailureReason::InvalidRequest => "invalid-request",
            FailureReason::PreflightRejected => "preflight-rejected",
            FailureReason::StalePreflight => "stale-preflight",
        }
    }
}

/// What a requester is warned of.
#[derive(Debug, Clone, Copy, PartialEq, Eq, Structural)]
pub enum WarningCode {
    CellWrapExpected,
    ChangedPagesConservative,
}

impl WarningCode {
    /// The code as it is reported.
    pub open spec fn text(self) -> Seq<char> {
        match self {
            WarningCode::CellWrapExpected => "cell-wrap-expected"@,
            WarningCode::ChangedPagesConservative => "changed-pages-conservative"@,
        }
    }

    /// The code as it is reported.
    pub fn name(self) -> (name: &'static str)
        ensures
            name@ == self.text(),
    {
        match self {
            WarningCode::CellWrapExpected => "cell-wrap-expected",
            WarningCode::ChangedPagesConservative => "changed-pages-conservative",
        }
    }
}

/// A rejected target.
#[derive(Debug)]
pub struct Rejection {
    pub target_id: String,
    pub reason: RejectReason,
}

/// A rejected target as a mathematical value.
pub struct RejectionModel {
    pub target_id: Seq<char>,
    pub reason: RejectReason,
}

impl View for Rejection {
    type V = RejectionModel;

    open spec fn view(&self) -> RejectionModel {
        RejectionModel { target_id: self.target_id@, reason: self.reason }
    }
}

/// A warning, about one target or about the document.
#[derive(Debug)]
pub struct Warning {
    pub target_id: Option<String>,
    pub code: WarningCode,
}

/// A warning as a mathematical value.
pub struct WarningModel {
    pub target_id: Option<Seq<char>>,
    pub code: WarningCode,
}

/// What an optional text says.
pub open spec fn optional_text(text: Option<String>) -> Option<Seq<char>> {
    match text {
        Some(t) => Some(t@),
        None => None,
    }
}

impl View for Warning {
    type V = WarningModel;

    open spec fn view(&self) -> WarningModel {
        WarningModel { target_id: optional_text(self.target_id), code: self.code }
    }
}

/// How far a value exceeds the width of its cell. The widths are JSON numbers of pixels.
#[derive(Debug)]
pub struct CellOverflow {
    pub cell_width_px: Value,
    pub text_width_px: Value,
    /// How many lines the value takes once it is wrapped.
    pub lines: usize,
}

/// An overflow as a mathematical value.
pub struct OverflowMeasure {
    pub cell_width_px: JsonTree,
    pub text_width_px: JsonTree,
    pub lines: usize,
}

impl View for CellOverflow {
    type V = OverflowMeasure;

    open spec fn view(&self) -> OverflowMeasure {
        OverflowMeasure {
            cell_width_px: json_content(self.cell_width_px),
            text_width_px: json_content(self.text_width_px),
            lines: self.lines,
        }
    }
}

/// A target whose value exceeds the width of its cell.
#[derive(Debug)]
pub struct OverflowTarget {
    pub target_id: String,
    pub overflow: CellOverflow,
    pub max_lines: usize,
}

/// A target with an overflow as a mathematical value.
pub struct OverflowModel {
    pub target_id: Seq<char>,
    pub overflow: OverflowMeasure,
    pub max_lines: usize,
}

impl View for OverflowTarget {
    type V = OverflowModel;

    open spec fn view(&self) -> OverflowModel {
        OverflowModel {
            target_id: self.target_id@,
            overflow: self.overflow@,
            max_lines: self.max_lines,
        }
    }
}

/// An accepted target: what it holds, and what it is to hold.
#[derive(Debug)]
pub struct TargetSummary {
    pub target_id: String,
    pub original_value: String,
    pub proposed_value: String,
    pub changed: bool,
}

/// An accepted target as a mathematical value.
pub struct SummaryModel {
    pub target_id: Seq<char>,
    pub original_value: Seq<char>,
    pub proposed_value: Seq<char>,
    pub changed: bool,
}

impl View for TargetSummary {
    type V = SummaryModel;

    open spec fn view(&self) -> SummaryModel {
        SummaryModel {
            target_id: self.target_id@,
            original_value: self.original_value@,
            proposed_value: self.proposed_value@,
            changed: self.changed,
        }
    }
}

/// What the items of a vector stand for, in order.
pub open spec fn views<T: View>(items: Seq<T>) -> Seq<T::V> {
    items.map_values(|item: T| item@)
}

/// The answer to a request that was checked.
#[derive(Debug)]
pub struct PreflightReport {
    pub ok: bool,
    pub changed_pages: Option<Vec<u32>>,
    pub preflight_token: Option<String>,
    pub targets: Vec<TargetSummary>,
    pub warnings: Vec<Warning>,
    pub overflow_targets: Vec<OverflowTarget>,
    pub rejected_targets: Vec<Rejection>,
    pub reason: Option<FailureReason>,
}

/// The answer as a mathematical value.
pub struct ReportModel {
    pub ok: bool,
    pub changed_pages: Option<Seq<u32>>,
    pub preflight_token: Option<Seq<char>>,
    pub targets: Seq<SummaryModel>,
    pub warnings: Seq<WarningModel>,
    pub overflow_targets: Seq<OverflowModel>,
    pub rejected_targets: Seq<RejectionModel>,
    pub reason: Option<FailureReason>,
}

impl View for PreflightReport {
    type V = ReportModel;

    open spec fn view(&self) -> ReportModel {
        ReportModel {
            ok: self.ok,
            changed_pages: match self.changed_pages {
                Some(pages) => Some(pages@),
                None => None,
            },
            preflight_token: optional_text(self.preflight_token),
            targets: views(self.targets@),
            warnings: views(self.warnings@),
            overflow_targets: views(self.overflow_targets@),
            rejected_targets: views(self.rejected_targets@),
            reason: self.reason,
        }
    }
}

/// The answer to a request that fails as a whole.
pub open spec fn failed_report(
    reason: FailureReason,
    rejected: Seq<RejectionModel>,
) -> ReportModel {
    ReportModel {
        ok: false,
        changed_pages: None,
        preflight_token: None,
        targets: seq![],
        warnings: seq![],
        overflow_targets: seq![],
        rejected_targets: rejected,
        reason: Some(reason),
    }
}

/// Answers a request that fails as a whole.
pub fn failed_preflight_result(reason: FailureReason, rejected: Vec<Rejection>) -> (report:
    PreflightReport)
    ensures
        report@ == failed_report(reason, views(rejected@)),
{
    let report: PreflightReport = PreflightReport {
        ok: false,
        changed_pages: None,
        preflight_token: None,
        targets: Vec::new(),
        warnings: Vec::new(),
        overflow_targets: Vec::new(),
        rejected_targets: rejected,
        reason: Some(reason),
    };
    assert(report@.targets =~= seq![]);
    assert(report@.warnings =~= seq![]);
    assert(report@.overflow_targets =~= seq![]);
    report
}

/// Names a rejected target.
pub fn rejected_target(target_id: &str, reason: RejectReason) -> (rejection: Rejection)
    ensures
        rejection@ == (RejectionModel { target_id: target_id@, reason }),
{
    Rejection { target_id: target_id.to_owned(), reason }
}

/// The rejections without those that repeat an earlier one.
pub open spec fn distinct(rejected: Seq<RejectionModel>) -> Seq<RejectionModel>
    decreases rejected.len(),
{
    if rejected.len() == 0 {
        seq![]
    } else if rejected.drop_last().contains(rejected.last()) {
        distinct(rejected.drop_last())
    } else {
        distinct(rejected.drop_last()).push(rejected.last())
    }
}

/// A rejection is kept where it occurs.
pub proof fn lemma_distinct_contains(rejected: Seq<RejectionModel>, r: RejectionModel)
    ensures
        distinct(rejected).contains(r) == rejected.contains(r),
    decreases rejected.len(),
{
    if rejected.len() > 0 {
        let init = rejected.drop_last();
        lemma_distinct_contains(init, r);
        assert(rejected =~= init.push(rejected.last()));
        if init.contains(r) {
            let k = choose|k: int| 0 <= k < init.len() && init[k] == r;
            assert(rejected[k] == r);
            let d = distinct(init);
            let m = choose|m: int| 0 <= m < d.len() && d[m] == r;
            assert(distinct(rejected)[m] == r);
        } else if r == rejected.last() {
            assert(rejected[rejected.len() - 1] == r);
            assert(distinct(rejected)[distinct(init).len() as int] == r);
        } else {
            if rejected.contains(r) {
                let k = choose|k: int| 0 <= k < rejected.len() && rejected[k] == r;
                assert(init[k] == r);
            }
            if distinct(rejected).contains(r) {
                let k = choose|k: int|
                    0 <= k < distinct(rejected).len() && distinct(rejected)[k] == r;
                assert(distinct(init)[k] == r);
            }
        }
    }
}

/// Drops the rejections that repeat an earlier one.
pub fn deduplicate_rejections(rejected: &mut Vec<Rejection>)
    ensures
        views(final(rejected)@) == distinct(views(old(rejected)@)),
{
    let ghost all = views(rejected@);
    let mut kept: Vec<Rejection> = Vec::new();
    let mut i: usize = 0;
    assert(views(kept@) =~= distinct(all.take(0)));
    while i < rejected.len()
        invariant
            i <= rejected@.len(),
            all == views(rejected@),
            views(kept@) == distinct(all.take(i as int)),
        decreases rejected@.len() - i,
    {
        let entry: &Rejection = &rejected[i];
        let mut seen: bool = false;
        let mut j: usize = 0;
        while j < kept.len()
            invariant
                j <= kept@.len(),
                seen == exists|k: int| 0 <= k < j && (#[trigger] views(kept@)[k]) == entry@,
            decreases kept@.len() - j,
        {
            if kept[j].target_id == entry.target_id && kept[j].reason == entry.reason {
                assert(views(kept@)[j as int] == entry@);
                seen = true;
            }
            j += 1;
        }
        proof {
            let next = all.take(i + 1);
            assert(next.drop_last() =~= all.take(i as int));
            assert(next.last() == entry@);
            assert(seen == views(kept@).contains(entry@));
            lemma_distinct_contains(all.take(i as int), entry@);
        }
        if !seen {
            let ghost before = views(kept@);
            kept.push(Rejection { target_id: entry.target_id.clone(), reason: entry.reason });
            assert(views(kept@) =~= before.push(entry@));
        }
        i += 1;
    }
    assert(all.take(all.len() as int) =~= all);
    *rejected = kept;
}

/// A rejected target in JSON.
pub open spec fn rejection_tree(rejection: RejectionModel) -> JsonTree {
    object(
        seq![
            ("targetId"@, JsonTree::Text(rejection.target_id)),
            ("reason"@, JsonTree::Text(rejection.reason.text())),
        ],
    )
}

/// A warning in JSON.
pub open spec fn warning_tree(warning: WarningModel) -> JsonTree {
    object(
        seq![
            ("targetId"@, text_or_null(warning.target_id)),
            ("code"@, JsonTree::Text(warning.code.text())),
        ],
    )
}

/// A target with an overflow in JSON.
pub open spec fn overflow_tree(target: OverflowModel) -> JsonTree {
    object(
        seq![
            ("targetId"@, JsonTree::Text(target.target_id)),
            ("cellWidthPx"@, target.overflow.cell_width_px),
            ("textWidthPx"@, target.overflow.text_width_px),
            ("lines"@, number(target.overflow.lines as nat)),
            ("maxLines"@, number(target.max_lines as nat)),
        ],
    )
}

/// An accepted target in JSON.
pub open spec fn summary_tree(summary: SummaryModel) -> JsonTree {
    object(
        seq![
            ("targetId"@, JsonTree::Text(summary.target_id)),
            ("originalValue"@, JsonTree::Text(summary.original_value)),
            ("proposedValue"@, JsonTree::Text(summary.proposed_value)),
            ("changed"@, JsonTree::Bool(summary.changed)),
        ],
    )
}

/// Page numbers in JSON.
pub open spec fn pages_tree(pages: Seq<u32>) -> JsonTree {
    JsonTree::List(pages.map_values(|page: u32| number(page as nat)))
}

/// Warnings in JSON.
pub open spec fn warnings_tree(warnings: Seq<WarningModel>) -> JsonTree {
    JsonTree::List(warnings.map_values(|warning: WarningModel| warning_tree(warning)))
}

/// Targets with overflows in JSON.
pub open spec fn overflows_tree(targets: Seq<OverflowModel>) -> JsonTree {
    JsonTree::List(targets.map_values(|target: OverflowModel| overflow_tree(target)))
}

/// Rejected targets in JSON.
pub open spec fn rejections_tree(rejected: Seq<RejectionModel>) -> JsonTree {
    JsonTree::List(rejected.map_values(|rejection: RejectionModel| rejection_tree(rejection)))
}

/// Accepted targets in JSON.
pub open spec fn summaries_tree(summaries: Seq<SummaryModel>) -> JsonTree {
    JsonTree::List(summaries.map_values(|summary: SummaryModel| summary_tree(summary)))
}

/// The reason of a failure in JSON.
pub open spec fn reason_tree(reason: Option<FailureReason>) -> JsonTree {
    match reason {
        Some(r) => JsonTree::Text(r.text()),
        None => JsonTree::Null,
    }
}

/// The answer to a request that was checked, in JSON.
pub open spec fn report_tree(report: ReportModel) -> JsonTree {
    object(
        seq![
            ("schemaVersion"@, number(1)),
            ("ok"@, JsonTree::Bool(report.ok)),
            ("updated"@, number(0)),
            (
                "changedPages"@,
                match report.changed_pages {
                    Some(pages) => pages_tree(pages),
                    None => JsonTree::Null,
                },
            ),
            ("preflightToken"@, text_or_null(report.preflight_token)),
            ("targets"@, summaries_tree(report.targets)),
            ("warnings"@, warnings_tree(report.warnings)),
            ("overflowTargets"@, overflows_tree(report.overflow_targets)),
            ("rejectedTargets"@, rejections_tree(report.rejected_targets)),
            ("reason"@, reason_tree(report.reason)),
        ],
    )
}

/// The answer to a request that was applied, or that was not because its token is out of date,
/// in JSON.
pub open spec fn apply_tree(
    ok: bool,
    updated: nat,
    changed_pages: Seq<u32>,
    warnings: Seq<WarningModel>,
    overflow_targets: Seq<OverflowModel>,
    rejected: Seq<RejectionModel>,
    reason: Option<FailureReason>,
) -> JsonTree {
    object(
        seq![
            ("schemaVersion"@, number(1)),
            ("ok"@, JsonTree::Bool(ok)),
            ("updated"@, number(updated)),
            ("changedPages"@, pages_tree(changed_pages)),
            ("warnings"@, warnings_tree(warnings)),
            ("overflowTargets"@, overflows_tree(overflow_targets)),
            ("rejectedTargets"@, rejections_tree(rejected)),
            ("reason"@, reason_tree(reason)),
        ],
    )
}

/// Writes page numbers in JSON.
pub(crate) fn pages_json(pages: &Vec<u32>) -> (value: Value)
    ensures
        json_content(value) == pages_tree(pages@),
{
    let mut list: Vec<Value> = Vec::new();
    let mut i: usize = 0;
    while i < pages.len()
        invariant
            i <= pages@.len(),
            items(list@) =~= pages@.take(i as int).map_values(|page: u32| number(page as nat)),
        decreases pages@.len() - i,
    {
        put_item(&mut list, json_number(pages[i] as u64));
        i += 1;
    }
    assert(pages@.take(pages@.len() as int) =~= pages@);
    json_list(list)
}

/// Writes a rejected target in JSON.
fn rejection_json(rejection: Rejection) -> (value: Value)
    ensures
        json_content(value) == rejection_tree(rejection@),
{
    let mut entries: Vec<(String, Value)> = Vec::new();
    put(&mut entries, "targetId", json_string(rejection.target_id));
    put(&mut entries, "reason", json_str(rejection.reason.name()));
    assert(members(entries@) =~= seq![
        ("targetId"@, JsonTree::Text(rejection@.target_id)),
        ("reason"@, JsonTree::Text(rejection@.reason.text())),
    ]);
    json_object(entries)
}

/// Writes rejected targets in JSON.
fn rejections_json(rejected: Vec<Rejection>) -> (value: Value)
    ensures
        json_content(value) == rejections_tree(views(rejected@)),
{
    let ghost all = views(rejected@);
    let mut list: Vec<Value> = Vec::new();
    for rejection in it: rejected
        invariant
            views(it.seq()) == all,
            items(list@) =~= all.take(it.index()).map_values(
                |rejection: RejectionModel| rejection_tree(rejection),
            ),
    {
        assert(all[it.index()] == rejection@);
        put_item(&mut list, rejection_json(rejection));
    }
    assert(all.take(all.len() as int) =~= all);
    json_list(list)
}

/// Writes a warning in JSON.
fn warning_json(warning: Warning) -> (value: Value)
    ensures
        json_content(value) == warning_tree(warning@),
{
    let mut entries: Vec<(String, Value)> = Vec::new();
    put(&mut entries, "targetId", json_optional(&warning.target_id));
    put(&mut entries, "code", json_str(warning.code.name()));
    assert(members(entries@) =~= seq![
        ("targetId"@, text_or_null(warning@.target_id)),
        ("code"@, JsonTree::Text(warning@.code.text())),
    ]);
    json_object(entries)
}

/// Writes warnings in JSON.
pub(crate) fn warnings_json(warnings: Vec<Warning>) -> (value: Value)
    ensures
        json_content(value) == warnings_tree(views(warnings@)),
{
    let ghost all = views(warnings@);
    let mut list: Vec<Value> = Vec::new();
    for warning in it: warnings
        invariant
            views(it.seq()) == all,
            items(list@) =~= all.take(it.index()).map_values(
                |warning: WarningModel| warning_tree(warning),
            ),
    {
        assert(all[it.index()] == warning@);
        put_item(&mut list, warning_json(warning));
    }
    assert(all.take(all.len() as int) =~= all);
    json_list(list)
}

/// Writes a target with an overflow in JSON.
fn overflow_json(target: OverflowTarget) -> (value: Value)
    ensures
        json_content(value) == overflow_tree(target@),
{
    let mut entries: Vec<(String, Value)> = Vec::new();
    put(&mut entries, "targetId", json_string(target.target_id));
    put(&mut entries, "cellWidthPx", target.overflow.cell_width_px);
    put(&mut entries, "textWidthPx", target.overflow.text_width_px);
    put(&mut entries, "lines", json_usize(target.overflow.lines));
    put(&mut entries, "maxLines", json_usize(target.max_lines));
    assert(members(entries@) =~= seq![
        ("targetId"@, JsonTree::Text(target@.target_id)),
        ("cellWidthPx"@, target@.overflow.cell_width_px),
        ("textWidthPx"@, target@.overflow.text_width_px),
        ("lines"@, number(target@.overflow.lines as nat)),
        ("maxLines"@, number(target@.max_lines as nat)),
    ]);
    json_object(entries)
}

/// Writes targets with overflows in JSON.
pub(crate) fn overflows_json(targets: Vec<OverflowTarget>) -> (value: Value)
    ensures
        json_content(value) == overflows_tree(views(targets@)),
{
    let ghost all = views(targets@);
    let mut list: Vec<Value> = Vec::new();
    for target in it: targets
        invariant
            views(it.seq()) == all,
            items(list@) =~= all.take(it.index()).map_values(
                |target: OverflowModel| overflow_tree(target),
            ),
    {
        assert(all[it.index()] == target@);
        put_item(&mut list, overflow_json(target));
    }
    assert(all.take(all.len() as int) =~= all);
    json_list(list)
}

/// Writes an accepted target in JSON.
fn summary_json(summary: TargetSummary) -> (value: Value)
    ensures
        json_content(value) == summary_tree(summary@),
{
    let mut entries: Vec<(String, Value)> = Vec::new();
    put(&mut entries, "targetId", json_string(summary.target_id));
    put(&mut entries, "originalValue", json_string(summary.original_value));
    put(&mut entries, "proposedValue", json_string(summary.proposed_value));
    put(&mut entries, "changed", json_bool(summary.changed));
    assert(members(entries@) =~= seq![
        ("targetId"@, JsonTree::Text(summary@.target_id)),
        ("originalValue"@, JsonTree::Text(summary@.original_value)),
        ("proposedValue"@, JsonTree::Text(summary@.proposed_value)),
        ("changed"@, JsonTree::Bool(summary@.changed)),
    ]);
    json_object(entries)
}

/// Writes accepted targets in JSON.
fn summaries_json(summaries: Vec<TargetSummary>) -> (value: Value)
    ensures
        json_content(value) == summaries_tree(views(summaries@)),
{
    let ghost all = views(summaries@);
    let mut list: Vec<Value> = Vec::new();
    for summary in it: summaries
        invariant
            views(it.seq()) == all,
            items(list@) =~= all.take(it.index()).map_values(
                |summary: SummaryModel| summary_tree(summary),
            ),
    {
        assert(all[it.index()] == summary@);
        put_item(&mut list, summary_json(summary));
    }
    assert(all.take(all.len() as int) =~= all);
    json_list(list)
}

/// Writes the reason of a failure in JSON.
fn reason_json(reason: Option<FailureReason>) -> (value: Value)
    ensures
        json_content(value) == reason_tree(reason),
{
    match reason {
        Some(r) => json_str(r.name()),
        None => json_null(),
    }
}

/// Writes the answer to a request that was checked in JSON.
pub fn report_json(report: PreflightReport) -> (value: Value)
    ensures
        json_content(value) == report_tree(report@),
{
    let ghost model = report@;
    let mut entries: Vec<(String, Value)> = Vec::new();
    put(&mut entries, "schemaVersion", json_number(1));
    put(&mut entries, "ok", json_bool(report.ok));
    put(&mut entries, "updated", json_number(0));
    put(
        &mut entries,
        "changedPages",
        match &report.changed_pages {
            Some(pages) => pages_json(pages),
            None => json_null(),
        },
    );
    put(&mut entries, "preflightToken", json_optional(&report.preflight_token));
    put(&mut entries, "targets", summaries_json(report.targets));
    put(&mut entries, "warnings", warnings_json(report.warnings));
    put(&mut entries, "overflowTargets", overflows_json(report.overflow_targets));
    put(&mut entries, "rejectedTargets", rejections_json(report.rejected_targets));
    put(&mut entries, "reason", reason_json(report.reason));
    assert(members(entries@) =~= seq![
        ("schemaVersion"@, number(1)),
        ("ok"@, JsonTree::Bool(model.ok)),
        ("updated"@, number(0)),
        (
            "changedPages"@,
            match model.changed_pages {
                Some(pages) => pages_tree(pages),
                None => JsonTree::Null,
            },
        ),
        ("preflightToken"@, text_or_null(model.preflight_token)),
        ("targets"@, summaries_tree(model.targets)),
        ("warnings"@, warnings_tree(model.warnings)),
        ("overflowTargets"@, overflows_tree(model.overflow_targets)),
        ("rejectedTargets"@, rejections_tree(model.rejected_targets)),
        ("reason"@, reason_tree(model.reason)),
    ]);
    json_object(entries)
}

/// Writes the answer to a request that was applied, or that was not, in JSON.
fn apply_json(
    ok: bool,
    updated: usize,
    changed_pages: Vec<u32>,
    warnings: Vec<Warning>,
    overflow_targets: Vec<OverflowTarget>,
    rejected: Vec<Rejection>,
    reason: Option<FailureReason>,
) -> (value: Value)
    ensures
        json_content(value) == apply_tree(
            ok,
            updated as nat,
            changed_pages@,
            views(warnings@),
            views(overflow_targets@),
            views(rejected@),
            reason,
        ),
{
    let ghost warned = views(warnings@);
    let ghost overflowing = views(overflow_targets@);
    let ghost refused = views(rejected@);
    let mut entries: Vec<(String, Value)> = Vec::new();
    put(&mut entries, "schemaVersion", json_number(1));
    put(&mut entries, "ok", json_bool(ok));
    put(&mut entries, "updated", json_usize(updated));
    put(&mut entries, "changedPages", pages_json(&changed_pages));
    put(&mut entries, "warnings", warnings_json(warnings));
    put(&mut entries, "overflowTargets", overflows_json(overflow_targets));
    put(&mut entries, "rejectedTargets", rejections_json(rejected));
    put(&mut entries, "reason", reason_json(reason));
    assert(members(entries@) =~= seq![
        ("schemaVersion"@, number(1)),
        ("ok"@, JsonTree::Bool(ok)),
        ("updated"@, number(updated as nat)),
        ("changedPages"@, pages_tree(changed_pages@)),
        ("warnings"@, warnings_tree(warned)),
        ("overflowTargets"@, overflows_tree(overflowing)),
        ("rejectedTargets"@, rejections_tree(refused)),
        ("reason"@, reason_tree(reason)),
    ]);
    json_object(entries)
}

/// Answers that a request was applied.
pub fn applied_result(
    updated: usize,
    changed_pages: Vec<u32>,
    warnings: Vec<Warning>,
    overflow_targets: Vec<OverflowTarget>,
) -> (value: Value)
    ensures
        json_content(value) == apply_tree(
            true,
            updated as nat,
            changed_pages@,
            views(warnings@),
            views(overflow_targets@),
            seq![],
            None,
        ),
{
    let none: Vec<Rejection> = Vec::new();
    assert(views(none@) =~= seq![]);
    apply_json(true, updated, changed_pages, warnings, overflow_targets, none, None)
}

/// Answers that a request was not applied.
pub fn failed_apply_result(reason: FailureReason, rejected: Vec<Rejection>) -> (value: Value)
    ensures
        json_content(value) == apply_tree(
            false,
            0,
            seq![],
            seq![],
            seq![],
            views(rejected@),
            Some(reason),
        ),
{
    let warnings: Vec<Warning> = Vec::new();
    let overflow_targets: Vec<OverflowTarget> = Vec::new();
    assert(views(warnings@) =~= seq![]);
    assert(views(overflow_targets@) =~= seq![]);
    apply_json(false, 0, Vec::new(), warnings, overflow_targets, rejected, Some(reason))
}

} // verus!
