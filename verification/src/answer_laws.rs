//! What the answers say, member by member.

use vstd::prelude::*;

use crate::json::{by_key, number, object, text_or_null, JsonTree};
use crate::report::{
    apply_tree, overflow_tree, overflows_tree, pages_tree, reason_tree, rejection_tree,
    rejections_tree, report_tree, summaries_tree, summary_tree, warning_tree, warnings_tree,
    FailureReason, OverflowModel, RejectionModel, ReportModel, SummaryModel, WarningModel,
};
use crate::text::decimal;
use crate::text_laws::{law_decimal_reads_back, read_decimal};

verus! {

/// What tells the keys of an answer apart: how long a key is, and the letter that it starts with.
pub open spec fn mark(key: Seq<char>) -> (nat, char) {
    (key.len(), key[0])
}

/// A member whose mark no later member bears is found under its key.
proof fn lemma_member(members: Seq<(Seq<char>, JsonTree)>, i: int)
    requires
        0 <= i < members.len(),
        forall|j: int| i < j < members.len() ==> mark((#[trigger] members[j]).0) != mark(members[i].0),
    ensures
        by_key(members).dom().contains(members[i].0),
        by_key(members)[members[i].0] == members[i].1,
    decreases members.len(),
{
    if i < members.len() - 1 {
        let fewer = members.drop_last();
        assert forall|j: int| i < j < fewer.len() implies mark((#[trigger] fewer[j]).0) != mark(
            fewer[i].0,
        ) by {
            assert(fewer[j] == members[j]);
        }
        lemma_member(fewer, i);
        assert(mark(members[members.len() - 1].0) != mark(members[i].0));
    }
}

/// No key is found but those of the members.
proof fn lemma_no_other_member(members: Seq<(Seq<char>, JsonTree)>, key: Seq<char>)
    requires
        by_key(members).dom().contains(key),
    ensures
        exists|i: int| 0 <= i < members.len() && (#[trigger] members[i]).0 == key,
    decreases members.len(),
{
    if members.len() > 0 {
        let last = members.len() - 1;
        if members[last].0 != key {
            lemma_no_other_member(members.drop_last(), key);
            let i = choose|i: int|
                0 <= i < members.drop_last().len() && (#[trigger] members.drop_last()[i]).0 == key;
            assert(members[i].0 == key);
        }
    }
}

/// Whether a value is an object that has something under a key.
pub open spec fn says(tree: JsonTree, key: Seq<char>, value: JsonTree) -> bool {
    tree matches JsonTree::Object(members) && members.dom().contains(key) && members[key] == value
}

/// Whether a value is an object that has nothing but under the given keys.
pub open spec fn says_only(tree: JsonTree, keys: Seq<Seq<char>>) -> bool {
    tree matches JsonTree::Object(members) && forall|key: Seq<char>| #[trigger]
        members.dom().contains(key) ==> keys.contains(key)
}

/// Whether a value is a number, written as the digits of `n`.
pub open spec fn is_number(tree: JsonTree, n: nat) -> bool {
    tree matches JsonTree::Number(digits) && digits.len() > 0 && read_decimal(digits) == n
}

/// The members of an object whose keys are told apart by their marks are found under their keys.
pub proof fn lemma_members(members: Seq<(Seq<char>, JsonTree)>)
    requires
        forall|i: int, j: int|
            0 <= i < j < members.len() ==> mark((#[trigger] members[i]).0) != mark(
                (#[trigger] members[j]).0,
            ),
    ensures
        forall|i: int|
            0 <= i < members.len() ==> says(
                object(members),
                (#[trigger] members[i]).0,
                members[i].1,
            ),
        says_only(object(members), Seq::new(members.len(), |i: int| members[i].0)),
{
    let keys = Seq::new(members.len(), |i: int| members[i].0);
    assert forall|key: Seq<char>| #[trigger]
        by_key(members).dom().contains(key) implies keys.contains(key) by {
        lemma_no_other_member(members, key);
        let i = choose|i: int| 0 <= i < members.len() && (#[trigger] members[i]).0 == key;
        assert(keys[i] == key);
    }
    assert forall|i: int| 0 <= i < members.len() implies says(
        object(members),
        (#[trigger] members[i]).0,
        members[i].1,
    ) by {
        lemma_member(members, i);
    }
}

/// A list of pages lists their numbers.
proof fn lemma_pages(pages: Seq<u32>)
    ensures
        pages_tree(pages) == JsonTree::List(
            Seq::new(pages.len(), |i: int| number(pages[i] as nat)),
        ),
{
    assert(pages_tree(pages)->List_0 =~= Seq::new(pages.len(), |i: int| number(pages[i] as nat)));
}

/// A list of summaries lists each.
proof fn lemma_summaries(all: Seq<SummaryModel>)
    ensures
        summaries_tree(all) == JsonTree::List(Seq::new(all.len(), |i: int| summary_tree(all[i]))),
{
    assert(summaries_tree(all)->List_0 =~= Seq::new(all.len(), |i: int| summary_tree(all[i])));
}

/// A list of warnings lists each.
proof fn lemma_warnings(all: Seq<WarningModel>)
    ensures
        warnings_tree(all) == JsonTree::List(Seq::new(all.len(), |i: int| warning_tree(all[i]))),
{
    assert(warnings_tree(all)->List_0 =~= Seq::new(all.len(), |i: int| warning_tree(all[i])));
}

/// A list of overflows lists each.
proof fn lemma_overflows(all: Seq<OverflowModel>)
    ensures
        overflows_tree(all) == JsonTree::List(Seq::new(all.len(), |i: int| overflow_tree(all[i]))),
{
    assert(overflows_tree(all)->List_0 =~= Seq::new(all.len(), |i: int| overflow_tree(all[i])));
}

/// A list of rejections lists each.
proof fn lemma_rejections(all: Seq<RejectionModel>)
    ensures
        rejections_tree(all) == JsonTree::List(
            Seq::new(all.len(), |i: int| rejection_tree(all[i])),
        ),
{
    assert(rejections_tree(all)->List_0 =~= Seq::new(all.len(), |i: int| rejection_tree(all[i])));
}

/// The answer to a checked request says what the report holds: whether it passed, that nothing is
/// updated yet, the pages, the token, the targets, the warnings, the overflows, the rejections and
/// the reason, each list in its order.
pub proof fn law_checked_answer(report: ReportModel)
    ensures
        ({
            let tree = report_tree(report);
            &&& says(tree, "schemaVersion"@, number(1))
            &&& says(tree, "ok"@, JsonTree::Bool(report.ok))
            &&& says(tree, "updated"@, number(0))
            &&& report.changed_pages is None ==> says(tree, "changedPages"@, JsonTree::Null)
            &&& report.changed_pages matches Some(pages) ==> says(
                tree,
                "changedPages"@,
                JsonTree::List(Seq::new(pages.len(), |i: int| number(pages[i] as nat))),
            )
            &&& report.preflight_token is None ==> says(tree, "preflightToken"@, JsonTree::Null)
            &&& report.preflight_token matches Some(token) ==> says(
                tree,
                "preflightToken"@,
                JsonTree::Text(token),
            )
            &&& says(
                tree,
                "targets"@,
                JsonTree::List(
                    Seq::new(report.targets.len(), |i: int| summary_tree(report.targets[i])),
                ),
            )
            &&& says(
                tree,
                "warnings"@,
                JsonTree::List(
                    Seq::new(report.warnings.len(), |i: int| warning_tree(report.warnings[i])),
                ),
            )
            &&& says(
                tree,
                "overflowTargets"@,
                JsonTree::List(
                    Seq::new(
                        report.overflow_targets.len(),
                        |i: int| overflow_tree(report.overflow_targets[i]),
                    ),
                ),
            )
            &&& says(
                tree,
                "rejectedTargets"@,
                JsonTree::List(
                    Seq::new(
                        report.rejected_targets.len(),
                        |i: int| rejection_tree(report.rejected_targets[i]),
                    ),
                ),
            )
            &&& report.reason is None ==> says(tree, "reason"@, JsonTree::Null)
            &&& report.reason matches Some(reason) ==> says(
                tree,
                "reason"@,
                JsonTree::Text(reason.text()),
            )
        }),
        says_only(
            report_tree(report),
            seq![
                "schemaVersion"@,
                "ok"@,
                "updated"@,
                "changedPages"@,
                "preflightToken"@,
                "targets"@,
                "warnings"@,
                "overflowTargets"@,
                "rejectedTargets"@,
                "reason"@,
            ],
        ),
{
    reveal_strlit("schemaVersion");
    reveal_strlit("ok");
    reveal_strlit("updated");
    reveal_strlit("changedPages");
    reveal_strlit("preflightToken");
    reveal_strlit("targets");
    reveal_strlit("warnings");
    reveal_strlit("overflowTargets");
    reveal_strlit("rejectedTargets");
    reveal_strlit("reason");
    let members = seq![
        ("schemaVersion"@, number(1)),
        ("ok"@, JsonTree::Bool(report.ok)),
        ("updated"@, number(0)),
        (
            "changedPages"@,
            match report.changed_pages {
                Some(pages) => pages_tree(pages),
                None => JsonTree::Null,
            },
        ),
        ("preflightToken"@, text_or_null(report.preflight_token)),
        ("targets"@, summaries_tree(report.targets)),
        ("warnings"@, warnings_tree(report.warnings)),
        ("overflowTargets"@, overflows_tree(report.overflow_targets)),
        ("rejectedTargets"@, rejections_tree(report.rejected_targets)),
        ("reason"@, reason_tree(report.reason)),
    ];
    if let Some(given) = report.changed_pages {
        lemma_pages(given);
    }
    lemma_summaries(report.targets);
    lemma_warnings(report.warnings);
    lemma_overflows(report.overflow_targets);
    lemma_rejections(report.rejected_targets);
    assert(report_tree(report) == object(members));
    lemma_members(members);
    assert(says(object(members), members[0].0, members[0].1));
    assert(says(object(members), members[1].0, members[1].1));
    assert(says(object(members), members[2].0, members[2].1));
    assert(says(object(members), members[3].0, members[3].1));
    assert(says(object(members), members[4].0, members[4].1));
    assert(says(object(members), members[5].0, members[5].1));
    assert(says(object(members), members[6].0, members[6].1));
    assert(says(object(members), members[7].0, members[7].1));
    assert(says(object(members), members[8].0, members[8].1));
    assert(says(object(members), members[9].0, members[9].1));
    let keys = seq![
        "schemaVersion"@,
        "ok"@,
        "updated"@,
        "changedPages"@,
        "preflightToken"@,
        "targets"@,
        "warnings"@,
        "overflowTargets"@,
        "rejectedTargets"@,
        "reason"@,
    ];
    assert(Seq::new(members.len(), |i: int| members[i].0) =~= keys);
}

/// An accepted target is answered with its identifier, both texts, and whether they differ.
pub proof fn law_answered_target(summary: SummaryModel)
    ensures
        says(summary_tree(summary), "targetId"@, JsonTree::Text(summary.target_id)),
        says(summary_tree(summary), "originalValue"@, JsonTree::Text(summary.original_value)),
        says(summary_tree(summary), "proposedValue"@, JsonTree::Text(summary.proposed_value)),
        says(summary_tree(summary), "changed"@, JsonTree::Bool(summary.changed)),
        says_only(
            summary_tree(summary),
            seq!["targetId"@, "originalValue"@, "proposedValue"@, "changed"@],
        ),
{
    reveal_strlit("targetId");
    reveal_strlit("originalValue");
    reveal_strlit("proposedValue");
    reveal_strlit("changed");
    let members = seq![
        ("targetId"@, JsonTree::Text(summary.target_id)),
        ("originalValue"@, JsonTree::Text(summary.original_value)),
        ("proposedValue"@, JsonTree::Text(summary.proposed_value)),
        ("changed"@, JsonTree::Bool(summary.changed)),
    ];
    assert(summary_tree(summary) == object(members));
    lemma_members(members);
    assert(says(object(members), members[0].0, members[0].1));
    assert(says(object(members), members[1].0, members[1].1));
    assert(says(object(members), members[2].0, members[2].1));
    assert(says(object(members), members[3].0, members[3].1));
    let keys = seq![
        "targetId"@,
        "originalValue"@,
        "proposedValue"@,
        "changed"@,
    ];
    assert(Seq::new(members.len(), |i: int| members[i].0) =~= keys);
}

/// A rejected target is answered with its identifier and the name of the reason.
pub proof fn law_answered_rejection(rejection: RejectionModel)
    ensures
        says(rejection_tree(rejection), "targetId"@, JsonTree::Text(rejection.target_id)),
        says(rejection_tree(rejection), "reason"@, JsonTree::Text(rejection.reason.text())),
        says_only(rejection_tree(rejection), seq!["targetId"@, "reason"@]),
{
    reveal_strlit("targetId");
    reveal_strlit("reason");
    let members = seq![
        ("targetId"@, JsonTree::Text(rejection.target_id)),
        ("reason"@, JsonTree::Text(rejection.reason.text())),
    ];
    assert(rejection_tree(rejection) == object(members));
    lemma_members(members);
    assert(says(object(members), members[0].0, members[0].1));
    assert(says(object(members), members[1].0, members[1].1));
    assert(Seq::new(members.len(), |i: int| members[i].0) =~= seq!["targetId"@, "reason"@]);
}

/// A warning is answered with the target that it is of, if it is of one, and its code.
pub proof fn law_answered_warning(warning: WarningModel)
    ensures
        warning.target_id is None ==> says(warning_tree(warning), "targetId"@, JsonTree::Null),
        warning.target_id matches Some(id) ==> says(
            warning_tree(warning),
            "targetId"@,
            JsonTree::Text(id),
        ),
        says(warning_tree(warning), "code"@, JsonTree::Text(warning.code.text())),
        says_only(warning_tree(warning), seq!["targetId"@, "code"@]),
{
    reveal_strlit("targetId");
    reveal_strlit("code");
    let members = seq![
        ("targetId"@, text_or_null(warning.target_id)),
        ("code"@, JsonTree::Text(warning.code.text())),
    ];
    assert(warning_tree(warning) == object(members));
    lemma_members(members);
    assert(says(object(members), members[0].0, members[0].1));
    assert(says(object(members), members[1].0, members[1].1));
    assert(Seq::new(members.len(), |i: int| members[i].0) =~= seq!["targetId"@, "code"@]);
}

/// An overflow is answered with its target, both widths, the lines that the value takes, and those that
/// it may take.
pub proof fn law_answered_overflow(target: OverflowModel)
    ensures
        says(overflow_tree(target), "targetId"@, JsonTree::Text(target.target_id)),
        says(overflow_tree(target), "cellWidthPx"@, target.overflow.cell_width_px),
        says(overflow_tree(target), "textWidthPx"@, target.overflow.text_width_px),
        says(overflow_tree(target), "lines"@, number(target.overflow.lines as nat)),
        says(overflow_tree(target), "maxLines"@, number(target.max_lines as nat)),
        says_only(
            overflow_tree(target),
            seq!["targetId"@, "cellWidthPx"@, "textWidthPx"@, "lines"@, "maxLines"@],
        ),
{
    reveal_strlit("targetId");
    reveal_strlit("cellWidthPx");
    reveal_strlit("textWidthPx");
    reveal_strlit("lines");
    reveal_strlit("maxLines");
    let members = seq![
        ("targetId"@, JsonTree::Text(target.target_id)),
        ("cellWidthPx"@, target.overflow.cell_width_px),
        ("textWidthPx"@, target.overflow.text_width_px),
        ("lines"@, number(target.overflow.lines as nat)),
        ("maxLines"@, number(target.max_lines as nat)),
    ];
    assert(overflow_tree(target) == object(members));
    lemma_members(members);
    assert(says(object(members), members[0].0, members[0].1));
    assert(says(object(members), members[1].0, members[1].1));
    assert(says(object(members), members[2].0, members[2].1));
    assert(says(object(members), members[3].0, members[3].1));
    assert(says(object(members), members[4].0, members[4].1));
    let keys = seq![
        "targetId"@,
        "cellWidthPx"@,
        "textWidthPx"@,
        "lines"@,
        "maxLines"@,
    ];
    assert(Seq::new(members.len(), |i: int| members[i].0) =~= keys);
}

/// A number is answered in decimal digits that read back as the number.
pub proof fn law_answered_number(n: nat)
    ensures
        is_number(number(n), n),
{
    law_decimal_reads_back(n);
}

/// The answer to a request that was to be applied says how that went: whether it was applied, how
/// many targets were updated, on which pages, and the warnings, the overflows, the rejections and
/// the reason, each list in its order.
pub proof fn law_applied_answer(
    ok: bool,
    updated: nat,
    changed_pages: Seq<u32>,
    warnings: Seq<WarningModel>,
    overflow_targets: Seq<OverflowModel>,
    rejected: Seq<RejectionModel>,
    reason: Option<FailureReason>,
)
    ensures
        ({
            let tree = apply_tree(
                ok,
                updated,
                changed_pages,
                warnings,
                overflow_targets,
                rejected,
                reason,
            );
            &&& says(tree, "schemaVersion"@, number(1))
            &&& says(tree, "ok"@, JsonTree::Bool(ok))
            &&& says(tree, "updated"@, number(updated))
            &&& says(
                tree,
                "changedPages"@,
                JsonTree::List(
                    Seq::new(changed_pages.len(), |i: int| number(changed_pages[i] as nat)),
                ),
            )
            &&& says(
                tree,
                "warnings"@,
                JsonTree::List(Seq::new(warnings.len(), |i: int| warning_tree(warnings[i]))),
            )
            &&& says(
                tree,
                "overflowTargets"@,
                JsonTree::List(
                    Seq::new(overflow_targets.len(), |i: int| overflow_tree(overflow_targets[i])),
                ),
            )
            &&& says(
                tree,
                "rejectedTargets"@,
                JsonTree::List(Seq::new(rejected.len(), |i: int| rejection_tree(rejected[i]))),
            )
            &&& reason is None ==> says(tree, "reason"@, JsonTree::Null)
            &&& reason matches Some(given) ==> says(
                tree,
                "reason"@,
                JsonTree::Text(given.text()),
            )
        }),
        says_only(
            apply_tree(ok, updated, changed_pages, warnings, overflow_targets, rejected, reason),
            seq![
                "schemaVersion"@,
                "ok"@,
                "updated"@,
                "changedPages"@,
                "warnings"@,
                "overflowTargets"@,
                "rejectedTargets"@,
                "reason"@,
            ],
        ),
{
    reveal_strlit("schemaVersion");
    reveal_strlit("ok");
    reveal_strlit("updated");
    reveal_strlit("changedPages");
    reveal_strlit("warnings");
    reveal_strlit("overflowTargets");
    reveal_strlit("rejectedTargets");
    reveal_strlit("reason");
    let members = seq![
        ("schemaVersion"@, number(1)),
        ("ok"@, JsonTree::Bool(ok)),
        ("updated"@, number(updated)),
        ("changedPages"@, pages_tree(changed_pages)),
        ("warnings"@, warnings_tree(warnings)),
        ("overflowTargets"@, overflows_tree(overflow_targets)),
        ("rejectedTargets"@, rejections_tree(rejected)),
        ("reason"@, reason_tree(reason)),
    ];
    lemma_pages(changed_pages);
    lemma_warnings(warnings);
    lemma_overflows(overflow_targets);
    lemma_rejections(rejected);
    let tree = apply_tree(ok, updated, changed_pages, warnings, overflow_targets, rejected, reason);
    assert(tree == object(members));
    lemma_members(members);
    assert(says(object(members), members[0].0, members[0].1));
    assert(says(object(members), members[1].0, members[1].1));
    assert(says(object(members), members[2].0, members[2].1));
    assert(says(object(members), members[3].0, members[3].1));
    assert(says(object(members), members[4].0, members[4].1));
    assert(says(object(members), members[5].0, members[5].1));
    assert(says(object(members), members[6].0, members[6].1));
    assert(says(object(members), members[7].0, members[7].1));
    let keys = seq![
        "schemaVersion"@,
        "ok"@,
        "updated"@,
        "changedPages"@,
        "warnings"@,
        "overflowTargets"@,
        "rejectedTargets"@,
        "reason"@,
    ];
    assert(Seq::new(members.len(), |i: int| members[i].0) =~= keys);
}


} // verus!
