//! In which order rejections are reported.

use vstd::prelude::*;

use crate::lookup_laws::{all_found, faultless, lemma_decided, lemma_refused};
use crate::model::DocumentCore;
use crate::preflight::{
    address_fault, digest_of, form_rejections, form_rejections_at, gate_rejections, id_fault,
    line_limit_fault, one_kind, preflight_of, protected, rejected_all, rejected_if, rejection,
    resolution_of, resolutions_of, value_fault, LayoutModel,
};
use crate::protection::document_counts;
use crate::protection_laws::law_protected_by_its_counts;
use crate::report::{
    distinct, lemma_distinct_contains, OverflowMeasure, RejectReason, RejectionModel,
};
use crate::request::{ApprovedEditTargetV1, ApprovedTemplateEditRequestV1, EncodedRequest};
use crate::text::line_count;
use crate::verdict_laws::{
    at_fault, form_of, is_due, lemma_faultless, lemma_form_at, lemma_gate, lemma_in_either,
    lemma_shaped, of_form, refused_for, shaped,
};

verus! {

/// Whether `earlier` comes before `later` for the first time: wherever `later` stands, `earlier`
/// stands somewhere before.
pub open spec fn first_comes(
    all: Seq<RejectionModel>,
    earlier: RejectionModel,
    later: RejectionModel,
) -> bool {
    forall|j: int|
        0 <= j < all.len() && #[trigger] all[j] == later ==> exists|i: int|
            0 <= i < j && #[trigger] all[i] == earlier
}

/// Rejections are reported in the order in which they first came up.
pub proof fn law_first_rejections_come_first(all: Seq<RejectionModel>, k: int, l: int)
    requires
        0 <= k < l < distinct(all).len(),
    ensures
        first_comes(all, distinct(all)[k], distinct(all)[l]),
    decreases all.len(),
{
    let fewer = all.drop_last();
    let last = all.len() - 1;
    let kept = distinct(fewer);
    let earlier = distinct(all)[k];
    let later = distinct(all)[l];
    if l < kept.len() {
        law_first_rejections_come_first(fewer, k, l);
        lemma_distinct_contains(fewer, later);
        assert(kept[l] == later);
        assert(kept.contains(later));
        let first = choose|j: int| 0 <= j < fewer.len() && fewer[j] == later;
        assert forall|j: int| 0 <= j < all.len() && #[trigger] all[j] == later implies exists|i: int|
            0 <= i < j && #[trigger] all[i] == earlier by {
            let at = if j < last {
                j
            } else {
                first
            };
            assert(fewer[at] == later);
            let i = choose|i: int| 0 <= i < at && #[trigger] fewer[i] == earlier;
            assert(all[i] == earlier);
        }
    } else {
        lemma_distinct_contains(fewer, earlier);
        assert(kept[k] == earlier);
        assert(kept.contains(earlier));
        let i = choose|i: int| 0 <= i < fewer.len() && fewer[i] == earlier;
        assert(all[i] == earlier);
        assert forall|j: int| 0 <= j < all.len() && #[trigger] all[j] == later implies exists|i: int|
            0 <= i < j && #[trigger] all[i] == earlier by {
            if j < last {
                assert(fewer[j] == later);
                assert(fewer.contains(later));
            }
        }
    }
}

/// The stage at which a reason comes up before anything is looked up: with each target, or, for all
/// of them, with the kinds of the targets, the protection of the document, or its structure.
pub open spec fn stage(reason: RejectReason) -> int {
    match reason {
        RejectReason::MixedOrMultipleVirtualTargets => 1,
        RejectReason::ProtectedDocument => 2,
        RejectReason::StructureMismatch => 3,
        _ => 0,
    }
}

/// The turn of a reason among those of one target.
pub open spec fn turn(reason: RejectReason) -> int {
    match reason {
        RejectReason::InvalidOrDuplicateTargetId => 0,
        RejectReason::InvalidValue => 1,
        RejectReason::InvalidMaxLines => 2,
        RejectReason::MaxLinesExceeded => 3,
        RejectReason::DuplicateTargetAddress => 4,
        _ => 5,
    }
}

/// Whether the fault of one target comes up before that of another: by the stage, then by the
/// target, then by the turn of the reason.
pub open spec fn comes_up_before(a: (int, RejectReason), b: (int, RejectReason)) -> bool {
    ||| stage(a.1) < stage(b.1)
    ||| stage(a.1) == stage(b.1) && a.0 < b.0
    ||| stage(a.1) == stage(b.1) && a.0 == b.0 && turn(a.1) < turn(b.1)
}

/// Whether `faults` tells, entry by entry, which fault of which target each rejection is of, in the
/// order in which they come up.
pub open spec fn faults_in_order(
    core: DocumentCore,
    request: ApprovedTemplateEditRequestV1,
    list: Seq<RejectionModel>,
    faults: Seq<(int, RejectReason)>,
) -> bool {
    &&& faults.len() == list.len()
    &&& forall|k: int|
        0 <= k < list.len() ==> fault_of(core, request, list[k], #[trigger] faults[k])
    &&& forall|k: int, l: int|
        0 <= k < l < list.len() ==> comes_up_before(#[trigger] faults[k], #[trigger] faults[l])
}

/// Whether a rejection is of the given fault.
pub open spec fn fault_of(
    core: DocumentCore,
    request: ApprovedTemplateEditRequestV1,
    r: RejectionModel,
    fault: (int, RejectReason),
) -> bool {
    &&& 0 <= fault.0 < request.targets@.len()
    &&& at_fault(core, request, fault.0, fault.1)
    &&& r.target_id == form_of(request.targets@[fault.0]).id
    &&& r.reason == fault.1
}

/// Two lists of faults follow each other where every fault of the first comes up before every one
/// of the second.
proof fn lemma_one_after_the_other(
    core: DocumentCore,
    request: ApprovedTemplateEditRequestV1,
    a: Seq<RejectionModel>,
    faults_a: Seq<(int, RejectReason)>,
    b: Seq<RejectionModel>,
    faults_b: Seq<(int, RejectReason)>,
)
    requires
        faults_in_order(core, request, a, faults_a),
        faults_in_order(core, request, b, faults_b),
        forall|k: int, l: int|
            0 <= k < faults_a.len() && 0 <= l < faults_b.len() ==> comes_up_before(
                #[trigger] faults_a[k],
                #[trigger] faults_b[l],
            ),
    ensures
        faults_in_order(core, request, a + b, faults_a + faults_b),
{
    let list = a + b;
    let faults = faults_a + faults_b;
    assert forall|k: int| 0 <= k < list.len() implies fault_of(
        core,
        request,
        list[k],
        #[trigger] faults[k],
    ) by {
        if k < a.len() {
            assert(fault_of(core, request, a[k], faults_a[k]));
        } else {
            assert(fault_of(core, request, b[k - a.len()], faults_b[k - a.len()]));
        }
    }
    assert forall|k: int, l: int| 0 <= k < l < list.len() implies comes_up_before(
        #[trigger] faults[k],
        #[trigger] faults[l],
    ) by {
        if l < a.len() {
            assert(comes_up_before(faults_a[k], faults_a[l]));
        } else if k < a.len() {
            assert(comes_up_before(faults_a[k], faults_b[l - a.len()]));
        } else {
            assert(comes_up_before(faults_b[k - a.len()], faults_b[l - a.len()]));
        }
    }
}

/// Whether the reasons of rejections come in their turns, all before the given one.
spec fn in_turn(list: Seq<RejectionModel>, end: int) -> bool {
    &&& forall|k: int| 0 <= k < list.len() ==> turn((#[trigger] list[k]).reason) < end
    &&& forall|k: int, l: int|
        0 <= k < l < list.len() ==> turn((#[trigger] list[k]).reason) < turn(
            (#[trigger] list[l]).reason,
        )
}

/// A rejection whose turn it is may follow.
proof fn lemma_in_turn(
    list: Seq<RejectionModel>,
    due: bool,
    target: ApprovedEditTargetV1,
    reason: RejectReason,
)
    requires
        in_turn(list, turn(reason)),
    ensures
        in_turn(list + rejected_if(due, target, reason), turn(reason) + 1),
{
}

/// The rejections that the form of one target brings come in their turns.
proof fn lemma_form_in_turn(targets: Seq<ApprovedEditTargetV1>, i: int)
    ensures
        in_turn(form_rejections_at(targets, i), 5),
{
    let target = targets[i];
    let due = !line_limit_fault(target) && line_count(target.value_text()) > target.line_limit();
    let none = Seq::<RejectionModel>::empty();
    let s1 = rejected_if(id_fault(targets, i), target, RejectReason::InvalidOrDuplicateTargetId);
    let s2 = s1 + rejected_if(value_fault(target), target, RejectReason::InvalidValue);
    let s3 = s2 + rejected_if(line_limit_fault(target), target, RejectReason::InvalidMaxLines);
    let s4 = s3 + rejected_if(due, target, RejectReason::MaxLinesExceeded);
    assert(none + s1 =~= s1);
    lemma_in_turn(none, id_fault(targets, i), target, RejectReason::InvalidOrDuplicateTargetId);
    lemma_in_turn(s1, value_fault(target), target, RejectReason::InvalidValue);
    lemma_in_turn(s2, line_limit_fault(target), target, RejectReason::InvalidMaxLines);
    lemma_in_turn(s3, due, target, RejectReason::MaxLinesExceeded);
    lemma_in_turn(s4, address_fault(targets, i), target, RejectReason::DuplicateTargetAddress);
}

/// The rejections that the form of the first targets brings come target after target.
proof fn lemma_form_in_order(
    core: DocumentCore,
    request: ApprovedTemplateEditRequestV1,
    n: nat,
) -> (faults: Seq<(int, RejectReason)>)
    requires
        n <= request.targets@.len(),
    ensures
        faults_in_order(core, request, form_rejections(request.targets@, n), faults),
        forall|k: int|
            0 <= k < faults.len() ==> (#[trigger] faults[k]).0 < n && stage(faults[k].1) == 0,
        forall|i: int, reason: RejectReason|
            0 <= i < n && of_form(reason) && #[trigger] at_fault(core, request, i, reason)
                ==> faults.contains((i, reason)),
    decreases n,
{
    let targets = request.targets@;
    if n == 0 {
        Seq::empty()
    } else {
        let i = n - 1;
        let before = form_rejections(targets, i as nat);
        let here = form_rejections_at(targets, i);
        let faults_before = lemma_form_in_order(core, request, i as nat);
        let faults_here = Seq::new(here.len(), |k: int| (i, here[k].reason));
        lemma_form_in_turn(targets, i);
        assert forall|k: int| 0 <= k < here.len() implies fault_of(
            core,
            request,
            here[k],
            #[trigger] faults_here[k],
        ) && stage(faults_here[k].1) == 0 by {
            assert(here.contains(here[k]));
            lemma_form_at(core, request, i, here[k]);
        }
        lemma_one_after_the_other(core, request, before, faults_before, here, faults_here);
        assert forall|t: int, reason: RejectReason|
            0 <= t < n && of_form(reason) && #[trigger] at_fault(core, request, t, reason) implies (
        faults_before + faults_here).contains((t, reason)) by {
            lemma_in_either(faults_before, faults_here, (t, reason));
            if t == i {
                let r = RejectionModel { target_id: form_of(targets[i]).id, reason };
                lemma_form_at(core, request, i, r);
                let k = choose|k: int| 0 <= k < here.len() && here[k] == r;
                assert(faults_here[k] == (t, reason));
            }
        }
        faults_before + faults_here
    }
}

/// The rejection of every target for a fault of all comes target after target.
proof fn lemma_all_in_order(
    core: DocumentCore,
    request: ApprovedTemplateEditRequestV1,
    due: bool,
    reason: RejectReason,
) -> (faults: Seq<(int, RejectReason)>)
    requires
        due ==> forall|i: int|
            0 <= i < request.targets@.len() ==> #[trigger] at_fault(core, request, i, reason),
    ensures
        faults_in_order(
            core,
            request,
            if due {
                rejected_all(request.targets@, reason)
            } else {
                Seq::empty()
            },
            faults,
        ),
        forall|k: int| 0 <= k < faults.len() ==> (#[trigger] faults[k]).1 == reason,
        due ==> forall|i: int|
            0 <= i < request.targets@.len() ==> #[trigger] faults.contains((i, reason)),
{
    if due {
        let faults = Seq::new(request.targets@.len(), |k: int| (k, reason));
        assert forall|k: int| 0 <= k < faults.len() implies fault_of(
            core,
            request,
            rejected_all(request.targets@, reason)[k],
            #[trigger] faults[k],
        ) by {
            assert(at_fault(core, request, k, reason));
        }
        assert forall|i: int| 0 <= i < request.targets@.len() implies #[trigger] faults.contains(
            (i, reason),
        ) by {
            assert(faults[i] == (i, reason));
        }
        faults
    } else {
        Seq::empty()
    }
}

/// What is rejected before anything is looked up comes stage after stage, and at each stage target
/// after target.
proof fn lemma_gate_in_order(
    core: DocumentCore,
    request: ApprovedTemplateEditRequestV1,
) -> (faults: Seq<(int, RejectReason)>)
    requires
        request.targets@.len() > 0,
    ensures
        faults_in_order(core, request, gate_rejections(core, request), faults),
        forall|i: int, reason: RejectReason|
            0 <= i < request.targets@.len() && #[trigger] at_fault(core, request, i, reason)
                ==> faults.contains((i, reason)),
{
    let targets = request.targets@;
    let mixed = !one_kind(targets);
    let guarded = protected(core);
    let other = request.expected_structure_digest@ != digest_of(core);
    let kinds = RejectReason::MixedOrMultipleVirtualTargets;
    if mixed {
        lemma_gate_of_all(core, request, kinds);
    }
    if guarded {
        lemma_gate_of_all(core, request, RejectReason::ProtectedDocument);
    }
    if other {
        lemma_gate_of_all(core, request, RejectReason::StructureMismatch);
    }
    let none = Seq::<RejectionModel>::empty();
    let s1 = form_rejections(targets, targets.len());
    let l2 = if mixed {
        rejected_all(targets, kinds)
    } else {
        none
    };
    let l3 = if guarded {
        rejected_all(targets, RejectReason::ProtectedDocument)
    } else {
        none
    };
    let l4 = if other {
        rejected_all(targets, RejectReason::StructureMismatch)
    } else {
        none
    };
    let f1 = lemma_form_in_order(core, request, targets.len());
    let f2 = lemma_all_in_order(core, request, mixed, kinds);
    let f3 = lemma_all_in_order(core, request, guarded, RejectReason::ProtectedDocument);
    let f4 = lemma_all_in_order(core, request, other, RejectReason::StructureMismatch);
    lemma_one_after_the_other(core, request, s1, f1, l2, f2);
    lemma_one_after_the_other(core, request, s1 + l2, f1 + f2, l3, f3);
    lemma_one_after_the_other(core, request, s1 + l2 + l3, f1 + f2 + f3, l4, f4);
    assert(gate_rejections(core, request) == s1 + l2 + l3 + l4);
    let faults = f1 + f2 + f3 + f4;
    assert forall|i: int, reason: RejectReason|
        0 <= i < targets.len() && #[trigger] at_fault(
            core,
            request,
            i,
            reason,
        ) implies faults.contains((i, reason)) by {
        lemma_in_either(f1 + f2 + f3, f4, (i, reason));
        lemma_in_either(f1 + f2, f3, (i, reason));
        lemma_in_either(f1, f2, (i, reason));
        lemma_fault_of_all(core, request, i, reason);
        assert(f1.contains((i, reason)) || f2.contains((i, reason)) || f3.contains((i, reason))
            || f4.contains((i, reason)));
    }
    faults
}

/// A fault of the request or of the document is one of every target.
proof fn lemma_gate_of_all(
    core: DocumentCore,
    request: ApprovedTemplateEditRequestV1,
    reason: RejectReason,
)
    requires
        request.targets@.len() > 0,
        stage(reason) > 0,
        reason == RejectReason::MixedOrMultipleVirtualTargets ==> !one_kind(request.targets@),
        reason == RejectReason::ProtectedDocument ==> protected(core),
        reason == RejectReason::StructureMismatch ==> request.expected_structure_digest@
            != digest_of(core),
    ensures
        forall|i: int|
            0 <= i < request.targets@.len() ==> #[trigger] at_fault(core, request, i, reason),
{
    let targets = request.targets@;
    law_protected_by_its_counts(core.page_count, document_counts(core.document).reported());
}

/// A fault that is not of the form of a target is one of the request or of the document.
proof fn lemma_fault_of_all(
    core: DocumentCore,
    request: ApprovedTemplateEditRequestV1,
    i: int,
    reason: RejectReason,
)
    requires
        0 <= i < request.targets@.len(),
        at_fault(core, request, i, reason),
    ensures
        of_form(reason) || reason == RejectReason::MixedOrMultipleVirtualTargets && !one_kind(
            request.targets@,
        ) || reason == RejectReason::ProtectedDocument && protected(core) || reason
            == RejectReason::StructureMismatch && request.expected_structure_digest@ != digest_of(
            core,
        ),
{
    law_protected_by_its_counts(core.page_count, document_counts(core.document).reported());
}

/// Before anything is looked up, rejections are reported in the order in which the faults come up:
/// those of the form of each target, target after target, then those of the kinds, then of the
/// protection, then of the structure. One that comes up again is reported where it first came up.
pub proof fn law_faults_are_reported_in_order(
    core: DocumentCore,
    request_json: Seq<char>,
    encoded: EncodedRequest,
    layout: LayoutModel,
    k: int,
    l: int,
    j: int,
)
    requires
        shaped(request_json, encoded.request),
        !faultless(core, encoded.request),
        preflight_of(core, request_json, Ok(encoded), layout) is Ok,
        ({
            let rejected = preflight_of(
                core,
                request_json,
                Ok(encoded),
                layout,
            )->Ok_0.report.rejected_targets;
            &&& 0 <= k < l < rejected.len()
            &&& fault_of(core, encoded.request, rejected[l], (j, rejected[l].reason))
        }),
    ensures
        ({
            let rejected = preflight_of(
                core,
                request_json,
                Ok(encoded),
                layout,
            )->Ok_0.report.rejected_targets;
            exists|i: int| #[trigger]
                fault_of(core, encoded.request, rejected[k], (i, rejected[k].reason))
                    && comes_up_before((i, rejected[k].reason), (j, rejected[l].reason))
        }),
{
    let request = encoded.request;
    let gate = gate_rejections(core, request);
    lemma_shaped(request_json, request);
    lemma_some_fault(core, request);
    let rejected = distinct(gate);
    let earlier = rejected[k];
    let later = rejected[l];
    let faults = lemma_gate_in_order(core, request);
    let fault = (j, later.reason);
    assert(at_fault(core, request, j, later.reason));
    assert(faults.contains(fault));
    let at = choose|at: int| 0 <= at < faults.len() && faults[at] == fault;
    assert(fault_of(core, request, gate[at], faults[at]));
    law_first_rejections_come_first(gate, k, l);
    assert(gate[at] == later);
    let p = choose|p: int| 0 <= p < at && #[trigger] gate[p] == earlier;
    assert(fault_of(core, request, gate[p], faults[p]));
    assert(comes_up_before(faults[p], faults[at]));
    let i = faults[p].0;
    assert(faults[p] == (i, earlier.reason));
    assert(fault_of(core, request, earlier, (i, earlier.reason)));
}

/// Some fault brings some rejection.
proof fn lemma_some_fault(core: DocumentCore, request: ApprovedTemplateEditRequestV1)
    requires
        request.targets@.len() > 0,
        !faultless(core, request),
    ensures
        gate_rejections(core, request).len() > 0,
{
    let (i, reason) = choose|i: int, reason: RejectReason|
        0 <= i < request.targets@.len() && #[trigger] at_fault(core, request, i, reason);
    let r = RejectionModel { target_id: form_of(request.targets@[i]).id, reason };
    assert(is_due(core, request, r));
    lemma_gate(core, request, r);
}

/// Whether `found` tells, entry by entry, which target each rejection is of, in their order.
pub open spec fn targets_in_order(
    core: DocumentCore,
    targets: Seq<ApprovedEditTargetV1>,
    overflow: Option<OverflowMeasure>,
    list: Seq<RejectionModel>,
    found: Seq<int>,
) -> bool {
    &&& found.len() == list.len()
    &&& forall|k: int|
        0 <= k < list.len() ==> refusal_of(core, targets, overflow, list[k], #[trigger] found[k])
    &&& forall|k: int, l: int| 0 <= k < l < list.len() ==> #[trigger] found[k] < #[trigger] found[l]
}

/// Whether a rejection is of the `i`th target, which is to be refused for its reason.
pub open spec fn refusal_of(
    core: DocumentCore,
    targets: Seq<ApprovedEditTargetV1>,
    overflow: Option<OverflowMeasure>,
    r: RejectionModel,
    i: int,
) -> bool {
    &&& 0 <= i < targets.len()
    &&& r.target_id == form_of(targets[i]).id
    &&& refused_for(core, targets[i], overflow, r.reason)
}

/// Targets that are looked up are rejected one after the other.
proof fn lemma_targets_in_order(
    core: DocumentCore,
    targets: Seq<ApprovedEditTargetV1>,
    overflow: Option<OverflowMeasure>,
) -> (found: Seq<int>)
    ensures
        targets_in_order(
            core,
            targets,
            overflow,
            resolutions_of(core, targets, overflow).rejected,
            found,
        ),
        forall|i: int, reason: RejectReason|
            0 <= i < targets.len() && #[trigger] refused_for(core, targets[i], overflow, reason)
                ==> found.contains(i),
    decreases targets.len(),
{
    if targets.len() == 0 {
        Seq::empty()
    } else {
        let last = targets.len() - 1;
        let fewer = targets.drop_last();
        let before = resolutions_of(core, fewer, overflow).rejected;
        let one = resolution_of(core, targets.last(), overflow).rejected;
        let list = resolutions_of(core, targets, overflow).rejected;
        let found_before = lemma_targets_in_order(core, fewer, overflow);
        let found = if one.len() > 0 {
            found_before.push(last)
        } else {
            found_before
        };
        assert(list == before + one);
        assert forall|k: int| 0 <= k < list.len() implies refusal_of(
            core,
            targets,
            overflow,
            list[k],
            #[trigger] found[k],
        ) by {
            if k < before.len() {
                assert(found[k] == found_before[k]);
                assert(refusal_of(core, fewer, overflow, before[k], found_before[k]));
                assert(fewer[found[k]] == targets[found[k]]);
            } else {
                assert(one.len() == 1);
                assert(list[k] == one[0]);
                assert(one.contains(one[0]));
                assert(one[0] == rejection(targets[last], one[0].reason));
                lemma_refused(core, targets[last], overflow, one[0].reason);
            }
        }
        assert forall|k: int, l: int| 0 <= k < l < list.len() implies #[trigger] found[k]
            < #[trigger] found[l] by {
            assert(one.len() <= 1);
            assert(found[k] == found_before[k]);
            assert(refusal_of(core, fewer, overflow, before[k], found_before[k]));
            if l < before.len() {
                assert(found[l] == found_before[l]);
            }
        }
        assert forall|i: int, reason: RejectReason|
            0 <= i < targets.len() && #[trigger] refused_for(
                core,
                targets[i],
                overflow,
                reason,
            ) implies found.contains(i) by {
            if i < last {
                assert(fewer[i] == targets[i]);
                assert(refused_for(core, fewer[i], overflow, reason));
                let k = choose|k: int| 0 <= k < found_before.len() && found_before[k] == i;
                assert(found[k] == i);
            } else {
                lemma_refused(core, targets[last], overflow, reason);
                assert(one.len() > 0);
                assert(found[found.len() - 1] == i);
            }
        }
        found
    }
}

/// Targets that are refused once they are looked up are reported in their order. One rejection that
/// comes up again is reported where it first came up.
pub proof fn law_refusals_are_reported_in_order(
    core: DocumentCore,
    request_json: Seq<char>,
    encoded: EncodedRequest,
    layout: LayoutModel,
    k: int,
    l: int,
    j: int,
)
    requires
        shaped(request_json, encoded.request),
        faultless(core, encoded.request),
        !all_found(core, encoded.request, layout.overflow),
        preflight_of(core, request_json, Ok(encoded), layout) is Ok,
        ({
            let rejected = preflight_of(
                core,
                request_json,
                Ok(encoded),
                layout,
            )->Ok_0.report.rejected_targets;
            &&& 0 <= k < l < rejected.len()
            &&& refusal_of(
                core,
                encoded.request.targets@,
                layout.overflow,
                rejected[l],
                j,
            )
        }),
    ensures
        ({
            let rejected = preflight_of(
                core,
                request_json,
                Ok(encoded),
                layout,
            )->Ok_0.report.rejected_targets;
            exists|i: int| #[trigger]
                refusal_of(
                    core,
                    encoded.request.targets@,
                    layout.overflow,
                    rejected[k],
                    i,
                ) && i < j
        }),
{
    let request = encoded.request;
    let targets = request.targets@;
    let overflow = layout.overflow;
    let all = resolutions_of(core, targets, overflow).rejected;
    lemma_shaped(request_json, request);
    lemma_faultless(core, request);
    lemma_decided(core, request, overflow);
    let rejected = distinct(all);
    let earlier = rejected[k];
    let later = rejected[l];
    let found = lemma_targets_in_order(core, targets, overflow);
    assert(refused_for(core, targets[j], overflow, later.reason));
    let at = choose|at: int| 0 <= at < found.len() && found[at] == j;
    assert(refusal_of(core, targets, overflow, all[at], found[at]));
    lemma_one_reason(core, targets[j], overflow, later.reason, all[at].reason);
    assert(all[at] == later);
    law_first_rejections_come_first(all, k, l);
    let p = choose|p: int| 0 <= p < at && #[trigger] all[p] == earlier;
    assert(refusal_of(core, targets, overflow, all[p], found[p]));
    assert(found[p] < found[at]);
}

/// A target is to be refused for one reason at most.
pub proof fn lemma_one_reason(
    core: DocumentCore,
    target: ApprovedEditTargetV1,
    overflow: Option<OverflowMeasure>,
    a: RejectReason,
    b: RejectReason,
)
    requires
        refused_for(core, target, overflow, a),
        refused_for(core, target, overflow, b),
    ensures
        a == b,
{
    let rejected = resolution_of(core, target, overflow).rejected;
    lemma_refused(core, target, overflow, a);
    lemma_refused(core, target, overflow, b);
    let i = choose|i: int| 0 <= i < rejected.len() && rejected[i] == rejection(target, a);
    let j = choose|j: int| 0 <= j < rejected.len() && rejected[j] == rejection(target, b);
    assert(rejected.len() == 1);
}

} // verus!
