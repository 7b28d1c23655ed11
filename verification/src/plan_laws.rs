//! What the plan of a checked request writes, as a whole.

use vstd::prelude::*;

use crate::apply::{script_of, starts_with, steps_of, updated_of, ApplyStart, StepModel};
use crate::apply_laws::{
    law_edit_writes_its_value, place_named, place_written, text_at, with_step, with_steps,
    WrittenPlace,
};
use crate::edit::EditModel;
use crate::laws::{current_text, law_accepted_edits_match_targets, lemma_resolutions};
use crate::model::DocumentCore;
use crate::preflight::{
    address_fault, form_rejections, form_rejections_at, preflight_of, rejected_if, resolution_of,
    LayoutModel,
};
use crate::repeat_laws::passes;
use crate::report::RejectReason;
use crate::request::{ApprovedEditTargetV1, EncodedRequest};

verus! {

/// The texts of a document by their places, after one step.
pub open spec fn after_step(
    texts: Map<WrittenPlace, Seq<char>>,
    step: StepModel,
) -> Map<WrittenPlace, Seq<char>> {
    texts.insert(place_written(step), with_step(texts[place_written(step)], step))
}

/// The texts of a document by their places, after a run of steps.
pub open spec fn after_steps(
    texts: Map<WrittenPlace, Seq<char>>,
    steps: Seq<StepModel>,
) -> Map<WrittenPlace, Seq<char>>
    decreases steps.len(),
{
    if steps.len() == 0 {
        texts
    } else {
        after_step(after_steps(texts, steps.drop_last()), steps.last())
    }
}

/// Two runs of steps are taken one after the other.
pub proof fn lemma_after_both(
    texts: Map<WrittenPlace, Seq<char>>,
    first: Seq<StepModel>,
    second: Seq<StepModel>,
)
    ensures
        after_steps(texts, first + second) == after_steps(after_steps(texts, first), second),
    decreases second.len(),
{
    if second.len() == 0 {
        assert(first + second =~= first);
    } else {
        lemma_after_both(texts, first, second.drop_last());
        assert((first + second).drop_last() =~= first + second.drop_last());
        assert((first + second).last() == second.last());
    }
}

/// Steps at one place change the text there, and no other.
proof fn lemma_at_one_place(
    texts: Map<WrittenPlace, Seq<char>>,
    steps: Seq<StepModel>,
    place: WrittenPlace,
)
    requires
        texts.dom().contains(place),
        forall|k: int| 0 <= k < steps.len() ==> place_written(#[trigger] steps[k]) == place,
    ensures
        after_steps(texts, steps) == texts.insert(place, with_steps(texts[place], steps)),
    decreases steps.len(),
{
    if steps.len() == 0 {
        assert(texts.insert(place, texts[place]) =~= texts);
    } else {
        let fewer = steps.drop_last();
        assert forall|k: int| 0 <= k < fewer.len() implies place_written(#[trigger] fewer[k])
            == place by {
            assert(fewer[k] == steps[k]);
        }
        lemma_at_one_place(texts, fewer, place);
        assert(steps.last() == steps[steps.len() - 1]);
        assert(after_steps(texts, steps) =~= texts.insert(place, with_steps(texts[place], steps)));
    }
}

/// Where the form of no target is at fault, no two targets bear one address.
proof fn lemma_addresses_differ(targets: Seq<ApprovedEditTargetV1>, n: nat, i: int, j: int)
    requires
        0 <= i < j < n <= targets.len(),
        form_rejections(targets, n).len() == 0,
    ensures
        targets[i].place() != targets[j].place(),
    decreases n,
{
    if j < n - 1 {
        lemma_addresses_differ(targets, (n - 1) as nat, i, j);
    } else {
        assert(form_rejections_at(targets, j).len() == 0);
        assert(rejected_if(
            address_fault(targets, j),
            targets[j],
            RejectReason::DuplicateTargetAddress,
        ).len() == 0);
        assert(!address_fault(targets, j));
    }
}

/// No two targets of an accepted request name one place.
pub proof fn law_accepted_targets_are_apart(
    core: DocumentCore,
    request_json: Seq<char>,
    encoded: EncodedRequest,
    layout: LayoutModel,
    i: int,
    j: int,
)
    requires
        passes(core, request_json, encoded, layout),
        0 <= i < j < encoded.request.targets@.len(),
    ensures
        place_named(core, encoded.request.targets@[i]) != place_named(
            core,
            encoded.request.targets@[j],
        ),
        encoded.request.targets@[i] is NativeField,
        encoded.request.targets@[j] is NativeField,
{
    let targets = encoded.request.targets@;
    core.lemma_gate_open(encoded.request);
    lemma_addresses_differ(targets, targets.len(), i, j);
}

/// What stands at the place of a target once the plan is carried out: its value, where another text
/// was there; else what was there.
pub open spec fn left_at(core: DocumentCore, target: ApprovedEditTargetV1) -> Seq<char> {
    if current_text(core, target) != target.value_text() {
        target.value_text()
    } else {
        text_at(core, target)
    }
}

/// The first steps of a plan leave the values of the first targets at their places, and every other
/// text as it was.
proof fn lemma_first_edits(
    core: DocumentCore,
    request_json: Seq<char>,
    encoded: EncodedRequest,
    layout: LayoutModel,
    texts: Map<WrittenPlace, Seq<char>>,
    n: nat,
)
    requires
        passes(core, request_json, encoded, layout),
        n <= encoded.request.targets@.len(),
        forall|i: int|
            0 <= i < encoded.request.targets@.len() ==> texts.dom().contains(
                place_named(core, #[trigger] encoded.request.targets@[i]),
            ) && texts[place_named(core, encoded.request.targets@[i])] == text_at(
                core,
                encoded.request.targets@[i],
            ),
    ensures
        ({
            let targets = encoded.request.targets@;
            let edits = preflight_of(core, request_json, Ok(encoded), layout)->Ok_0.edits;
            let end = after_steps(texts, script_of(edits.take(n as int)));
            &&& edits.len() == targets.len()
            &&& end.dom() == texts.dom()
            &&& forall|i: int|
                0 <= i < n ==> end[place_named(core, #[trigger] targets[i])] == left_at(
                    core,
                    targets[i],
                )
            &&& forall|place: WrittenPlace|
                (forall|i: int| 0 <= i < n ==> place_named(core, #[trigger] targets[i]) != place)
                    ==> #[trigger] end[place] == texts[place]
        }),
    decreases n,
{
    let targets = encoded.request.targets@;
    let edits = preflight_of(core, request_json, Ok(encoded), layout)->Ok_0.edits;
    law_accepted_edits_match_targets(core, request_json, encoded, layout);
    if n > 0 {
        let last = n - 1;
        let target = targets[last];
        let place = place_named(core, target);
        let before = after_steps(texts, script_of(edits.take(last)));
        let steps = steps_of(edits[last]);
        lemma_first_edits(core, request_json, encoded, layout, texts, last as nat);
        assert(edits.take(n as int).drop_last() =~= edits.take(last));
        lemma_after_both(texts, script_of(edits.take(last)), steps);
        law_edit_writes_its_value(core, request_json, encoded, layout, last);
        lemma_at_one_place(before, steps, place);
        let end = after_steps(texts, script_of(edits.take(n as int)));
        assert(end == before.insert(place, with_steps(before[place], steps)));
        assert forall|i: int| 0 <= i < last implies place_named(core, #[trigger] targets[i])
            != place by {
            law_accepted_targets_are_apart(core, request_json, encoded, layout, i, last);
        }
        assert(before[place] == text_at(core, target));
        assert(edits[last].changes() <==> current_text(core, target) != target.value_text());
        assert(end.dom() =~= texts.dom());
        assert forall|other: WrittenPlace|
            (forall|i: int| 0 <= i < n ==> place_named(core, #[trigger] targets[i])
                != other) implies #[trigger] end[other] == texts[other] by {
            assert(place_named(core, targets[last]) != other);
            assert(end[other] == before[other]);
        }
    } else {
        assert(edits.take(0) =~= Seq::<EditModel>::empty());
    }
}

/// Carrying out the plan of an accepted request leaves the value of every target at its place,
/// however many targets there are: `texts` are the texts of the document by their places, each step
/// does to them what it says, and at the end each place that a target names holds its value, or
/// what it held where that reads as the value already. No other text is changed.
pub proof fn law_plan_writes_every_value(
    core: DocumentCore,
    request_json: Seq<char>,
    encoded: EncodedRequest,
    layout: LayoutModel,
    start: ApplyStart,
    token: Seq<char>,
    texts: Map<WrittenPlace, Seq<char>>,
)
    requires
        passes(core, request_json, encoded, layout),
        starts_with(
            start,
            preflight_of(core, request_json, Ok(encoded), layout)->Ok_0,
            token,
        ),
        start is Ready,
        forall|i: int|
            0 <= i < encoded.request.targets@.len() ==> texts.dom().contains(
                place_named(core, #[trigger] encoded.request.targets@[i]),
            ) && texts[place_named(core, encoded.request.targets@[i])] == text_at(
                core,
                encoded.request.targets@[i],
            ),
    ensures
        ({
            let targets = encoded.request.targets@;
            let end = after_steps(texts, start->Ready_0@.script);
            &&& end.dom() == texts.dom()
            &&& forall|i: int|
                0 <= i < targets.len() ==> end[place_named(core, #[trigger] targets[i])] == if (
                current_text(core, targets[i]) != targets[i].value_text()) {
                    targets[i].value_text()
                } else {
                    text_at(core, targets[i])
                }
            &&& forall|place: WrittenPlace|
                (forall|i: int|
                    0 <= i < targets.len() ==> place_named(core, #[trigger] targets[i]) != place)
                    ==> #[trigger] end[place] == texts[place]
        }),
{
    let targets = encoded.request.targets@;
    let edits = preflight_of(core, request_json, Ok(encoded), layout)->Ok_0.edits;
    lemma_first_edits(core, request_json, encoded, layout, texts, targets.len());
    assert(edits.take(targets.len() as int) =~= edits);
}

/// The steps that write the value of a target, by what stands at its place: none where that reads
/// as the value; else one that sets the value of a field, and for other texts one that deletes all
/// of the text that is there, if any, and one that inserts all of the value, if any.
pub open spec fn writes(
    core: DocumentCore,
    target: ApprovedEditTargetV1,
    steps: Seq<StepModel>,
) -> bool {
    let value = target.value_text();
    let held = text_at(core, target);
    if current_text(core, target) == value {
        steps.len() == 0
    } else {
        match place_named(core, target) {
            WrittenPlace::Field { field_id } => steps == seq![
                StepModel::SetField { field_id, value },
            ],
            WrittenPlace::Body { section_index, paragraph_index } => {
                let deletion = StepModel::DeleteText {
                    section_index,
                    paragraph_index,
                    offset: 0,
                    count: held.len(),
                };
                let insertion = StepModel::InsertText {
                    section_index,
                    paragraph_index,
                    offset: 0,
                    text: value,
                };
                &&& held.len() == 0 ==> steps == seq![insertion]
                &&& value.len() == 0 ==> steps == seq![deletion]
                &&& held.len() > 0 && value.len() > 0 ==> steps == seq![deletion, insertion]
            },
            WrittenPlace::CellParagraph {
                section_index,
                paragraph_index,
                control_index,
                cell_index,
                cell_paragraph,
            } => {
                let deletion = StepModel::DeleteCellText {
                    section_index,
                    paragraph_index,
                    control_index,
                    cell_index,
                    cell_paragraph,
                    offset: 0,
                    count: held.len(),
                };
                let insertion = StepModel::InsertCellText {
                    section_index,
                    paragraph_index,
                    control_index,
                    cell_index,
                    cell_paragraph,
                    offset: 0,
                    text: value,
                };
                &&& held.len() == 0 && value.len() > 0 ==> steps == seq![insertion]
                &&& held.len() > 0 && value.len() == 0 ==> steps == seq![deletion]
                &&& held.len() > 0 && value.len() > 0 ==> steps == seq![deletion, insertion]
                &&& held.len() == 0 && value.len() == 0 ==> steps.len() == 0
            },
        }
    }
}

/// The steps of an accepted edit are those that write the value of its target.
proof fn lemma_writes(
    core: DocumentCore,
    request_json: Seq<char>,
    encoded: EncodedRequest,
    layout: LayoutModel,
    i: int,
)
    requires
        passes(core, request_json, encoded, layout),
        0 <= i < encoded.request.targets@.len(),
    ensures
        writes(
            core,
            encoded.request.targets@[i],
            steps_of(preflight_of(core, request_json, Ok(encoded), layout)->Ok_0.edits[i]),
        ),
{
    let targets = encoded.request.targets@;
    let target = targets[i];
    lemma_resolutions(core, targets, layout.overflow);
    let one = resolution_of(core, target, layout.overflow);
    assert(one.edits.len() == 1);
    let steps = steps_of(one.edits[0]);
    let held = text_at(core, target);
    let value = target.value_text();
    if held.len() == 0 && value.len() == 0 {
        assert(held =~= value);
    }
    if held.len() > 0 && value.len() > 0 && !(target is NativeField) && current_text(core, target)
        != value {
        assert(steps =~= seq![steps[0], steps[1]]);
    }
}

/// Whether the steps of a script from `from` on and before `to` write the value of a target.
pub open spec fn run_writes(
    core: DocumentCore,
    target: ApprovedEditTargetV1,
    script: Seq<StepModel>,
    from: int,
    to: int,
) -> bool {
    0 <= from <= to <= script.len() && writes(core, target, script.subrange(from, to))
}

/// Whether `cuts` divides a script into one run of steps for each target, in the order of the
/// targets, each of which writes the value of its target.
pub open spec fn cut_by_targets(
    core: DocumentCore,
    targets: Seq<ApprovedEditTargetV1>,
    script: Seq<StepModel>,
    cuts: Seq<int>,
) -> bool {
    &&& cuts.len() == targets.len() + 1
    &&& cuts[0] == 0
    &&& cuts[targets.len() as int] == script.len()
    &&& forall|i: int|
        0 <= i < targets.len() ==> run_writes(
            core,
            #[trigger] targets[i],
            script,
            cuts[i],
            cuts[i + 1],
        )
}

/// A script is divided by the edits that it is of.
proof fn lemma_cuts(
    core: DocumentCore,
    targets: Seq<ApprovedEditTargetV1>,
    edits: Seq<EditModel>,
) -> (cuts: Seq<int>)
    requires
        targets.len() == edits.len(),
        forall|i: int|
            #![trigger targets[i]]
            0 <= i < targets.len() ==> writes(core, targets[i], steps_of(edits[i])),
    ensures
        cut_by_targets(core, targets, script_of(edits), cuts),
    decreases edits.len(),
{
    if edits.len() == 0 {
        seq![0int]
    } else {
        let n = edits.len() - 1;
        let fewer = targets.drop_last();
        let script = script_of(edits);
        let before = script_of(edits.drop_last());
        let steps = steps_of(edits.last());
        assert forall|i: int| #![trigger fewer[i]] 0 <= i < fewer.len() implies writes(
            core,
            fewer[i],
            steps_of(edits.drop_last()[i]),
        ) by {
            assert(fewer[i] == targets[i]);
            assert(edits.drop_last()[i] == edits[i]);
        }
        let cuts_before = lemma_cuts(core, fewer, edits.drop_last());
        let cuts = cuts_before.push(script.len() as int);
        assert(script == before + steps);
        assert forall|i: int| 0 <= i < targets.len() implies run_writes(
            core,
            #[trigger] targets[i],
            script,
            cuts[i],
            cuts[i + 1],
        ) by {
            if i < n {
                assert(fewer[i] == targets[i]);
                assert(run_writes(core, fewer[i], before, cuts_before[i], cuts_before[i + 1]));
                assert(script.subrange(cuts[i], cuts[i + 1]) =~= before.subrange(
                    cuts_before[i],
                    cuts_before[i + 1],
                ));
            } else {
                assert(cuts[i] == before.len());
                assert(script.subrange(cuts[i], cuts[i + 1]) =~= steps);
            }
        }
        cuts
    }
}

/// The changes that are counted are those of the edits that change something.
proof fn lemma_updated(
    core: DocumentCore,
    targets: Seq<ApprovedEditTargetV1>,
    edits: Seq<EditModel>,
)
    requires
        targets.len() == edits.len(),
        forall|i: int|
            #![trigger targets[i]]
            0 <= i < targets.len() ==> (edits[i].changes() <==> current_text(core, targets[i])
                != targets[i].value_text()),
    ensures
        updated_of(edits) == targets.filter(
            |target: ApprovedEditTargetV1| current_text(core, target) != target.value_text(),
        ).len(),
    decreases edits.len(),
{
    reveal(Seq::filter);
    if edits.len() > 0 {
        let fewer = targets.drop_last();
        assert forall|i: int| #![trigger fewer[i]] 0 <= i < fewer.len() implies (
        edits.drop_last()[i].changes() <==> current_text(core, fewer[i])
            != fewer[i].value_text()) by {
            assert(fewer[i] == targets[i]);
        }
        lemma_updated(core, fewer, edits.drop_last());
        assert(targets.last() == targets[targets.len() - 1]);
    }
}

/// The script of an accepted request is one run of steps for each target, in the order of the
/// targets, and nothing else: for a target whose place does not read as its value the steps that
/// write it, and for the others none. As many targets are counted as updated as there are of the
/// former.
pub proof fn law_script_is_the_targets_in_order(
    core: DocumentCore,
    request_json: Seq<char>,
    encoded: EncodedRequest,
    layout: LayoutModel,
    start: ApplyStart,
    token: Seq<char>,
)
    requires
        passes(core, request_json, encoded, layout),
        starts_with(
            start,
            preflight_of(core, request_json, Ok(encoded), layout)->Ok_0,
            token,
        ),
        start is Ready,
    ensures
        exists|cuts: Seq<int>| #[trigger]
            cut_by_targets(
                core,
                encoded.request.targets@,
                start->Ready_0@.script,
                cuts,
            ),
        start->Ready_0@.updated == encoded.request.targets@.filter(
            |target: ApprovedEditTargetV1| current_text(core, target) != target.value_text(),
        ).len(),
{
    let targets = encoded.request.targets@;
    let checked = preflight_of(core, request_json, Ok(encoded), layout)->Ok_0;
    law_accepted_edits_match_targets(core, request_json, encoded, layout);
    assert forall|i: int| #![trigger targets[i]] 0 <= i < targets.len() implies writes(
        core,
        targets[i],
        steps_of(checked.edits[i]),
    ) by {
        lemma_writes(core, request_json, encoded, layout, i);
    }
    assert forall|i: int| #![trigger targets[i]] 0 <= i < targets.len() implies (
    checked.edits[i].changes() <==> current_text(core, targets[i])
        != targets[i].value_text()) by {}
    let cuts = lemma_cuts(core, targets, checked.edits);
    assert(cut_by_targets(core, targets, start->Ready_0@.script, cuts));
    lemma_updated(core, targets, checked.edits);
}

} // verus!
