//! Laws of restorations of which a feeding may fail: the client's database is replaced at most once,
//! and not without all that has to come before.

use vstd::prelude::*;

use crate::actions::{law_init_actions, lemma_step_actions};
use crate::calls::{
    after_calls, all_fed, all_go_well, is_last_needed, just_begun, lemma_finishing, lemma_stands, stands,
    Call,
};
use crate::feed::{FeedMove, FeedTaskView};
use crate::hash::H256;
use crate::host::{ActionView, ReplyView, StepView};
use crate::manifest::ManifestView;
use crate::outcomes::{law_feed_outcome, law_init_outcome, law_take_outcome};
use crate::path::PathView;
use crate::recovery::asked_by;
use crate::runs::{answers, feed_next, feed_rank, feed_run, in_range, Asked, Host, Run};
use crate::service::ServiceView;
use crate::snapshot::{SnapshotMove, SnapshotTaskView};
use crate::traces::{
    feed_sound, law_feeding_sound, law_reason_for_each_action, lemma_feed_rank,
    lemma_snapshot_trace, snapshot_ready, Feeding,
};

verus! {

/// How often the client's database is asked to be replaced.
pub open spec fn replacements(actions: Seq<ActionView>) -> nat
    decreases actions.len(),
{
    if actions.len() == 0 {
        0
    } else {
        replacements(actions.drop_last()) + if actions.last() is ReplaceClientDb {
            1nat
        } else {
            0nat
        }
    }
}

impl Call {
    /// Whether the host of the call answers as it should. The call may end in an error.
    pub open spec fn answered(self) -> bool {
        match self {
            Call::Feed { host, .. } => answers(host),
            Call::Provide { .. } => true,
            Call::Take { num, host } => answers(host) && in_range(host, num),
        }
    }
}

/// Whether the hosts of all calls answer as they should.
pub open spec fn all_answered(calls: Seq<Call>) -> bool {
    forall|i: int| 0 <= i < calls.len() ==> (#[trigger] calls[i]).answered()
}

proof fn lemma_replacements_parts(one: Seq<ActionView>, two: Seq<ActionView>)
    ensures
        replacements(one + two) == replacements(one) + replacements(two),
    decreases two.len(),
{
    if two.len() == 0 {
        assert(one + two =~= one);
    } else {
        lemma_replacements_parts(one, two.drop_last());
        assert((one + two).drop_last() =~= one + two.drop_last());
    }
}

/// Whether there are replacements at all.
proof fn lemma_replacements_some(actions: Seq<ActionView>)
    ensures
        replacements(actions) > 0 <==> exists|i: int|
            0 <= i < actions.len() && (#[trigger] actions[i]) is ReplaceClientDb,
    decreases actions.len(),
{
    if actions.len() > 0 {
        let front = actions.drop_last();
        let last = actions.len() - 1;
        lemma_replacements_some(front);
        if actions.last() is ReplaceClientDb {
            assert(actions[last] is ReplaceClientDb);
        } else if replacements(front) > 0 {
            let i = choose|i: int| 0 <= i < front.len() && (#[trigger] front[i]) is ReplaceClientDb;
            assert(actions[i] is ReplaceClientDb);
        }
        if exists|i: int| 0 <= i < actions.len() && (#[trigger] actions[i]) is ReplaceClientDb {
            let i = choose|i: int|
                0 <= i < actions.len() && (#[trigger] actions[i]) is ReplaceClientDb;
            if i < last {
                assert(front[i] is ReplaceClientDb);
            }
        }
    }
}

// ---------------------------------------------------------------------------------------------
// Single operations
// ---------------------------------------------------------------------------------------------

/// Whether a step of a feeding asks for a replacement exactly where it should.
spec fn replaces_in_place(at: FeedMove) -> bool {
    &&& feed_sound(at)
    &&& at.1 matches StepView::Do(action, task) ==> (action is ReplaceClientDb <==> task
        is Replacing)
}

/// How many replacements a feeding has left to ask for at most.
spec fn replacements_left(at: FeedMove) -> nat {
    match at.1 {
        StepView::Do(_, task) => {
            let replacing = FeedTaskView::Replacing { recover: true };
            if task.rank() >= replacing.rank() {
                1
            } else {
                0
            }
        },
        StepView::Return(_) => 0,
    }
}

#[verifier::rlimit(30)]
proof fn lemma_in_place(
    service: ServiceView,
    action: ActionView,
    task: FeedTaskView,
    reply: ReplyView,
)
    requires
        replaces_in_place((service, StepView::Do(action, task))),
        reply.kind() == action.reply_kind(),
    ensures
        ({
            let next = service.resume_feed(task, reply);
            &&& service.feed_may_resume(task, reply)
            &&& replaces_in_place(next)
            &&& replacements_left(next) + (if action is ReplaceClientDb {
                1nat
            } else {
                0nat
            }) <= replacements_left((service, StepView::Do(action, task)))
        }),
{
}

proof fn lemma_feeding_replaces(at: FeedMove, host: Host)
    requires
        answers(host),
        replaces_in_place(at),
    ensures
        replacements(feed_run(at, host).actions()) <= replacements_left(at),
    decreases feed_rank(at),
{
    match at.1 {
        StepView::Do(action, task) => {
            reveal(feed_next);
            lemma_in_place(at.0, action, task, host(action));
            lemma_feed_rank(at.0, action, task, host(action));
            let next = at.0.resume_feed(task, host(action));
            lemma_feeding_replaces(next, host);
            lemma_step_actions(at.0, action, task, host);
            lemma_replacements_parts(seq![action], feed_run(next, host).actions());
            reveal_with_fuel(replacements, 2);
            assert(seq![action].drop_last() =~= Seq::empty());
        },
        StepView::Return(result) => {
            assert(Run::at_once(at.0, result).actions() =~= Seq::empty());
        },
    }
}

/// A feeding asks at most once for the client's database to be replaced.
pub proof fn law_feeding_replaces_once(
    service: ServiceView,
    hash: H256,
    chunk: Seq<u8>,
    is_state: bool,
    host: Host,
)
    requires
        answers(host),
        service.idle(),
    ensures
        replacements(service.feed_chunk_run(hash, chunk, is_state, host).actions()) <= 1,
{
    let at = service.feed_chunk(hash, chunk, is_state);
    law_feeding_sound(
        service,
        hash,
        chunk,
        is_state,
        ActionView::FlushDatabase,
        FeedTaskView::Flushing,
        host(ActionView::FlushDatabase),
    );
    lemma_feeding_replaces(at, host);
}

/// A snapshot never asks for the client's database to be replaced.
pub proof fn law_snapshot_replaces_nothing(service: ServiceView, num: u64, host: Host)
    requires
        answers(host),
        in_range(host, num),
        !service.swapping,
    ensures
        replacements(service.take_snapshot_run(num, host).actions()) == 0,
{
    let inv = |at: SnapshotMove|
        snapshot_ready(at, num) && (at.1 matches StepView::Do(action, _) ==> action
            !is ReplaceClientDb);
    let good = |asked: Asked| asked.action !is ReplaceClientDb;
    assert forall|service: ServiceView, action: ActionView, task: SnapshotTaskView|
        #[trigger] inv((service, StepView::Do(action, task))) implies {
        &&& service.snapshot_may_resume(task, host(action))
        &&& inv(service.resume_snapshot(task, host(action)))
    } by {}
    let at = service.take_snapshot(num);
    assert(inv(at));
    lemma_snapshot_trace(at, host, inv, good);
    let run = service.take_snapshot_run(num, host);
    lemma_replacements_some(run.actions());
    assert forall|i: int| 0 <= i < run.actions().len() implies (#[trigger] run.actions()[i])
        !is ReplaceClientDb by {
        assert(good(run.trace[i]));
    }
}

/// What a feeding that asks for a replacement has come to.
proof fn lemma_replacement_due(
    service: ServiceView,
    hash: H256,
    chunk: Seq<u8>,
    is_state: bool,
    host: Host,
    i: int,
)
    requires
        answers(host),
        service.idle(),
        service.restoration is Some,
        ({
            let actions = service.feed_chunk_run(hash, chunk, is_state, host).actions();
            0 <= i < actions.len() && actions[i] is ReplaceClientDb
        }),
    ensures
        ({
            let left = service.restoration->0.without(hash, is_state);
            &&& left.done()
            &&& ServiceView::verifying_error(left, host) is None
            &&& service.feed_chunk_run(hash, chunk, is_state, host).actions()[i]
                == ActionView::ReplaceClientDb(service.restoration_db())
        }),
{
    law_reason_for_each_action(service, hash, chunk, is_state, host);
    let run = service.feed_chunk_run(hash, chunk, is_state, host);
    let feeding = Feeding { service, rest: service.restoration->0, hash, chunk, is_state };
    assert(feeding.justifies(run.trace[i], host));
    assert(run.actions()[i] == run.trace[i].action);
}

// ---------------------------------------------------------------------------------------------
// From the beginning of a restoration on
// ---------------------------------------------------------------------------------------------

/// Whether a restoration is over, for good or ill.
spec fn is_over(service: ServiceView) -> bool {
    service.idle() && service.restoration is None && service.status !is Ongoing
}

/// When a restoration is over, nothing is replaced any more.
proof fn lemma_over(service: ServiceView, call: Call)
    requires
        is_over(service),
        call.answered(),
    ensures
        is_over(service.called(call).service),
        replacements(service.called(call).actions()) == 0,
{
    match call {
        Call::Take { num, host } => {
            law_take_outcome(service, num, host);
            law_snapshot_replaces_nothing(service, num, host);
        },
        _ => {
            assert(service.called(call).actions() =~= Seq::empty());
        },
    }
}

/// Where a restoration stands after calls of which some may have failed: all have gone well, and it
/// stands as it then does; or it is over.
proof fn lemma_goes_well_or_over(
    begun: ServiceView,
    manifest: ManifestView,
    writer: bool,
    leftover: Option<PathView>,
    calls: Seq<Call>,
)
    requires
        just_begun(begun, manifest, writer, leftover),
        all_answered(calls),
    ensures
        is_over(after_calls(begun, calls)) || (all_go_well(begun, calls) && !all_fed(
            calls,
            manifest,
        ) && stands(begun, manifest, writer, leftover, calls)),
        replacements(asked_by(begun, calls)) <= 1,
        replacements(asked_by(begun, calls)) == 1 ==> is_over(after_calls(begun, calls)),
    decreases calls.len(),
{
    if calls.len() == 0 {
        lemma_stands(begun, manifest, writer, leftover, calls);
    } else {
        let front = calls.drop_last();
        let call = calls.last();
        let before = after_calls(begun, front);
        let actions = before.called(call).actions();
        assert(calls[calls.len() - 1].answered());
        assert forall|i: int| 0 <= i < front.len() implies (#[trigger] front[i]).answered() by {
            assert(front[i] == calls[i]);
        }
        lemma_goes_well_or_over(begun, manifest, writer, leftover, front);
        lemma_replacements_parts(asked_by(begun, front), actions);
        if is_over(before) {
            lemma_over(before, call);
        } else {
            if before.goes_well(call) {
                lemma_stands(begun, manifest, writer, leftover, calls);
            }
            match call {
                Call::Feed { hash, chunk, is_state, host } => {
                    law_feed_outcome(before, hash, chunk, is_state, host);
                    law_feeding_replaces_once(before, hash, chunk, is_state, host);
                    lemma_replacements_some(actions);
                    if replacements(actions) > 0 {
                        let i = choose|i: int|
                            0 <= i < actions.len() && (#[trigger] actions[i]) is ReplaceClientDb;
                        lemma_replacement_due(before, hash, chunk, is_state, host, i);
                    }
                },
                Call::Provide { .. } => {
                    assert(actions =~= Seq::empty());
                },
                Call::Take { num, host } => {
                    law_snapshot_replaces_nothing(before, num, host);
                },
            }
        }
    }
}

/// From the beginning of a restoration on, the client's database is asked to be replaced at most
/// once, whatever is fed, provided and taken, and whether or not it fails.
pub proof fn law_database_replaced_once(
    service: ServiceView,
    manifest: ManifestView,
    recover: bool,
    calls: Seq<Call>,
    host: Host,
)
    requires
        answers(host),
        service.idle(),
        service.init_restore_run(manifest, recover, host).result is Ok,
        all_answered(calls),
    ensures
        ({
            let init = service.init_restore_run(manifest, recover, host);
            replacements(init.actions() + asked_by(init.service, calls)) <= 1
        }),
{
    law_init_outcome(service, manifest, recover, host);
    law_init_actions(service, manifest, recover, host);
    let init = service.init_restore_run(manifest, recover, host);
    lemma_goes_well_or_over(
        init.service,
        manifest,
        recover,
        Some(service.restoration_dir()),
        calls,
    );
    lemma_replacements_parts(init.actions(), asked_by(init.service, calls));
    lemma_replacements_some(init.actions());
}

/// The client's database is replaced only for a reason. By then no feeding has failed since the
/// restoration began, and the chunk just fed was the last that the manifest lists. The rebuilt state
/// has the root that the manifest names, no code is missing, the chain is verified, and the recovered
/// snapshot, if there is one, is finished.
#[verifier::rlimit(30)]
pub proof fn law_database_replaced_when_verified(
    service: ServiceView,
    manifest: ManifestView,
    recover: bool,
    calls: Seq<Call>,
    i: int,
    k: int,
    host: Host,
)
    requires
        answers(host),
        service.idle(),
        service.init_restore_run(manifest, recover, host).result is Ok,
        all_answered(calls),
        0 <= i < calls.len(),
        ({
            let begun = service.init_restore_run(manifest, recover, host).service;
            let actions = after_calls(begun, calls.take(i)).called(calls[i]).actions();
            0 <= k < actions.len() && actions[k] is ReplaceClientDb
        }),
    ensures
        ({
            let begun = service.init_restore_run(manifest, recover, host).service;
            let before = after_calls(begun, calls.take(i));
            &&& all_go_well(begun, calls.take(i))
            &&& is_last_needed(calls, i, manifest)
            &&& before.called(calls[i]).actions()[k] == ActionView::ReplaceClientDb(
                service.restoration_db(),
            )
            &&& calls[i] matches Call::Feed { host: feeder, .. } && {
                &&& feeder(ActionView::StateRoot) == ReplyView::Root(manifest.state_root)
                &&& feeder(ActionView::CheckMissing).error() is None
                &&& feeder(
                    ActionView::FinalizeBlocks(before.restoration->0.canonical_hashes),
                ).error() is None
                &&& recover ==> feeder(ActionView::FinishWriter(manifest)).error() is None
            }
        }),
{
    law_init_outcome(service, manifest, recover, host);
    let begun = service.init_restore_run(manifest, recover, host).service;
    let leftover = Some(service.restoration_dir());
    let front = calls.take(i);
    let before = after_calls(begun, front);
    let actions = before.called(calls[i]).actions();
    assert forall|j: int| 0 <= j < front.len() implies (#[trigger] front[j]).answered() by {
        assert(front[j] == calls[j]);
    }
    lemma_goes_well_or_over(begun, manifest, recover, leftover, front);
    lemma_replacements_some(actions);
    if is_over(before) {
        lemma_over(before, calls[i]);
    }
    match calls[i] {
        Call::Feed { hash, chunk, is_state, host } => {
            lemma_replacement_due(before, hash, chunk, is_state, host, k);
            lemma_finishing(manifest, recover, leftover, calls, i);
        },
        Call::Provide { .. } => {
            assert(actions =~= Seq::empty());
        },
        Call::Take { num, host } => {
            law_snapshot_replaces_nothing(before, num, host);
        },
    }
}

} // verus!
