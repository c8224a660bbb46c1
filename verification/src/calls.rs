//! Laws of restorations from their beginning to their end, over the calls that come between: chunks
//! that are fed, canonical hashes that are provided, snapshots that are taken.

use vstd::prelude::*;

use crate::actions::{law_feed_actions, processing_actions};
use crate::feed::counted;
use crate::hash::H256;
use crate::host::ActionView;
use crate::laws::lemma_noted_in_parts;
use crate::manifest::ManifestView;
use crate::outcomes::{law_feed_outcome, law_init_outcome, law_take_outcome, opened};
use crate::path::PathView;
use crate::restoration::{noted, RestorationView};
use crate::runs::{answers, in_range, Host, Run};
use crate::service::ServiceView;
use crate::status::RestorationStatus;

verus! {

/// A call on the service, with the host that performs what it asks for.
pub enum Call {
    /// `feed_state_chunk` or `feed_block_chunk`.
    Feed { hash: H256, chunk: Seq<u8>, is_state: bool, host: Host },
    /// `provide_canon_hashes`.
    Provide { canonical: Seq<(u64, H256)> },
    /// `take_snapshot`.
    Take { num: u64, host: Host },
}

impl Call {
    /// Whether this feeds the chunk of the given hash and kind.
    pub open spec fn feeds(self, hash: H256, is_state: bool) -> bool {
        self matches Call::Feed { hash: h, is_state: s, .. } && h == hash && s == is_state
    }
}

impl ServiceView {
    /// The run of a call.
    pub open spec fn called(self, call: Call) -> Run {
        match call {
            Call::Feed { hash, chunk, is_state, host } => self.feed_chunk_run(
                hash,
                chunk,
                is_state,
                host,
            ),
            Call::Provide { canonical } => Run::at_once(self.provided(canonical), Ok(())),
            Call::Take { num, host } => self.take_snapshot_run(num, host),
        }
    }

    /// Whether a call is one with a host that answers as it should and, if it feeds a chunk, does
    /// not end in an error.
    pub open spec fn goes_well(self, call: Call) -> bool {
        match call {
            Call::Feed { host, .. } => answers(host) && self.called(call).result is Ok,
            Call::Provide { .. } => true,
            Call::Take { num, host } => answers(host) && in_range(host, num),
        }
    }
}

/// The service once calls have been made, one after the other.
pub open spec fn after_calls(service: ServiceView, calls: Seq<Call>) -> ServiceView
    decreases calls.len(),
{
    if calls.len() == 0 {
        service
    } else {
        after_calls(service, calls.drop_last()).called(calls.last()).service
    }
}

/// Whether all of these calls go well.
pub open spec fn all_go_well(service: ServiceView, calls: Seq<Call>) -> bool
    decreases calls.len(),
{
    calls.len() > 0 ==> all_go_well(service, calls.drop_last()) && after_calls(
        service,
        calls.drop_last(),
    ).goes_well(calls.last())
}

/// Whether a chunk of this hash and kind is among those fed.
pub open spec fn is_fed(calls: Seq<Call>, hash: H256, is_state: bool) -> bool {
    exists|i: int| 0 <= i < calls.len() && (#[trigger] calls[i]).feeds(hash, is_state)
}

/// Whether all chunks of the manifest are among those fed. At least one chunk has to be fed, for the
/// end of a restoration is found by a feeding.
pub open spec fn all_fed(calls: Seq<Call>, manifest: ManifestView) -> bool {
    &&& exists|i: int| 0 <= i < calls.len() && (#[trigger] calls[i]) is Feed
    &&& forall|hash: H256|
        #[trigger] manifest.state_hashes.to_set().contains(hash) ==> is_fed(calls, hash, true)
    &&& forall|hash: H256|
        #[trigger] manifest.block_hashes.to_set().contains(hash) ==> is_fed(calls, hash, false)
}

/// Whether the call at `i` is the one after which all chunks of the manifest have been fed.
pub open spec fn is_last_needed(calls: Seq<Call>, i: int, manifest: ManifestView) -> bool {
    &&& 0 <= i < calls.len()
    &&& all_fed(calls.take(i + 1), manifest)
    &&& !all_fed(calls.take(i), manifest)
}

/// How many chunks of one kind are fed.
pub open spec fn tally(calls: Seq<Call>, is_state: bool) -> nat
    decreases calls.len(),
{
    if calls.len() == 0 {
        0
    } else {
        tally(calls.drop_last(), is_state) + match calls.last() {
            Call::Feed { is_state: s, .. } if s == is_state => 1nat,
            _ => 0nat,
        }
    }
}

/// What a count shows that has counted up to `n`: it goes back to zero at its end.
pub open spec fn shown(n: nat) -> usize {
    (n % (usize::MAX + 1) as nat) as usize
}

/// All canonical hashes that are provided, in their order.
pub open spec fn provided_by(calls: Seq<Call>) -> Seq<(u64, H256)>
    decreases calls.len(),
{
    if calls.len() == 0 {
        Seq::empty()
    } else {
        provided_by(calls.drop_last()) + match calls.last() {
            Call::Provide { canonical } => canonical,
            _ => Seq::empty(),
        }
    }
}

/// Whether no snapshot is taken by these calls.
pub open spec fn no_snapshot(calls: Seq<Call>) -> bool {
    forall|i: int| 0 <= i < calls.len() ==> (#[trigger] calls[i]) !is Take
}

/// The restoration of a manifest, with these calls made.
pub open spec fn remaining(
    manifest: ManifestView,
    writer: bool,
    leftover: Option<PathView>,
    calls: Seq<Call>,
) -> RestorationView {
    RestorationView {
        state_chunks_left: manifest.state_hashes.to_set().filter(
            |hash: H256| !is_fed(calls, hash, true),
        ),
        block_chunks_left: manifest.block_hashes.to_set().filter(
            |hash: H256| !is_fed(calls, hash, false),
        ),
        canonical_hashes: noted(Map::empty(), provided_by(calls)),
        ..RestorationView::fresh(manifest, writer, leftover)
    }
}

pub(crate) proof fn lemma_is_fed_push(calls: Seq<Call>)
    requires
        calls.len() > 0,
    ensures
        forall|hash: H256, is_state: bool| #[trigger]
            is_fed(calls, hash, is_state) <==> is_fed(calls.drop_last(), hash, is_state)
                || calls.last().feeds(hash, is_state),
{
    let front = calls.drop_last();
    assert(calls[calls.len() - 1] == calls.last());
    assert forall|hash: H256, is_state: bool| #[trigger]
        is_fed(calls, hash, is_state) <==> is_fed(front, hash, is_state) || calls.last().feeds(
            hash,
            is_state,
        ) by {
        if is_fed(front, hash, is_state) {
            let i = choose|i: int|
                0 <= i < front.len() && (#[trigger] front[i]).feeds(hash, is_state);
            assert(calls[i] == front[i]);
        }
        if is_fed(calls, hash, is_state) {
            let i = choose|i: int|
                0 <= i < calls.len() && (#[trigger] calls[i]).feeds(hash, is_state);
            if i < front.len() {
                assert(front[i] == calls[i]);
            }
        }
    }
}

/// A count shows how many there were as long as that fits; one more is one more, until it goes back
/// to zero.
pub proof fn law_count_shows_what_fits(n: nat)
    ensures
        shown(0) == 0,
        shown(n + 1) == counted(shown(n)),
        n <= usize::MAX ==> shown(n) == n,
{
    let m = (usize::MAX + 1) as nat;
    if n % m == m - 1 {
        assert((n + 1) % m == 0) by (nonlinear_arith)
            requires
                m > 1,
                n % m == m - 1,
        ;
    } else {
        assert((n + 1) % m == n % m + 1) by (nonlinear_arith)
            requires
                m > 1,
                n % m != m - 1,
        ;
    }
    if n <= usize::MAX {
        vstd::arithmetic::div_mod::lemma_small_mod(n, m);
    }
    vstd::arithmetic::div_mod::lemma_small_mod(0, m);
}

/// What goes well goes well up to any call.
pub(crate) proof fn lemma_prefix(service: ServiceView, calls: Seq<Call>, i: int)
    requires
        all_go_well(service, calls),
        0 <= i <= calls.len(),
    ensures
        all_go_well(service, calls.take(i)),
        i < calls.len() ==> after_calls(service, calls.take(i)).goes_well(calls[i]),
        i < calls.len() ==> after_calls(service, calls.take(i + 1)) == after_calls(
            service,
            calls.take(i),
        ).called(calls[i]).service,
    decreases calls.len(),
{
    if i == calls.len() {
        assert(calls.take(i) =~= calls);
    } else {
        let front = calls.drop_last();
        assert(calls.take(i + 1).drop_last() =~= calls.take(i));
        if i == front.len() {
            assert(calls.take(i) =~= front);
        } else {
            lemma_prefix(service, front, i);
            assert(front.take(i) =~= calls.take(i));
        }
    }
}

proof fn lemma_remaining_done(
    manifest: ManifestView,
    writer: bool,
    leftover: Option<PathView>,
    calls: Seq<Call>,
)
    requires
        calls.len() > 0,
        calls.last() is Feed,
    ensures
        remaining(manifest, writer, leftover, calls).done() <==> all_fed(calls, manifest),
{
    let rest = remaining(manifest, writer, leftover, calls);
    assert(calls[calls.len() - 1] is Feed);
    if rest.done() {
        assert forall|hash: H256| #[trigger]
            manifest.state_hashes.to_set().contains(hash) implies is_fed(calls, hash, true) by {
            assert(!rest.state_chunks_left.contains(hash));
        }
        assert forall|hash: H256| #[trigger]
            manifest.block_hashes.to_set().contains(hash) implies is_fed(calls, hash, false) by {
            assert(!rest.block_chunks_left.contains(hash));
        }
    }
    if all_fed(calls, manifest) {
        assert(rest.state_chunks_left =~= Set::empty());
        assert(rest.block_chunks_left =~= Set::empty());
    }
}

/// A call that feeds no chunk changes nothing of which chunks are fed.
pub(crate) proof fn lemma_other_call(calls: Seq<Call>, manifest: ManifestView)
    requires
        calls.len() > 0,
        calls.last() !is Feed,
    ensures
        all_fed(calls, manifest) == all_fed(calls.drop_last(), manifest),
{
    let front = calls.drop_last();
    lemma_is_fed_push(calls);
    if all_fed(front, manifest) {
        let i = choose|i: int| 0 <= i < front.len() && (#[trigger] front[i]) is Feed;
        assert(calls[i] is Feed);
        assert forall|hash: H256| #[trigger]
            manifest.state_hashes.to_set().contains(hash) implies is_fed(calls, hash, true) by {
            assert(is_fed(front, hash, true));
        }
        assert forall|hash: H256| #[trigger]
            manifest.block_hashes.to_set().contains(hash) implies is_fed(calls, hash, false) by {
            assert(is_fed(front, hash, false));
        }
    }
    if all_fed(calls, manifest) {
        let i = choose|i: int| 0 <= i < calls.len() && (#[trigger] calls[i]) is Feed;
        assert(front[i] is Feed);
    }
}

/// What has been fed stays fed.
pub(crate) proof fn lemma_all_fed_stays(calls: Seq<Call>, manifest: ManifestView)
    requires
        calls.len() > 0,
        all_fed(calls.drop_last(), manifest),
    ensures
        all_fed(calls, manifest),
{
    let front = calls.drop_last();
    lemma_is_fed_push(calls);
    let i = choose|i: int| 0 <= i < front.len() && (#[trigger] front[i]) is Feed;
    assert(calls[i] is Feed);
    assert forall|hash: H256| #[trigger]
        manifest.state_hashes.to_set().contains(hash) implies is_fed(calls, hash, true) by {
        assert(is_fed(front, hash, true));
    }
    assert forall|hash: H256| #[trigger]
        manifest.block_hashes.to_set().contains(hash) implies is_fed(calls, hash, false) by {
        assert(is_fed(front, hash, false));
    }
}

/// A service on which a restoration of `manifest` has just begun.
pub open spec fn just_begun(
    service: ServiceView,
    manifest: ManifestView,
    writer: bool,
    leftover: Option<PathView>,
) -> bool {
    &&& service.idle()
    &&& service.restoration == Some(RestorationView::fresh(manifest, writer, leftover))
    &&& service.status is Ongoing
    &&& service.state_chunks == 0
    &&& service.block_chunks == 0
}

/// Where a restoration stands after the given calls.
pub open spec fn stands(
    begun: ServiceView,
    manifest: ManifestView,
    writer: bool,
    leftover: Option<PathView>,
    calls: Seq<Call>,
) -> bool {
    let end = after_calls(begun, calls);
    &&& end.idle()
    &&& end.root == begun.root
    &&& if all_fed(calls, manifest) {
        end.restoration is None && end.status is Inactive
    } else {
        &&& end.restoration == Some(remaining(manifest, writer, leftover, calls))
        &&& end.status == begun.status
        &&& end.state_chunks == shown(tally(calls, true))
        &&& end.block_chunks == shown(tally(calls, false))
    }
}

#[verifier::rlimit(30)]
pub(crate) proof fn lemma_stands(
    begun: ServiceView,
    manifest: ManifestView,
    writer: bool,
    leftover: Option<PathView>,
    calls: Seq<Call>,
)
    requires
        just_begun(begun, manifest, writer, leftover),
        all_go_well(begun, calls),
    ensures
        stands(begun, manifest, writer, leftover, calls),
    decreases calls.len(),
{
    if calls.len() == 0 {
        law_count_shows_what_fits(0);
        assert(remaining(manifest, writer, leftover, calls) =~= RestorationView::fresh(
            manifest,
            writer,
            leftover,
        ));
    } else {
        let front = calls.drop_last();
        let call = calls.last();
        let before = after_calls(begun, front);
        lemma_stands(begun, manifest, writer, leftover, front);
        lemma_is_fed_push(calls);
        law_count_shows_what_fits(tally(front, true));
        law_count_shows_what_fits(tally(front, false));
        match call {
            Call::Feed { hash, chunk, is_state, host } => {
                law_feed_outcome(before, hash, chunk, is_state, host);
                lemma_remaining_done(manifest, writer, leftover, calls);
                if all_fed(front, manifest) {
                    lemma_all_fed_stays(calls, manifest);
                } else {
                    let rest = remaining(manifest, writer, leftover, front);
                    assert(provided_by(calls) =~= provided_by(front));
                    assert(rest.without(hash, is_state) =~= remaining(
                        manifest,
                        writer,
                        leftover,
                        calls,
                    ));
                }
            },
            Call::Provide { canonical } => {
                lemma_other_call(calls, manifest);
                lemma_noted_in_parts(Map::empty(), provided_by(front), canonical);
                if !all_fed(front, manifest) {
                    assert(after_calls(begun, calls).restoration->0 =~= remaining(
                        manifest,
                        writer,
                        leftover,
                        calls,
                    ));
                }
            },
            Call::Take { num, host } => {
                lemma_other_call(calls, manifest);
                law_take_outcome(before, num, host);
                assert(provided_by(calls) =~= provided_by(front));
                if !all_fed(front, manifest) {
                    assert(remaining(manifest, writer, leftover, front) =~= remaining(
                        manifest,
                        writer,
                        leftover,
                        calls,
                    ));
                }
            },
        }
    }
}

/// Once all chunks of the manifest have been fed, one of the calls was the one that fed the last of
/// them.
pub proof fn law_one_call_is_last_needed(calls: Seq<Call>, manifest: ManifestView)
    requires
        all_fed(calls, manifest),
    ensures
        exists|i: int| #[trigger] is_last_needed(calls, i, manifest) && calls[i] is Feed,
    decreases calls.len(),
{
    let front = calls.drop_last();
    let last = calls.len() - 1;
    assert(calls.take(last) =~= front);
    assert(calls.take(last + 1) =~= calls);
    if all_fed(front, manifest) {
        law_one_call_is_last_needed(front, manifest);
        let i = choose|i: int| #[trigger] is_last_needed(front, i, manifest) && front[i] is Feed;
        assert(front.take(i + 1) =~= calls.take(i + 1));
        assert(front.take(i) =~= calls.take(i));
        assert(is_last_needed(calls, i, manifest) && calls[i] is Feed);
    } else {
        if calls.last() !is Feed {
            lemma_other_call(calls, manifest);
        }
        assert(is_last_needed(calls, last, manifest));
    }
}

/// The last needed call feeds a chunk.
pub(crate) proof fn lemma_last_needed_feeds(calls: Seq<Call>, i: int, manifest: ManifestView)
    requires
        is_last_needed(calls, i, manifest),
    ensures
        calls[i] is Feed,
{
    assert(calls.take(i + 1).drop_last() =~= calls.take(i));
    if calls[i] !is Feed {
        lemma_other_call(calls.take(i + 1), manifest);
    }
}

/// A restoration is finished by the feeding that leaves no chunk of the manifest unfed, and not
/// before. Until then it goes on, it wants what has not been fed, it has noted all canonical hashes
/// that were provided, and the status counts what was fed. The chunks may come in any order, more
/// than once, and among others that are not in the manifest; and hashes may be provided and snapshots
/// be taken at any time.
pub proof fn law_restoration_completes(
    service: ServiceView,
    manifest: ManifestView,
    recover: bool,
    calls: Seq<Call>,
    host: Host,
)
    requires
        answers(host),
        service.idle(),
        service.init_restore_run(manifest, recover, host).result is Ok,
        all_go_well(service.init_restore_run(manifest, recover, host).service, calls),
    ensures
        ({
            let begun = service.init_restore_run(manifest, recover, host).service;
            let end = after_calls(begun, calls);
            if all_fed(calls, manifest) {
                end.restoration is None && end.reported_status() == RestorationStatus::Inactive
            } else {
                &&& end.restoration matches Some(rest)
                &&& forall|hash: H256, is_state: bool|
                    #[trigger] rest.wants(hash, is_state) <==> begun.restoration->0.wants(
                        hash,
                        is_state,
                    ) && !is_fed(calls, hash, is_state)
                &&& rest.canonical_hashes == noted(Map::empty(), provided_by(calls))
                &&& end.reported_status() == (RestorationStatus::Ongoing {
                    state_chunks: manifest.state_hashes.len() as u32,
                    block_chunks: manifest.block_hashes.len() as u32,
                    state_chunks_done: shown(tally(calls, true)) as u32,
                    block_chunks_done: shown(tally(calls, false)) as u32,
                })
            }
        }),
{
    law_init_outcome(service, manifest, recover, host);
    let begun = service.init_restore_run(manifest, recover, host).service;
    lemma_stands(begun, manifest, recover, Some(service.restoration_dir()), calls);
}

/// The feeding that leaves no chunk of the manifest unfed makes a recovered snapshot the current
/// one. No other feeding touches the reader, nor does that one where nothing is recovered.
pub proof fn law_reader_changes_at_the_end(
    service: ServiceView,
    manifest: ManifestView,
    recover: bool,
    calls: Seq<Call>,
    i: int,
    host: Host,
)
    requires
        answers(host),
        service.idle(),
        service.init_restore_run(manifest, recover, host).result is Ok,
        all_go_well(service.init_restore_run(manifest, recover, host).service, calls),
        0 <= i < calls.len(),
        calls[i] is Feed,
    ensures
        ({
            let begun = service.init_restore_run(manifest, recover, host).service;
            let before = after_calls(begun, calls.take(i));
            let after = after_calls(begun, calls.take(i + 1));
            &&& begun.reader == service.reader
            &&& if recover && is_last_needed(calls, i, manifest) {
                after.reader is Some && after.reader == opened(
                    service.snapshot_dir(),
                    calls[i]->Feed_host,
                )
            } else {
                after.reader == before.reader
            }
        }),
{
    law_init_outcome(service, manifest, recover, host);
    let begun = service.init_restore_run(manifest, recover, host).service;
    lemma_reader(begun, manifest, recover, Some(service.restoration_dir()), calls, i);
}

pub(crate) proof fn lemma_reader(
    begun: ServiceView,
    manifest: ManifestView,
    writer: bool,
    leftover: Option<PathView>,
    calls: Seq<Call>,
    i: int,
)
    requires
        just_begun(begun, manifest, writer, leftover),
        all_go_well(begun, calls),
        0 <= i < calls.len(),
        calls[i] is Feed,
    ensures
        ({
            let before = after_calls(begun, calls.take(i));
            let after = after_calls(begun, calls.take(i + 1));
            if writer && is_last_needed(calls, i, manifest) {
                after.reader is Some && after.reader == opened(
                    begun.snapshot_dir(),
                    calls[i]->Feed_host,
                )
            } else {
                after.reader == before.reader
            }
        }),
{
    let front = calls.take(i);
    let before = after_calls(begun, front);
    lemma_prefix(begun, calls, i);
    lemma_stands(begun, manifest, writer, leftover, front);
    if let Call::Feed { hash, chunk, is_state, host } = calls[i] {
        law_feed_outcome(before, hash, chunk, is_state, host);
        if !all_fed(front, manifest) {
            lemma_finishing(manifest, writer, leftover, calls, i);
        }
    }
}

/// The chain is verified against all canonical hashes that were provided since the restoration
/// began: the feeding that leaves no chunk of the manifest unfed asks for it.
#[verifier::rlimit(30)]
pub proof fn law_provided_hashes_are_verified(
    service: ServiceView,
    manifest: ManifestView,
    recover: bool,
    calls: Seq<Call>,
    i: int,
    host: Host,
)
    requires
        answers(host),
        service.idle(),
        service.init_restore_run(manifest, recover, host).result is Ok,
        all_go_well(service.init_restore_run(manifest, recover, host).service, calls),
        is_last_needed(calls, i, manifest),
    ensures
        ({
            let begun = service.init_restore_run(manifest, recover, host).service;
            after_calls(begun, calls.take(i)).called(calls[i]).actions().contains(
                ActionView::FinalizeBlocks(noted(Map::empty(), provided_by(calls.take(i)))),
            )
        }),
{
    law_init_outcome(service, manifest, recover, host);
    let begun = service.init_restore_run(manifest, recover, host).service;
    let leftover = Some(service.restoration_dir());
    let front = calls.take(i);
    lemma_prefix(begun, calls, i);
    lemma_stands(begun, manifest, recover, leftover, front);
    lemma_last_needed_feeds(calls, i, manifest);
    let before = after_calls(begun, front);
    let rest = before.restoration->0;
    if let Call::Feed { hash, chunk, is_state, host } = calls[i] {
        lemma_finishing(manifest, recover, leftover, calls, i);
        law_feed_actions(before, hash, chunk, is_state, host);
        let processing = processing_actions(rest, hash, chunk, is_state, host);
        let actions = before.called(calls[i]).actions();
        assert(actions[processing.len() as int + 3] == ActionView::FinalizeBlocks(
            rest.canonical_hashes,
        ));
    }
}

/// The last needed chunk leaves nothing to be fed; any other that is fed before leaves something.
pub(crate) proof fn lemma_finishing(
    manifest: ManifestView,
    writer: bool,
    leftover: Option<PathView>,
    calls: Seq<Call>,
    i: int,
)
    requires
        0 <= i < calls.len(),
        calls[i] is Feed,
        !all_fed(calls.take(i), manifest),
    ensures
        remaining(manifest, writer, leftover, calls.take(i)).without(
            calls[i]->Feed_hash,
            calls[i]->is_state,
        ).done() <==> is_last_needed(calls, i, manifest),
{
    let front = calls.take(i);
    let upto = calls.take(i + 1);
    assert(upto.drop_last() =~= front);
    lemma_is_fed_push(upto);
    lemma_remaining_done(manifest, writer, leftover, upto);
    assert(provided_by(upto) =~= provided_by(front));
    assert(remaining(manifest, writer, leftover, front).without(
        calls[i]->Feed_hash,
        calls[i]->is_state,
    ) =~= remaining(manifest, writer, leftover, upto));
}

} // verus!
