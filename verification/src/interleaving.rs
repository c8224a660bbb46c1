//! Laws of operations that go on side by side: what holds whatever the order in which the host
//! begins operations and answers them.

use vstd::prelude::*;

use crate::feed::FeedTaskView;
use crate::hash::H256;
use crate::host::{ReplyView, StepView};
use crate::manifest::ManifestView;
use crate::path::PathView;
use crate::restore::RestoreTaskView;
use crate::service::ServiceView;
use crate::snapshot::SnapshotTaskView;

verus! {

/// An operation that waits for the host.
pub enum Task {
    Restore(RestoreTaskView),
    Feed(FeedTaskView),
    Snapshot(SnapshotTaskView),
}

impl Task {
    /// Whether the operation holds the restoration.
    pub open spec fn holds(self) -> bool {
        match self {
            Task::Restore(_) => true,
            Task::Feed(task) => task.holds(),
            Task::Snapshot(_) => false,
        }
    }

    /// Whether the operation is at replacing the current snapshot.
    pub open spec fn swaps(self) -> bool {
        match self {
            Task::Restore(_) => false,
            Task::Feed(task) => task.swaps(),
            Task::Snapshot(task) => task.swaps(),
        }
    }

    /// Whether the operation has the client at a snapshot, or is about to.
    pub open spec fn takes(self) -> bool {
        self matches Task::Snapshot(task) && task.takes()
    }

    /// Whether the operation is at processing a chunk.
    pub open spec fn processes(self) -> bool {
        self matches Task::Feed(task) && (task is Decompressing || task is Feeding
            || task is Writing)
    }

    /// Whether what the operation has of a restoration guards `dir`, and is as one is that began
    /// from its manifest.
    pub open spec fn sound(self, dir: PathView) -> bool {
        match self {
            Task::Restore(task) => match task {
                RestoreTaskView::OpeningDatabase { leftover, .. } => leftover == Some(dir),
                RestoreTaskView::Rebuilding { leftover, .. } => leftover == Some(dir),
                _ => true,
            },
            Task::Feed(task) => match task {
                FeedTaskView::Decompressing { rest, .. } => rest.well_formed(dir),
                FeedTaskView::Feeding { rest, .. } => rest.well_formed(dir),
                FeedTaskView::Writing { rest, .. } => rest.well_formed(dir),
                FeedTaskView::FlushingLast { rest } => rest.well_formed(dir),
                FeedTaskView::CheckingRoot { rest } => rest.well_formed(dir),
                FeedTaskView::CheckingMissing { rest } => rest.well_formed(dir),
                _ => true,
            },
            Task::Snapshot(_) => true,
        }
    }
}

/// A service, and the operations on it that wait for the host, each under a number of its own.
pub struct World {
    pub service: ServiceView,
    pub tasks: Map<nat, Task>,
    /// Whether there was a snapshot that could not open its writer.
    pub blocked: bool,
}

impl World {
    /// A service of which nothing has been asked.
    pub open spec fn start(service: ServiceView) -> Self {
        World { service, tasks: Map::empty(), blocked: false }
    }
}

/// Something that the host does.
pub enum Event {
    /// It begins an operation, under a number.
    InitRestore { id: nat, manifest: ManifestView, recover: bool },
    AbortRestore { id: nat },
    FeedChunk { id: nat, hash: H256, chunk: Seq<u8>, is_state: bool },
    TakeSnapshot { id: nat, num: u64 },
    /// It answers the operation with that number.
    Answer { id: nat, reply: ReplyView },
    /// It makes a call that is over at once.
    StopFeeding,
    ProvideCanonHashes { canonical: Seq<(u64, H256)> },
}

impl World {
    /// The state once the operation with a number has come to wait at `next`, or to its end.
    pub open spec fn with(self, id: nat, service: ServiceView, next: Option<Task>) -> Self {
        World {
            service,
            tasks: match next {
                Some(task) => self.tasks.insert(id, task),
                None => self.tasks.remove(id),
            },
            ..self
        }
    }

    /// Whether the host may do this: a number is given to one operation at a time, and the calls on
    /// the service are ones that it allows.
    pub open spec fn allows(self, event: Event) -> bool {
        match event {
            Event::InitRestore { id, .. } => !self.tasks.dom().contains(id) && !self.service.held,
            Event::AbortRestore { id } => !self.tasks.dom().contains(id) && !self.service.held,
            Event::FeedChunk { id, .. } => !self.tasks.dom().contains(id) && !self.service.held,
            Event::TakeSnapshot { id, .. } => !self.tasks.dom().contains(id),
            Event::Answer { id, reply } => self.tasks.dom().contains(id) && match self.tasks[id] {
                Task::Restore(task) => reply.kind() == task.awaits(),
                Task::Feed(task) => self.service.feed_may_resume(task, reply),
                Task::Snapshot(task) => self.service.snapshot_may_resume(task, reply),
            },
            Event::StopFeeding => true,
            Event::ProvideCanonHashes { .. } => !self.service.held,
        }
    }

    /// The state after the host has done this.
    pub open spec fn next(self, event: Event) -> Self {
        match event {
            Event::InitRestore { id, manifest, recover } => {
                let (service, step) = self.service.init_restore(manifest, recover);
                self.with(id, service, restore_task(step))
            },
            Event::AbortRestore { id } => {
                let (service, step) = self.service.abort_restore();
                self.with(id, service, restore_task(step))
            },
            Event::FeedChunk { id, hash, chunk, is_state } => {
                let (service, step) = self.service.feed_chunk(hash, chunk, is_state);
                self.with(id, service, feed_task(step))
            },
            Event::TakeSnapshot { id, num } => {
                let (service, step) = self.service.take_snapshot(num);
                self.with(id, service, snapshot_task(step))
            },
            Event::Answer { id, reply } => match self.tasks[id] {
                Task::Restore(task) => {
                    let (service, step) = self.service.resume_restore(task, reply);
                    self.with(id, service, restore_task(step))
                },
                Task::Feed(task) => {
                    let (service, step) = self.service.resume_feed(task, reply);
                    self.with(id, service, feed_task(step))
                },
                Task::Snapshot(task) => {
                    let (service, step) = self.service.resume_snapshot(task, reply);
                    World {
                        blocked: self.blocked || task is OpeningWriter && reply.error() is Some,
                        ..self.with(id, service, snapshot_task(step))
                    }
                },
            },
            Event::StopFeeding => World {
                service: ServiceView { restoring_snapshot: false, ..self.service },
                ..self
            },
            Event::ProvideCanonHashes { canonical } => World {
                service: self.service.provided(canonical),
                ..self
            },
        }
    }
}

/// What an operation waits at after a step, if it goes on.
pub open spec fn restore_task(step: StepView<RestoreTaskView>) -> Option<Task> {
    match step {
        StepView::Do(_, task) => Some(Task::Restore(task)),
        StepView::Return(_) => None,
    }
}

/// What an operation waits at after a step, if it goes on.
pub open spec fn feed_task(step: StepView<FeedTaskView>) -> Option<Task> {
    match step {
        StepView::Do(_, task) => Some(Task::Feed(task)),
        StepView::Return(_) => None,
    }
}

/// What an operation waits at after a step, if it goes on.
pub open spec fn snapshot_task(step: StepView<SnapshotTaskView>) -> Option<Task> {
    match step {
        StepView::Do(_, task) => Some(Task::Snapshot(task)),
        StepView::Return(_) => None,
    }
}

/// The state after the host has done all this, one thing after the other.
pub open spec fn after_events(world: World, events: Seq<Event>) -> World
    decreases events.len(),
{
    if events.len() == 0 {
        world
    } else {
        after_events(world, events.drop_last()).next(events.last())
    }
}

/// Whether the host may do all this.
pub open spec fn all_allowed(world: World, events: Seq<Event>) -> bool
    decreases events.len(),
{
    events.len() > 0 ==> all_allowed(world, events.drop_last()) && after_events(
        world,
        events.drop_last(),
    ).allows(events.last())
}

/// Whether a flag tells that one of the operations is at something, and no two are.
pub open spec fn one_at(flag: bool, tasks: Map<nat, Task>, at: spec_fn(Task) -> bool) -> bool {
    &&& flag <==> exists|id: nat| #[trigger] tasks.dom().contains(id) && at(tasks[id])
    &&& forall|a: nat, b: nat|
        #[trigger] tasks.dom().contains(a) && #[trigger] tasks.dom().contains(b) && at(tasks[a])
            && at(tasks[b]) ==> a == b
}

impl World {
    /// Whether the restoration, the reader and what the operations have are in order.
    pub open spec fn sound(self) -> bool {
        let dir = self.service.restoration_dir();
        &&& self.service.held ==> self.service.restoration is None
        &&& self.service.swapping ==> self.service.reader is None
        &&& self.service.restoration matches Some(rest) ==> self.service.status is Ongoing
            && rest.well_formed(dir)
        &&& self.service.reader matches Some(reader) ==> reader.dir == self.service.snapshot_dir()
        &&& forall|id: nat| #[trigger]
            self.tasks.dom().contains(id) ==> {
                &&& self.tasks[id].sound(dir)
                &&& self.tasks[id].processes() ==> self.service.status is Ongoing
            }
    }

    /// What holds of every state that the host can come to.
    pub open spec fn in_order(self) -> bool {
        &&& one_at(self.service.held, self.tasks, |task: Task| task.holds())
        &&& one_at(self.service.swapping, self.tasks, |task: Task| task.swaps())
        &&& one_at(
            self.service.taking_snapshot && !self.blocked,
            self.tasks,
            |task: Task| task.takes(),
        )
        &&& self.blocked ==> self.service.taking_snapshot
        &&& self.sound()
    }
}

/// Whether a task is there and at something.
spec fn is_at(task: Option<Task>, at: spec_fn(Task) -> bool) -> bool {
    task is Some && at(task->0)
}

/// A flag tells what it should after a step, if the step has changed it as the operation's own part
/// in it has changed, and has begun nothing that another operation was at.
proof fn lemma_one_at(
    tasks: Map<nat, Task>,
    id: nat,
    next: Option<Task>,
    before: bool,
    after: bool,
    at: spec_fn(Task) -> bool,
)
    requires
        one_at(before, tasks, at),
        ({
            let was = tasks.dom().contains(id) && at(tasks[id]);
            &&& was ==> after == is_at(next, at)
            &&& !was ==> after == (before || is_at(next, at))
            &&& !was && is_at(next, at) ==> !before
        }),
    ensures
        one_at(
            after,
            match next {
                Some(task) => tasks.insert(id, task),
                None => tasks.remove(id),
            },
            at,
        ),
{
    let later = match next {
        Some(task) => tasks.insert(id, task),
        None => tasks.remove(id),
    };
    assert forall|a: nat, b: nat|
        #[trigger] later.dom().contains(a) && #[trigger] later.dom().contains(b) && at(later[a])
            && at(later[b]) implies a == b by {
        if a != id {
            assert(tasks.dom().contains(a) && tasks[a] == later[a]);
        }
        if b != id {
            assert(tasks.dom().contains(b) && tasks[b] == later[b]);
        }
    }
    if after {
        if is_at(next, at) {
            assert(later.dom().contains(id) && at(later[id]));
        } else {
            let other = choose|other: nat| #[trigger]
                tasks.dom().contains(other) && at(tasks[other]);
            assert(later.dom().contains(other) && later[other] == tasks[other]);
        }
    }
    if exists|other: nat| #[trigger] later.dom().contains(other) && at(later[other]) {
        let other = choose|other: nat| #[trigger] later.dom().contains(other) && at(later[other]);
        if other != id {
            assert(tasks.dom().contains(other) && at(tasks[other]));
        }
    }
}

/// What a step of the operation with a number keeps.
proof fn lemma_step_in_order(
    world: World,
    id: nat,
    service: ServiceView,
    next: Option<Task>,
    blocked: bool,
)
    requires
        world.in_order(),
        service.root == world.service.root,
        ({
            let was = world.tasks.dom().contains(id);
            let held = was && world.tasks[id].holds();
            let swapped = was && world.tasks[id].swaps();
            let took = was && world.tasks[id].takes();
            let holds = next is Some && next->0.holds();
            let swaps = next is Some && next->0.swaps();
            let takes = next is Some && next->0.takes();
            let taking = service.taking_snapshot && !blocked;
            &&& held ==> service.held == holds
            &&& !held ==> service.held == (world.service.held || holds)
            &&& !held && holds ==> !world.service.held
            &&& swapped ==> service.swapping == swaps
            &&& !swapped ==> service.swapping == (world.service.swapping || swaps)
            &&& !swapped && swaps ==> !world.service.swapping
            &&& took ==> taking == takes
            &&& !took ==> taking == (world.service.taking_snapshot && !world.blocked || takes)
            &&& !took && takes ==> !world.service.taking_snapshot
        }),
        blocked ==> service.taking_snapshot,
        service.held ==> service.restoration is None,
        service.swapping ==> service.reader is None,
        service.restoration matches Some(rest) ==> service.status is Ongoing && rest.well_formed(
            service.restoration_dir(),
        ),
        service.reader matches Some(reader) ==> reader.dir == service.snapshot_dir(),
        next matches Some(task) ==> {
            &&& task.sound(service.restoration_dir())
            &&& task.processes() ==> service.status is Ongoing
        },
        service.status == world.service.status || !world.service.held || (
        world.tasks.dom().contains(id) && world.tasks[id].holds()),
    ensures
        (World { blocked, ..world.with(id, service, next) }).in_order(),
{
    let before = world.service;
    lemma_one_at(world.tasks, id, next, before.held, service.held, |task: Task| task.holds());
    lemma_one_at(
        world.tasks,
        id,
        next,
        before.swapping,
        service.swapping,
        |task: Task| task.swaps(),
    );
    lemma_one_at(
        world.tasks,
        id,
        next,
        before.taking_snapshot && !world.blocked,
        service.taking_snapshot && !blocked,
        |task: Task| task.takes(),
    );
    let later = world.with(id, service, next);
    assert forall|other: nat| #[trigger] later.tasks.dom().contains(other) implies {
        &&& later.tasks[other].sound(service.restoration_dir())
        &&& later.tasks[other].processes() ==> service.status is Ongoing
    } by {
        if other != id {
            assert(world.tasks.dom().contains(other));
            assert(world.tasks[other].processes() ==> world.tasks[other].holds());
        }
    }
}

/// The operation that waits is what the flags tell of it.
proof fn lemma_flags(world: World, id: nat)
    requires
        world.in_order(),
        world.tasks.dom().contains(id),
    ensures
        world.tasks[id].holds() ==> world.service.held && world.service.restoration is None,
        world.tasks[id].swaps() ==> world.service.swapping,
        world.tasks[id].takes() ==> world.service.taking_snapshot && !world.blocked,
        world.tasks[id].sound(world.service.restoration_dir()),
        world.tasks[id].processes() ==> world.service.status is Ongoing,
{
}

#[verifier::rlimit(30)]
proof fn lemma_feed_answered(world: World, id: nat, task: FeedTaskView, reply: ReplyView)
    requires
        world.in_order(),
        world.allows(Event::Answer { id, reply }),
        world.tasks[id] == Task::Feed(task),
    ensures
        world.next(Event::Answer { id, reply }).in_order(),
{
    lemma_flags(world, id);
    let (service, step) = world.service.resume_feed(task, reply);
    lemma_step_in_order(world, id, service, feed_task(step), world.blocked);
}

proof fn lemma_restore_answered(world: World, id: nat, task: RestoreTaskView, reply: ReplyView)
    requires
        world.in_order(),
        world.allows(Event::Answer { id, reply }),
        world.tasks[id] == Task::Restore(task),
    ensures
        world.next(Event::Answer { id, reply }).in_order(),
{
    lemma_flags(world, id);
    let (service, step) = world.service.resume_restore(task, reply);
    lemma_step_in_order(world, id, service, restore_task(step), world.blocked);
}

proof fn lemma_snapshot_answered(world: World, id: nat, task: SnapshotTaskView, reply: ReplyView)
    requires
        world.in_order(),
        world.allows(Event::Answer { id, reply }),
        world.tasks[id] == Task::Snapshot(task),
    ensures
        world.next(Event::Answer { id, reply }).in_order(),
{
    lemma_flags(world, id);
    let (service, step) = world.service.resume_snapshot(task, reply);
    let blocked = world.blocked || task is OpeningWriter && reply.error() is Some;
    lemma_step_in_order(world, id, service, snapshot_task(step), blocked);
}

proof fn lemma_event(world: World, event: Event)
    requires
        world.in_order(),
        world.allows(event),
    ensures
        world.next(event).in_order(),
{
    match event {
        Event::InitRestore { id, manifest, recover } => {
            let (service, step) = world.service.init_restore(manifest, recover);
            lemma_step_in_order(world, id, service, restore_task(step), world.blocked);
        },
        Event::AbortRestore { id } => {
            let (service, step) = world.service.abort_restore();
            lemma_step_in_order(world, id, service, restore_task(step), world.blocked);
        },
        Event::FeedChunk { id, hash, chunk, is_state } => {
            let (service, step) = world.service.feed_chunk(hash, chunk, is_state);
            lemma_step_in_order(world, id, service, feed_task(step), world.blocked);
        },
        Event::TakeSnapshot { id, num } => {
            let (service, step) = world.service.take_snapshot(num);
            lemma_step_in_order(world, id, service, snapshot_task(step), world.blocked);
        },
        Event::Answer { id, reply } => match world.tasks[id] {
            Task::Restore(task) => lemma_restore_answered(world, id, task, reply),
            Task::Feed(task) => lemma_feed_answered(world, id, task, reply),
            Task::Snapshot(task) => lemma_snapshot_answered(world, id, task, reply),
        },
        _ => {},
    }
}

/// Whatever operations the host begins, and in whatever order it answers them, all is in order:
/// - one operation at a time holds the restoration, and one at a time replaces the current snapshot;
/// - a restoration that no operation holds is going on, wants only what its manifest lists, and
///   guards the restoration directory;
/// - a reader that is open reads the current snapshot, and none is open while it is replaced.
pub proof fn law_any_order(world: World, events: Seq<Event>)
    requires
        world.in_order(),
        all_allowed(world, events),
    ensures
        after_events(world, events).in_order(),
    decreases events.len(),
{
    if events.len() > 0 {
        law_any_order(world, events.drop_last());
        lemma_event(after_events(world, events.drop_last()), events.last());
    }
}

/// All is in order when a service has come into being, and nothing has been asked of it.
pub proof fn law_order_from_the_start(service: ServiceView)
    requires
        service.well_formed(),
        !service.taking_snapshot,
    ensures
        World::start(service).in_order(),
{
}

/// There are never two snapshots under way with the client: whatever operations the host begins, and
/// in whatever order it answers them, at most one of them has the client at a snapshot. The service
/// takes a snapshot exactly while one has, or once one could not open its writer; after that none
/// has any more.
pub proof fn law_one_client_snapshot(service: ServiceView, events: Seq<Event>, a: nat, b: nat)
    requires
        service.well_formed(),
        !service.taking_snapshot,
        all_allowed(World::start(service), events),
    ensures
        ({
            let world = after_events(World::start(service), events);
            let takes = exists|id: nat| #[trigger]
                world.tasks.dom().contains(id) && world.tasks[id].takes();
            &&& world.tasks.dom().contains(a) && world.tasks[a].takes()
                && world.tasks.dom().contains(b) && world.tasks[b].takes() ==> a == b
            &&& world.service.taking_snapshot <==> takes || world.blocked
            &&& world.blocked ==> !takes
        }),
{
    law_order_from_the_start(service);
    law_any_order(World::start(service), events);
}

/// When no operation waits for the host, the service is as it is between operations: nothing is
/// held, all that is there is in order, and no snapshot is being taken unless one could not open its
/// writer.
pub proof fn law_order_when_all_is_done(service: ServiceView, events: Seq<Event>)
    requires
        service.well_formed(),
        !service.taking_snapshot,
        all_allowed(World::start(service), events),
        after_events(World::start(service), events).tasks == Map::<nat, Task>::empty(),
    ensures
        ({
            let end = after_events(World::start(service), events);
            end.service.well_formed() && end.service.taking_snapshot == end.blocked
        }),
{
    law_order_from_the_start(service);
    law_any_order(World::start(service), events);
}

/// A snapshot and a restoration have nothing in common but the reader of the current snapshot and
/// the hold on it: no step of a snapshot touches the restoration, and no step on a restoration
/// touches whether a snapshot is being taken.
pub proof fn law_steps_side_by_side(
    service: ServiceView,
    snapshot: SnapshotTaskView,
    restore: RestoreTaskView,
    feed: FeedTaskView,
    reply: ReplyView,
)
    ensures
        service.snapshot_may_resume(snapshot, reply) ==> ({
            let after = service.resume_snapshot(snapshot, reply).0;
            after == (ServiceView {
                reader: after.reader,
                taking_snapshot: after.taking_snapshot,
                swapping: after.swapping,
                ..service
            })
        }),
        reply.kind() == restore.awaits() ==> ({
            let after = service.resume_restore(restore, reply).0;
            &&& after.taking_snapshot == service.taking_snapshot
            &&& after.reader == service.reader
            &&& after.swapping == service.swapping
        }),
        service.feed_may_resume(feed, reply) ==> service.resume_feed(feed, reply).0.taking_snapshot
            == service.taking_snapshot,
{
}

} // verus!
