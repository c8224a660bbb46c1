use std::collections::HashMap;

use snapshot_service::error::{Error, IoError, IoErrorKind};
use snapshot_service::feed::FeedTask;
use snapshot_service::hash::H256;
use snapshot_service::host::{Action, Reply, ReplyKind, Step};
use snapshot_service::manifest::ManifestData;
use snapshot_service::path::{DirPath, Separator};
use snapshot_service::restore::RestoreTask;
use snapshot_service::service::{ClientIoMessage, Service, ServiceParams};
use snapshot_service::snapshot::SnapshotTask;
use snapshot_service::startup::StartupStep;
use snapshot_service::status::{Algorithm, Progress, RestorationStatus};

/// A host with its file system in memory. It does what it is asked, but for the actions whose text
/// begins with one of the texts in `refuse`.
struct TestHost {
    dirs: Vec<String>,
    refuse: Vec<&'static str>,
    refusal: IoErrorKind,
    log: Vec<String>,
    root: H256,
    best_block_number: u64,
    pruning_history: u64,
    snapshot: ManifestData,
    noted: HashMap<u64, H256>,
    chunks: HashMap<H256, Vec<u8>>,
}

fn hash(n: u128) -> H256 {
    H256 { hi: 0, lo: n }
}

fn manifest(state: Vec<u128>, blocks: Vec<u128>) -> ManifestData {
    ManifestData {
        state_hashes: state.into_iter().map(hash).collect(),
        block_hashes: blocks.into_iter().map(hash).collect(),
        state_root: hash(77),
        block_number: 5,
        block_hash: hash(55),
    }
}

fn params() -> ServiceParams {
    ServiceParams {
        genesis_block: vec![1, 2, 3],
        pruning: Algorithm::Archive,
        snapshot_root: DirPath::new("/chain/snapshot".to_string(), Separator::Slash),
    }
}

fn describe(action: &Action) -> String {
    match action {
        Action::RemoveDirAll(dir) => format!("remove {}", dir.to_text()),
        Action::CreateDirAll(dir) => format!("create {}", dir.to_text()),
        Action::Rename { from, to } => format!("rename {} {}", from.to_text(), to.to_text()),
        Action::HoldReader => format!("hold"),
        Action::Exists(dir) => format!("exists {}", dir.to_text()),
        Action::OpenReader(dir) => format!("reader {}", dir.to_text()),
        Action::OpenWriter(dir) => format!("writer {}", dir.to_text()),
        Action::ResetProgress => format!("reset"),
        Action::TakeSnapshot(num) => format!("take {}", num),
        Action::ChainInfo => format!("chain"),
        Action::Discard(Some(dir)) => format!("discard {}", dir.to_text()),
        Action::Discard(None) => format!("discard"),
        Action::OpenDatabase(dir) => format!("database {}", dir.to_text()),
        Action::StartRebuild { genesis, pruning, manifest } => format!(
            "rebuild {:?} {:?} {} {}",
            genesis,
            pruning,
            manifest.state_hashes.len(),
            manifest.block_hashes.len()
        ),
        Action::Decompress(chunk) => format!("decompress {:?}", chunk),
        Action::FeedState(data) => format!("state {:?}", data),
        Action::FeedBlocks(data) => format!("blocks {:?}", data),
        Action::WriteStateChunk(hash, chunk) => format!("write state {} {:?}", hash.lo, chunk),
        Action::WriteBlockChunk(hash, chunk) => format!("write block {} {:?}", hash.lo, chunk),
        Action::FlushDatabase => format!("flush"),
        Action::StateRoot => format!("root"),
        Action::CheckMissing => format!("missing"),
        Action::FinalizeBlocks(hashes) => format!("finalize {}", hashes.len()),
        Action::FinishWriter(manifest) => format!("finish {}", manifest.block_number),
        Action::ReplaceClientDb(db) => format!("replace {}", db.to_text()),
    }
}

impl TestHost {
    fn new() -> TestHost {
        TestHost {
            dirs: vec![],
            refuse: vec![],
            refusal: IoErrorKind::Other,
            log: vec![],
            root: hash(77),
            best_block_number: 0,
            pruning_history: 0,
            snapshot: manifest(vec![], vec![]),
            noted: HashMap::new(),
            chunks: HashMap::new(),
        }
    }

    fn has(&self, dir: &str) -> bool {
        self.dirs.iter().any(|d| d == dir)
    }

    fn done(&self, refused: bool) -> Reply {
        Reply::Done(if refused { Err(Error::Client("refused".to_string())) } else { Ok(()) })
    }

    fn perform(&mut self, action: Action) -> Reply {
        let text = describe(&action);
        self.log.push(text.clone());
        let refused = self.refuse.iter().any(|r| text.starts_with(r));
        let io_refusal =
            || Reply::Io(Err(IoError { kind: self.refusal, message: "refused".to_string() }));
        match action {
            Action::RemoveDirAll(dir) => {
                if refused {
                    return io_refusal();
                }
                let dir = dir.to_text();
                if !self.has(&dir) {
                    return Reply::Io(Err(IoError {
                        kind: IoErrorKind::NotFound,
                        message: "not found".to_string(),
                    }));
                }
                let below = format!("{}/", dir);
                self.dirs.retain(|d| *d != dir && !d.starts_with(&below));
                Reply::Io(Ok(()))
            }
            Action::CreateDirAll(dir) => {
                if refused {
                    return io_refusal();
                }
                self.dirs.push(dir.to_text());
                Reply::Io(Ok(()))
            }
            Action::Rename { from, to } => {
                if refused {
                    return io_refusal();
                }
                let (from, to) = (from.to_text(), to.to_text());
                for dir in self.dirs.iter_mut() {
                    if *dir == from {
                        *dir = to.clone();
                    }
                }
                Reply::Io(Ok(()))
            }
            Action::Exists(dir) => Reply::Flag(self.has(&dir.to_text())),
            Action::OpenReader(dir) => {
                if refused || !self.has(&dir.to_text()) {
                    Reply::Reader(Err(Error::Client("no snapshot".to_string())))
                } else {
                    Reply::Reader(Ok(self.snapshot.clone()))
                }
            }
            Action::OpenWriter(dir) => {
                if !refused {
                    self.dirs.push(dir.to_text());
                }
                self.done(refused)
            }
            Action::HoldReader | Action::ResetProgress => Reply::Unit,
            Action::ChainInfo => Reply::Chain {
                best_block_number: self.best_block_number,
                pruning_history: self.pruning_history,
            },
            Action::Discard(leftover) => {
                if let Some(dir) = leftover {
                    let dir = dir.to_text();
                    let below = format!("{}/", dir);
                    self.dirs.retain(|d| *d != dir && !d.starts_with(&below));
                }
                Reply::Unit
            }
            Action::OpenDatabase(_) | Action::FlushDatabase => Reply::Database(if refused {
                Err("database refused".to_string())
            } else {
                Ok(())
            }),
            Action::Decompress(chunk) => {
                if refused {
                    Reply::Bytes(Err(Error::Client("refused".to_string())))
                } else {
                    Reply::Bytes(Ok(chunk.iter().map(|b| b + 100).collect()))
                }
            }
            Action::StateRoot => Reply::Root(self.root),
            Action::FinalizeBlocks(hashes) => {
                self.noted = hashes;
                self.done(refused)
            }
            Action::WriteStateChunk(hash, chunk) | Action::WriteBlockChunk(hash, chunk) => {
                if !refused {
                    self.chunks.insert(hash, chunk.to_vec());
                }
                self.done(refused)
            }
            Action::FinishWriter(manifest) => {
                if !refused {
                    self.snapshot = manifest;
                }
                self.done(refused)
            }
            _ => self.done(refused),
        }
    }

    fn start(&mut self) -> Result<Service, Error> {
        let mut step = Service::new(params());
        loop {
            match step {
                StartupStep::Ready(service) => return Ok(service),
                StartupStep::Failed(error) => return Err(error),
                StartupStep::Do(action, startup) => {
                    let reply = self.perform(action);
                    assert_eq!(reply.kind(), startup.awaits());
                    step = startup.resume(reply);
                }
            }
        }
    }

    fn restore(
        &mut self,
        service: &mut Service,
        mut step: Step<'static, RestoreTask>,
    ) -> Result<(), Error> {
        loop {
            match step {
                Step::Return(result) => return result,
                Step::Do(action, task) => {
                    let reply = self.perform(action);
                    assert_eq!(reply.kind(), task.awaits());
                    step = service.resume_restore(task, reply);
                }
            }
        }
    }

    fn init(
        &mut self,
        service: &mut Service,
        manifest: ManifestData,
        recover: bool,
    ) -> Result<(), Error> {
        let step = service.init_restore(manifest, recover);
        self.restore(service, step)
    }

    fn abort(&mut self, service: &mut Service) -> Result<(), Error> {
        let step = service.abort_restore();
        self.restore(service, step)
    }

    fn feed<'a>(
        &mut self,
        service: &mut Service,
        mut step: Step<'a, FeedTask<'a>>,
    ) -> Result<(), Error> {
        loop {
            match step {
                Step::Return(result) => return result,
                Step::Do(action, task) => {
                    let reply = self.perform(action);
                    assert_eq!(reply.kind(), task.awaits());
                    assert!(service.feed_may_resume(&task, &reply));
                    step = service.resume_feed(task, reply);
                }
            }
        }
    }

    fn feed_state(&mut self, service: &mut Service, n: u128, chunk: &[u8]) -> Result<(), Error> {
        let step = service.feed_state_chunk(hash(n), chunk);
        self.feed(service, step)
    }

    fn feed_block(&mut self, service: &mut Service, n: u128, chunk: &[u8]) -> Result<(), Error> {
        let step = service.feed_block_chunk(hash(n), chunk);
        self.feed(service, step)
    }

    fn take(&mut self, service: &mut Service, num: u64) -> Result<(), Error> {
        let mut step: Step<'static, SnapshotTask> = service.take_snapshot(num);
        loop {
            match step {
                Step::Return(result) => return result,
                Step::Do(action, task) => {
                    let reply = self.perform(action);
                    assert!(task.accepts(&reply));
                    assert!(service.snapshot_may_resume(&task, &reply));
                    step = service.resume_snapshot(task, reply);
                }
            }
        }
    }
}

fn ongoing(states: u32, blocks: u32, states_done: u32, blocks_done: u32) -> RestorationStatus {
    RestorationStatus::Ongoing {
        state_chunks: states,
        block_chunks: blocks,
        state_chunks_done: states_done,
        block_chunks_done: blocks_done,
    }
}

/// A service and a host, with a restoration begun.
fn begun(state: Vec<u128>, blocks: Vec<u128>, recover: bool) -> (Service, TestHost) {
    let mut host = TestHost::new();
    let mut service = host.start().unwrap();
    assert_eq!(host.init(&mut service, manifest(state, blocks), recover), Ok(()));
    host.log.clear();
    (service, host)
}

fn refused() -> Result<(), Error> {
    Err(Error::Client("refused".to_string()))
}

fn io_refused(kind: IoErrorKind) -> Error {
    Error::StdIo(IoError { kind, message: "refused".to_string() })
}

#[test]
fn sends_async_messages() {
    let mut host = TestHost::new();
    let mut service = host.start().unwrap();

    assert!(service.manifest().is_none());
    assert!(service.chunk(Default::default()).is_none());
    assert_eq!(service.status(), RestorationStatus::Inactive);

    let manifest = ManifestData {
        state_hashes: vec![],
        block_hashes: vec![],
        state_root: Default::default(),
        block_number: 0,
        block_hash: Default::default(),
    };

    assert!(matches!(
        service.begin_restore(manifest),
        ClientIoMessage::BeginRestoration(m) if m.state_hashes.is_empty() && m.block_number == 0
    ));
    assert_eq!(host.abort(&mut service), Ok(()));
    assert!(matches!(
        service.restore_state_chunk(Default::default(), vec![]),
        ClientIoMessage::FeedStateChunk(h, c) if h == H256 { hi: 0, lo: 0 } && c.is_empty()
    ));
    assert!(matches!(
        service.restore_block_chunk(Default::default(), vec![]),
        ClientIoMessage::FeedBlockChunk(h, c) if h == H256 { hi: 0, lo: 0 } && c.is_empty()
    ));
}

#[test]
fn messages_carry_their_payload() {
    let service = TestHost::new().start().unwrap();
    assert!(matches!(
        service.begin_restore(manifest(vec![1], vec![2, 3])),
        ClientIoMessage::BeginRestoration(m) if m.block_hashes == vec![hash(2), hash(3)]
    ));
    assert!(matches!(
        service.restore_state_chunk(hash(4), vec![9]),
        ClientIoMessage::FeedStateChunk(h, c) if h == hash(4) && c == vec![9]
    ));
    assert!(matches!(
        service.restore_block_chunk(hash(5), vec![8]),
        ClientIoMessage::FeedBlockChunk(h, c) if h == hash(5) && c == vec![8]
    ));
}

#[test]
fn startup_clears_what_was_left() {
    let mut host = TestHost::new();
    host.dirs = vec![
        "/chain/snapshot".to_string(),
        "/chain/snapshot/restoration".to_string(),
        "/chain/snapshot/restoration/db".to_string(),
        "/chain/snapshot/in_progress".to_string(),
        "/chain/snapshot/current".to_string(),
    ];
    host.snapshot = manifest(vec![1, 2], vec![3]);
    let service = host.start().unwrap();
    assert_eq!(
        host.log,
        vec![
            "create /chain/snapshot",
            "remove /chain/snapshot/restoration",
            "remove /chain/snapshot/in_progress",
            "reader /chain/snapshot/current",
        ]
    );
    assert!(!host.has("/chain/snapshot/restoration/db"));
    let found = service.manifest().unwrap();
    assert_eq!(found.state_hashes, vec![hash(1), hash(2)]);
    assert_eq!(found.block_number, 5);
    let read = service.chunk(hash(2)).unwrap();
    assert_eq!(read.dir.to_text(), "/chain/snapshot/current");
    assert_eq!(read.hash, hash(2));
    assert!(service.reader().is_some());
}

#[test]
fn startup_errors() {
    for (refuse, kind, ok) in [
        ("create", IoErrorKind::AlreadyExists, true),
        ("create", IoErrorKind::NotFound, false),
        ("create", IoErrorKind::Other, false),
        ("remove /chain/snapshot/restoration", IoErrorKind::NotFound, true),
        ("remove /chain/snapshot/restoration", IoErrorKind::Other, false),
        ("remove /chain/snapshot/in_progress", IoErrorKind::NotFound, true),
        ("remove /chain/snapshot/in_progress", IoErrorKind::AlreadyExists, false),
    ] {
        let mut host = TestHost::new();
        host.refuse = vec![refuse];
        host.refusal = kind;
        match host.start() {
            Ok(service) => {
                assert!(ok);
                assert_eq!(service.status(), RestorationStatus::Inactive);
            }
            Err(error) => {
                assert!(!ok);
                assert_eq!(error, io_refused(kind));
            }
        }
    }
}

#[test]
fn init_restore_begins() {
    let mut host = TestHost::new();
    let mut service = host.start().unwrap();
    assert!(!service.restoring());
    host.log.clear();
    assert_eq!(host.init(&mut service, manifest(vec![1, 2], vec![3]), false), Ok(()));
    assert_eq!(
        host.log,
        vec![
            "remove /chain/snapshot/restoration",
            "create /chain/snapshot/restoration",
            "database /chain/snapshot/restoration/db",
            "rebuild [1, 2, 3] Archive 2 1",
        ]
    );
    assert_eq!(service.status(), ongoing(2, 1, 0, 0));
    assert!(service.restoring());
}

#[test]
fn init_restore_recovering_opens_a_writer() {
    let mut host = TestHost::new();
    let mut service = host.start().unwrap();
    host.log.clear();
    assert_eq!(host.init(&mut service, manifest(vec![], vec![]), true), Ok(()));
    assert_eq!(host.log[2], "writer /chain/snapshot/restoration/temp");
    assert_eq!(host.log[3], "database /chain/snapshot/restoration/db");
}

#[test]
fn init_restore_errors() {
    for (refuse, expected, last) in [
        (
            "remove",
            io_refused(IoErrorKind::Other),
            "remove /chain/snapshot/restoration",
        ),
        (
            "create",
            io_refused(IoErrorKind::Other),
            "create /chain/snapshot/restoration",
        ),
        (
            "writer",
            Error::Client("refused".to_string()),
            "writer /chain/snapshot/restoration/temp",
        ),
        (
            "database",
            Error::Util("database refused".to_string()),
            "discard /chain/snapshot/restoration",
        ),
        (
            "rebuild",
            Error::Client("refused".to_string()),
            "discard /chain/snapshot/restoration",
        ),
    ] {
        let mut host = TestHost::new();
        let mut service = host.start().unwrap();
        host.refuse = vec![refuse];
        let result = host.init(&mut service, manifest(vec![1], vec![]), true);
        assert_eq!(result, Err(expected));
        assert_eq!(host.log.last().unwrap(), last);
        assert_eq!(service.status(), RestorationStatus::Inactive);
        assert!(!service.restoring());
    }
}

#[test]
fn init_restore_tears_down_the_old_one() {
    let (mut service, mut host) = begun(vec![1, 2], vec![3], false);
    assert_eq!(host.feed_state(&mut service, 1, &[1]), Ok(()));
    assert_eq!(service.status(), ongoing(2, 1, 1, 0));
    host.log.clear();
    assert_eq!(host.init(&mut service, manifest(vec![7], vec![8]), false), Ok(()));
    assert_eq!(host.log[0], "discard /chain/snapshot/restoration");
    assert_eq!(host.log[1], "remove /chain/snapshot/restoration");
    assert_eq!(service.status(), ongoing(1, 1, 0, 0));

    // A beginning that fails leaves the status, and no restoration.
    host.refuse = vec!["create"];
    assert!(host.init(&mut service, manifest(vec![7], vec![8]), false).is_err());
    assert_eq!(service.status(), ongoing(1, 1, 0, 0));
    host.log.clear();
    assert_eq!(host.feed_state(&mut service, 7, &[1]), Ok(()));
    assert!(host.log.is_empty());
}

#[test]
fn feeding_without_restoration_does_nothing() {
    let mut host = TestHost::new();
    let mut service = host.start().unwrap();
    host.log.clear();
    assert_eq!(host.feed_state(&mut service, 1, &[1]), Ok(()));
    assert_eq!(host.feed_block(&mut service, 1, &[1]), Ok(()));
    assert!(host.log.is_empty());
    assert_eq!(service.status(), RestorationStatus::Inactive);
}

#[test]
fn feeding_a_wanted_chunk() {
    let (mut service, mut host) = begun(vec![1, 2], vec![3], false);
    assert_eq!(host.feed_state(&mut service, 1, &[5, 6]), Ok(()));
    assert_eq!(host.log, vec!["decompress [5, 6]", "state [105, 106]", "flush"]);
    assert_eq!(service.status(), ongoing(2, 1, 1, 0));
    host.log.clear();
    assert_eq!(host.feed_block(&mut service, 3, &[7]), Ok(()));
    assert_eq!(host.log, vec!["decompress [7]", "blocks [107]", "flush"]);
    assert_eq!(service.status(), ongoing(2, 1, 1, 1));
}

#[test]
fn feeding_writes_the_chunk_as_it_came() {
    let (mut service, mut host) = begun(vec![1, 2], vec![3], true);
    assert_eq!(host.feed_state(&mut service, 1, &[5]), Ok(()));
    assert_eq!(host.log, vec!["decompress [5]", "state [105]", "write state 1 [5]", "flush"]);
    host.log.clear();
    assert_eq!(host.feed_block(&mut service, 3, &[7]), Ok(()));
    assert_eq!(host.log, vec!["decompress [7]", "blocks [107]", "write block 3 [7]", "flush"]);
}

#[test]
fn unwanted_chunks_are_counted_only() {
    let (mut service, mut host) = begun(vec![1, 2], vec![3], false);
    assert_eq!(host.feed_state(&mut service, 1, &[5]), Ok(()));
    host.log.clear();
    // handed in before
    assert_eq!(host.feed_state(&mut service, 1, &[5]), Ok(()));
    // a block chunk, not a state chunk
    assert_eq!(host.feed_state(&mut service, 3, &[5]), Ok(()));
    // not in the manifest
    assert_eq!(host.feed_block(&mut service, 9, &[5]), Ok(()));
    assert_eq!(host.log, vec!["flush", "flush", "flush"]);
    assert_eq!(service.status(), ongoing(2, 1, 3, 1));
}

#[test]
fn restoration_completes_with_the_last_chunk() {
    let (mut service, mut host) = begun(vec![1, 2, 1], vec![3], false);
    assert_eq!(host.feed_block(&mut service, 3, &[1]), Ok(()));
    assert_eq!(host.feed_state(&mut service, 2, &[1]), Ok(()));
    assert_eq!(service.status(), ongoing(3, 1, 1, 1));
    service.provide_canon_hashes(&[(1, hash(10)), (2, hash(20))]);
    service.provide_canon_hashes(&[(1, hash(11))]);
    host.log.clear();
    assert_eq!(host.feed_state(&mut service, 1, &[4]), Ok(()));
    assert_eq!(
        host.log,
        vec![
            "decompress [4]",
            "state [104]",
            "flush",
            "root",
            "missing",
            "finalize 2",
            "discard",
            "replace /chain/snapshot/restoration/db",
            "remove /chain/snapshot/restoration",
        ]
    );
    assert_eq!(host.noted.get(&1), Some(&hash(11)));
    assert_eq!(host.noted.get(&2), Some(&hash(20)));
    assert_eq!(service.status(), RestorationStatus::Inactive);
    assert!(service.manifest().is_none());
    host.log.clear();
    assert_eq!(host.feed_state(&mut service, 1, &[4]), Ok(()));
    assert!(host.log.is_empty());
}

#[test]
fn chunks_may_come_in_any_order() {
    let (mut service, mut host) = begun(vec![1, 2], vec![3, 4], false);
    for n in [4, 9, 4, 3] {
        assert_eq!(host.feed_block(&mut service, n, &[1]), Ok(()));
    }
    for n in [2, 3, 2] {
        assert_eq!(host.feed_state(&mut service, n, &[1]), Ok(()));
    }
    assert_eq!(service.status(), ongoing(2, 2, 3, 4));
    assert_eq!(host.feed_state(&mut service, 1, &[1]), Ok(()));
    assert_eq!(service.status(), RestorationStatus::Inactive);
    assert!(!service.reader().is_some());
}

#[test]
fn empty_manifest_completes_with_any_chunk() {
    let (mut service, mut host) = begun(vec![], vec![], false);
    assert_eq!(service.status(), ongoing(0, 0, 0, 0));
    assert_eq!(host.feed_block(&mut service, 9, &[4]), Ok(()));
    assert_eq!(host.log[0], "flush");
    assert_eq!(host.log[1], "root");
    assert_eq!(service.status(), RestorationStatus::Inactive);
}

#[test]
fn recovered_snapshot_becomes_current() {
    for old in [false, true] {
        let mut host = TestHost::new();
        if old {
            host.dirs.push("/chain/snapshot/current".to_string());
        }
        let mut service = host.start().unwrap();
        assert_eq!(service.manifest().is_some(), old);
        assert_eq!(host.init(&mut service, manifest(vec![1], vec![]), true), Ok(()));
        host.snapshot = manifest(vec![1], vec![]);
        host.log.clear();
        assert_eq!(host.feed_state(&mut service, 1, &[4]), Ok(()));
        let mut expected = vec![
            "decompress [4]",
            "state [104]",
            "write state 1 [4]",
            "flush",
            "root",
            "missing",
            "finalize 0",
            "finish 5",
            "discard",
            "replace /chain/snapshot/restoration/db",
            "hold",
            "exists /chain/snapshot/current",
        ];
        if old {
            expected.push("remove /chain/snapshot/current");
        }
        expected.push("rename /chain/snapshot/restoration/temp /chain/snapshot/current");
        expected.push("reader /chain/snapshot/current");
        expected.push("remove /chain/snapshot/restoration");
        assert_eq!(host.log, expected);
        assert_eq!(service.manifest().unwrap().state_hashes, vec![hash(1)]);
        assert_eq!(service.status(), RestorationStatus::Inactive);
        assert!(host.has("/chain/snapshot/current"));
        assert!(!host.has("/chain/snapshot/restoration"));
    }
}

#[test]
fn feeding_errors_fail_the_restoration() {
    for (refuse, expected) in [
        ("decompress", refused()),
        ("state", refused()),
        ("write state", refused()),
        ("flush", Err(Error::Util("database refused".to_string()))),
        ("missing", refused()),
        ("finalize", refused()),
        ("finish", refused()),
        ("replace", refused()),
        ("remove /chain/snapshot/current", Err(io_refused(IoErrorKind::Other))),
        ("rename", Err(io_refused(IoErrorKind::Other))),
        ("reader", Err(Error::Client("no snapshot".to_string()))),
    ] {
        let mut host = TestHost::new();
        host.dirs.push("/chain/snapshot/current".to_string());
        let mut service = host.start().unwrap();
        assert_eq!(host.init(&mut service, manifest(vec![1], vec![]), true), Ok(()));
        host.refuse = vec![refuse];
        assert_eq!(host.feed_state(&mut service, 1, &[4]), expected);
        assert_eq!(service.status(), RestorationStatus::Failed);
        assert_eq!(host.log.last().unwrap(), "remove /chain/snapshot/restoration");
        assert!(!host.has("/chain/snapshot/restoration"));
        host.log.clear();
        assert_eq!(host.feed_state(&mut service, 1, &[4]), Ok(()));
        assert!(host.log.is_empty());
        // A new restoration can begin.
        host.refuse.clear();
        assert_eq!(host.init(&mut service, manifest(vec![1], vec![]), false), Ok(()));
        assert_eq!(service.status(), ongoing(1, 0, 0, 0));
    }
}

#[test]
fn feeding_blocks_errors() {
    for refuse in ["decompress", "blocks", "write block"] {
        let (mut service, mut host) = begun(vec![1], vec![2], true);
        host.refuse = vec![refuse];
        assert_eq!(host.feed_block(&mut service, 2, &[4]), refused());
        assert_eq!(service.status(), RestorationStatus::Failed);
        let n = host.log.len();
        assert_eq!(host.log[n - 2], "discard /chain/snapshot/restoration");
        assert_eq!(host.log[n - 1], "remove /chain/snapshot/restoration");
    }
}

#[test]
fn flush_error_before_the_last_chunk() {
    let (mut service, mut host) = begun(vec![1], vec![2], false);
    host.refuse = vec!["flush"];
    assert_eq!(
        host.feed_block(&mut service, 2, &[4]),
        Err(Error::Util("database refused".to_string()))
    );
    assert_eq!(service.status(), RestorationStatus::Failed);
    assert_eq!(
        host.log,
        vec![
            "decompress [4]",
            "blocks [104]",
            "flush",
            "discard /chain/snapshot/restoration",
            "remove /chain/snapshot/restoration",
        ]
    );
}

#[test]
fn wrong_root_is_an_error() {
    let (mut service, mut host) = begun(vec![1], vec![], false);
    host.root = hash(78);
    assert_eq!(
        host.feed_state(&mut service, 1, &[4]),
        Err(Error::InvalidStateRoot(hash(78)))
    );
    assert_eq!(service.status(), RestorationStatus::Failed);
    assert!(!host.log.iter().any(|l| l.starts_with("replace")));
}

#[test]
fn abort_discards_the_restoration() {
    let (mut service, mut host) = begun(vec![1], vec![2], false);
    assert_eq!(host.abort(&mut service), Ok(()));
    assert_eq!(host.log, vec!["discard /chain/snapshot/restoration"]);
    assert_eq!(service.status(), RestorationStatus::Inactive);
    assert!(!service.restoring());
    host.log.clear();
    assert_eq!(host.feed_state(&mut service, 1, &[4]), Ok(()));
    assert_eq!(host.abort(&mut service), Ok(()));
    assert!(host.log.is_empty());
}

#[test]
fn abort_clears_a_failure() {
    let (mut service, mut host) = begun(vec![1], vec![2], false);
    host.refuse = vec!["decompress"];
    assert_eq!(host.feed_state(&mut service, 1, &[4]), refused());
    assert_eq!(service.status(), RestorationStatus::Failed);
    assert_eq!(host.abort(&mut service), Ok(()));
    assert_eq!(service.status(), RestorationStatus::Inactive);
}

#[test]
fn canonical_hashes_need_a_restoration() {
    let mut host = TestHost::new();
    let mut service = host.start().unwrap();
    service.provide_canon_hashes(&[(1, hash(10))]);
    assert_eq!(host.init(&mut service, manifest(vec![1], vec![]), false), Ok(()));
    assert_eq!(host.feed_state(&mut service, 1, &[4]), Ok(()));
    assert!(host.noted.is_empty());
}

#[test]
fn taking_a_snapshot() {
    for old in [false, true] {
        let mut host = TestHost::new();
        if old {
            host.dirs.push("/chain/snapshot/current".to_string());
        }
        let mut service = host.start().unwrap();
        host.snapshot = manifest(vec![6], vec![]);
        host.log.clear();
        assert_eq!(host.take(&mut service, 30), Ok(()));
        let mut expected = vec![
            "reset",
            "remove /chain/snapshot/in_progress",
            "writer /chain/snapshot/in_progress",
            "take 30",
            "hold",
            "exists /chain/snapshot/current",
        ];
        if old {
            expected.push("remove /chain/snapshot/current");
        }
        expected.push("rename /chain/snapshot/in_progress /chain/snapshot/current");
        expected.push("reader /chain/snapshot/current");
        assert_eq!(host.log, expected);
        assert_eq!(service.manifest().unwrap().state_hashes, vec![hash(6)]);
        // Another one can be taken.
        host.log.clear();
        assert_eq!(host.take(&mut service, 31), Ok(()));
        assert_eq!(host.log[3], "take 31");
    }
}

#[test]
fn one_snapshot_at_a_time() {
    let mut host = TestHost::new();
    let mut service = host.start().unwrap();
    let step = service.take_snapshot(1);
    assert!(matches!(step, Step::Do(Action::ResetProgress, _)));
    assert!(matches!(service.take_snapshot(2), Step::Return(Ok(()))));
}

#[test]
fn failed_writer_blocks_later_snapshots() {
    let mut host = TestHost::new();
    let mut service = host.start().unwrap();
    let progress = Progress { accounts: 1, blocks: 2, size: 3, done: false };
    host.refuse = vec!["writer"];
    assert_eq!(host.take(&mut service, 1), refused());
    assert_eq!(service.tick(&progress), Some((1, 2, 3)));
    host.refuse.clear();
    host.log.clear();
    assert_eq!(host.take(&mut service, 2), Ok(()));
    assert!(host.log.is_empty());
}

#[test]
fn pruned_snapshot_is_no_error() {
    for (best, history, expected) in [
        (129, 100, refused()),
        (130, 100, Ok(())),
        (131, 100, Ok(())),
    ] {
        let mut host = TestHost::new();
        host.dirs.push("/chain/snapshot/current".to_string());
        let mut service = host.start().unwrap();
        host.refuse = vec!["take"];
        host.best_block_number = best;
        host.pruning_history = history;
        assert_eq!(host.take(&mut service, 30), expected);
        assert_eq!(host.log.last().unwrap(), "remove /chain/snapshot/in_progress");
        assert!(!host.has("/chain/snapshot/in_progress"));
        // The current snapshot stays, and the next one can be taken.
        assert!(service.manifest().is_some());
        host.refuse.clear();
        host.log.clear();
        assert_eq!(host.take(&mut service, 31), Ok(()));
        assert!(!host.log.is_empty());
    }
}

#[test]
fn pruning_history_out_of_range_is_not_accepted() {
    let mut host = TestHost::new();
    let mut service = host.start().unwrap();
    host.refuse = vec!["take"];
    let mut step = service.take_snapshot(30);
    loop {
        match step {
            Step::Do(action, task) => {
                let reply = host.perform(action);
                if task.awaits() == ReplyKind::Chain {
                    for (history, fits) in [(u64::MAX - 30, true), (u64::MAX - 29, false)] {
                        let reply = Reply::Chain { best_block_number: 1, pruning_history: history };
                        assert_eq!(task.accepts(&reply), fits);
                    }
                    assert!(!task.accepts(&Reply::Unit));
                    break;
                }
                step = service.resume_snapshot(task, reply);
            }
            Step::Return(_) => unreachable!(),
        }
    }
}

#[test]
fn snapshot_errors_remove_what_there_is() {
    for (refuse, expected) in [
        ("remove /chain/snapshot/current", io_refused(IoErrorKind::Other)),
        ("rename", io_refused(IoErrorKind::Other)),
        ("reader", Error::Client("no snapshot".to_string())),
    ] {
        let mut host = TestHost::new();
        host.dirs.push("/chain/snapshot/current".to_string());
        let mut service = host.start().unwrap();
        host.refuse = vec![refuse];
        assert_eq!(host.take(&mut service, 30), Err(expected));
        assert_eq!(host.log.last().unwrap(), "remove /chain/snapshot/in_progress");
        assert!(service.manifest().is_none());
    }
}

#[test]
fn last_snapshot_stands() {
    let (mut service, mut host) = begun(vec![1], vec![], true);
    host.snapshot = manifest(vec![6], vec![]);
    assert_eq!(host.take(&mut service, 30), Ok(()));
    assert_eq!(service.manifest().unwrap().state_hashes, vec![hash(6)]);
    assert_eq!(service.status(), ongoing(1, 0, 0, 0));
    host.snapshot = manifest(vec![1], vec![]);
    assert_eq!(host.feed_state(&mut service, 1, &[4]), Ok(()));
    assert_eq!(service.manifest().unwrap().state_hashes, vec![hash(1)]);
}

#[test]
fn snapshot_and_restoration_go_on_side_by_side() {
    let mut host = TestHost::new();
    let mut service = host.start().unwrap();
    let mut step = service.take_snapshot(10);
    loop {
        match step {
            Step::Return(result) => {
                assert_eq!(result, Ok(()));
                break;
            }
            Step::Do(action, task) => {
                if let Action::TakeSnapshot(_) = action {
                    assert_eq!(host.init(&mut service, manifest(vec![1, 2], vec![]), false), Ok(()));
                    assert_eq!(host.feed_state(&mut service, 1, &[1]), Ok(()));
                    // still being taken
                    assert_eq!(host.take(&mut service, 11), Ok(()));
                }
                let reply = host.perform(action);
                assert!(task.accepts(&reply));
                step = service.resume_snapshot(task, reply);
            }
        }
    }
    assert_eq!(service.status(), ongoing(2, 0, 1, 0));
    assert!(service.manifest().is_some());
    assert!(!host.log.iter().any(|line| line == "take 11"));
    assert_eq!(host.feed_state(&mut service, 2, &[1]), Ok(()));
    assert_eq!(service.status(), RestorationStatus::Inactive);
    assert!(service.manifest().is_some());
}

#[test]
fn recovered_snapshot_reads_back() {
    let mut host = TestHost::new();
    let mut service = host.start().unwrap();
    assert_eq!(host.init(&mut service, manifest(vec![1, 2], vec![3]), true), Ok(()));
    assert_eq!(host.feed_block(&mut service, 3, &[30]), Ok(()));
    assert_eq!(host.feed_state(&mut service, 2, &[20]), Ok(()));
    // Neither what comes again nor what is not in the manifest is written.
    assert_eq!(host.feed_state(&mut service, 2, &[21]), Ok(()));
    assert_eq!(host.feed_state(&mut service, 9, &[90]), Ok(()));
    assert_eq!(host.feed_state(&mut service, 1, &[10]), Ok(()));
    assert_eq!(service.status(), RestorationStatus::Inactive);
    let found = service.manifest().unwrap();
    assert_eq!(found.state_hashes, vec![hash(1), hash(2)]);
    assert_eq!(found.block_hashes, vec![hash(3)]);
    assert_eq!(found.state_root, hash(77));
    for (n, data) in [(1, vec![10]), (2, vec![20]), (3, vec![30])] {
        let read = service.chunk(hash(n)).unwrap();
        assert_eq!(read.dir.to_text(), "/chain/snapshot/current");
        assert_eq!(host.chunks.get(&read.hash), Some(&data));
    }
    assert_eq!(host.chunks.len(), 3);
}

#[test]
fn unrecovered_snapshot_stays() {
    let mut host = TestHost::new();
    host.dirs.push("/chain/snapshot/current".to_string());
    host.snapshot = manifest(vec![6], vec![]);
    let mut service = host.start().unwrap();
    assert_eq!(host.init(&mut service, manifest(vec![1], vec![]), false), Ok(()));
    host.snapshot = manifest(vec![1], vec![]);
    assert_eq!(host.feed_state(&mut service, 1, &[4]), Ok(()));
    assert_eq!(service.status(), RestorationStatus::Inactive);
    assert_eq!(service.manifest().unwrap().state_hashes, vec![hash(6)]);
    assert!(host.chunks.is_empty());
}

#[test]
fn snapshot_finished_last_overwrites_the_restoration() {
    for point in ["reset", "remove", "writer", "take"] {
        let (mut service, mut host) = begun(vec![1], vec![], true);
        let mut step = service.take_snapshot(10);
        let mut restored = false;
        loop {
            match step {
                Step::Return(result) => {
                    assert_eq!(result, Ok(()));
                    break;
                }
                Step::Do(action, task) => {
                    if describe(&action).starts_with(point) && !restored {
                        restored = true;
                        // The restoration is finished before the client is through.
                        assert_eq!(host.feed_state(&mut service, 1, &[4]), Ok(()));
                        assert_eq!(service.status(), RestorationStatus::Inactive);
                        assert_eq!(service.manifest().unwrap().state_hashes, vec![hash(1)]);
                        host.snapshot = manifest(vec![6], vec![]);
                    }
                    let reply = host.perform(action);
                    assert!(service.snapshot_may_resume(&task, &reply));
                    step = service.resume_snapshot(task, reply);
                }
            }
        }
        assert_eq!(service.manifest().unwrap().state_hashes, vec![hash(6)]);
        assert_eq!(service.status(), RestorationStatus::Inactive);
    }
}

#[test]
fn restoration_finished_last_overwrites_the_snapshot() {
    for point in ["decompress", "flush", "root", "replace", "hold"] {
        let (mut service, mut host) = begun(vec![1], vec![], true);
        let mut step = service.feed_state_chunk(hash(1), &[4]);
        loop {
            match step {
                Step::Return(result) => {
                    assert_eq!(result, Ok(()));
                    break;
                }
                Step::Do(action, task) => {
                    if describe(&action).starts_with(point) {
                        let recovered = host.snapshot.clone();
                        host.snapshot = manifest(vec![6], vec![]);
                        assert_eq!(host.take(&mut service, 10), Ok(()));
                        assert_eq!(service.manifest().unwrap().state_hashes, vec![hash(6)]);
                        host.snapshot = recovered;
                    }
                    let reply = host.perform(action);
                    assert!(service.feed_may_resume(&task, &reply));
                    step = service.resume_feed(task, reply);
                }
            }
        }
        assert_eq!(service.manifest().unwrap().state_hashes, vec![hash(1)]);
        assert_eq!(service.status(), RestorationStatus::Inactive);
    }
}

#[test]
fn database_is_replaced_at_most_once() {
    // A failure on the way, one at the end, one after the replacement, and none.
    for (refuse, replaced) in [("state [102]", 0), ("missing", 0), ("rename", 1), ("nothing", 1)] {
        let (mut service, mut host) = begun(vec![1, 2], vec![3], true);
        host.refuse = vec![refuse];
        for round in 0..2 {
            let outcomes = [
                host.feed_state(&mut service, 1, &[1]),
                host.feed_state(&mut service, 2, &[2]),
                host.feed_block(&mut service, 3, &[3]),
            ];
            let failed = outcomes.iter().any(|outcome| outcome.is_err());
            assert_eq!(failed, round == 0 && refuse != "nothing");
        }
        let count = host.log.iter().filter(|line| line.starts_with("replace")).count();
        assert_eq!(count, replaced);
    }
}

#[test]
fn feeding_holds_the_restoration() {
    for last in [false, true] {
        let (mut service, mut host) = begun(vec![1, 2], vec![], true);
        if last {
            assert_eq!(host.feed_state(&mut service, 2, &[1]), Ok(()));
        }
        let mut step = service.feed_state_chunk(hash(1), &[1]);
        loop {
            match step {
                Step::Return(result) => {
                    assert_eq!(result, Ok(()));
                    break;
                }
                Step::Do(action, task) => {
                    // It lets go of the restoration to flush, with chunks still to come.
                    let flushing = !last && describe(&action) == "flush";
                    assert_eq!(service.held(), !flushing);
                    if flushing {
                        service.provide_canon_hashes(&[(1, hash(10))]);
                    }
                    // It holds the reader from the swap on, until the new one is open.
                    let swapping = ["exists", "rename", "reader"]
                        .iter()
                        .any(|word| describe(&action).starts_with(word));
                    assert_eq!(service.swapping(), swapping);
                    let reply = host.perform(action);
                    step = service.resume_feed(task, reply);
                }
            }
        }
        assert!(!service.held());
        assert!(!service.swapping());
    }
}

#[test]
fn feeding_that_let_go_waits_to_discard() {
    let (mut service, mut host) = begun(vec![1, 2, 3], vec![], false);
    let flushing = {
        let mut step = service.feed_state_chunk(hash(1), &[1]);
        loop {
            match step {
                Step::Do(Action::FlushDatabase, task) => break task,
                Step::Do(action, task) => {
                    let reply = host.perform(action);
                    step = service.resume_feed(task, reply);
                }
                Step::Return(_) => unreachable!(),
            }
        }
    };
    let fault = Reply::Database(Err("database refused".to_string()));
    // Another feeding has the restoration meanwhile.
    let other = service.feed_state_chunk(hash(2), &[2]);
    assert!(service.held());
    assert!(!service.feed_may_resume(&flushing, &fault));
    assert!(service.feed_may_resume(&flushing, &Reply::Database(Ok(()))));
    assert_eq!(host.feed(&mut service, other), Ok(()));
    assert_eq!(service.status(), ongoing(3, 0, 2, 0));
    assert!(service.feed_may_resume(&flushing, &fault));
    let failing = service.resume_feed(flushing, fault);
    assert!(service.held());
    assert_eq!(
        host.feed(&mut service, failing),
        Err(Error::Util("database refused".to_string()))
    );
    assert_eq!(service.status(), RestorationStatus::Failed);
    assert!(!service.held());
}

#[test]
fn swaps_wait_for_one_another() {
    let (mut service, mut host) = begun(vec![1], vec![], true);
    let mut step = service.take_snapshot(10);
    loop {
        match step {
            Step::Return(result) => {
                assert_eq!(result, Ok(()));
                break;
            }
            Step::Do(action, task) => {
                if let Action::Rename { .. } = action {
                    // A restoration comes to its swap while the snapshot is at its own.
                    let mut feeding = service.feed_state_chunk(hash(1), &[1]);
                    loop {
                        match feeding {
                            Step::Do(Action::HoldReader, waiting) => {
                                assert!(!service.feed_may_resume(&waiting, &Reply::Unit));
                                break;
                            }
                            Step::Do(action, task) => {
                                let reply = host.perform(action);
                                feeding = service.resume_feed(task, reply);
                            }
                            Step::Return(_) => unreachable!(),
                        }
                    }
                }
                let reply = host.perform(action);
                assert!(service.snapshot_may_resume(&task, &reply));
                step = service.resume_snapshot(task, reply);
            }
        }
    }
    assert!(!service.swapping());
}

#[test]
fn stopping_need_not_wait() {
    let (mut service, mut host) = begun(vec![1, 2], vec![], false);
    assert!(service.restoring());
    let step = service.feed_state_chunk(hash(1), &[1]);
    assert!(service.held());
    service.stop_feeding();
    assert!(!service.restoring());
    assert_eq!(host.feed(&mut service, step), Ok(()));
    assert_eq!(host.abort(&mut service), Ok(()));
    assert_eq!(service.status(), RestorationStatus::Inactive);
}

#[test]
fn tick_tells_of_the_snapshot_being_taken() {
    let mut host = TestHost::new();
    let mut service = host.start().unwrap();
    let progress = Progress { accounts: 1, blocks: 2, size: 3, done: false };
    let done = Progress { accounts: 1, blocks: 2, size: 3, done: true };
    assert_eq!(service.tick(&progress), None);
    let step = service.take_snapshot(1);
    assert!(matches!(step, Step::Do(_, _)));
    assert_eq!(service.tick(&progress), Some((1, 2, 3)));
    assert_eq!(service.tick(&done), None);
}
