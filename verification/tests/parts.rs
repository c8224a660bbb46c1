use std::sync::Mutex;

use snapshot_service::chunk_set::ChunkSet;
use snapshot_service::error::Error;
use snapshot_service::guard::Guard;
use snapshot_service::hash::H256;
use snapshot_service::host::DatabaseRestore;
use snapshot_service::manifest::ManifestData;
use snapshot_service::path::{DirPath, Separator};
use snapshot_service::restoration::{Restoration, RestorationParams};
use snapshot_service::service::Service;

fn hash(n: u128) -> H256 {
    H256 { hi: n, lo: 1 }
}

fn unix(root: &str) -> DirPath {
    DirPath::new(root.to_string(), Separator::Slash)
}

fn windows(root: &str) -> DirPath {
    DirPath::new(root.to_string(), Separator::Backslash)
}

#[test]
fn armed_guard_leaves_its_directory_to_be_removed() {
    let guard = Guard::new(unix("/a").child("b"));
    assert_eq!(guard.drop().unwrap().to_text(), "/a/b");
}

#[test]
fn disarmed_guard_leaves_nothing() {
    let guard = Guard::new(unix("/a"));
    assert!(guard.disarm().drop().is_none());
}

#[test]
fn path_texts() {
    assert_eq!(unix("").child("a").to_text(), "a");
    assert_eq!(unix("/").child("a").to_text(), "/a");
    assert_eq!(unix("/x/").child("a").to_text(), "/x/a");
    assert_eq!(unix("x").child("a").child("b").to_text(), "x/a/b");
    assert_eq!(unix("x\\").child("a").to_text(), "x\\/a");
    assert_eq!(unix("C:").child("a").to_text(), "C:/a");
    let path = unix("x").child("a").child("b");
    assert_eq!(path.depth(), 2);
    assert_eq!(path.name(0), "a");
    assert_eq!(path.name(1), "b");
    assert_eq!(path.clone().to_text(), "x/a/b");
}

#[test]
fn path_texts_with_backslashes() {
    assert_eq!(windows("").child("a").to_text(), "a");
    assert_eq!(windows("C:\\x").child("a").child("b").to_text(), "C:\\x\\a\\b");
    assert_eq!(windows("C:\\").child("a").to_text(), "C:\\a");
    assert_eq!(windows("x/").child("a").to_text(), "x/a");
    // a bare drive
    assert_eq!(windows("C:").child("a").child("b").to_text(), "C:a\\b");
    assert_eq!(windows("z:").child("a").to_text(), "z:a");
    assert_eq!(windows("1:").child("a").to_text(), "1:\\a");
    assert_eq!(windows("CC:").child("a").to_text(), "CC:\\a");
}

#[test]
fn chunk_sets() {
    let mut set = ChunkSet::collect(&vec![hash(1), hash(2), hash(1)]);
    assert!(!set.is_empty());
    assert!(!set.remove(&hash(3)));
    assert!(set.remove(&hash(1)));
    assert!(!set.remove(&hash(1)));
    assert!(set.remove(&hash(2)));
    assert!(set.is_empty());
    assert!(ChunkSet::collect(&vec![]).is_empty());
}

#[test]
fn restoration_verifies_the_root() {
    let manifest = ManifestData {
        state_hashes: vec![hash(1)],
        block_hashes: vec![hash(2)],
        state_root: hash(3),
        block_number: 4,
        block_hash: hash(5),
    };
    let guard = Guard::new(unix("/a"));
    let mut restoration = Restoration::new(RestorationParams { manifest, writer: false, guard });
    assert_eq!(restoration.verify_root(hash(3)), Ok(()));
    assert_eq!(restoration.verify_root(hash(4)), Err(Error::InvalidStateRoot(hash(4))));
    assert!(!restoration.is_done());
    assert!(restoration.feed_state(hash(1)));
    assert!(!restoration.feed_state(hash(2)));
    assert!(!restoration.is_done());
    assert!(restoration.feed_blocks(hash(2)));
    assert!(restoration.is_done());
}

struct Recorder {
    seen: Mutex<Vec<String>>,
    refuse: bool,
}

impl DatabaseRestore for Recorder {
    fn restore_db(&self, new_db: &str) -> Result<(), Error> {
        self.seen.lock().unwrap().push(new_db.to_string());
        if self.refuse {
            Err(Error::Client("refused".to_string()))
        } else {
            Ok(())
        }
    }
}

#[test]
fn handler_gets_the_path_of_the_restored_database() {
    let db = unix("/chain/snapshot").child("restoration").child("db");
    for refuse in [false, true] {
        let handler = Recorder { seen: Mutex::new(vec![]), refuse };
        let result = Service::replace_client_db(&db, &handler);
        assert_eq!(result.is_err(), refuse);
        assert_eq!(*handler.seen.lock().unwrap(), vec!["/chain/snapshot/restoration/db"]);
    }
}

#[test]
fn handler_gets_a_path_of_the_platform() {
    let db = windows("D:\\chain").child("restoration").child("db");
    let handler = Recorder { seen: Mutex::new(vec![]), refuse: false };
    assert_eq!(Service::replace_client_db(&db, &handler), Ok(()));
    assert_eq!(*handler.seen.lock().unwrap(), vec!["D:\\chain\\restoration\\db"]);
}

#[test]
fn failed_chunk_read_is_no_chunk() {
    assert_eq!(Service::chunk_read(Ok(vec![1, 2])), Some(vec![1, 2]));
    assert_eq!(Service::chunk_read(Err(Error::Client("gone".to_string()))), None);
}
