//! Whole transfers between nodes. The nodes here stand for the storage
//! engine, the log engine, the snapshot directory and the transport; the
//! library decides every step.

use std::collections::BTreeMap;

use tikv_snap::snap::applier::{ApplyStep, ApplyTask, Observed};
use tikv_snap::snap::error::SnapError;
use tikv_snap::snap::fault::{FaultAction, FaultPolicy, Hook};
use tikv_snap::snap::gc::{files_to_delete, GcTicker};
use tikv_snap::snap::generator::{request_generate, CancelToken, GenStart, GenStep, GenTask};
use tikv_snap::snap::key::{parse_file_name, SnapKey};
use tikv_snap::snap::meta::SnapshotMeta;
use tikv_snap::snap::receiver::{close, request_admission, Admission, Begun, RecvTask};
use tikv_snap::snap::registry::Registry;
use tikv_snap::snap::sender::{SendEvent, SendStep, SendTask};
use tikv_snap::snap::state::SnapshotState;

const TERM: u64 = 6;
const RANGE: &str = "default";

struct Node {
    registry: Registry,
    dir: BTreeMap<String, Vec<u8>>,
    data: BTreeMap<Vec<u8>, Vec<u8>>,
    applied_index: u64,
    truncated_index: u64,
    ticker: GcTicker,
    generations: usize,
}

impl Node {
    fn new(recv_limit: usize, gc_timeout: u64, gc_tick: u64) -> Node {
        Node {
            registry: Registry::new(recv_limit, gc_timeout),
            dir: BTreeMap::new(),
            data: BTreeMap::new(),
            applied_index: 5,
            truncated_index: 5,
            ticker: GcTicker::new(gc_tick, 0),
            generations: 0,
        }
    }

    fn must_put(&mut self, k: &[u8], v: &[u8]) {
        self.data.insert(k.to_vec(), v.to_vec());
        self.applied_index += 1;
    }

    fn get(&self, k: &[u8]) -> Option<&[u8]> {
        self.data.get(k).map(|v| v.as_slice())
    }

    fn compact_log(&mut self) {
        self.truncated_index = self.applied_index;
    }

    fn token(&self) -> CancelToken {
        CancelToken { truncated_index: self.truncated_index, destroyed: false }
    }

    /// Deletes what the step that ended a generation names, and no more.
    fn obey(&mut self, key: SnapKey, step: GenStep) {
        if let GenStep::Abort { range_files, meta_file } = step {
            for name in [RANGE].iter().take(range_files) {
                self.dir.remove(&key.range_file_name(name));
            }
            if meta_file {
                self.dir.remove(&key.meta_file_name());
            }
        }
    }

    fn delete_files(&mut self, key: SnapKey) {
        self.dir.retain(|name, _| match parse_file_name(name) {
            Some((k, _)) => k != key,
            None => true,
        });
    }

    fn gc(&mut self, now: u64, shutting_down: bool) -> usize {
        let found = self.ticker.tick(&self.registry, now, shutting_down);
        let listing: Vec<String> = self.dir.keys().cloned().collect();
        for place in files_to_delete(&listing, &found) {
            self.dir.remove(&listing[place]);
        }
        // files first, then the entries
        found.iter().filter(|(key, _)| self.registry.reclaim(*key, now)).count()
    }
}

fn encode(data: &BTreeMap<Vec<u8>, Vec<u8>>) -> Vec<Vec<u8>> {
    data.iter()
        .map(|(k, v)| {
            let mut e = Vec::new();
            e.extend_from_slice(&(k.len() as u32).to_le_bytes());
            e.extend_from_slice(k);
            e.extend_from_slice(&(v.len() as u32).to_le_bytes());
            e.extend_from_slice(v);
            e
        })
        .collect()
}

fn decode(mut bytes: &[u8]) -> BTreeMap<Vec<u8>, Vec<u8>> {
    let mut out = BTreeMap::new();
    let mut take = |bytes: &mut &[u8]| {
        let n = u32::from_le_bytes(bytes[..4].try_into().unwrap()) as usize;
        let field = bytes[4..4 + n].to_vec();
        *bytes = &bytes[4 + n..];
        field
    };
    while !bytes.is_empty() {
        let k = take(&mut bytes);
        let v = take(&mut bytes);
        out.insert(k, v);
    }
    out
}

/// Registers the generation of a snapshot at the node's applied index.
fn request(node: &mut Node, region: u64, now: u64) -> Result<GenTask, SnapError> {
    let key = SnapKey::new(region, TERM, node.applied_index);
    let token = node.token();
    match request_generate(
        &mut node.registry,
        key,
        vec![RANGE.to_string()],
        token,
        FaultPolicy::none(),
        now,
    )? {
        GenStart::Run { task, .. } => Ok(task),
        GenStart::Join => panic!("no generation was under way"),
    }
}

/// Drives a generation to its end.
fn build(node: &mut Node, task: &mut GenTask, now: u64) -> Result<SnapshotMeta, SnapError> {
    node.generations += 1;
    let key = task.key();
    let view = node.data.clone();
    loop {
        let token = node.token();
        match task.next(&mut node.registry, token) {
            GenStep::Build { .. } => {
                let mut file = Vec::new();
                for entry in encode(&view) {
                    assert!(task.write(&entry, 1));
                    file.extend_from_slice(&entry);
                }
                node.dir.insert(key.range_file_name(RANGE), file);
                assert!(task.close_range());
            }
            GenStep::Seal => {
                node.dir.insert(key.meta_file_name(), b"meta".to_vec());
                let token = node.token();
                let (done, step) = task.complete(&mut node.registry, token, now);
                node.obey(key, step);
                return done;
            }
            step @ GenStep::Abort { .. } => {
                node.obey(key, step);
                return Err(SnapError::Canceled);
            }
            GenStep::Wait => panic!("the generation stalled"),
        }
    }
}

fn generate(node: &mut Node, region: u64, now: u64) -> Result<SnapshotMeta, SnapError> {
    let mut task = request(node, region, now)?;
    build(node, &mut task, now)
}

fn files_of(node: &Node, meta: &SnapshotMeta) -> Vec<Vec<u8>> {
    meta.ranges.iter().map(|r| node.dir[&meta.key.range_file_name(&r.name)].clone()).collect()
}

/// Receives a snapshot from a stream; `cut` ends the stream after that
/// many bytes, as a network error does. A duplicate is drained and accepted.
fn receive(
    node: &mut Node,
    meta: &SnapshotMeta,
    files: &[Vec<u8>],
    cut: Option<usize>,
    now: u64,
) -> Result<SnapKey, SnapError> {
    let key = meta.key;
    match request_admission(&mut node.registry, key, FaultPolicy::none()) {
        Admission::Admitted { .. } => {}
        Admission::Parked => return Err(SnapError::AdmissionRejected),
    }
    let outcome = (|| {
        let mut task = match RecvTask::begin(&mut node.registry, meta.clone(), now)? {
            Begun::Receiving(task) => task,
            Begun::Duplicate => return Ok(key),
        };
        let mut sent = 0;
        for (range, file) in meta.ranges.iter().zip(files) {
            let name = key.range_file_name(&range.name);
            node.dir.insert(name.clone(), Vec::new());
            for chunk in file.chunks(3) {
                if let Some(limit) = cut {
                    if sent + chunk.len() > limit {
                        return Err(SnapError::SendFailed);
                    }
                }
                task.feed(chunk)?;
                node.dir.get_mut(&name).unwrap().extend_from_slice(chunk);
                sent += chunk.len();
            }
            task.end_range()?;
        }
        node.dir.insert(key.meta_file_name(), b"meta".to_vec());
        task.finish(&mut node.registry, now)
    })();
    if close(&mut node.registry, key) {
        node.delete_files(key);
    }
    outcome
}

fn ingest(node: &mut Node, meta: &SnapshotMeta) {
    let mut data = BTreeMap::new();
    for range in &meta.ranges {
        data.extend(decode(&node.dir[&meta.key.range_file_name(&range.name)]));
    }
    node.data = data;
}

fn record(node: &mut Node, index: u64) {
    node.applied_index = index;
    node.truncated_index = index;
}

fn apply(node: &mut Node, meta: &SnapshotMeta, now: u64) -> Result<(), SnapError> {
    let truncated = node.truncated_index;
    let mut task = ApplyTask::start(&mut node.registry, meta.key, truncated, now).map_err(|e| {
        if e == SnapError::Canceled {
            node.delete_files(meta.key);
        }
        e
    })?;
    ingest(node, meta);
    match task.ingested(&mut node.registry, true, FaultPolicy::none(), now) {
        ApplyStep::Record { index, .. } => record(node, index),
        _ => return Err(SnapError::ApplyFailed),
    }
    task.recorded(&mut node.registry, true, now)
}

/// Sends, receives and applies; the sender learns how it went.
fn replicate(from: &mut Node, to: &mut Node, meta: &SnapshotMeta, now: u64) -> SendStep {
    let (mut send, step) =
        SendTask::start(&mut from.registry, meta.key, now + 100, 0, FaultPolicy::none(), now)
            .ok()
            .unwrap();
    assert_eq!(step, SendStep::Transmit { delay: 0 });
    let files = files_of(from, meta);
    let event = match receive(to, meta, &files, None, now) {
        Ok(key) => {
            // a duplicate left nothing to apply
            if to.registry.get(key).map(|e| e.state) == Some(SnapshotState::Received) {
                apply(to, meta, now).unwrap();
            }
            SendEvent::Delivered
        }
        Err(_) => SendEvent::TransportError,
    };
    send.on_event(&mut from.registry, event, now)
}

#[test]
fn end_to_end_replication() {
    let mut leader = Node::new(1, 300, 100);
    let mut peer = Node::new(1, 300, 100);
    leader.must_put(b"k1", b"v1");
    let meta = generate(&mut leader, 1, 10).unwrap();
    assert_eq!(meta.key, SnapKey::new(1, TERM, 6));
    assert_eq!(meta.ranges.len(), 1);
    assert_eq!(meta.ranges[0].kv_count, 1);
    assert_eq!(meta.ranges[0].size, 12);
    assert_eq!(replicate(&mut leader, &mut peer, &meta, 20), SendStep::Succeed);
    assert_eq!(peer.get(b"k1"), Some(&b"v1"[..]));
    assert_eq!(peer.applied_index, meta.key.idx);
    assert_eq!(peer.truncated_index, meta.key.idx);
    assert_eq!(peer.registry.get(meta.key).unwrap().state, SnapshotState::Applied);
    assert_eq!(leader.registry.get(meta.key).unwrap().state, SnapshotState::Sent);
    assert_eq!(peer.registry.stats().receiving_count, 0);
    assert_eq!(peer.registry.stats().applying_count, 0);
    // the requester lets go; after the grace period the files are reclaimed
    leader.registry.release(meta.key, 30).unwrap();
    assert_eq!(leader.gc(100, false), 0);
    assert_eq!(leader.gc(330, false), 1);
    assert!(leader.dir.is_empty());
    assert_eq!(peer.gc(330, false), 1);
    assert!(peer.dir.is_empty());
    assert_eq!(peer.get(b"k1"), Some(&b"v1"[..]));
}

#[test]
fn test_cancel_snapshot_generating() {
    let mut leader = Node::new(1, 100_000, 100_000);
    leader.must_put(b"k0", b"v0");
    leader.must_put(b"k1", b"v1");
    // the generation is registered, then held up before it builds anything
    let mut paused = request(&mut leader, 1, 0).unwrap();
    let mut truncated_idx = leader.truncated_index;
    truncated_idx += 20;
    (0..20).for_each(|_| leader.must_put(b"kk", b"vv"));
    leader.compact_log();
    assert!(leader.truncated_index >= truncated_idx);
    // it goes on: the log was truncated past its index
    assert_eq!(build(&mut leader, &mut paused, 10), Err(SnapError::Canceled));
    assert!(leader.dir.is_empty());
    assert_eq!(leader.registry.len(), 0);
    // what is generated next lies past the truncated index
    leader.must_put(b"kk", b"vv");
    generate(&mut leader, 1, 20).unwrap();
    let mut found = 0;
    for file_name in leader.dir.keys() {
        if !file_name.ends_with(".meta") {
            continue;
        }
        let parts: Vec<_> = file_name[0..file_name.len() - 5].split('_').collect();
        let snap_index = parts[2].parse::<u64>().unwrap();
        assert!(snap_index > truncated_idx);
        found += 1;
    }
    assert_eq!(found, 1);
}

#[test]
fn test_snapshot_gc_after_failed() {
    let mut node = Node::new(1, 300, 100);
    // files of two snapshots are found in the directory
    for idx in 1..3 {
        for suffix in &[".meta", "_default.sst"] {
            let f = format!("{}_{}_{}{}", 2, 6, idx, suffix);
            node.dir.insert(f, b"some bytes".to_vec());
        }
    }
    let names: Vec<String> = node.dir.keys().cloned().collect();
    for name in &names {
        if let Some((key, _)) = parse_file_name(name) {
            if node.registry.get(key).is_none() {
                node.registry.register(key, SnapshotState::SendFailed, 0).unwrap();
                node.registry.release(key, 0).unwrap();
            }
        }
    }
    // somebody still reads the first one
    node.registry.acquire(SnapKey::new(2, 6, 1), 0).unwrap();
    let mut now = 0;
    loop {
        node.gc(now, false);
        let snap_keys = node.registry.list_all();
        if snap_keys.is_empty() {
            panic!("no snapshot file is found");
        }
        let mut found_unexpected_file = false;
        let mut found_expected_file = false;
        for snap_key in snap_keys {
            if snap_key.region_id == 2 && snap_key.idx == 1 {
                found_expected_file = true;
            }
            if snap_key.idx == 2 && snap_key.region_id == 2 {
                if now > 10_000 {
                    panic!("unexpected snapshot file found. {:?}", snap_key);
                }
                found_unexpected_file = true;
                break;
            }
        }
        if !found_expected_file {
            panic!("The expected snapshot file is not found");
        }
        if !found_unexpected_file {
            break;
        }
        now += 400;
    }
    assert_eq!(now, 400);
    assert_eq!(
        node.dir.keys().cloned().collect::<Vec<_>>(),
        vec!["2_6_1.meta".to_string(), "2_6_1_default.sst".to_string()]
    );
    assert_eq!(node.registry.list_idle(), vec![]);
}

#[test]
fn test_snapshot_send_failed() {
    let mut leader = Node::new(1, 300, 100);
    let mut peer = Node::new(1, 300, 100);
    leader.must_put(b"zk1", b"v1");
    let meta = generate(&mut leader, 1, 0).unwrap();
    let files = files_of(&leader, &meta);
    // the stream breaks while the peer receives
    let (mut send, _) =
        SendTask::start(&mut leader.registry, meta.key, 1000, 1, FaultPolicy::none(), 0)
            .ok()
            .unwrap();
    assert_eq!(receive(&mut peer, &meta, &files, Some(7), 1), Err(SnapError::SendFailed));
    assert_eq!(peer.get(b"zk1"), None);
    assert_eq!(peer.registry.stats().receiving_count, 0);
    assert!(peer.dir.is_empty());
    assert!(!leader.registry.list_all().is_empty());
    // the sender tries once more, and the snapshot lands
    assert_eq!(
        send.on_event(&mut leader.registry, SendEvent::TransportError, 2),
        SendStep::Transmit { delay: 0 }
    );
    receive(&mut peer, &meta, &files, None, 3).unwrap();
    apply(&mut peer, &meta, 4).unwrap();
    assert_eq!(send.on_event(&mut leader.registry, SendEvent::Delivered, 5), SendStep::Succeed);
    assert_eq!(peer.get(b"zk1"), Some(&b"v1"[..]));
    // the peer is removed: its snapshot goes at once
    assert!(leader.registry.cancel(meta.key).is_some());
    leader.delete_files(meta.key);
    assert!(leader.registry.list_all().is_empty());
    assert!(leader.dir.is_empty());
}

#[test]
fn test_retry_corrupted_snapshot() {
    let mut leader = Node::new(1, 300, 100);
    let mut peer = Node::new(1, 300, 100);
    leader.must_put(b"k1", b"v1");
    let meta = generate(&mut leader, 1, 0).unwrap();
    let mut files = files_of(&leader, &meta);
    files[0][5] ^= 0x01;
    assert_eq!(receive(&mut peer, &meta, &files, None, 1), Err(SnapError::Corrupted));
    assert!(SnapError::Corrupted.is_recoverable());
    assert!(peer.dir.is_empty());
    assert_eq!(peer.registry.len(), 0);
    assert_eq!(peer.get(b"k1"), None);
    // a new snapshot is generated and sent
    leader.must_put(b"k2", b"v2");
    let again = generate(&mut leader, 1, 2).unwrap();
    assert_eq!(replicate(&mut leader, &mut peer, &again, 3), SendStep::Succeed);
    assert_eq!(peer.get(b"k1"), Some(&b"v1"[..]));
    assert_eq!(peer.get(b"k2"), Some(&b"v2"[..]));
}

#[test]
fn test_send_snapshot_timeout() {
    let mut leader = Node::new(1, 300, 100);
    let mut peer = Node::new(1, 300, 100);
    (0..10).for_each(|_| leader.must_put(b"k2", b"v2"));
    leader.compact_log();
    let meta = generate(&mut leader, 1, 0);
    // the index is not past the truncated index: nothing to snapshot yet
    assert_eq!(meta, Err(SnapError::Canceled));
    leader.must_put(b"k2", b"v2");
    let meta = generate(&mut leader, 1, 0).unwrap();
    // the transfer may take 100 and is held up for 1000
    let slow = FaultPolicy::none().with(Hook::BeforeSend, FaultAction::Delay(1000));
    let (mut send, step) =
        SendTask::start(&mut leader.registry, meta.key, 100, 3, slow, 0).ok().unwrap();
    assert_eq!(step, SendStep::Transmit { delay: 1000 });
    assert_eq!(
        send.on_event(&mut leader.registry, SendEvent::Tick, 150),
        SendStep::GiveUp { error: SnapError::SendTimeout }
    );
    assert_eq!(peer.get(b"k2"), None);
    assert_eq!(leader.registry.get(meta.key).unwrap().state, SnapshotState::SendFailed);
    // only delayed once: the next attempt succeeds
    leader.registry.register(meta.key, SnapshotState::Generated, 200).unwrap();
    assert_eq!(replicate(&mut leader, &mut peer, &meta, 500), SendStep::Succeed);
    assert_eq!(peer.get(b"k2"), Some(&b"v2"[..]));
}

#[test]
fn test_snapshot_cleanup_on_send_error() {
    let mut leader = Node::new(1, 300, 100);
    leader.must_put(b"k1", b"v1");
    let meta = generate(&mut leader, 1, 0).unwrap();
    let failing = FaultPolicy::none().with(Hook::BeforeSend, FaultAction::Fail);
    let (_, step) =
        SendTask::start(&mut leader.registry, meta.key, 1000, 3, failing, 0).ok().unwrap();
    assert_eq!(step, SendStep::GiveUp { error: SnapError::SendFailed });
    // the sender deleted nothing
    assert_eq!(leader.dir.len(), 2);
    leader.registry.release(meta.key, 10).unwrap();
    assert_eq!(leader.gc(309, false), 0);
    assert_eq!(leader.gc(409, false), 1);
    assert!(leader.dir.is_empty());
}

#[test]
fn test_snapshot_receiver_busy() {
    // two regions send to one store whose receive limit is 1
    let mut leader = Node::new(1, 300, 100);
    let mut peer = Node::new(1, 300, 100);
    leader.must_put(b"k1", b"v1");
    leader.must_put(b"k3", b"v3");
    let first = generate(&mut leader, 1, 0).unwrap();
    let second = generate(&mut leader, 1002, 0).unwrap();
    // the first stream is admitted and stalls
    assert_eq!(
        request_admission(&mut peer.registry, first.key, FaultPolicy::none()),
        Admission::Admitted { delay: 0 }
    );
    let mut stalled =
        RecvTask::begin(&mut peer.registry, first.clone(), 1).ok().unwrap().into_task().unwrap();
    // the second is parked, not failed
    let files2 = files_of(&leader, &second);
    for _ in 0..3 {
        assert_eq!(
            receive(&mut peer, &second, &files2, None, 2),
            Err(SnapError::AdmissionRejected)
        );
        assert_eq!(peer.registry.stats().receiving_count, 1);
    }
    // the first goes on and ends
    let files1 = files_of(&leader, &first);
    stalled.feed(&files1[0]).unwrap();
    stalled.end_range().unwrap();
    peer.dir.insert(first.key.range_file_name(RANGE), files1[0].clone());
    stalled.finish(&mut peer.registry, 3).unwrap();
    assert!(!close(&mut peer.registry, first.key));
    apply(&mut peer, &first, 4).unwrap();
    // now the second is received
    receive(&mut peer, &second, &files2, None, 5).unwrap();
    assert_eq!(peer.registry.get(second.key).unwrap().state, SnapshotState::Received);
    assert_eq!(peer.get(b"k1"), Some(&b"v1"[..]));
    assert_eq!(peer.get(b"k3"), Some(&b"v3"[..]));
    // for the two regions there were two generations in all
    assert_eq!(leader.generations, 2);
}

#[test]
fn test_receive_old_snapshot() {
    let mut leader = Node::new(1, 300, 100);
    let mut peer = Node::new(1, 300, 100);
    for i in 0..20 {
        leader.must_put(format!("k{}", i).as_bytes(), b"v1");
    }
    let old = generate(&mut leader, 1, 0).unwrap();
    let old_files = files_of(&leader, &old);
    for i in 20..40 {
        leader.must_put(format!("k{}", i).as_bytes(), b"v1");
    }
    let new = generate(&mut leader, 1, 1).unwrap();
    assert_eq!(replicate(&mut leader, &mut peer, &new, 2), SendStep::Succeed);
    assert_eq!(peer.get(b"k39"), Some(&b"v1"[..]));
    // the old snapshot arrives late: nothing changes
    let data = peer.data.clone();
    let entries = peer.registry.list_all();
    assert_eq!(receive(&mut peer, &old, &old_files, None, 3), Ok(old.key));
    assert_eq!(peer.data, data);
    assert_eq!(peer.registry.list_all(), entries);
    assert_eq!(peer.applied_index, new.key.idx);
    assert_eq!(peer.registry.stats().receiving_count, 0);
    assert!(!peer.registry.holds_permit(old.key));
    // and so does the same snapshot sent twice
    let new_files = files_of(&leader, &new);
    assert_eq!(receive(&mut peer, &new, &new_files, None, 4), Ok(new.key));
    assert_eq!(peer.data, data);
    assert_eq!(peer.registry.list_all(), entries);
    assert_eq!(peer.registry.get(new.key).unwrap().state, SnapshotState::Applied);
    assert_eq!(peer.applied_index, new.key.idx);
}

#[test]
fn test_destroy_peer_on_pending_snapshot_and_restart() {
    let mut leader = Node::new(1, 300, 100);
    let mut peer = Node::new(1, 300, 20);
    leader.must_put(b"k1", b"v1");
    for i in 0..20 {
        leader.must_put(format!("k1{}", i).as_bytes(), b"v1");
    }
    let meta = generate(&mut leader, 1, 0).unwrap();
    let files = files_of(&leader, &meta);
    receive(&mut peer, &meta, &files, None, 1).unwrap();
    // phase one is written, then the node stops
    let truncated = peer.truncated_index;
    let _lost = ApplyTask::start(&mut peer.registry, meta.key, truncated, 2).ok().unwrap();
    ingest(&mut peer, &meta);
    assert!(peer.applied_index < meta.key.idx);
    // restart: the registry is empty, the directory and the engines are not
    peer.registry = Registry::new(1, 300);
    let seen = Observed { ingested: true, applied_index: peer.applied_index };
    let (mut task, step) = ApplyTask::recover(&mut peer.registry, meta.key, seen, 3).ok().unwrap();
    assert!(!task.may_serve());
    match step {
        ApplyStep::Record { index, .. } => record(&mut peer, index),
        other => panic!("phase two was expected, not {:?}", other),
    }
    task.recorded(&mut peer.registry, true, 4).unwrap();
    assert!(task.may_serve());
    assert_eq!(peer.get(b"k1"), Some(&b"v1"[..]));
    assert_eq!(peer.get(b"k119"), Some(&b"v1"[..]));
    assert_eq!(peer.applied_index, meta.key.idx);
    assert_eq!(peer.truncated_index, meta.key.idx);
    // in the end the snapshot files are collected
    let mut now = 4;
    loop {
        peer.gc(now, false);
        if peer.dir.is_empty() {
            break;
        }
        if now > 5000 {
            panic!("snap files are not gc-ed");
        }
        now += 20;
    }
    leader.must_put(b"k120", b"v1");
    let next = generate(&mut leader, 1, now).unwrap();
    assert_eq!(replicate(&mut leader, &mut peer, &next, now), SendStep::Succeed);
    assert_eq!(peer.get(b"k120"), Some(&b"v1"[..]));
}

#[test]
fn test_shutdown_when_snap_gc() {
    let mut leader = Node::new(1, 300, 100);
    let mut peer = Node::new(1, 0, 20);
    leader.must_put(b"k1", b"v1");
    let meta = generate(&mut leader, 1, 0).unwrap();
    let files = files_of(&leader, &meta);
    // the snapshot is saved on the peer
    receive(&mut peer, &meta, &files, None, 1).unwrap();
    if peer.dir.is_empty() {
        panic!("store 2 snap dir must not be empty");
    }
    apply(&mut peer, &meta, 2).unwrap();
    // the node shuts down while the collector would tick
    assert_eq!(peer.gc(500, true), 0);
    if peer.dir.is_empty() {
        panic!("store 2 snap dir must not be empty");
    }
    assert_eq!(peer.gc(500, false), 1);
    assert!(peer.dir.is_empty());
}

#[test]
fn test_generate_snapshot() {
    let mut leader = Node::new(1, 0, 20);
    let mut store4 = Node::new(1, 300, 100);
    let mut store5 = Node::new(1, 300, 100);
    (0..10).for_each(|_| leader.must_put(b"k2", b"v2"));
    let meta = generate(&mut leader, 1, 0).unwrap();
    assert_eq!(replicate(&mut leader, &mut store4, &meta, 1), SendStep::Succeed);
    assert_eq!(store4.get(b"k2"), Some(&b"v2"[..]));
    // while somebody holds the snapshot it stays
    assert_eq!(leader.gc(100, false), 0);
    assert!(!leader.dir.is_empty());
    leader.registry.release(meta.key, 100).unwrap();
    assert_eq!(leader.gc(120, false), 1);
    assert!(leader.dir.is_empty());
    // a generation that is dropped before it builds leaves nothing behind
    let mut dropped = request(&mut leader, 1, 130).unwrap();
    assert!(matches!(dropped.abandon(&mut leader.registry), GenStep::Abort { range_files: 0, .. }));
    assert_eq!(store5.get(b"k2"), None);
    assert_eq!(leader.registry.len(), 0);
    let again = generate(&mut leader, 1, 140).unwrap();
    assert_eq!(replicate(&mut leader, &mut store5, &again, 141), SendStep::Succeed);
    assert_eq!(store5.get(b"k2"), Some(&b"v2"[..]));
}
