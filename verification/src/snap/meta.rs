//! What a snapshot declares of itself: its ranges, their sizes and checksums.

use vstd::prelude::*;
use crate::snap::checksum::checksum_of;
use crate::snap::key::SnapKey;

verus! {

/// Description of one range file of a snapshot.
#[derive(Clone, Debug, PartialEq, Eq)]
pub struct RangeMeta {
    /// Name of the range (the column family).
    pub name: String,
    /// Number of bytes in the file.
    pub size: u64,
    /// Number of entries in the file.
    pub kv_count: u64,
    /// Checksum of the file's bytes.
    pub checksum: u32,
}

pub struct RangeMetaView {
    pub name: Seq<char>,
    pub size: u64,
    pub kv_count: u64,
    pub checksum: u32,
}

impl View for RangeMeta {
    type V = RangeMetaView;

    open spec fn view(&self) -> RangeMetaView {
        RangeMetaView {
            name: self.name@,
            size: self.size,
            kv_count: self.kv_count,
            checksum: self.checksum,
        }
    }
}

impl RangeMetaView {
    /// `data` is a file of the declared size and checksum.
    pub open spec fn describes(self, data: Seq<u8>) -> bool {
        self.size == data.len() && self.checksum == checksum_of(data)
    }
}

impl RangeMeta {
    /// A copy of this description.
    pub fn duplicate(&self) -> (r: RangeMeta)
        ensures
            r@ == self@,
    {
        RangeMeta {
            name: self.name.clone(),
            size: self.size,
            kv_count: self.kv_count,
            checksum: self.checksum,
        }
    }
}

/// The views of a list of range descriptions.
pub open spec fn range_views(s: Seq<RangeMeta>) -> Seq<RangeMetaView> {
    s.map_values(|r: RangeMeta| r@)
}

/// Description of a snapshot: the log position it stands for and its ranges.
#[derive(Clone, Debug, PartialEq, Eq)]
pub struct SnapshotMeta {
    pub key: SnapKey,
    pub ranges: Vec<RangeMeta>,
}

pub struct SnapshotMetaView {
    pub key: SnapKey,
    pub ranges: Seq<RangeMetaView>,
}

impl View for SnapshotMeta {
    type V = SnapshotMetaView;

    open spec fn view(&self) -> SnapshotMetaView {
        SnapshotMetaView { key: self.key, ranges: range_views(self.ranges@) }
    }
}

impl SnapshotMetaView {
    /// `files` are the range files of this snapshot, one per range, in order.
    pub open spec fn describes(self, files: Seq<Seq<u8>>) -> bool {
        &&& files.len() == self.ranges.len()
        &&& forall|i: int| 0 <= i < files.len() ==> (#[trigger] self.ranges[i]).describes(files[i])
    }

    /// The sizes of the first `n` ranges together.
    pub open spec fn size_of_first(self, n: int) -> nat
        decreases n,
    {
        if n <= 0 || n > self.ranges.len() {
            0
        } else {
            self.size_of_first(n - 1) + self.ranges[n - 1].size as nat
        }
    }

    /// The kv counts of the first `n` ranges together.
    pub open spec fn kvs_of_first(self, n: int) -> nat
        decreases n,
    {
        if n <= 0 || n > self.ranges.len() {
            0
        } else {
            self.kvs_of_first(n - 1) + self.ranges[n - 1].kv_count as nat
        }
    }

    pub open spec fn total_size(self) -> nat {
        self.size_of_first(self.ranges.len() as int)
    }

    pub open spec fn total_kvs(self) -> nat {
        self.kvs_of_first(self.ranges.len() as int)
    }
}

impl SnapshotMeta {
    /// Number of bytes in all range files together; `None` where the sum
    /// does not fit.
    pub fn total_size(&self) -> (total: Option<u64>)
        ensures
            total matches Some(t) ==> t == self@.total_size(),
            total is None <==> self@.total_size() > u64::MAX,
    {
        let mut sum: u64 = 0;
        let mut i: usize = 0;
        while i < self.ranges.len()
            invariant
                i <= self.ranges.len(),
                sum == self@.size_of_first(i as int),
            decreases self.ranges.len() - i,
        {
            let size: u64 = self.ranges[i].size;
            proof {
                assert(self@.ranges[i as int] == self.ranges@[i as int]@);
                lemma_sizes_grow(self@, i as int + 1, self.ranges.len() as int);
            }
            if size > u64::MAX - sum {
                return None;
            }
            sum = sum + size;
            i += 1;
        }
        Some(sum)
    }

    /// Number of entries in all range files together; `None` where the sum
    /// does not fit.
    pub fn total_kvs(&self) -> (total: Option<u64>)
        ensures
            total matches Some(t) ==> t == self@.total_kvs(),
            total is None <==> self@.total_kvs() > u64::MAX,
    {
        let mut sum: u64 = 0;
        let mut i: usize = 0;
        while i < self.ranges.len()
            invariant
                i <= self.ranges.len(),
                sum == self@.kvs_of_first(i as int),
            decreases self.ranges.len() - i,
        {
            let count: u64 = self.ranges[i].kv_count;
            proof {
                assert(self@.ranges[i as int] == self.ranges@[i as int]@);
                lemma_kvs_grow(self@, i as int + 1, self.ranges.len() as int);
            }
            if count > u64::MAX - sum {
                return None;
            }
            sum = sum + count;
            i += 1;
        }
        Some(sum)
    }
}

/// The size of more ranges is no less than that of fewer.
pub proof fn lemma_sizes_grow(m: SnapshotMetaView, a: int, b: int)
    requires
        0 <= a <= b <= m.ranges.len(),
    ensures
        m.size_of_first(a) <= m.size_of_first(b),
    decreases b - a,
{
    if a < b {
        lemma_sizes_grow(m, a, b - 1);
    }
}

/// The kv count of more ranges is no less than that of fewer.
pub proof fn lemma_kvs_grow(m: SnapshotMetaView, a: int, b: int)
    requires
        0 <= a <= b <= m.ranges.len(),
    ensures
        m.kvs_of_first(a) <= m.kvs_of_first(b),
    decreases b - a,
{
    if a < b {
        lemma_kvs_grow(m, a, b - 1);
    }
}

/// A description that fits a file does not fit the file with any one byte
/// changed.
pub proof fn law_description_rejects_changed_byte(m: RangeMetaView, data: Seq<u8>, i: int, v: u8)
    requires
        m.describes(data),
        0 <= i < data.len(),
        v != data[i],
    ensures
        !m.describes(data.update(i, v)),
{
    crate::snap::checksum::law_byte_change_detected(data, i, v);
}

} // verus!
