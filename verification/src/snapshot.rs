//! The snapshot store: the last observed modification time and size of every
//! regular file that was directly inside the watched directory at startup.

use vstd::prelude::*;

use crate::bytes::bytes_eq;
use crate::bytes::copy_bytes;
use vstd::pervasive::VecAdditionalExecFns;

verus! {

/// What kind of directory entry a scan saw.
#[derive(Clone, Copy, PartialEq, Eq, Debug)]
pub enum EntryKind {
    /// A regular file.
    File,
    /// A subdirectory.
    Directory,
    /// Anything else (symlink, socket, ...).
    Other,
}

/// One entry of the startup directory scan, as plain values: the entry's
/// base name as bytes, its kind, and its metadata at scan time.
pub struct ScanEntry {
    /// The entry's base name, as bytes.
    pub name: Vec<u8>,
    /// Which kind of entry it is.
    pub kind: EntryKind,
    /// Modification time at scan time, as nanoseconds since some fixed epoch.
    pub modified: u64,
    /// Byte size at scan time.
    pub size: u64,
}

/// A file's metadata as observed at one moment: modification time and size.
#[derive(Clone, Copy, PartialEq, Eq, Structural, Debug)]
pub struct FileMeta {
    /// Modification time, as nanoseconds since some fixed epoch.
    pub modified: u64,
    /// Byte size.
    pub size: u64,
}

/// The mathematical model of one store entry: the file's name and the last
/// known modification time and size.
pub struct Snapshot {
    /// The file's base name, as bytes.
    pub name: Seq<u8>,
    /// Last known modification time.
    pub modified: u64,
    /// Last known byte size.
    pub size: u64,
}

/// Decides whether a scan entry is a regular file; only those are watched.
pub fn is_file(entry: &ScanEntry) -> (r: bool)
    ensures
        r == (entry.kind is File),
{
    match entry.kind {
        EntryKind::File => true,
        _ => false,
    }
}

/// The store entries that a scan seeds, in scan order: one `Snapshot` per
/// regular file, holding the metadata seen at scan time.
pub open spec fn snapshots_of(scan: Seq<ScanEntry>) -> Seq<Snapshot>
    decreases scan.len(),
{
    if scan.len() == 0 {
        Seq::empty()
    } else {
        let init = snapshots_of(scan.drop_last());
        let e = scan.last();
        if e.kind is File {
            init.push(Snapshot { name: e.name@, modified: e.modified, size: e.size })
        } else {
            init
        }
    }
}

/// Holds when some file entry among the first `bound` entries of `scan` has
/// the base name `name`.
pub open spec fn scanned_file_name(scan: Seq<ScanEntry>, bound: int, name: Seq<u8>) -> bool {
    exists|p: int| 0 <= p < bound && (#[trigger] scan[p]).kind is File && scan[p].name@ == name
}

/// Holds when `snaps` has an entry for the scanned file `e`, seeded with the
/// metadata the scan saw.
pub open spec fn has_snapshot_for(snaps: Seq<Snapshot>, e: ScanEntry) -> bool {
    exists|k: int|
        0 <= k < snaps.len() && (#[trigger] snaps[k]).name == e.name@ && snaps[k].modified
            == e.modified && snaps[k].size == e.size
}

/// Law: the store that a startup scan seeds contains exactly one entry per
/// regular file of the scan — one entry for each file, holding the
/// modification time and size seen at scan time; no entry for anything else;
/// and no two entries for the same name.
pub proof fn lemma_initial_store(scan: Seq<ScanEntry>)
    requires
        forall|i: int, j: int|
            0 <= i < j < scan.len() && scan[i].kind is File && scan[j].kind is File
                ==> scan[i].name@ != scan[j].name@,
    ensures
        forall|i: int|
            0 <= i < scan.len() && (#[trigger] scan[i]).kind is File ==> has_snapshot_for(
                snapshots_of(scan),
                scan[i],
            ),
        forall|k: int|
            0 <= k < snapshots_of(scan).len() ==> scanned_file_name(
                scan,
                scan.len() as int,
                (#[trigger] snapshots_of(scan)[k]).name,
            ),
        forall|k1: int, k2: int|
            0 <= k1 < k2 < snapshots_of(scan).len() ==> snapshots_of(scan)[k1].name
                != snapshots_of(scan)[k2].name,
    decreases scan.len(),
{
    if scan.len() == 0 {
        return ;
    }
    let pre = scan.drop_last();
    let e = scan.last();
    let s = snapshots_of(scan);
    let sp = snapshots_of(pre);
    lemma_initial_store(pre);
    assert forall|i: int|
        0 <= i < scan.len() && (#[trigger] scan[i]).kind is File implies has_snapshot_for(
        s,
        scan[i],
    ) by {
        if i < scan.len() - 1 {
            assert(pre[i] == scan[i]);
            assert(has_snapshot_for(sp, scan[i]));
            let k = choose|k: int|
                0 <= k < sp.len() && (#[trigger] sp[k]).name == scan[i].name@ && sp[k].modified
                    == scan[i].modified && sp[k].size == scan[i].size;
            assert(s[k] == sp[k]);
        } else {
            assert(e.kind is File);
            assert(s[s.len() - 1].name == e.name@);
        }
    }
    assert forall|k: int| 0 <= k < s.len() implies scanned_file_name(
        scan,
        scan.len() as int,
        (#[trigger] s[k]).name,
    ) by {
        if k < sp.len() {
            assert(s[k] == sp[k]);
            assert(scanned_file_name(pre, pre.len() as int, sp[k].name));
            let p = choose|p: int|
                0 <= p < pre.len() && (#[trigger] pre[p]).kind is File && pre[p].name@
                    == sp[k].name;
            assert(scan[p] == pre[p]);
        } else {
            assert(e.kind is File && s[k].name == e.name@);
            assert(scan[scan.len() - 1] == e);
        }
    }
    assert forall|k1: int, k2: int| 0 <= k1 < k2 < s.len() implies s[k1].name != s[k2].name by {
        if k2 < sp.len() {
            assert(s[k1] == sp[k1] && s[k2] == sp[k2]);
        } else {
            assert(s[k1] == sp[k1]);
            assert(scanned_file_name(pre, pre.len() as int, sp[k1].name));
            let p = choose|p: int|
                0 <= p < pre.len() && (#[trigger] pre[p]).kind is File && pre[p].name@
                    == sp[k1].name;
            assert(scan[p] == pre[p]);
            assert(e.kind is File && s[k2].name == e.name@);
            assert(scan[p].name@ != scan[scan.len() - 1].name@);
        }
    }
}

/// The snapshot store.  Entry `i` pairs `names[i]` with `metas[i]`; entries
/// are created only by `initialize` and never added or removed afterwards.
pub struct Store {
    /// The watched files' base names.
    pub names: Vec<Vec<u8>>,
    /// The last known metadata, aligned with `names`.
    pub metas: Vec<FileMeta>,
}

impl View for Store {
    type V = Seq<Snapshot>;

    open spec fn view(&self) -> Seq<Snapshot> {
        Seq::new(
            self.names@.len() as nat,
            |i: int|
                (Snapshot {
                    name: self.names@[i]@,
                    modified: self.metas@[i].modified,
                    size: self.metas@[i].size,
                }),
        )
    }
}

impl Store {
    /// Well-formedness: names and metadata are aligned, and no two entries
    /// watch the same file.
    pub open spec fn wf(&self) -> bool {
        &&& self.names@.len() == self.metas@.len()
        &&& forall|i: int, j: int|
            0 <= i < j < self.names@.len() ==> self.names@[i]@ != self.names@[j]@
    }

    /// Builds the store from a startup scan: one entry per regular file of
    /// the scan, seeded with the metadata seen at scan time.  Entries keep
    /// the scan's order.  Requires that no two file entries of the scan share
    /// a name, as the entries of one directory listing never do.
    pub fn initialize(scan: &Vec<ScanEntry>) -> (store: Store)
        requires
            forall|i: int, j: int|
                0 <= i < j < scan@.len() && scan@[i].kind is File && scan@[j].kind is File
                    ==> scan@[i].name@ != scan@[j].name@,
        ensures
            store.wf(),
            store@ == snapshots_of(scan@),
    {
        let mut store = Store { names: Vec::new(), metas: Vec::new() };
        let mut i: usize = 0;
        while i < scan.len()
            invariant
                i <= scan@.len(),
                forall|p: int, q: int|
                    0 <= p < q < scan@.len() && scan@[p].kind is File && scan@[q].kind is File
                        ==> scan@[p].name@ != scan@[q].name@,
                store.wf(),
                store@ == snapshots_of(scan@.take(i as int)),
                forall|k: int|
                    0 <= k < store.names@.len()
                        ==> scanned_file_name(scan@, i as int, #[trigger] store.names@[k]@),
            decreases scan@.len() - i,
        {
            let entry = &scan[i];
            if is_file(entry) {
                let ghost old_store = store;
                let name = copy_bytes(&entry.name);
                store.names.push(name);
                store.metas.push(FileMeta { modified: entry.modified, size: entry.size });
                proof {
                    let last = store.names@.len() - 1;
                    assert forall|k: int| 0 <= k < last implies store.names@[k]@
                        != store.names@[last]@ by {
                        assert(scanned_file_name(scan@, i as int, old_store.names@[k]@));
                        let p = choose|p: int|
                            0 <= p < i && (#[trigger] scan@[p]).kind is File && scan@[p].name@
                                == old_store.names@[k]@;
                        assert(scan@[p].name@ != scan@[i as int].name@);
                    }
                    assert(scan@.take(i + 1).drop_last() =~= scan@.take(i as int));
                    assert(scan@.take(i + 1).last() == scan@[i as int]);
                    assert(store@ =~= snapshots_of(scan@.take(i + 1)));
                }
            } else {
                proof {
                    assert(scan@.take(i + 1).drop_last() =~= scan@.take(i as int));
                    assert(scan@.take(i + 1).last() == scan@[i as int]);
                    assert(store@ =~= snapshots_of(scan@.take(i + 1)));
                }
            }
            i = i + 1;
        }
        proof {
            assert(scan@.take(scan@.len() as int) =~= scan@);
        }
        store
    }

    /// Overwrites the stored metadata for the entry named `name`.  The store
    /// must already hold such an entry: files are watched only if they were
    /// present at startup.
    pub fn update(&mut self, name: &Vec<u8>, modified: u64, size: u64)
        requires
            old(self).wf(),
            exists|i: int| 0 <= i < old(self)@.len() && #[trigger] old(self)@[i].name == name@,
        ensures
            final(self).wf(),
            final(self)@.len() == old(self)@.len(),
            forall|i: int|
                0 <= i < old(self)@.len() && old(self)@[i].name != name@
                    ==> final(self)@[i] == old(self)@[i],
            forall|i: int|
                0 <= i < old(self)@.len() && old(self)@[i].name == name@
                    ==> final(self)@[i] == (Snapshot { name: name@, modified, size }),
    {
        let n = self.names.len();
        let mut i: usize = 0;
        while i < n
            invariant
                old(self).wf(),
                *self == *old(self),
                n == self.names@.len(),
                i <= n,
                exists|k: int| 0 <= k < self@.len() && #[trigger] self@[k].name == name@,
                forall|k: int| 0 <= k < i ==> self.names@[k]@ != name@,
            decreases n - i,
        {
            if bytes_eq(&self.names[i], name) {
                self.metas.set(i, FileMeta { modified, size });
                return ;
            }
            i = i + 1;
        }
        proof {
            let k = choose|k: int| 0 <= k < self@.len() && #[trigger] self@[k].name == name@;
            assert(self.names@[k]@ != name@);
            assert(false);
        }
    }

    /// Overwrites the stored metadata of entry `i`, keeping its name.
    pub fn set_meta(&mut self, i: usize, modified: u64, size: u64)
        requires
            old(self).wf(),
            i < old(self)@.len(),
        ensures
            final(self).wf(),
            final(self).names@ == old(self).names@,
            final(self)@.len() == old(self)@.len(),
            forall|k: int|
                0 <= k < old(self)@.len() && k != i ==> final(self)@[k] == old(self)@[k],
            final(self)@[i as int] == (Snapshot {
                name: old(self)@[i as int].name,
                modified,
                size,
            }),
    {
        self.metas.set(i, FileMeta { modified, size });
    }

    /// The number of watched files.
    pub fn len(&self) -> (n: usize)
        ensures
            n == self@.len(),
    {
        self.names.len()
    }

    /// The base name of entry `i`.
    pub fn name_at(&self, i: usize) -> (r: &Vec<u8>)
        requires
            i < self@.len(),
        ensures
            r@ == self@[i as int].name,
    {
        &self.names[i]
    }

    /// The last known modification time of entry `i`.
    pub fn modified_at(&self, i: usize) -> (r: u64)
        requires
            self.wf(),
            i < self@.len(),
        ensures
            r == self@[i as int].modified,
    {
        self.metas[i].modified
    }

    /// The last known byte size of entry `i`.
    pub fn size_at(&self, i: usize) -> (r: u64)
        requires
            self.wf(),
            i < self@.len(),
        ensures
            r == self@[i as int].size,
    {
        self.metas[i].size
    }
}

} // verus!
