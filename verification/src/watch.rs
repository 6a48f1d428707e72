//! One polling cycle of the watch loop: compare every store entry against the
//! metadata just observed, emit one transfer command per changed file, and
//! bring the store up to date.

use vstd::prelude::*;

use crate::command::build_put_command;
use crate::command::put_command;
use crate::snapshot::FileMeta;
use crate::snapshot::Snapshot;
use crate::snapshot::Store;

verus! {

/// How long the loop sleeps between two polling cycles, in milliseconds.
pub const POLL_INTERVAL_MS: u64 = 300;

/// Holds when an observation means the file changed: the file could be read
/// and its modification time differs from the stored one, earlier or later.
/// A missing observation (the file could not be read this cycle) and a
/// size-only difference are not changes.
pub open spec fn entry_changed(snap: Snapshot, ob: Option<FileMeta>) -> bool {
    ob is Some && ob->0.modified != snap.modified
}

/// The snapshot an entry holds after a cycle: the newly observed metadata if
/// the entry changed, the old snapshot otherwise.  The name never changes.
pub open spec fn updated_snapshot(snap: Snapshot, ob: Option<FileMeta>) -> Snapshot {
    if entry_changed(snap, ob) {
        Snapshot { name: snap.name, modified: ob->0.modified, size: ob->0.size }
    } else {
        snap
    }
}

/// The whole store after a cycle, entry by entry.
pub open spec fn cycle_snapshots(snaps: Seq<Snapshot>, obs: Seq<Option<FileMeta>>) -> Seq<
    Snapshot,
> {
    Seq::new(snaps.len(), |i: int| updated_snapshot(snaps[i], obs[i]))
}

/// The transfer commands a cycle emits: one `put` command per changed entry,
/// in the order the entries are visited.
pub open spec fn cycle_commands(
    snaps: Seq<Snapshot>,
    obs: Seq<Option<FileMeta>>,
    remote_path: Seq<u8>,
) -> Seq<Seq<u8>>
    decreases snaps.len(),
{
    if snaps.len() == 0 {
        Seq::empty()
    } else {
        let init = cycle_commands(snaps.drop_last(), obs.drop_last(), remote_path);
        if entry_changed(snaps.last(), obs.last()) {
            init.push(put_command(snaps.last().name, remote_path))
        } else {
            init
        }
    }
}

/// Runs one polling cycle.  `obs[i]` is the metadata just observed for store
/// entry `i`, or `None` where the file could not be read this cycle.  Emits
/// the transfer commands of every changed entry, in entry order, and updates
/// the store to the observed metadata for exactly those entries.
pub fn poll_cycle(store: &mut Store, obs: &Vec<Option<FileMeta>>, remote_path: &Vec<u8>) -> (cmds:
    Vec<Vec<u8>>)
    requires
        old(store).wf(),
        obs@.len() == old(store)@.len(),
    ensures
        final(store).wf(),
        final(store)@ == cycle_snapshots(old(store)@, obs@),
        cmds.deep_view() == cycle_commands(old(store)@, obs@, remote_path@),
{
    let mut cmds: Vec<Vec<u8>> = Vec::new();
    let n = store.len();
    let mut i: usize = 0;
    while i < n
        invariant
            old(store).wf(),
            store.wf(),
            n == old(store)@.len(),
            obs@.len() == old(store)@.len(),
            i <= n,
            store.names@ == old(store).names@,
            store@.len() == old(store)@.len(),
            forall|k: int| 0 <= k < i ==> store@[k] == updated_snapshot(old(store)@[k], obs@[k]),
            forall|k: int| i <= k < n ==> store@[k] == old(store)@[k],
            cmds.deep_view() == cycle_commands(old(store)@.take(i as int), obs@.take(i as int), remote_path@),
        decreases n - i,
    {
        let ghost prev_cmds = cmds.deep_view();
        let changed: bool = match obs[i] {
            Option::Some(meta) => meta.modified != store.modified_at(i),
            Option::None => false,
        };
        if changed {
            let cmd = build_put_command(store.name_at(i), remote_path);
            cmds.push(cmd);
            let meta = obs[i].unwrap();
            store.set_meta(i, meta.modified, meta.size);
        }
        proof {
            let t = i + 1;
            assert(old(store)@.take(t).drop_last() =~= old(store)@.take(i as int));
            assert(obs@.take(t).drop_last() =~= obs@.take(i as int));
            assert(old(store)@.take(t).last() == old(store)@[i as int]);
            assert(obs@.take(t).last() == obs@[i as int]);
            if changed {
                assert(cmds.deep_view() =~~= prev_cmds.push(
                    put_command(old(store)@[i as int].name, remote_path@),
                ));
            }
            assert(cmds.deep_view() =~~= cycle_commands(
                old(store)@.take(t),
                obs@.take(t),
                remote_path@,
            ));
        }
        i = i + 1;
    }
    proof {
        assert(old(store)@.take(n as int) =~= old(store)@);
        assert(obs@.take(n as int) =~= obs@);
        assert(store@ =~= cycle_snapshots(old(store)@, obs@));
    }
    cmds
}

/// Law: a cycle in which no entry's modification time changed emits no
/// transfer command and leaves every snapshot as it was.
pub proof fn lemma_quiet_cycle(
    snaps: Seq<Snapshot>,
    obs: Seq<Option<FileMeta>>,
    remote_path: Seq<u8>,
)
    requires
        obs.len() == snaps.len(),
        forall|i: int| 0 <= i < snaps.len() ==> !entry_changed(snaps[i], #[trigger] obs[i]),
    ensures
        cycle_commands(snaps, obs, remote_path) == Seq::<Seq<u8>>::empty(),
        cycle_snapshots(snaps, obs) == snaps,
    decreases snaps.len(),
{
    if snaps.len() > 0 {
        lemma_quiet_cycle(snaps.drop_last(), obs.drop_last(), remote_path);
    }
    assert(cycle_snapshots(snaps, obs) =~= snaps);
}

/// Law: a cycle in which exactly one entry's modification time changed emits
/// exactly one transfer command, the one naming that entry, and updates that
/// entry's snapshot, and no other, to the observed metadata.
pub proof fn lemma_single_change(
    snaps: Seq<Snapshot>,
    obs: Seq<Option<FileMeta>>,
    remote_path: Seq<u8>,
    c: int,
)
    requires
        obs.len() == snaps.len(),
        0 <= c < snaps.len(),
        entry_changed(snaps[c], obs[c]),
        forall|i: int|
            0 <= i < snaps.len() && i != c ==> !entry_changed(snaps[i], #[trigger] obs[i]),
    ensures
        cycle_commands(snaps, obs, remote_path) == seq![put_command(snaps[c].name, remote_path)],
        cycle_snapshots(snaps, obs)[c] == (Snapshot {
            name: snaps[c].name,
            modified: obs[c]->0.modified,
            size: obs[c]->0.size,
        }),
        forall|i: int|
            0 <= i < snaps.len() && i != c ==> #[trigger] cycle_snapshots(snaps, obs)[i]
                == snaps[i],
    decreases snaps.len(),
{
    let last = snaps.len() - 1;
    if c == last {
        lemma_quiet_cycle(snaps.drop_last(), obs.drop_last(), remote_path);
        assert(cycle_commands(snaps, obs, remote_path) =~= seq![
            put_command(snaps[c].name, remote_path),
        ]);
    } else {
        lemma_single_change(snaps.drop_last(), obs.drop_last(), remote_path, c);
        assert(snaps.drop_last()[c] == snaps[c]);
        assert(cycle_commands(snaps, obs, remote_path) =~= seq![
            put_command(snaps[c].name, remote_path),
        ]);
    }
}

/// Law: a cycle in which exactly two entries' modification times changed
/// emits exactly two transfer commands, each naming its own entry, in the
/// order the entries are visited, all before the cycle ends.
pub proof fn lemma_two_changes(
    snaps: Seq<Snapshot>,
    obs: Seq<Option<FileMeta>>,
    remote_path: Seq<u8>,
    c1: int,
    c2: int,
)
    requires
        obs.len() == snaps.len(),
        0 <= c1 < c2 < snaps.len(),
        entry_changed(snaps[c1], obs[c1]),
        entry_changed(snaps[c2], obs[c2]),
        forall|i: int|
            0 <= i < snaps.len() && i != c1 && i != c2 ==> !entry_changed(
                snaps[i],
                #[trigger] obs[i],
            ),
    ensures
        cycle_commands(snaps, obs, remote_path) == seq![
            put_command(snaps[c1].name, remote_path),
            put_command(snaps[c2].name, remote_path),
        ],
    decreases snaps.len(),
{
    let last = snaps.len() - 1;
    if c2 == last {
        lemma_single_change(snaps.drop_last(), obs.drop_last(), remote_path, c1);
        assert(snaps.drop_last()[c1] == snaps[c1]);
        assert(cycle_commands(snaps, obs, remote_path) =~= seq![
            put_command(snaps[c1].name, remote_path),
            put_command(snaps[c2].name, remote_path),
        ]);
    } else {
        lemma_two_changes(snaps.drop_last(), obs.drop_last(), remote_path, c1, c2);
        assert(snaps.drop_last()[c1] == snaps[c1]);
        assert(snaps.drop_last()[c2] == snaps[c2]);
        assert(cycle_commands(snaps, obs, remote_path) =~= seq![
            put_command(snaps[c1].name, remote_path),
            put_command(snaps[c2].name, remote_path),
        ]);
    }
}

} // verus!
