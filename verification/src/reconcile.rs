//! Per-frame reconciliation of the local view set against the
//! server's current actor-key set.
//!
//! Each frame the reconciler diffs the current snapshot against the
//! keys it rendered last frame and emits view operations: a creation
//! for every key seen for the first time, a state push for every
//! current key, and a destruction for every key that disappeared.
//! Creations and state pushes always precede destructions within one
//! pass, so a key that disappears and reappears in the same pass is
//! never spuriously destroyed and recreated out of order.

use vstd::prelude::*;
use crate::actor::{Actor, PointColor};
use crate::pawn::ActorKey;

verus! {

/// One actor of the current server snapshot: its key and its data.
/// Keys of a snapshot are unique at any instant.
#[derive(Clone, Copy, PartialEq, Eq, Structural, Debug)]
pub struct SnapshotEntry {
    pub key: ActorKey,
    pub actor: Actor,
}

/// An instruction to the external view collaborator. The reconciler
/// only decides; the collaborator owns the actual view handles.
#[derive(Clone, Copy, PartialEq, Eq, Structural, Debug)]
pub enum ViewOp {
    /// Create a view for a key seen for the first time.
    Create(ActorKey),
    /// Push the actor's current position and color into its view.
    SetState(ActorKey, u16, u16, PointColor),
    /// Destroy the view of a key that disappeared.
    Destroy(ActorKey),
}

/// The keys of a snapshot, in snapshot order.
pub open spec fn snapshot_keys(actors: Seq<SnapshotEntry>) -> Seq<ActorKey> {
    actors.map_values(|e: SnapshotEntry| e.key)
}

/// The state push one snapshot entry demands: its actor's current
/// position and color, into the view of its key.
pub open spec fn state_op(e: SnapshotEntry) -> ViewOp {
    match e.actor {
        Actor::Point(p) => ViewOp::SetState(e.key, p.x, p.y, p.color),
    }
}

/// The operations one snapshot entry contributes: a creation first if
/// no view exists for its key yet, then a state push either way.
pub open spec fn entry_ops(prev: Seq<ActorKey>, ops: Seq<ViewOp>, e: SnapshotEntry) -> Seq<ViewOp> {
    let with_create = if prev.contains(e.key) {
        ops
    } else {
        ops.push(ViewOp::Create(e.key))
    };
    with_create.push(state_op(e))
}

/// The creations and state pushes of a whole pass, in snapshot order,
/// against the view keys of the previous frame.
pub open spec fn upsert_ops(prev: Seq<ActorKey>, actors: Seq<SnapshotEntry>) -> Seq<ViewOp>
    decreases actors.len(),
{
    if actors.len() == 0 {
        Seq::empty()
    } else {
        entry_ops(prev, upsert_ops(prev, actors.drop_last()), actors.last())
    }
}

/// The destructions of a whole pass: one per previously rendered key
/// that is absent from the current key set, in previous-frame order.
pub open spec fn destroy_ops(prev: Seq<ActorKey>, cur: Seq<ActorKey>) -> Seq<ViewOp>
    decreases prev.len(),
{
    if prev.len() == 0 {
        Seq::empty()
    } else {
        let rest = destroy_ops(prev.drop_last(), cur);
        if cur.contains(prev.last()) {
            rest
        } else {
            rest.push(ViewOp::Destroy(prev.last()))
        }
    }
}

/// Everything one reconciliation pass emits: creations and state
/// pushes first, destructions after.
pub open spec fn reconcile_ops(prev: Seq<ActorKey>, actors: Seq<SnapshotEntry>) -> Seq<ViewOp> {
    upsert_ops(prev, actors) + destroy_ops(prev, snapshot_keys(actors))
}

/// Diffs each frame's actor snapshot against the previously rendered
/// key set. Holds only the keys; the external collaborator owns the
/// view handles, created and destroyed exactly as instructed.
pub struct ViewReconciler {
    views: Vec<ActorKey>,
}

impl ViewReconciler {
    /// The keys that currently have a view, in creation order.
    pub closed spec fn view_keys(self) -> Seq<ActorKey> {
        self.views@
    }

    /// Every rendered key has exactly one view.
    pub open spec fn wf(self) -> bool {
        self.view_keys().no_duplicates()
    }

    /// A fresh reconciler with no views yet.
    pub fn new() -> (r: Self)
        ensures
            r.view_keys() == Seq::<ActorKey>::empty(),
            r.wf(),
    {
        ViewReconciler { views: Vec::new() }
    }

    /// One reconciliation pass. Emits exactly the operations of
    /// `reconcile_ops`, and afterwards the rendered key set equals
    /// exactly the snapshot's key set: no extras, no missing.
    pub fn reconcile(&mut self, actors: &Vec<SnapshotEntry>) -> (ops: Vec<ViewOp>)
        requires
            old(self).wf(),
            snapshot_keys(actors@).no_duplicates(),
        ensures
            ops@ == reconcile_ops(old(self).view_keys(), actors@),
            final(self).view_keys() == snapshot_keys(actors@),
            final(self).wf(),
    {
        let ghost prev: Seq<ActorKey> = self.views@;
        let mut ops: Vec<ViewOp> = Vec::new();
        let mut next: Vec<ActorKey> = Vec::new();
        let n: usize = actors.len();
        let mut i: usize = 0;
        while i < n
            invariant
                i <= n,
                n == actors@.len(),
                prev == self.views@,
                ops@ == upsert_ops(prev, actors@.take(i as int)),
                next@ == snapshot_keys(actors@.take(i as int)),
            decreases n - i,
        {
            let e = actors[i];
            if !contains_key(&self.views, e.key) {
                ops.push(ViewOp::Create(e.key));
            }
            match e.actor {
                Actor::Point(p) => {
                    ops.push(ViewOp::SetState(e.key, p.x, p.y, p.color));
                }
            }
            next.push(e.key);
            i = i + 1;
            proof {
                assert(actors@.take(i as int).drop_last() =~= actors@.take(i - 1));
                assert(actors@.take(i as int).last() == actors@[i - 1]);
                assert(snapshot_keys(actors@.take(i as int))
                    =~= snapshot_keys(actors@.take(i - 1)).push(actors@[i - 1].key));
            }
        }
        proof {
            assert(actors@.take(n as int) =~= actors@);
            assert(ops@ + destroy_ops(prev.take(0), next@) =~= ops@);
        }
        let ghost cur: Seq<ActorKey> = next@;
        let m: usize = self.views.len();
        let mut j: usize = 0;
        while j < m
            invariant
                j <= m,
                m == self.views@.len(),
                prev == self.views@,
                next@ == cur,
                cur == snapshot_keys(actors@),
                ops@ == upsert_ops(prev, actors@) + destroy_ops(prev.take(j as int), cur),
            decreases m - j,
        {
            let k = self.views[j];
            if !contains_key(&next, k) {
                ops.push(ViewOp::Destroy(k));
            }
            j = j + 1;
            proof {
                assert(prev.take(j as int).drop_last() =~= prev.take(j - 1));
                assert(prev.take(j as int).last() == prev[j - 1]);
                if !cur.contains(prev[j - 1]) {
                    assert((upsert_ops(prev, actors@) + destroy_ops(prev.take(j - 1), cur))
                        .push(ViewOp::Destroy(prev[j - 1]))
                        =~= upsert_ops(prev, actors@)
                            + destroy_ops(prev.take(j - 1), cur).push(ViewOp::Destroy(prev[j - 1])));
                }
            }
        }
        proof {
            assert(prev.take(m as int) =~= prev);
        }
        self.views = next;
        ops
    }
}

/// The snapshot's key sequence holds a key exactly when some entry
/// carries it.
proof fn lemma_snapshot_keys_contains(actors: Seq<SnapshotEntry>, k: ActorKey)
    ensures
        snapshot_keys(actors).contains(k)
            <==> exists|i: int| 0 <= i < actors.len() && actors[i].key == k,
{
    if snapshot_keys(actors).contains(k) {
        let i = choose|i: int|
            0 <= i < snapshot_keys(actors).len() && snapshot_keys(actors)[i] == k;
        assert(actors[i].key == k);
    }
    if exists|i: int| 0 <= i < actors.len() && actors[i].key == k {
        let i = choose|i: int| 0 <= i < actors.len() && actors[i].key == k;
        assert(snapshot_keys(actors)[i] == k);
    }
}

/// A creation for `k` stands among the upserts exactly when `k` is in
/// the snapshot and had no view yet; upserts never destroy.
proof fn lemma_upsert_ops_membership(prev: Seq<ActorKey>, actors: Seq<SnapshotEntry>, k: ActorKey)
    ensures
        upsert_ops(prev, actors).contains(ViewOp::Create(k))
            <==> (!prev.contains(k) && snapshot_keys(actors).contains(k)),
        !upsert_ops(prev, actors).contains(ViewOp::Destroy(k)),
    decreases actors.len(),
{
    broadcast use vstd::seq_lib::lemma_seq_contains_after_push;
    broadcast use vstd::seq_lib::lemma_seq_empty_contains_nothing;

    lemma_snapshot_keys_contains(actors, k);
    if actors.len() > 0 {
        let front = actors.drop_last();
        lemma_upsert_ops_membership(prev, front, k);
        lemma_snapshot_keys_contains(front, k);
        let e = actors.last();
        if snapshot_keys(actors).contains(k) && !snapshot_keys(front).contains(k) {
            let i = choose|i: int| 0 <= i < actors.len() && actors[i].key == k;
            if i < actors.len() - 1 {
                assert(front[i] == actors[i]);
            }
            assert(e.key == k);
        }
        if e.key == k {
            assert(actors[actors.len() - 1].key == k);
        }
    }
}

/// A destruction for `k` stands among the removals exactly when `k`
/// had a view and left the key set; removals never create.
proof fn lemma_destroy_ops_membership(prev: Seq<ActorKey>, cur: Seq<ActorKey>, k: ActorKey)
    ensures
        destroy_ops(prev, cur).contains(ViewOp::Destroy(k))
            <==> (prev.contains(k) && !cur.contains(k)),
        !destroy_ops(prev, cur).contains(ViewOp::Create(k)),
    decreases prev.len(),
{
    broadcast use vstd::seq_lib::lemma_seq_contains_after_push;
    broadcast use vstd::seq_lib::lemma_seq_empty_contains_nothing;

    if prev.len() > 0 {
        let front = prev.drop_last();
        lemma_destroy_ops_membership(front, cur, k);
        assert(prev =~= front.push(prev.last()));
    }
}

/// A reconciliation pass creates a view exactly for each key that
/// entered the snapshot, and destroys one exactly for each key that
/// left it; a key present in both frames is updated, never recreated.
pub proof fn lemma_reconcile_creates_and_destroys(
    prev: Seq<ActorKey>,
    actors: Seq<SnapshotEntry>,
    k: ActorKey,
)
    ensures
        reconcile_ops(prev, actors).contains(ViewOp::Create(k))
            <==> (snapshot_keys(actors).contains(k) && !prev.contains(k)),
        reconcile_ops(prev, actors).contains(ViewOp::Destroy(k))
            <==> (prev.contains(k) && !snapshot_keys(actors).contains(k)),
{
    broadcast use vstd::seq_lib::lemma_seq_concat_contains_all_elements;

    lemma_upsert_ops_membership(prev, actors, k);
    lemma_destroy_ops_membership(prev, snapshot_keys(actors), k);
}

/// Every entry of the snapshot has its state pushed by the pass,
/// whether its view already existed or was just created.
pub proof fn lemma_reconcile_updates_every_current_key(
    prev: Seq<ActorKey>,
    actors: Seq<SnapshotEntry>,
    i: int,
)
    requires
        0 <= i < actors.len(),
    ensures
        reconcile_ops(prev, actors).contains(state_op(actors[i])),
{
    broadcast use vstd::seq_lib::lemma_seq_concat_contains_all_elements;

    lemma_upsert_contains_state_op(prev, actors, i);
}

/// Helper for the law above: the state push stands already among the
/// upserts.
proof fn lemma_upsert_contains_state_op(prev: Seq<ActorKey>, actors: Seq<SnapshotEntry>, i: int)
    requires
        0 <= i < actors.len(),
    ensures
        upsert_ops(prev, actors).contains(state_op(actors[i])),
    decreases actors.len(),
{
    broadcast use vstd::seq_lib::lemma_seq_contains_after_push;

    if i < actors.len() - 1 {
        lemma_upsert_contains_state_op(prev, actors.drop_last(), i);
        assert(actors.drop_last()[i] == actors[i]);
    }
}

/// Upserts are creations and state pushes only.
proof fn lemma_upsert_ops_kinds(prev: Seq<ActorKey>, actors: Seq<SnapshotEntry>)
    ensures
        forall|t: int| 0 <= t < upsert_ops(prev, actors).len()
            ==> !((#[trigger] upsert_ops(prev, actors)[t]) is Destroy),
    decreases actors.len(),
{
    if actors.len() > 0 {
        lemma_upsert_ops_kinds(prev, actors.drop_last());
    }
}

/// Within one pass every creation and state push precedes every
/// destruction, so a key that disappears and reappears within the
/// same pass is never spuriously destroyed out of order.
pub proof fn lemma_reconcile_upserts_precede_destroys(
    prev: Seq<ActorKey>,
    actors: Seq<SnapshotEntry>,
)
    ensures
        forall|t: int| 0 <= t < reconcile_ops(prev, actors).len()
            && ((#[trigger] reconcile_ops(prev, actors)[t]) is Destroy)
            ==> upsert_ops(prev, actors).len() <= t,
{
    lemma_upsert_ops_kinds(prev, actors);
    assert forall|t: int| 0 <= t < reconcile_ops(prev, actors).len()
        && ((#[trigger] reconcile_ops(prev, actors)[t]) is Destroy)
        implies upsert_ops(prev, actors).len() <= t by {
        if t < upsert_ops(prev, actors).len() {
            assert(reconcile_ops(prev, actors)[t] == upsert_ops(prev, actors)[t]);
        }
    }
}

/// With every snapshot key already rendered, the upserts are state
/// pushes only.
proof fn lemma_upsert_ops_all_present(prev: Seq<ActorKey>, actors: Seq<SnapshotEntry>)
    requires
        forall|i: int| 0 <= i < actors.len() ==> prev.contains(#[trigger] actors[i].key),
    ensures
        forall|t: int| 0 <= t < upsert_ops(prev, actors).len()
            ==> (#[trigger] upsert_ops(prev, actors)[t]) is SetState,
    decreases actors.len(),
{
    if actors.len() > 0 {
        let front = actors.drop_last();
        assert forall|i: int| 0 <= i < front.len()
            implies prev.contains(#[trigger] front[i].key) by {
            assert(front[i] == actors[i]);
        }
        lemma_upsert_ops_all_present(prev, front);
        assert(prev.contains(actors[actors.len() - 1].key));
    }
}

/// With every rendered key still current, nothing is destroyed.
proof fn lemma_destroy_ops_all_present(prev: Seq<ActorKey>, cur: Seq<ActorKey>)
    requires
        forall|i: int| 0 <= i < prev.len() ==> cur.contains(#[trigger] prev[i]),
    ensures
        destroy_ops(prev, cur) == Seq::<ViewOp>::empty(),
    decreases prev.len(),
{
    if prev.len() > 0 {
        let front = prev.drop_last();
        assert forall|i: int| 0 <= i < front.len() implies cur.contains(#[trigger] front[i]) by {
            assert(front[i] == prev[i]);
        }
        lemma_destroy_ops_all_present(front, cur);
        assert(cur.contains(prev[prev.len() - 1]));
    }
}

/// Reconciliation is idempotent: with the rendered key set already
/// equal to the snapshot's key set — as it is right after any pass —
/// a further pass over an unchanged snapshot emits state pushes only,
/// no additional creations and no removals.
pub proof fn lemma_reconcile_idempotent(actors: Seq<SnapshotEntry>)
    ensures
        forall|t: int| 0 <= t < reconcile_ops(snapshot_keys(actors), actors).len()
            ==> (#[trigger] reconcile_ops(snapshot_keys(actors), actors)[t]) is SetState,
{
    let prev = snapshot_keys(actors);
    assert forall|i: int| 0 <= i < actors.len()
        implies prev.contains(#[trigger] actors[i].key) by {
        assert(prev[i] == actors[i].key);
    }
    lemma_upsert_ops_all_present(prev, actors);
    lemma_destroy_ops_all_present(prev, prev);
    assert(reconcile_ops(prev, actors) =~= upsert_ops(prev, actors));
}

/// Whether a key already has a view: linear membership in the
/// rendered key list.
fn contains_key(keys: &Vec<ActorKey>, key: ActorKey) -> (r: bool)
    ensures
        r == keys@.contains(key),
{
    let n: usize = keys.len();
    let mut i: usize = 0;
    while i < n
        invariant
            i <= n,
            n == keys@.len(),
            forall|t: int| 0 <= t < i ==> keys@[t] != key,
        decreases n - i,
    {
        if keys[i] == key {
            return true;
        }
        i = i + 1;
    }
    false
}

} // verus!
