//! A model of the snapshots of one domain, and what the workflows that
//! checkpoint leave of it.

use vstd::prelude::*;
use crate::command::ActionView;
use crate::shell::{
    checkpoint_step, clone_checkpoint, clone_steps, create_checkpoint, create_steps, discard_step,
    revert_step, target_step,
};
use crate::virt::SnapShotConfigView;
use crate::workflow::StepView;

verus! {

/// The snapshots of a domain: each with its parent, and the one that is
/// current.
pub struct Forest {
    /// The snapshots by name, each with the name of its parent.
    pub parent: Map<Seq<char>, Option<Seq<char>>>,
    /// The current snapshot.
    pub current: Option<Seq<char>>,
}

/// The snapshots after `name` was deleted: its children hang under its parent.
pub open spec fn without(f: Forest, name: Seq<char>) -> Map<Seq<char>, Option<Seq<char>>> {
    Map::new(
        |k: Seq<char>| f.parent.dom().contains(k) && k != name,
        |k: Seq<char>|
            if f.parent[k] == Some(name) {
                f.parent[name]
            } else {
                f.parent[k]
            },
    )
}

/// The snapshots after an action that succeeds; `None` where the
/// hypervisor refuses it. A new snapshot hangs under the current one and
/// becomes current; a snapshot must exist to be made current or deleted;
/// when the current snapshot is deleted its parent becomes current.
/// Other actions leave the snapshots alone.
pub open spec fn after(f: Forest, a: ActionView) -> Option<Forest> {
    match a {
        ActionView::Create { name, .. } => if f.parent.dom().contains(name) {
            None
        } else {
            Some(Forest { parent: f.parent.insert(name, f.current), current: Some(name) })
        },
        ActionView::Revert { name, .. } => if f.parent.dom().contains(name) {
            Some(Forest { parent: f.parent, current: Some(name) })
        } else {
            None
        },
        ActionView::Delete { name, .. } => if f.parent.dom().contains(name) {
            Some(
                Forest {
                    parent: without(f, name),
                    current: if f.current == Some(name) {
                        f.parent[name]
                    } else {
                        f.current
                    },
                },
            )
        } else {
            None
        },
        _ => Some(f),
    }
}

/// The snapshots after all of `steps` succeeded, one after another.
pub open spec fn after_all(f: Forest, steps: Seq<StepView>) -> Option<Forest>
    decreases steps.len(),
{
    if steps.len() == 0 {
        Some(f)
    } else {
        match after_all(f, steps.drop_last()) {
            Some(g) => after(g, steps.last().action),
            None => None,
        }
    }
}

/// Checkpoint, go to `place`, do `work` there, come back and remove the
/// checkpoint: if all five steps succeed and `work` creates at most a
/// snapshot, the current snapshot is the one from before.
proof fn lemma_round_trip(
    f: Forest,
    domain: Seq<char>,
    temp: Seq<char>,
    place: Seq<char>,
    work: StepView,
)
    requires
        work.action is Create || work.action is Clone,
    ensures
        after_all(
            f,
            seq![
                checkpoint_step(domain, temp),
                revert_step(domain, place),
                work,
                revert_step(domain, temp),
                discard_step(domain, temp),
            ],
        ) matches Some(g) ==> g.current == f.current,
{
    let s1 = checkpoint_step(domain, temp);
    let s2 = revert_step(domain, place);
    let s4 = revert_step(domain, temp);
    let s5 = discard_step(domain, temp);
    let all = seq![s1, s2, work, s4, s5];
    let upto4 = seq![s1, s2, work, s4];
    let upto3 = seq![s1, s2, work];
    let upto2 = seq![s1, s2];
    let upto1 = seq![s1];
    assert(all.drop_last() =~= upto4);
    assert(upto4.drop_last() =~= upto3);
    assert(upto3.drop_last() =~= upto2);
    assert(upto2.drop_last() =~= upto1);
    assert(upto1.drop_last() =~= Seq::<StepView>::empty());
    assert(after_all(f, upto1.drop_last()) == Some(f));
    if let Some(f1) = after_all(f, upto1) {
        assert(f1.parent[temp] == f.current);
        if let Some(f2) = after_all(f, upto2) {
            assert(f2.parent[temp] == f.current);
            if let Some(f3) = after_all(f, upto3) {
                assert(f3.parent.dom().contains(temp));
                assert(f3.parent[temp] == f.current);
                if let Some(f4) = after_all(f, upto4) {
                    assert(f4.current == Some(temp));
                    assert(f4.parent[temp] == f.current);
                }
            }
        }
    }
}

/// Creating a snapshot under a parent, when every step succeeds, leaves
/// the snapshot current that was current before.
pub proof fn lemma_create_restores_current(c: SnapShotConfigView, stamp: nat, f: Forest)
    requires
        c.parent is Some,
    ensures
        after_all(f, create_steps(c, stamp)) matches Some(g) ==> g.current == f.current,
{
    lemma_round_trip(f, c.dom_name, create_checkpoint(stamp), c.parent->0, target_step(c));
}

/// Cloning a snapshot as a new domain, when every step succeeds, leaves
/// the snapshot current that was current before.
pub proof fn lemma_clone_restores_current(c: SnapShotConfigView, stamp: nat, f: Forest)
    ensures
        after_all(f, clone_steps(c, stamp)) matches Some(g) ==> g.current == f.current,
{
    lemma_round_trip(
        f,
        c.dom_name,
        clone_checkpoint(stamp),
        c.snapshot_name,
        StepView { action: ActionView::Clone { domain: c.dom_name }, status_required: false },
    );
}

/// The hypervisor accepts every step of creating a snapshot under a
/// parent when the parent exists and the names of the checkpoint and of
/// the new snapshot are free and differ; the new snapshot then hangs
/// under the parent.
pub proof fn lemma_create_is_accepted(c: SnapShotConfigView, stamp: nat, f: Forest)
    requires
        c.parent matches Some(p) && f.parent.dom().contains(p),
        !f.parent.dom().contains(create_checkpoint(stamp)),
        !f.parent.dom().contains(c.snapshot_name),
        c.snapshot_name != create_checkpoint(stamp),
    ensures
        after_all(f, create_steps(c, stamp)) matches Some(g) && g.current == f.current
            && g.parent.dom() == f.parent.dom().insert(c.snapshot_name) && g.parent[c.snapshot_name]
            == c.parent,
{
    let temp = create_checkpoint(stamp);
    let place = c.parent->0;
    let s1 = checkpoint_step(c.dom_name, temp);
    let s2 = revert_step(c.dom_name, place);
    let s3 = target_step(c);
    let s4 = revert_step(c.dom_name, temp);
    let s5 = discard_step(c.dom_name, temp);
    let all = create_steps(c, stamp);
    let upto4 = seq![s1, s2, s3, s4];
    let upto3 = seq![s1, s2, s3];
    let upto2 = seq![s1, s2];
    let upto1 = seq![s1];
    assert(all =~= seq![s1, s2, s3, s4, s5]);
    assert(all.drop_last() =~= upto4);
    assert(upto4.drop_last() =~= upto3);
    assert(upto3.drop_last() =~= upto2);
    assert(upto2.drop_last() =~= upto1);
    assert(upto1.drop_last() =~= Seq::<StepView>::empty());
    assert(after_all(f, upto1.drop_last()) == Some(f));
    let f1 = after_all(f, upto1)->0;
    assert(after_all(f, upto1) is Some);
    let f2 = after_all(f, upto2)->0;
    assert(after_all(f, upto2) is Some);
    let f3 = after_all(f, upto3)->0;
    assert(after_all(f, upto3) is Some);
    assert(f3.parent[c.snapshot_name] == c.parent);
    let f4 = after_all(f, upto4)->0;
    assert(after_all(f, upto4) is Some);
    let g = after_all(f, all)->0;
    assert(after_all(f, all) is Some);
    assert(g.parent.dom() =~= f.parent.dom().insert(c.snapshot_name));
}

} // verus!
