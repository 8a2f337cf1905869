//! The local index of a mailbox and the delta against a remote listing:
//! which remote messages are not yet in the store.
use vstd::prelude::*;
use std::collections::HashSet;
use crate::maildir::{maildir_name, marker_at, scanned_uid, uid_in_name, lemma_filename_round_trip};
use crate::message::{Message, MessageModel, models, reversed};

verus! {

broadcast use vstd::std_specs::hash::group_hash_axioms;

/// The views of a sequence of file names.
pub open spec fn name_views(names: Seq<String>) -> Seq<Seq<char>> {
    names.map_values(|s: String| s@)
}

/// The uids that the file names of a mailbox's store carry.
pub open spec fn local_uid_set(names: Seq<Seq<char>>) -> Set<u32> {
    Set::new(|u: u32| exists|i: int| 0 <= i < names.len() && scanned_uid(#[trigger] names[i]) == Some(u))
}

/// The remote messages whose uid is not in `local`, in the remote order.
pub open spec fn delta(remote: Seq<MessageModel>, local: Set<u32>) -> Seq<MessageModel>
    decreases remote.len(),
{
    if remote.len() == 0 {
        Seq::empty()
    } else if local.contains(remote.last().uid) {
        delta(remote.drop_last(), local)
    } else {
        delta(remote.drop_last(), local).push(remote.last())
    }
}

/// The local uid index of a mailbox, from the names of the files under its
/// `cur`, `new` and `tmp` subfolders: the uid of every name that carries a
/// marker.
pub fn get_local_uids(names: &Vec<String>) -> (r: HashSet<u32>)
    ensures
        r@ == local_uid_set(name_views(names@)),
{
    let ghost views = name_views(names@);
    let mut uids: HashSet<u32> = HashSet::new();
    let mut i: usize = 0;
    while i < names.len()
        invariant
            i <= names.len(),
            views == name_views(names@),
            uids@ == local_uid_set(views.subrange(0, i as int)),
        decreases names.len() - i,
    {
        let found = uid_in_name(names[i].as_str());
        proof {
            assert(views[i as int] == names@[i as int]@);
        }
        let ghost before = uids@;
        match found {
            Some(u) => {
                uids.insert(u);
            },
            None => {},
        }
        proof {
            let next = views.subrange(0, i + 1);
            let prev = views.subrange(0, i as int);
            assert forall|u: u32| #[trigger] local_uid_set(next).contains(u) <==> uids@.contains(u) by {
                if local_uid_set(next).contains(u) {
                    let j = choose|j: int| 0 <= j < next.len() && scanned_uid(#[trigger] next[j]) == Some(u);
                    if j < i {
                        assert(prev[j] == next[j]);
                        assert(local_uid_set(prev).contains(u));
                    }
                }
                if uids@.contains(u) {
                    if before.contains(u) {
                        let j = choose|j: int| 0 <= j < prev.len() && scanned_uid(#[trigger] prev[j]) == Some(u);
                        assert(next[j] == prev[j]);
                    } else {
                        assert(next[i as int] == views[i as int]);
                    }
                }
            }
            assert(local_uid_set(next) =~= uids@);
        }
        i = i + 1;
    }
    proof {
        assert(views.subrange(0, names.len() as int) =~= views);
    }
    uids
}

/// The remote messages that the store does not hold yet: those whose uid is
/// not in the local index, in the order of the listing.
pub fn compute_delta(remote: Vec<Message>, local: &HashSet<u32>) -> (r: Vec<Message>)
    ensures
        models(r@) == delta(models(remote@), local@),
{
    let ghost orig = models(remote@);
    let n = remote.len();
    let mut rev = reversed(remote);
    let mut r: Vec<Message> = Vec::new();
    let mut i: usize = 0;
    while i < n
        invariant
            n == orig.len(),
            i <= n,
            rev@.len() == n - i,
            forall|j: int| 0 <= j < rev@.len() ==> (#[trigger] rev@[j])@ == orig[n - 1 - j],
            models(r@) == delta(orig.subrange(0, i as int), local@),
        decreases n - i,
    {
        let m = rev.pop().unwrap();
        proof {
            assert(m@ == orig[i as int]);
            assert(orig.subrange(0, i + 1).drop_last() =~= orig.subrange(0, i as int));
        }
        let ghost before = r@;
        if !local.contains(&m.uid) {
            r.push(m);
            proof {
                assert(models(r@) =~= models(before).push(r@.last()@));
            }
        }
        i = i + 1;
    }
    proof {
        assert(orig.subrange(0, n as int) =~= orig);
    }
    r
}

/// The delta holds exactly the remote messages whose uid is not local.
pub proof fn lemma_delta_members(remote: Seq<MessageModel>, local: Set<u32>)
    ensures
        forall|m: MessageModel| #[trigger] delta(remote, local).contains(m) <==> (remote.contains(m) && !local.contains(m.uid)),
    decreases remote.len(),
{
    if remote.len() > 0 {
        let prev = remote.drop_last();
        lemma_delta_members(prev, local);
        assert forall|m: MessageModel| #[trigger] delta(remote, local).contains(m) <==> (remote.contains(m) && !local.contains(m.uid)) by {
            if remote.contains(m) {
                let j = choose|j: int| 0 <= j < remote.len() && remote[j] == m;
                if j < remote.len() - 1 {
                    assert(prev[j] == m);
                }
            }
            if prev.contains(m) {
                let j = choose|j: int| 0 <= j < prev.len() && prev[j] == m;
                assert(remote[j] == m);
            }
            if !local.contains(remote.last().uid) {
                let d = delta(prev, local);
                if d.push(remote.last()).contains(m) {
                    let j = choose|j: int| 0 <= j < d.len() + 1 && d.push(remote.last())[j] == m;
                    if j < d.len() {
                        assert(d[j] == m);
                    }
                }
                if d.contains(m) {
                    let j = choose|j: int| 0 <= j < d.len() && d[j] == m;
                    assert(d.push(remote.last())[j] == m);
                }
                assert(d.push(remote.last())[d.len() as int] == remote.last());
            }
        }
    }
}

/// Two listings that hold the same messages, in whatever order, have deltas
/// that hold the same messages.
pub proof fn lemma_delta_order_independent(r1: Seq<MessageModel>, r2: Seq<MessageModel>, local: Set<u32>)
    requires
        r1.to_set() == r2.to_set(),
    ensures
        delta(r1, local).to_set() == delta(r2, local).to_set(),
{
    lemma_delta_members(r1, local);
    lemma_delta_members(r2, local);
    assert forall|m: MessageModel| #[trigger] delta(r1, local).to_set().contains(m) <==> delta(r2, local).to_set().contains(m) by {
        assert(r1.to_set().contains(m) == r1.contains(m));
        assert(r2.to_set().contains(m) == r2.contains(m));
        assert(r1.to_set().contains(m) == r2.to_set().contains(m));
        assert(delta(r1, local).to_set().contains(m) == delta(r1, local).contains(m));
        assert(delta(r2, local).to_set().contains(m) == delta(r2, local).contains(m));
    }
    assert(delta(r1, local).to_set() =~= delta(r2, local).to_set());
}

/// Once every message of a delta is in the local index, the same remote
/// listing has an empty delta: a second run writes nothing.
pub proof fn lemma_second_run_empty(remote: Seq<MessageModel>, local: Set<u32>, later: Set<u32>)
    requires
        local.subset_of(later),
        forall|i: int| 0 <= i < delta(remote, local).len() ==> later.contains(#[trigger] delta(remote, local)[i].uid),
    ensures
        delta(remote, later) == Seq::<MessageModel>::empty(),
{
    lemma_delta_members(remote, local);
    lemma_delta_members(remote, later);
    let d2 = delta(remote, later);
    if d2.len() > 0 {
        let m = d2[0];
        assert(d2.contains(m));
        assert(delta(remote, local).contains(m));
        let j = choose|j: int| 0 <= j < delta(remote, local).len() && delta(remote, local)[j] == m;
        assert(later.contains(delta(remote, local)[j].uid));
    }
    assert(d2 =~= Seq::<MessageModel>::empty());
}

/// Running sync twice on an unchanged remote listing writes nothing the
/// second time: once a file has been written for every message of the
/// first delta, the local index that the second run scans leaves an empty
/// delta. This holds wherever the host identifier holds no uid marker.
pub proof fn lemma_sync_idempotent(
    remote: Seq<MessageModel>,
    local_names: Seq<Seq<char>>,
    written: Seq<Seq<char>>,
    host: Seq<char>,
)
    requires
        forall|j: int| 0 <= j < host.len() ==> !marker_at(host, j),
        written.len() == delta(remote, local_uid_set(local_names)).len(),
        forall|i: int| 0 <= i < written.len() ==> exists|now: u64, rnd: u16, letters: Seq<char>|
            #[trigger] written[i] == maildir_name(
                now as nat,
                rnd as nat,
                host,
                delta(remote, local_uid_set(local_names))[i].uid as nat,
                letters,
            ),
    ensures
        delta(remote, local_uid_set(local_names + written)) == Seq::<MessageModel>::empty(),
{
    let local = local_uid_set(local_names);
    let later = local_uid_set(local_names + written);
    let all = local_names + written;
    let d = delta(remote, local);
    assert forall|u: u32| local.contains(u) implies later.contains(u) by {
        let j = choose|j: int| 0 <= j < local_names.len() && scanned_uid(#[trigger] local_names[j]) == Some(u);
        assert(all[j] == local_names[j]);
    }
    assert forall|i: int| 0 <= i < d.len() implies later.contains(#[trigger] d[i].uid) by {
        let (now, rnd, letters) = choose|now: u64, rnd: u16, letters: Seq<char>|
            #[trigger] written[i] == maildir_name(now as nat, rnd as nat, host, d[i].uid as nat, letters);
        lemma_filename_round_trip(now, rnd, host, d[i].uid, letters);
        assert(all[local_names.len() + i] == written[i]);
        assert(scanned_uid(all[local_names.len() + i]) == Some(d[i].uid));
    }
    lemma_second_run_empty(remote, local, later);
}

} // verus!
