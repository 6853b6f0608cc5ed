//! The peer registry: the ordered, join-time sequence of live peers.
//!
//! The registry mirrors the set of currently-live connections. The bus's
//! listener appends a peer on a join event and removes the peer with the
//! matching identifier on a leave event; a leave for an unknown identifier is
//! a no-op. Removal never reorders the remaining entries, and identifiers are
//! unique among live peers at any instant.

use vstd::prelude::*;

use crate::bytes::bytes_eq;
use crate::peer::{Peer, PeerView};
use crate::seqs::{lemma_filter_all_pass, lemma_filter_push};

verus! {

/// Some live peer carries this identifier.
pub open spec fn has_id(s: Seq<PeerView>, id: Seq<u8>) -> bool {
    exists|k: int| 0 <= k < s.len() && s[k].id == id
}

/// No two entries share an identifier.
pub open spec fn distinct_ids(s: Seq<PeerView>) -> bool {
    forall|i: int, j: int| 0 <= i < j < s.len() ==> s[i].id != s[j].id
}

/// Effect of a join event: the new peer is appended at the end.
pub open spec fn join_model(s: Seq<PeerView>, p: PeerView) -> Seq<PeerView> {
    s.push(p)
}

/// The entries a leave event for `id` keeps: those carrying another
/// identifier.
pub open spec fn keeps(id: Seq<u8>) -> spec_fn(PeerView) -> bool {
    |p: PeerView| p.id != id
}

/// Effect of a leave event: every entry carrying the identifier is dropped,
/// the rest keep their order. A leave for an unknown identifier changes
/// nothing.
pub open spec fn leave_model(s: Seq<PeerView>, id: Seq<u8>) -> Seq<PeerView> {
    s.filter(keeps(id))
}

/// View of a sequence of peers.
pub open spec fn views_of(s: Seq<Peer>) -> Seq<PeerView> {
    s.map_values(|p: Peer| p@)
}

/// The identifier of the most recently joined peer, if any.
pub open spec fn last_id(s: Seq<PeerView>) -> Option<Seq<u8>> {
    if s.len() == 0 {
        None
    } else {
        Some(s.last().id)
    }
}

/// A leave event for a known identifier removes exactly one entry when
/// identifiers are distinct; one for an unknown identifier is a no-op.
pub proof fn lemma_leave_len(s: Seq<PeerView>, id: Seq<u8>)
    requires
        distinct_ids(s),
    ensures
        has_id(s, id) ==> leave_model(s, id).len() == s.len() - 1,
        !has_id(s, id) ==> leave_model(s, id) == s,
    decreases s.len(),
{
    let pred = keeps(id);
    reveal(Seq::filter);
    if s.len() == 0 {
        assert(s.filter(pred) =~= s);
    } else {
        let butlast = s.drop_last();
        assert(distinct_ids(butlast)) by {
            assert(forall|i: int| 0 <= i < butlast.len() ==> butlast[i] == s[i]);
        }
        lemma_leave_len(butlast, id);
        if s.last().id == id {
            // no earlier entry may carry the identifier
            assert(!has_id(butlast, id)) by {
                assert(forall|k: int|
                    0 <= k < butlast.len() ==> (#[trigger] s[k]).id != s[s.len() - 1].id);
            }
            assert(has_id(s, id)) by {
                assert(s[s.len() - 1].id == id);
            }
        } else {
            if has_id(s, id) {
                let k = choose|k: int| 0 <= k < s.len() && s[k].id == id;
                assert(butlast[k] == s[k]);
                assert(has_id(butlast, id));
            } else {
                assert(!has_id(butlast, id)) by {
                    assert(forall|k: int|
                        0 <= k < butlast.len() && butlast[k].id == id ==> has_id(s, id));
                }
                assert(butlast.filter(pred).push(s.last()) =~= s);
            }
        }
    }
}

/// The ordered registry of live peers, oldest first.
pub struct Registry {
    peers: Vec<Peer>,
}

impl View for Registry {
    type V = Seq<PeerView>;

    closed spec fn view(&self) -> Seq<PeerView> {
        views_of(self.peers@)
    }
}

impl Registry {
    /// Identifiers are unique within the registry at any instant.
    pub open spec fn wf(&self) -> bool {
        distinct_ids(self@)
    }

    /// An empty registry, as created when the bus connection opens.
    pub fn new() -> (r: Registry)
        ensures
            r@ == Seq::<PeerView>::empty(),
            r.wf(),
    {
        let r = Registry { peers: Vec::new() };
        proof {
            assert(r@ =~= Seq::<PeerView>::empty());
        }
        r
    }

    /// Number of live peers.
    pub fn len(&self) -> (r: usize)
        ensures
            r == self@.len(),
    {
        self.peers.len()
    }

    /// Whether some live peer carries this identifier.
    pub fn contains_id(&self, id: &Vec<u8>) -> (r: bool)
        ensures
            r == has_id(self@, id@),
    {
        let n = self.peers.len();
        let mut i: usize = 0;
        while i < n
            invariant
                n == self@.len(),
                i <= n,
                forall|k: int| 0 <= k < i ==> self@[k].id != id@,
            decreases n - i,
        {
            if bytes_eq(&self.peers[i].id, id) {
                assert(self@[i as int].id == id@);
                return true;
            }
            i += 1;
        }
        false
    }

    /// A join event: the freshly assigned identifier is new to the registry,
    /// and the peer is appended at the end. The length grows by exactly one,
    /// earlier entries are untouched, and the new entry is the joined peer.
    pub fn apply_join(&mut self, p: Peer)
        requires
            old(self).wf(),
            !has_id(old(self)@, p@.id),
        ensures
            final(self)@ == join_model(old(self)@, p@),
            final(self)@.len() == old(self)@.len() + 1,
            final(self)@.last() == p@,
            final(self).wf(),
    {
        let ghost before = self@;
        self.peers.push(p);
        proof {
            assert(self@ =~= join_model(before, p@));
            assert(forall|k: int| 0 <= k < before.len() ==> self@[k] == before[k]);
        }
    }

    /// A leave event: every entry whose identifier matches is removed (exactly
    /// one, identifiers being unique), the remaining entries keep their order,
    /// and no entry retains the removed identifier. A leave for an unknown
    /// identifier is a no-op.
    pub fn apply_leave(&mut self, id: &Vec<u8>)
        requires
            old(self).wf(),
        ensures
            final(self)@ == leave_model(old(self)@, id@),
            !has_id(final(self)@, id@),
            has_id(old(self)@, id@) ==> final(self)@.len() == old(self)@.len() - 1,
            !has_id(old(self)@, id@) ==> final(self)@ == old(self)@,
            final(self).wf(),
    {
        let ghost before = self@;

        let mut kept: Vec<Peer> = Vec::new();
        let n = self.peers.len();
        let mut i: usize = 0;
        while i < n
            invariant
                n == before.len(),
                before == views_of(self.peers@),
                i <= n,
                views_of(kept@) == before.subrange(0, i as int).filter(keeps(id@)),
            decreases n - i,
        {
            let ghost prefix = before.subrange(0, i as int);
            let ghost prev = kept@;
            proof {
                assert(before[i as int] == self.peers@[i as int]@);
                assert(views_of(prev) == prefix.filter(keeps(id@)));
                lemma_filter_push(prefix, keeps(id@), before[i as int]);
                assert(prefix.push(before[i as int]) =~= before.subrange(0, i + 1));
            }
            if !bytes_eq(&self.peers[i].id, id) {
                proof {
                    assert(keeps(id@)(before[i as int]));
                }
                let copy = self.peers[i].duplicate();
                kept.push(copy);
                proof {
                    assert(kept@ == prev.push(copy));
                    assert(copy@ == before[i as int]);
                    assert forall|k: int| 0 <= k < kept@.len() implies views_of(kept@)[k]
                        == views_of(prev).push(before[i as int])[k] by {
                        if k < prev.len() {
                            assert(kept@[k] == prev[k]);
                        } else {
                            assert(kept@[k] == copy);
                        }
                    }
                    assert(views_of(kept@) =~= views_of(prev).push(before[i as int]));
                    assert(views_of(kept@) == before.subrange(0, i + 1).filter(keeps(id@)));
                }
            } else {
                proof {
                    assert(!keeps(id@)(before[i as int]));
                    assert(views_of(kept@) == before.subrange(0, i + 1).filter(keeps(id@)));
                }
            }
            i += 1;
        }
        proof {
            assert(before.subrange(0, n as int) =~= before);
            lemma_leave_len(before, id@);
            assert forall|k: int| 0 <= k < before.filter(keeps(id@)).len() implies keeps(id@)(
                #[trigger] before.filter(keeps(id@))[k],
            ) by {
                before.lemma_filter_pred(keeps(id@), k);
            }
        }
        self.peers = kept;
        proof {
            lemma_distinct_after_filter(before, id@);
        }
    }

    /// A consistent point-in-time copy of the current membership, in join
    /// order.
    pub fn snapshot(&self) -> (r: Vec<Peer>)
        ensures
            views_of(r@) == self@,
    {
        let mut out: Vec<Peer> = Vec::new();
        let n = self.peers.len();
        let mut i: usize = 0;
        while i < n
            invariant
                n == self@.len(),
                self@ == views_of(self.peers@),
                i <= n,
                views_of(out@) == self@.subrange(0, i as int),
            decreases n - i,
        {
            let ghost prev = out@;
            proof {
                assert(prev.len() == i) by {
                    assert(views_of(prev).len() == i);
                }
            }
            let copy = self.peers[i].duplicate();
            out.push(copy);
            proof {
                assert(copy@ == self@[i as int]);
                assert forall|k: int| 0 <= k < out@.len() implies views_of(out@)[k]
                    == self@.subrange(0, i + 1)[k] by {
                    if k < i {
                        assert(out@[k] == prev[k]);
                        assert(views_of(prev)[k] == self@.subrange(0, i as int)[k]);
                    } else {
                        assert(out@[k] == copy);
                    }
                }
                assert(views_of(out@) =~= self@.subrange(0, i + 1));
            }
            i += 1;
        }
        proof {
            assert(views_of(out@) =~= self@);
        }
        out
    }

    /// The most recently joined live peer, if any.
    pub fn last(&self) -> (r: Option<&Peer>)
        ensures
            match r {
                Some(p) => self@.len() > 0 && p@ == self@.last(),
                None => self@.len() == 0,
            },
    {
        let n = self.peers.len();
        if n == 0 {
            None
        } else {
            Some(&self.peers[n - 1])
        }
    }
}

/// Entries that avoid an identifier keep avoiding it after a filter.
proof fn lemma_filter_keeps_avoidance(s: Seq<PeerView>, pred: spec_fn(PeerView) -> bool, x: Seq<u8>)
    requires
        forall|i: int| 0 <= i < s.len() ==> s[i].id != x,
    ensures
        forall|k: int| 0 <= k < s.filter(pred).len() ==> (#[trigger] s.filter(pred)[k]).id != x,
    decreases s.len(),
{
    reveal(Seq::filter);
    if s.len() > 0 {
        let butlast = s.drop_last();
        assert(forall|i: int| 0 <= i < butlast.len() ==> (#[trigger] butlast[i]).id != x) by {
            assert(forall|i: int| 0 <= i < butlast.len() ==> butlast[i] == s[i]);
        }
        lemma_filter_keeps_avoidance(butlast, pred, x);
    }
}

/// Distinctness of identifiers survives a leave event.
proof fn lemma_distinct_after_filter(s: Seq<PeerView>, id: Seq<u8>)
    requires
        distinct_ids(s),
    ensures
        distinct_ids(leave_model(s, id)),
    decreases s.len(),
{
    let pred = keeps(id);
    reveal(Seq::filter);
    if s.len() == 0 {
    } else {
        let butlast = s.drop_last();
        assert(distinct_ids(butlast)) by {
            assert(forall|i: int| 0 <= i < butlast.len() ==> butlast[i] == s[i]);
        }
        lemma_distinct_after_filter(butlast, id);
        let f = butlast.filter(pred);
        if pred(s.last()) {
            // every kept entry of the prefix came from the prefix, where no
            // identifier equals the appended last entry's
            assert(forall|j: int| 0 <= j < butlast.len() ==> (#[trigger] butlast[j]).id
                != s.last().id) by {
                assert(forall|j: int|
                    0 <= j < butlast.len() ==> (#[trigger] s[j]).id != s[s.len() - 1].id);
            }
            lemma_filter_keeps_avoidance(butlast, pred, s.last().id);
            assert(distinct_ids(f.push(s.last())));
        }
    }
}

/// Two snapshots with no intervening join or leave observe the same registry
/// value; the snapshot contract pins the copy to that value, so the two
/// copies are equal.
pub proof fn lemma_snapshot_idempotent(r: Seq<PeerView>, s1: Seq<PeerView>, s2: Seq<PeerView>)
    requires
        s1 == r,
        s2 == r,
    ensures
        s1 == s2,
{
}

/// A join of a fresh peer followed by a leave of the same identifier restores
/// the registry exactly: no duplicate or ghost trailing entry is left behind,
/// and in particular the most recent entry (the baseline) is the one from
/// before the join.
pub proof fn lemma_join_then_leave_restores(s: Seq<PeerView>, p: PeerView)
    requires
        distinct_ids(s),
        !has_id(s, p.id),
    ensures
        leave_model(join_model(s, p), p.id) == s,
        s.len() > 0 ==> leave_model(join_model(s, p), p.id).last() == s.last(),
{
    let pred = keeps(p.id);
    lemma_filter_push(s, pred, p);
    lemma_filter_all_pass(s, pred);
}

} // verus!
