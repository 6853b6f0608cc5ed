//! Correlation of registry entries against the directory's
//! identifier-to-name mapping.
//!
//! The mapping is built fresh on each directory query: one entry per
//! directory node that resolved, pairing the node's owning connection
//! identifier with its human-readable name. The functions here answer the
//! verifier's questions about such a mapping: the name listed under an
//! identifier, whether any listed name matches a target application
//! case-insensitively, and how many do.

use vstd::prelude::*;

use crate::bytes::{bytes_eq, contains_bytes_ci, contains_ci};
use crate::seqs::lemma_filter_push;

verus! {

/// One resolved directory node: the owning connection identifier and the
/// human-readable name listed under it.
#[derive(Debug, PartialEq, Eq)]
pub struct MappingEntry {
    pub id: Vec<u8>,
    pub name: Vec<u8>,
}

/// Mathematical value of a [`MappingEntry`].
pub ghost struct MappingEntryView {
    pub id: Seq<u8>,
    pub name: Seq<u8>,
}

impl View for MappingEntry {
    type V = MappingEntryView;

    open spec fn view(&self) -> MappingEntryView {
        MappingEntryView { id: self.id@, name: self.name@ }
    }
}

impl MappingEntry {
    /// An entry pairing an identifier with a name.
    pub fn new(id: Vec<u8>, name: Vec<u8>) -> (r: MappingEntry)
        ensures
            r@.id == id@,
            r@.name == name@,
    {
        MappingEntry { id, name }
    }
}

/// View of a sequence of mapping entries.
pub open spec fn entry_views_of(s: Seq<MappingEntry>) -> Seq<MappingEntryView> {
    s.map_values(|e: MappingEntry| e@)
}

/// The name the mapping lists under an identifier: the first entry with a
/// matching identifier decides, a mapping without one lists no name.
pub open spec fn lookup(m: Seq<MappingEntryView>, id: Seq<u8>) -> Option<Seq<u8>>
    decreases m.len(),
{
    if m.len() == 0 {
        None
    } else if m[0].id == id {
        Some(m[0].name)
    } else {
        lookup(m.drop_first(), id)
    }
}

/// Some entry's name contains the target, case-insensitively.
pub open spec fn any_name_matches(m: Seq<MappingEntryView>, target: Seq<u8>) -> bool {
    exists|k: int| 0 <= k < m.len() && contains_ci(m[k].name, target)
}

/// An entry whose name contains the target, case-insensitively.
pub open spec fn name_matches(target: Seq<u8>) -> spec_fn(MappingEntryView) -> bool {
    |e: MappingEntryView| contains_ci(e.name, target)
}

/// The entries whose name contains the target, case-insensitively.
pub open spec fn matching_entries(m: Seq<MappingEntryView>, target: Seq<u8>) -> Seq<
    MappingEntryView,
> {
    m.filter(name_matches(target))
}

/// If no entry up to `i` carries the identifier, the lookup is decided by the
/// rest of the mapping.
proof fn lemma_lookup_skip(m: Seq<MappingEntryView>, id: Seq<u8>, i: int)
    requires
        0 <= i <= m.len(),
        forall|k: int| 0 <= k < i ==> m[k].id != id,
    ensures
        lookup(m, id) == lookup(m.skip(i), id),
    decreases i,
{
    if i > 0 {
        assert(m.len() > 0);
        assert(m[0].id != id);
        assert(m.drop_first() == m.skip(1));
        assert(forall|k: int| 0 <= k < i - 1 ==> #[trigger] m.skip(1)[k].id != id) by {
            assert(forall|k: int| 0 <= k < i - 1 ==> m.skip(1)[k] == m[k + 1]);
        }
        lemma_lookup_skip(m.skip(1), id, i - 1);
        assert(m.skip(1).skip(i - 1) =~= m.skip(i));
    } else {
        assert(m.skip(0) =~= m);
    }
}

/// The name listed under an identifier, if any: the first entry with that
/// identifier decides.
pub fn lookup_name<'a>(m: &'a Vec<MappingEntry>, id: &Vec<u8>) -> (r: Option<&'a Vec<u8>>)
    ensures
        match r {
            Some(name) => lookup(entry_views_of(m@), id@) == Some(name@),
            None => lookup(entry_views_of(m@), id@) is None,
        },
{
    let ghost mv = entry_views_of(m@);
    let n = m.len();
    let mut i: usize = 0;
    while i < n
        invariant
            n == mv.len(),
            mv == entry_views_of(m@),
            i <= n,
            forall|k: int| 0 <= k < i ==> mv[k].id != id@,
        decreases n - i,
    {
        if bytes_eq(&m[i].id, id) {
            proof {
                assert(mv[i as int] == m@[i as int]@);
                lemma_lookup_skip(mv, id@, i as int);
                assert(mv.skip(i as int)[0] == mv[i as int]);
                assert(mv.skip(i as int).len() > 0);
            }
            return Some(&m[i].name);
        }
        proof {
            assert(mv[i as int] == m@[i as int]@);
        }
        i += 1;
    }
    proof {
        lemma_lookup_skip(mv, id@, n as int);
        assert(mv.skip(n as int) =~= Seq::<MappingEntryView>::empty());
    }
    None
}

/// Whether any listed name contains the target application's name,
/// case-insensitively.
pub fn any_name_contains_ci(m: &Vec<MappingEntry>, target: &Vec<u8>) -> (r: bool)
    ensures
        r == any_name_matches(entry_views_of(m@), target@),
{
    let ghost mv = entry_views_of(m@);
    let n = m.len();
    let mut i: usize = 0;
    while i < n
        invariant
            n == mv.len(),
            mv == entry_views_of(m@),
            i <= n,
            forall|k: int| 0 <= k < i ==> !contains_ci(mv[k].name, target@),
        decreases n - i,
    {
        proof {
            assert(mv[i as int] == m@[i as int]@);
        }
        if contains_bytes_ci(&m[i].name, target) {
            assert(contains_ci(mv[i as int].name, target@));
            return true;
        }
        i += 1;
    }
    false
}

/// How many listed names contain the target application's name,
/// case-insensitively.
pub fn count_matching_names(m: &Vec<MappingEntry>, target: &Vec<u8>) -> (r: usize)
    ensures
        r == matching_entries(entry_views_of(m@), target@).len(),
{
    let ghost mv = entry_views_of(m@);
    let n = m.len();
    let mut count: usize = 0;
    let mut i: usize = 0;
    while i < n
        invariant
            n == mv.len(),
            mv == entry_views_of(m@),
            i <= n,
            count == mv.subrange(0, i as int).filter(name_matches(target@)).len(),
        decreases n - i,
    {
        let ghost prefix = mv.subrange(0, i as int);
        proof {
            assert(mv[i as int] == m@[i as int]@);
            lemma_filter_push(prefix, name_matches(target@), mv[i as int]);
            assert(prefix.push(mv[i as int]) =~= mv.subrange(0, i + 1));
            prefix.lemma_filter_len(name_matches(target@));
        }
        if contains_bytes_ci(&m[i].name, target) {
            count += 1;
        }
        i += 1;
    }
    proof {
        assert(mv.subrange(0, n as int) =~= mv);
    }
    count
}

} // verus!
