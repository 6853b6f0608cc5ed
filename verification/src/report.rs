//! A bounded diagnostic view of the registry tail, for operator visibility.
//!
//! Given a registry snapshot and the identifier-to-name mapping, the report
//! renders at most the three most recently joined peers in chronological
//! order, each with its identifier, optional alias, and the resolved
//! human-readable name where the mapping lists one. The total count lets a
//! caller indicate elided entries. Purely observational: nothing here feeds
//! back into a verification outcome.

use vstd::prelude::*;

use crate::bytes::{bytes_dup, opt_bytes_dup};
use crate::peer::{opt_view, Peer, PeerView};
use crate::registry::views_of;
use crate::resolver::{entry_views_of, lookup, lookup_name, MappingEntry, MappingEntryView};

verus! {

/// At most this many trailing peers are rendered.
pub const MAX_REPORTED: usize = 3;

/// One rendered peer: identifier, optional alias, and the human-readable name
/// the mapping lists under the identifier, if any. A caller shows a
/// placeholder where `resolved` is `None`.
#[derive(Debug, PartialEq, Eq)]
pub struct ReportEntry {
    pub id: Vec<u8>,
    pub alias: Option<Vec<u8>>,
    pub resolved: Option<Vec<u8>>,
}

/// Mathematical value of a [`ReportEntry`].
pub ghost struct ReportEntryView {
    pub id: Seq<u8>,
    pub alias: Option<Seq<u8>>,
    pub resolved: Option<Seq<u8>>,
}

impl View for ReportEntry {
    type V = ReportEntryView;

    open spec fn view(&self) -> ReportEntryView {
        ReportEntryView {
            id: self.id@,
            alias: opt_view(self.alias),
            resolved: opt_view(self.resolved),
        }
    }
}

/// View of a sequence of report entries.
pub open spec fn report_views_of(s: Seq<ReportEntry>) -> Seq<ReportEntryView> {
    s.map_values(|e: ReportEntry| e@)
}

/// How one peer is rendered against the mapping.
pub open spec fn entry_model(p: PeerView, m: Seq<MappingEntryView>) -> ReportEntryView {
    ReportEntryView { id: p.id, alias: p.alias, resolved: lookup(m, p.id) }
}

/// Index of the first rendered peer: the last three are shown, all of them
/// when there are no more than three.
pub open spec fn report_start(s: Seq<PeerView>) -> int {
    if s.len() > MAX_REPORTED {
        s.len() - MAX_REPORTED
    } else {
        0
    }
}

/// The rendered tail: the trailing peers, oldest of them first, each rendered
/// against the mapping.
pub open spec fn report_model(s: Seq<PeerView>, m: Seq<MappingEntryView>) -> Seq<
    ReportEntryView,
> {
    Seq::new((s.len() - report_start(s)) as nat, |k: int| entry_model(s[report_start(s) + k], m))
}

/// The bounded diagnostic view: how many peers are live in all, and the
/// rendered trailing entries in chronological order.
#[derive(Debug, PartialEq, Eq)]
pub struct Report {
    pub total: usize,
    pub entries: Vec<ReportEntry>,
}

/// Render the trailing peers of a snapshot against the mapping.
pub fn build_report(snapshot: &Vec<Peer>, mapping: &Vec<MappingEntry>) -> (r: Report)
    ensures
        r.total == snapshot@.len(),
        report_views_of(r.entries@) == report_model(views_of(snapshot@), entry_views_of(mapping@)),
{
    let ghost sv = views_of(snapshot@);
    let ghost mv = entry_views_of(mapping@);
    let n = snapshot.len();
    let start = if n > MAX_REPORTED {
        n - MAX_REPORTED
    } else {
        0
    };
    proof {
        assert(start == report_start(sv));
    }
    let mut entries: Vec<ReportEntry> = Vec::new();
    let mut i: usize = start;
    while i < n
        invariant
            n == sv.len(),
            sv == views_of(snapshot@),
            mv == entry_views_of(mapping@),
            start == report_start(sv),
            start <= i <= n,
            entries@.len() == i - start,
            forall|k: int| 0 <= k < entries@.len() ==> report_views_of(entries@)[k]
                == report_model(sv, mv)[k],
        decreases n - i,
    {
        let ghost prev = entries@;
        let peer = &snapshot[i];
        proof {
            assert(sv[i as int] == snapshot@[i as int]@);
        }
        let resolved = match lookup_name(mapping, &peer.id) {
            Some(name) => Some(bytes_dup(name)),
            None => None,
        };
        let entry = ReportEntry {
            id: bytes_dup(&peer.id),
            alias: opt_bytes_dup(&peer.alias),
            resolved,
        };
        proof {
            assert(entry@ == entry_model(sv[i as int], mv));
        }
        entries.push(entry);
        proof {
            assert(forall|k: int| 0 <= k < prev.len() ==> entries@[k] == prev[k]);
            assert(report_views_of(entries@)[prev.len() as int] == report_model(sv, mv)[i
                - start]);
        }
        i += 1;
    }
    proof {
        assert(report_views_of(entries@) =~= report_model(sv, mv));
    }
    Report { total: n, entries }
}

} // verus!
