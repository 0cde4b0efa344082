//! The call-site ledger: an append-only, duplicate-suppressed record of the
//! call sites a transformer has observed, in observation order.

use vstd::prelude::*;

verus! {

/// A source position usable only as a deduplication key: two observations of
/// the same lexical call site carry equal positions.
#[derive(PartialEq, Eq, Structural, Clone, Copy, Debug)]
pub struct LexicalLocation {
    pub start_line: u64,
    pub start_col: u64,
    pub end_line: u64,
    pub end_col: u64,
}

/// One recorded call site: where it was observed, the crate that owns it,
/// and the name of the function standing there.
#[derive(Debug)]
pub struct LedgerEntry {
    pub location: LexicalLocation,
    pub owner_crate: String,
    pub function_name: String,
}

impl Clone for LedgerEntry {
    fn clone(&self) -> (r: Self)
        ensures
            r == *self,
    {
        LedgerEntry {
            location: self.location,
            owner_crate: self.owner_crate.clone(),
            function_name: self.function_name.clone(),
        }
    }
}

/// Append-only sequence of distinct call sites. Duplicate suppression is by
/// lexical location alone: a location is recorded at most once.
#[derive(Debug)]
pub struct Ledger {
    entries: Vec<LedgerEntry>,
}

/// Whether some entry of `s` holds the location `loc`.
pub open spec fn has_location(s: Seq<LedgerEntry>, loc: LexicalLocation) -> bool {
    exists|i: int| 0 <= i < s.len() && s[i].location == loc
}

/// How many entries of `s` hold the location `loc`.
pub open spec fn count_at_location(s: Seq<LedgerEntry>, loc: LexicalLocation) -> nat
    decreases s.len(),
{
    if s.len() == 0 {
        0
    } else {
        count_at_location(s.drop_last(), loc) + if s.last().location == loc {
            1nat
        } else {
            0nat
        }
    }
}

/// What one recording does to the entry sequence: nothing when the location
/// is already present, an append otherwise.
pub open spec fn recorded(s: Seq<LedgerEntry>, e: LedgerEntry) -> Seq<LedgerEntry> {
    if has_location(s, e.location) {
        s
    } else {
        s.push(e)
    }
}

impl Ledger {
    /// The recorded entries, in insertion order.
    pub closed spec fn entries_seq(&self) -> Seq<LedgerEntry> {
        self.entries@
    }

    /// No two recorded entries share a lexical location.
    pub open spec fn wf(&self) -> bool {
        forall|i: int, j: int|
            0 <= i < j < self.entries_seq().len() ==> self.entries_seq()[i].location
                != self.entries_seq()[j].location
    }

    /// An empty ledger.
    pub fn new() -> (r: Ledger)
        ensures
            r.entries_seq() == Seq::<LedgerEntry>::empty(),
            r.wf(),
    {
        Ledger { entries: Vec::new() }
    }

    /// How many distinct call sites have been recorded.
    pub fn len(&self) -> (n: usize)
        ensures
            n == self.entries_seq().len(),
    {
        self.entries.len()
    }

    /// Records a call site. A no-op when an entry with an equal location is
    /// already present; otherwise appends a new entry at the end.
    pub fn record(&mut self, location: LexicalLocation, owner_crate: String, function_name: String)
        ensures
            final(self).entries_seq() == recorded(
                old(self).entries_seq(),
                LedgerEntry { location, owner_crate, function_name },
            ),
            old(self).wf() ==> final(self).wf(),
    {
        let n = self.entries.len();
        let mut i: usize = 0;
        while i < n
            invariant
                self.entries@ == old(self).entries@,
                n == self.entries@.len(),
                0 <= i <= n,
                forall|k: int| 0 <= k < i ==> self.entries@[k].location != location,
            decreases n - i,
        {
            if self.entries[i].location == location {
                assert(has_location(self.entries@, location));
                return ;
            }
            i += 1;
        }
        assert(!has_location(self.entries@, location));
        self.entries.push(LedgerEntry { location, owner_crate, function_name });
    }

    /// A copy of the entries, in insertion order, for the correlator.
    pub fn snapshot(&self) -> (r: Vec<LedgerEntry>)
        ensures
            r@ == self.entries_seq(),
    {
        let mut r: Vec<LedgerEntry> = Vec::new();
        let n = self.entries.len();
        let mut i: usize = 0;
        while i < n
            invariant
                n == self.entries@.len(),
                0 <= i <= n,
                r@ == self.entries@.subrange(0, i as int),
            decreases n - i,
        {
            r.push(self.entries[i].clone());
            assert(r@ =~= self.entries@.subrange(0, i + 1 as int));
            i += 1;
        }
        assert(r@ =~= self.entries@);
        r
    }
}

/// Recording a location a second time leaves the ledger exactly as the first
/// recording left it, whatever the other fields of either entry hold.
pub proof fn lemma_record_idempotent(s: Seq<LedgerEntry>, e1: LedgerEntry, e2: LedgerEntry)
    requires
        e2.location == e1.location,
    ensures
        recorded(recorded(s, e1), e2) == recorded(s, e1),
{
    if has_location(s, e1.location) {
        assert(recorded(s, e1) == s);
    } else {
        let t = s.push(e1);
        assert(t[s.len() as int] == e1);
        assert(has_location(t, e2.location));
    }
}

/// Entries whose location is absent are not counted.
proof fn lemma_absent_location_count_zero(s: Seq<LedgerEntry>, loc: LexicalLocation)
    requires
        !has_location(s, loc),
    ensures
        count_at_location(s, loc) == 0,
    decreases s.len(),
{
    if s.len() > 0 {
        assert(forall|i: int| 0 <= i < s.drop_last().len() ==> s.drop_last()[i] == s[i]);
        assert(!has_location(s.drop_last(), loc));
        lemma_absent_location_count_zero(s.drop_last(), loc);
        assert(s.last().location != loc);
    }
}

/// Recording a fresh location twice yields exactly one entry holding it.
pub proof fn lemma_record_twice_once(
    s: Seq<LedgerEntry>,
    e1: LedgerEntry,
    e2: LedgerEntry,
    loc: LexicalLocation,
)
    requires
        !has_location(s, loc),
        e1.location == loc,
        e2.location == loc,
    ensures
        count_at_location(recorded(recorded(s, e1), e2), loc) == 1,
{
    lemma_record_idempotent(s, e1, e2);
    let t = s.push(e1);
    assert(recorded(s, e1) == t);
    assert(t.drop_last() =~= s);
    assert(t.last() == e1);
    lemma_absent_location_count_zero(s, loc);
    assert(count_at_location(t, loc) == 1);
}

} // verus!
