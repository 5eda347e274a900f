use vstd::prelude::*;
use crate::address::Address;
use crate::amount::Amount;

verus! {

// ---------------------------------------------------------------------------
// Balance entry lists
//
// A balance table is a list of (address, amount) entries with pairwise
// distinct keys.  An absent entry reads as zero, indistinguishably from an
// explicit zero entry.
// ---------------------------------------------------------------------------

/// The value recorded for key `k`: the first entry carrying `k`, zero when
/// no entry does.
pub open spec fn lookup(s: Seq<(Address, Amount)>, k: Seq<char>) -> u64
    decreases s.len(),
{
    if s.len() == 0 {
        0
    } else if s[0].0@ == k {
        s[0].1.0
    } else {
        lookup(s.skip(1), k)
    }
}

/// Whether some entry carries key `k`.
pub open spec fn has_key(s: Seq<(Address, Amount)>, k: Seq<char>) -> bool {
    exists|i: int| #![auto] 0 <= i < s.len() && s[i].0@ == k
}

/// Pairwise distinct keys.
pub open spec fn distinct_keys(s: Seq<(Address, Amount)>) -> bool {
    forall|i: int, j: int| #![auto] 0 <= i < j < s.len() ==> s[i].0@ != s[j].0@
}

/// The sum of all recorded values, as an unbounded integer.
pub open spec fn entry_sum(s: Seq<(Address, Amount)>) -> int
    decreases s.len(),
{
    if s.len() == 0 {
        0
    } else {
        s[0].1.0 + entry_sum(s.skip(1))
    }
}

proof fn lemma_sum_nonneg(s: Seq<(Address, Amount)>)
    ensures
        entry_sum(s) >= 0,
    decreases s.len(),
{
    if s.len() > 0 {
        lemma_sum_nonneg(s.skip(1));
    }
}

/// A single entry never exceeds the sum of all entries.
proof fn lemma_lookup_le_sum(s: Seq<(Address, Amount)>, k: Seq<char>)
    ensures
        lookup(s, k) <= entry_sum(s),
    decreases s.len(),
{
    if s.len() > 0 {
        if s[0].0@ == k {
            lemma_sum_nonneg(s.skip(1));
        } else {
            lemma_lookup_le_sum(s.skip(1), k);
        }
    }
}

proof fn lemma_no_key_in_tail(s: Seq<(Address, Amount)>, k: Seq<char>)
    requires
        s.len() > 0,
        !has_key(s, k),
    ensures
        !has_key(s.skip(1), k),
        s[0].0@ != k,
{
    if has_key(s.skip(1), k) {
        let j = choose|j: int| #![auto] 0 <= j < s.skip(1).len() && s.skip(1)[j].0@ == k;
        assert(s.skip(1)[j] == s[j + 1]);
        assert(has_key(s, k));
    }
}

proof fn lemma_distinct_skip(s: Seq<(Address, Amount)>)
    requires
        distinct_keys(s),
        s.len() > 0,
    ensures
        distinct_keys(s.skip(1)),
{
    assert forall|a: int, b: int| #![auto]
        0 <= a < b < s.skip(1).len() implies s.skip(1)[a].0@ != s.skip(1)[b].0@ by {
        assert(s.skip(1)[a] == s[a + 1]);
        assert(s.skip(1)[b] == s[b + 1]);
    }
}

/// When the first `i` entries miss `k` and entry `i` carries it, the lookup
/// is entry `i`'s value.
proof fn lemma_lookup_first(s: Seq<(Address, Amount)>, i: int, k: Seq<char>)
    requires
        0 <= i < s.len(),
        s[i].0@ == k,
        forall|j: int| #![auto] 0 <= j < i ==> s[j].0@ != k,
    ensures
        lookup(s, k) == s[i].1.0,
        has_key(s, k),
    decreases i,
{
    if i > 0 {
        assert(s.skip(1)[i - 1] == s[i]);
        assert forall|j: int| #![auto] 0 <= j < i - 1 implies s.skip(1)[j].0@ != k by {
            assert(s.skip(1)[j] == s[j + 1]);
        }
        lemma_lookup_first(s.skip(1), i - 1, k);
    }
}

proof fn lemma_lookup_absent(s: Seq<(Address, Amount)>, k: Seq<char>)
    requires
        !has_key(s, k),
    ensures
        lookup(s, k) == 0,
    decreases s.len(),
{
    if s.len() > 0 {
        lemma_no_key_in_tail(s, k);
        lemma_lookup_absent(s.skip(1), k);
    }
}

/// Overwriting entry `i` with a pair of the same key changes exactly that
/// key's lookup.
proof fn lemma_lookup_update(s: Seq<(Address, Amount)>, i: int, p: (Address, Amount), k: Seq<char>)
    requires
        distinct_keys(s),
        0 <= i < s.len(),
        s[i].0@ == p.0@,
    ensures
        lookup(s.update(i, p), k) == if k == p.0@ { p.1.0 } else { lookup(s, k) },
    decreases i,
{
    let t = s.update(i, p);
    if i == 0 {
        assert(t[0] == p);
        assert(t.skip(1) =~= s.skip(1));
    } else {
        assert(t[0] == s[0]);
        assert(t.skip(1) =~= s.skip(1).update(i - 1, p));
        assert(s.skip(1)[i - 1] == s[i]);
        lemma_distinct_skip(s);
        lemma_lookup_update(s.skip(1), i - 1, p, k);
        if s[0].0@ == k {
            assert(s[0].0@ != s[i].0@);
        }
    }
}

proof fn lemma_sum_update(s: Seq<(Address, Amount)>, i: int, p: (Address, Amount))
    requires
        0 <= i < s.len(),
    ensures
        entry_sum(s.update(i, p)) == entry_sum(s) - s[i].1.0 + p.1.0,
    decreases i,
{
    let t = s.update(i, p);
    if i == 0 {
        assert(t[0] == p);
        assert(t.skip(1) =~= s.skip(1));
    } else {
        assert(t[0] == s[0]);
        assert(t.skip(1) =~= s.skip(1).update(i - 1, p));
        assert(s.skip(1)[i - 1] == s[i]);
        lemma_sum_update(s.skip(1), i - 1, p);
    }
}

proof fn lemma_distinct_update(s: Seq<(Address, Amount)>, i: int, p: (Address, Amount))
    requires
        distinct_keys(s),
        0 <= i < s.len(),
        s[i].0@ == p.0@,
    ensures
        distinct_keys(s.update(i, p)),
{
    let t = s.update(i, p);
    assert forall|a: int, b: int| #![auto] 0 <= a < b < t.len() implies t[a].0@ != t[b].0@ by {
        assert(s[a].0@ != s[b].0@);
    }
}

/// Appending an entry with a fresh key changes exactly that key's lookup.
proof fn lemma_lookup_push(s: Seq<(Address, Amount)>, p: (Address, Amount), k: Seq<char>)
    requires
        !has_key(s, p.0@),
    ensures
        lookup(s.push(p), k) == if k == p.0@ { p.1.0 } else { lookup(s, k) },
    decreases s.len(),
{
    let t = s.push(p);
    if s.len() == 0 {
        assert(t[0] == p);
        assert(t.skip(1) =~= Seq::<(Address, Amount)>::empty());
        assert(lookup(t.skip(1), k) == 0);
    } else {
        assert(t[0] == s[0]);
        assert(t.skip(1) =~= s.skip(1).push(p));
        lemma_no_key_in_tail(s, p.0@);
        lemma_lookup_push(s.skip(1), p, k);
    }
}

proof fn lemma_sum_push(s: Seq<(Address, Amount)>, p: (Address, Amount))
    ensures
        entry_sum(s.push(p)) == entry_sum(s) + p.1.0,
    decreases s.len(),
{
    let t = s.push(p);
    if s.len() == 0 {
        assert(t[0] == p);
        assert(t.skip(1) =~= Seq::<(Address, Amount)>::empty());
        assert(entry_sum(t.skip(1)) == 0);
    } else {
        assert(t[0] == s[0]);
        assert(t.skip(1) =~= s.skip(1).push(p));
        lemma_sum_push(s.skip(1), p);
    }
}

proof fn lemma_distinct_push(s: Seq<(Address, Amount)>, p: (Address, Amount))
    requires
        distinct_keys(s),
        !has_key(s, p.0@),
    ensures
        distinct_keys(s.push(p)),
{
    let t = s.push(p);
    assert forall|a: int, b: int| #![auto] 0 <= a < b < t.len() implies t[a].0@ != t[b].0@ by {
        if b == s.len() {
            assert(t[a] == s[a]);
            assert(!(0 <= a < s.len() && s[a].0@ == p.0@));
        } else {
            assert(s[a].0@ != s[b].0@);
        }
    }
}

// ---------------------------------------------------------------------------
// Balance table
// ---------------------------------------------------------------------------

/// A mapping from address to amount, kept as an entry list with distinct
/// keys.  Reads are zero-defaulting; writes overwrite or append.
#[derive(Clone, Debug)]
pub struct AmountTable {
    entries: Vec<(Address, Amount)>,
}

impl AmountTable {
    /// Distinct keys: the representation invariant.
    pub closed spec fn wf(&self) -> bool {
        distinct_keys(self.entries@)
    }

    /// The amount recorded for `k`, zero when absent.
    pub closed spec fn spec_get(&self, k: Seq<char>) -> u64 {
        lookup(self.entries@, k)
    }

    /// The sum of all recorded amounts.
    pub closed spec fn total(&self) -> int {
        entry_sum(self.entries@)
    }

    /// An empty table: every key reads zero.
    pub fn new() -> (t: AmountTable)
        ensures
            t.wf(),
            t.total() == 0,
            forall|k: Seq<char>| #![auto] t.spec_get(k) == 0,
    {
        let t = AmountTable { entries: Vec::new() };
        proof {
            assert forall|k: Seq<char>| #![auto] t.spec_get(k) == 0 by {
                assert(lookup(t.entries@, k) == 0);
            }
        }
        t
    }

    /// The position of the first entry carrying `a`'s key, if any.
    fn find_index(&self, a: &Address) -> (r: Option<usize>)
        ensures
            match r {
                Some(i) => {
                    &&& 0 <= i < self.entries@.len()
                    &&& self.entries@[i as int].0@ == a@
                    &&& forall|j: int| #![auto] 0 <= j < i ==> self.entries@[j].0@ != a@
                },
                None => !has_key(self.entries@, a@),
            },
    {
        let n = self.entries.len();
        let mut i: usize = 0;
        while i < n
            invariant
                i <= n,
                n == self.entries@.len(),
                forall|j: int| #![auto] 0 <= j < i ==> self.entries@[j].0@ != a@,
            decreases n - i,
        {
            if self.entries[i].0 == *a {
                return Some(i);
            }
            i = i + 1;
        }
        proof {
            if has_key(self.entries@, a@) {
                let j = choose|j: int| #![auto]
                    0 <= j < self.entries@.len() && self.entries@[j].0@ == a@;
                assert(false);
            }
        }
        None
    }

    /// The amount recorded for `a`, zero when `a` has no entry.
    pub fn get(&self, a: &Address) -> (r: Amount)
        ensures
            r.0 == self.spec_get(a@),
    {
        match self.find_index(a) {
            Some(i) => {
                proof {
                    lemma_lookup_first(self.entries@, i as int, a@);
                }
                self.entries[i].1
            }
            None => {
                proof {
                    lemma_lookup_absent(self.entries@, a@);
                }
                Amount(0)
            }
        }
    }

    /// Record `v` for `a`, overwriting any earlier entry.  Exactly `a`'s
    /// reading changes, and the sum moves by the difference.
    pub fn set(&mut self, a: &Address, v: Amount)
        requires
            old(self).wf(),
        ensures
            final(self).wf(),
            final(self).spec_get(a@) == v.0,
            forall|k: Seq<char>| #![auto]
                k != a@ ==> final(self).spec_get(k) == old(self).spec_get(k),
            final(self).total() == old(self).total() - old(self).spec_get(a@) + v.0,
    {
        let ghost s0 = self.entries@;
        match self.find_index(a) {
            Some(i) => {
                proof {
                    lemma_lookup_first(s0, i as int, a@);
                }
                let entry = &mut self.entries[i];
                entry.1 = v;
                proof {
                    let p = (s0[i as int].0, v);
                    assert(self.entries@ =~= s0.update(i as int, p));
                    assert forall|k: Seq<char>| #![auto]
                        lookup(s0.update(i as int, p), k)
                            == if k == a@ { v.0 } else { lookup(s0, k) } by {
                        lemma_lookup_update(s0, i as int, p, k);
                    }
                    lemma_sum_update(s0, i as int, p);
                    lemma_distinct_update(s0, i as int, p);
                }
            }
            None => {
                let key = a.dup();
                self.entries.push((key, v));
                proof {
                    let p = (key, v);
                    assert(self.entries@ =~= s0.push(p));
                    lemma_lookup_absent(s0, a@);
                    assert forall|k: Seq<char>| #![auto]
                        lookup(s0.push(p), k) == if k == a@ { v.0 } else { lookup(s0, k) } by {
                        lemma_lookup_push(s0, p, k);
                    }
                    lemma_sum_push(s0, p);
                    lemma_distinct_push(s0, p);
                }
            }
        }
    }

    /// No single reading exceeds the table's sum.
    pub proof fn lemma_get_le_total(&self, k: Seq<char>)
        ensures
            self.spec_get(k) <= self.total(),
            self.total() >= 0,
    {
        lemma_lookup_le_sum(self.entries@, k);
        lemma_sum_nonneg(self.entries@);
    }

    /// The entries, for enumeration by callers outside the ledger: each pair
    /// reads back through `spec_get`, keys are distinct, and every non-zero
    /// reading is listed.
    pub fn items(&self) -> (r: &Vec<(Address, Amount)>)
        requires
            self.wf(),
        ensures
            forall|i: int| #![auto] 0 <= i < r@.len() ==> r@[i].1.0 == self.spec_get(r@[i].0@),
            forall|i: int, j: int| #![auto] 0 <= i < j < r@.len() ==> r@[i].0@ != r@[j].0@,
            forall|k: Seq<char>| #![auto]
                self.spec_get(k) != 0 ==> exists|i: int| #![auto] 0 <= i < r@.len() && r@[i].0@ == k,
    {
        proof {
            let s = self.entries@;
            assert forall|i: int| #![auto] 0 <= i < s.len() implies s[i].1.0 == self.spec_get(s[i].0@) by {
                lemma_lookup_first(s, i, s[i].0@);
            }
            assert forall|k: Seq<char>| #![auto] self.spec_get(k) != 0 implies has_key(s, k) by {
                if !has_key(s, k) {
                    lemma_lookup_absent(s, k);
                }
            }
        }
        &self.entries
    }
}

// ---------------------------------------------------------------------------
// Allowance table
// ---------------------------------------------------------------------------

/// The remaining amount `sp` may move out of `o`'s balance, zero when either
/// the owner entry or the spender entry is absent.
pub open spec fn grant_lookup(s: Seq<(Address, AmountTable)>, o: Seq<char>, sp: Seq<char>) -> u64
    decreases s.len(),
{
    if s.len() == 0 {
        0
    } else if s[0].0@ == o {
        s[0].1.spec_get(sp)
    } else {
        grant_lookup(s.skip(1), o, sp)
    }
}

/// Whether some entry carries owner `o`.
pub open spec fn has_owner(s: Seq<(Address, AmountTable)>, o: Seq<char>) -> bool {
    exists|i: int| #![auto] 0 <= i < s.len() && s[i].0@ == o
}

/// Pairwise distinct owners.
pub open spec fn distinct_owners(s: Seq<(Address, AmountTable)>) -> bool {
    forall|i: int, j: int| #![auto] 0 <= i < j < s.len() ==> s[i].0@ != s[j].0@
}

/// Every per-owner table satisfies its own invariant.
pub open spec fn inner_tables_wf(s: Seq<(Address, AmountTable)>) -> bool {
    forall|i: int| #![auto] 0 <= i < s.len() ==> s[i].1.wf()
}

proof fn lemma_no_owner_in_tail(s: Seq<(Address, AmountTable)>, o: Seq<char>)
    requires
        s.len() > 0,
        !has_owner(s, o),
    ensures
        !has_owner(s.skip(1), o),
        s[0].0@ != o,
{
    if has_owner(s.skip(1), o) {
        let j = choose|j: int| #![auto] 0 <= j < s.skip(1).len() && s.skip(1)[j].0@ == o;
        assert(s.skip(1)[j] == s[j + 1]);
        assert(has_owner(s, o));
    }
}

proof fn lemma_distinct_owners_skip(s: Seq<(Address, AmountTable)>)
    requires
        distinct_owners(s),
        s.len() > 0,
    ensures
        distinct_owners(s.skip(1)),
{
    assert forall|a: int, b: int| #![auto]
        0 <= a < b < s.skip(1).len() implies s.skip(1)[a].0@ != s.skip(1)[b].0@ by {
        assert(s.skip(1)[a] == s[a + 1]);
        assert(s.skip(1)[b] == s[b + 1]);
    }
}

/// When the first `i` entries miss owner `o` and entry `i` carries it, the
/// grant reading is entry `i`'s table's reading.
proof fn lemma_grant_first(s: Seq<(Address, AmountTable)>, i: int, o: Seq<char>, sp: Seq<char>)
    requires
        0 <= i < s.len(),
        s[i].0@ == o,
        forall|j: int| #![auto] 0 <= j < i ==> s[j].0@ != o,
    ensures
        grant_lookup(s, o, sp) == s[i].1.spec_get(sp),
        has_owner(s, o),
    decreases i,
{
    if i > 0 {
        assert(s.skip(1)[i - 1] == s[i]);
        assert forall|j: int| #![auto] 0 <= j < i - 1 implies s.skip(1)[j].0@ != o by {
            assert(s.skip(1)[j] == s[j + 1]);
        }
        lemma_grant_first(s.skip(1), i - 1, o, sp);
    }
}

proof fn lemma_grant_absent(s: Seq<(Address, AmountTable)>, o: Seq<char>, sp: Seq<char>)
    requires
        !has_owner(s, o),
    ensures
        grant_lookup(s, o, sp) == 0,
    decreases s.len(),
{
    if s.len() > 0 {
        lemma_no_owner_in_tail(s, o);
        lemma_grant_absent(s.skip(1), o, sp);
    }
}

/// Overwriting entry `i` with a pair of the same owner changes only that
/// owner's readings, to the new table's readings.
proof fn lemma_grant_update(
    s: Seq<(Address, AmountTable)>,
    i: int,
    p: (Address, AmountTable),
    o2: Seq<char>,
    sp: Seq<char>,
)
    requires
        distinct_owners(s),
        0 <= i < s.len(),
        s[i].0@ == p.0@,
    ensures
        grant_lookup(s.update(i, p), o2, sp)
            == if o2 == p.0@ { p.1.spec_get(sp) } else { grant_lookup(s, o2, sp) },
    decreases i,
{
    let t = s.update(i, p);
    if i == 0 {
        assert(t[0] == p);
        assert(t.skip(1) =~= s.skip(1));
    } else {
        assert(t[0] == s[0]);
        assert(t.skip(1) =~= s.skip(1).update(i - 1, p));
        assert(s.skip(1)[i - 1] == s[i]);
        lemma_distinct_owners_skip(s);
        lemma_grant_update(s.skip(1), i - 1, p, o2, sp);
        if s[0].0@ == o2 {
            assert(s[0].0@ != s[i].0@);
        }
    }
}

/// Appending an entry with a fresh owner changes only that owner's readings.
proof fn lemma_grant_push(
    s: Seq<(Address, AmountTable)>,
    p: (Address, AmountTable),
    o2: Seq<char>,
    sp: Seq<char>,
)
    requires
        !has_owner(s, p.0@),
    ensures
        grant_lookup(s.push(p), o2, sp)
            == if o2 == p.0@ { p.1.spec_get(sp) } else { grant_lookup(s, o2, sp) },
    decreases s.len(),
{
    let t = s.push(p);
    if s.len() == 0 {
        assert(t[0] == p);
        assert(t.skip(1) =~= Seq::<(Address, AmountTable)>::empty());
        assert(grant_lookup(t.skip(1), o2, sp) == 0);
        assert(grant_lookup(s, o2, sp) == 0);
    } else {
        assert(t[0] == s[0]);
        assert(t.skip(1) =~= s.skip(1).push(p));
        lemma_no_owner_in_tail(s, p.0@);
        lemma_grant_push(s.skip(1), p, o2, sp);
    }
}

proof fn lemma_distinct_owners_push(s: Seq<(Address, AmountTable)>, p: (Address, AmountTable))
    requires
        distinct_owners(s),
        !has_owner(s, p.0@),
    ensures
        distinct_owners(s.push(p)),
{
    let t = s.push(p);
    assert forall|a: int, b: int| #![auto] 0 <= a < b < t.len() implies t[a].0@ != t[b].0@ by {
        if b == s.len() {
            assert(t[a] == s[a]);
            assert(!(0 <= a < s.len() && s[a].0@ == p.0@));
        } else {
            assert(s[a].0@ != s[b].0@);
        }
    }
}

/// A two-level mapping owner -> spender -> amount, kept as an entry list of
/// per-owner balance tables.  Reads are zero-defaulting at both levels.
#[derive(Clone, Debug)]
pub struct AllowanceTable {
    entries: Vec<(Address, AmountTable)>,
}

impl AllowanceTable {
    /// Distinct owners, each per-owner table well formed.
    pub closed spec fn wf(&self) -> bool {
        distinct_owners(self.entries@) && inner_tables_wf(self.entries@)
    }

    /// The amount `sp` may still move on `o`'s behalf, zero when absent.
    pub closed spec fn spec_get(&self, o: Seq<char>, sp: Seq<char>) -> u64 {
        grant_lookup(self.entries@, o, sp)
    }

    /// An empty table: every pair reads zero.
    pub fn new() -> (t: AllowanceTable)
        ensures
            t.wf(),
            forall|o: Seq<char>, sp: Seq<char>| #![auto] t.spec_get(o, sp) == 0,
    {
        let t = AllowanceTable { entries: Vec::new() };
        proof {
            assert forall|o: Seq<char>, sp: Seq<char>| #![auto] t.spec_get(o, sp) == 0 by {
                assert(grant_lookup(t.entries@, o, sp) == 0);
            }
        }
        t
    }

    /// The position of the first entry carrying `o`'s key, if any.
    fn find_owner(&self, o: &Address) -> (r: Option<usize>)
        ensures
            match r {
                Some(i) => {
                    &&& 0 <= i < self.entries@.len()
                    &&& self.entries@[i as int].0@ == o@
                    &&& forall|j: int| #![auto] 0 <= j < i ==> self.entries@[j].0@ != o@
                },
                None => !has_owner(self.entries@, o@),
            },
    {
        let n = self.entries.len();
        let mut i: usize = 0;
        while i < n
            invariant
                i <= n,
                n == self.entries@.len(),
                forall|j: int| #![auto] 0 <= j < i ==> self.entries@[j].0@ != o@,
            decreases n - i,
        {
            if self.entries[i].0 == *o {
                return Some(i);
            }
            i = i + 1;
        }
        proof {
            if has_owner(self.entries@, o@) {
                let j = choose|j: int| #![auto]
                    0 <= j < self.entries@.len() && self.entries@[j].0@ == o@;
                assert(false);
            }
        }
        None
    }

    /// The amount `sp` may still move on `o`'s behalf, zero when either
    /// level has no entry.
    pub fn get(&self, o: &Address, sp: &Address) -> (r: Amount)
        ensures
            r.0 == self.spec_get(o@, sp@),
    {
        match self.find_owner(o) {
            Some(i) => {
                proof {
                    lemma_grant_first(self.entries@, i as int, o@, sp@);
                }
                self.entries[i].1.get(sp)
            }
            None => {
                proof {
                    lemma_grant_absent(self.entries@, o@, sp@);
                }
                Amount(0)
            }
        }
    }

    /// Record `v` for the pair `(o, sp)`, overwriting any earlier entry.
    /// Exactly that pair's reading changes.
    pub fn set(&mut self, o: &Address, sp: &Address, v: Amount)
        requires
            old(self).wf(),
        ensures
            final(self).wf(),
            final(self).spec_get(o@, sp@) == v.0,
            forall|o2: Seq<char>, s2: Seq<char>| #![auto]
                !(o2 == o@ && s2 == sp@)
                    ==> final(self).spec_get(o2, s2) == old(self).spec_get(o2, s2),
    {
        let ghost s0 = self.entries@;
        match self.find_owner(o) {
            Some(i) => {
                proof {
                    assert forall|sp2: Seq<char>| #![auto]
                        grant_lookup(s0, o@, sp2) == s0[i as int].1.spec_get(sp2) by {
                        lemma_grant_first(s0, i as int, o@, sp2);
                    }
                }
                let entry = &mut self.entries[i];
                entry.1.set(sp, v);
                proof {
                    let p = self.entries@[i as int];
                    assert(p.0 == s0[i as int].0);
                    assert(self.entries@ =~= s0.update(i as int, p));
                    assert forall|o2: Seq<char>, s2: Seq<char>| #![auto]
                        grant_lookup(s0.update(i as int, p), o2, s2)
                            == if o2 == o@ { p.1.spec_get(s2) } else { grant_lookup(s0, o2, s2) } by {
                        lemma_grant_update(s0, i as int, p, o2, s2);
                    }
                    assert forall|a: int, b: int| #![auto]
                        0 <= a < b < self.entries@.len()
                            implies self.entries@[a].0@ != self.entries@[b].0@ by {
                        assert(s0[a].0@ != s0[b].0@);
                    }
                    assert forall|a: int| #![auto]
                        0 <= a < self.entries@.len() implies self.entries@[a].1.wf() by {
                        if a != i {
                            assert(self.entries@[a] == s0[a]);
                        }
                    }
                }
            }
            None => {
                let mut inner = AmountTable::new();
                inner.set(sp, v);
                let key = o.dup();
                self.entries.push((key, inner));
                proof {
                    let p = (key, inner);
                    assert(self.entries@ =~= s0.push(p));
                    assert forall|o2: Seq<char>, s2: Seq<char>| #![auto]
                        grant_lookup(s0.push(p), o2, s2)
                            == if o2 == o@ { p.1.spec_get(s2) } else { grant_lookup(s0, o2, s2) } by {
                        lemma_grant_push(s0, p, o2, s2);
                    }
                    assert forall|o2: Seq<char>, s2: Seq<char>| #![auto]
                        !(o2 == o@ && s2 == sp@)
                            implies self.spec_get(o2, s2) == grant_lookup(s0, o2, s2) by {
                        if o2 == o@ {
                            lemma_grant_absent(s0, o@, s2);
                        }
                    }
                    lemma_distinct_owners_push(s0, p);
                    assert forall|a: int| #![auto]
                        0 <= a < self.entries@.len() implies self.entries@[a].1.wf() by {
                        if a < s0.len() {
                            assert(self.entries@[a] == s0[a]);
                        } else {
                            assert(self.entries@[a] == p);
                        }
                    }
                }
            }
        }
    }

    /// The entries, for enumeration by callers outside the ledger: each
    /// owner's table reads back through `spec_get`, owners are distinct, and
    /// every non-zero reading has its owner listed.
    pub fn items(&self) -> (r: &Vec<(Address, AmountTable)>)
        requires
            self.wf(),
        ensures
            forall|i: int| #![auto] 0 <= i < r@.len() ==> r@[i].1.wf(),
            forall|i: int, sp: Seq<char>| #![auto]
                0 <= i < r@.len() ==> r@[i].1.spec_get(sp) == self.spec_get(r@[i].0@, sp),
            forall|i: int, j: int| #![auto] 0 <= i < j < r@.len() ==> r@[i].0@ != r@[j].0@,
            forall|o: Seq<char>, sp: Seq<char>| #![auto]
                self.spec_get(o, sp) != 0
                    ==> exists|i: int| #![auto] 0 <= i < r@.len() && r@[i].0@ == o,
    {
        proof {
            let s = self.entries@;
            assert forall|i: int, sp: Seq<char>| #![auto]
                0 <= i < s.len() implies s[i].1.spec_get(sp) == self.spec_get(s[i].0@, sp) by {
                lemma_grant_first(s, i, s[i].0@, sp);
            }
            assert forall|o: Seq<char>, sp: Seq<char>| #![auto]
                self.spec_get(o, sp) != 0 implies has_owner(s, o) by {
                if !has_owner(s, o) {
                    lemma_grant_absent(s, o, sp);
                }
            }
        }
        &self.entries
    }
}

} // verus!
