use vstd::prelude::*;
use crate::address::Address;
use crate::amount::Amount;
use crate::ledger::{AmountTable, AllowanceTable};

verus! {

/// One snapshot of the ledger.  A handler consumes a snapshot and returns a
/// new one; no snapshot is ever mutated from the caller's point of view.
#[derive(Clone, Debug)]
pub struct State {
    /// Token symbol; static metadata.
    pub ticker: String,
    /// Optional descriptive name; static metadata.
    pub name: Option<String>,
    /// Number of decimal places of the display unit; static metadata.
    pub decimals: u8,
    /// The sum of all balances.
    pub total_supply: Amount,
    /// The deploying principal; static metadata.
    pub owner: Address,
    /// Balance by account; absent entries read zero.
    pub balances: AmountTable,
    /// Remaining allowance by (owner, spender); absent entries read zero.
    pub allowances: AllowanceTable,
}

impl State {
    /// The accounting invariant: both tables well formed, and the recorded
    /// total supply equal to the sum of all balances.
    pub open spec fn wf(&self) -> bool {
        &&& self.balances.wf()
        &&& self.allowances.wf()
        &&& self.balances.total() == self.total_supply.0
    }

    /// The balance recorded for `k`, zero when absent.
    pub open spec fn balance_of(&self, k: Seq<char>) -> u64 {
        self.balances.spec_get(k)
    }

    /// The remaining allowance of spender `sp` on owner `o`, zero when absent.
    pub open spec fn allowance_of(&self, o: Seq<char>, sp: Seq<char>) -> u64 {
        self.allowances.spec_get(o, sp)
    }

    /// The static metadata fields agree with `other`'s.
    pub open spec fn same_metadata(&self, other: &State) -> bool {
        &&& self.ticker == other.ticker
        &&& self.name == other.name
        &&& self.decimals == other.decimals
        &&& self.owner == other.owner
    }

    /// A fresh snapshot with the given metadata, no balances, no allowances
    /// and zero supply.
    pub fn new(ticker: String, name: Option<String>, decimals: u8, owner: Address) -> (s: State)
        ensures
            s.wf(),
            s.total_supply.0 == 0,
            forall|k: Seq<char>| #![auto] s.balance_of(k) == 0,
            forall|o: Seq<char>, sp: Seq<char>| #![auto] s.allowance_of(o, sp) == 0,
            s.ticker == ticker,
            s.name == name,
            s.decimals == decimals,
            s.owner == owner,
    {
        State {
            ticker,
            name,
            decimals,
            total_supply: Amount(0),
            owner,
            balances: AmountTable::new(),
            allowances: AllowanceTable::new(),
        }
    }

    /// Zero-defaulting balance accessor.
    pub fn balance(&self, a: &Address) -> (r: Amount)
        ensures
            r.0 == self.balance_of(a@),
    {
        self.balances.get(a)
    }

    /// Zero-defaulting allowance accessor.
    pub fn allowance(&self, o: &Address, sp: &Address) -> (r: Amount)
        ensures
            r.0 == self.allowance_of(o@, sp@),
    {
        self.allowances.get(o, sp)
    }

    /// Record `v` as `a`'s balance and move the total supply by the
    /// difference, as a mint or deployment-time builder would.  Exactly `a`'s
    /// balance changes; allowances and metadata stay.
    pub fn with_balance(self, a: &Address, v: Amount) -> (s: State)
        requires
            self.wf(),
            self.total_supply.0 - self.balance_of(a@) + v.0 <= u64::MAX,
        ensures
            s.wf(),
            s.balance_of(a@) == v.0,
            forall|k: Seq<char>| #![auto] k != a@ ==> s.balance_of(k) == self.balance_of(k),
            s.total_supply.0 == self.total_supply.0 - self.balance_of(a@) + v.0,
            s.allowances == self.allowances,
            forall|o2: Seq<char>, p2: Seq<char>| #![auto]
                s.allowance_of(o2, p2) == self.allowance_of(o2, p2),
            s.same_metadata(&self),
    {
        let mut s = self;
        let cur = s.balances.get(a);
        proof {
            s.balances.lemma_get_le_total(a@);
        }
        let supply = s.total_supply.0 - cur.0 + v.0;
        s.balances.set(a, v);
        s.total_supply = Amount(supply);
        s
    }

    /// Record `v` as the remaining allowance of spender `sp` on owner `o`.
    /// Exactly that entry changes; balances, supply and metadata stay.
    pub fn with_allowance(self, o: &Address, sp: &Address, v: Amount) -> (s: State)
        requires
            self.wf(),
        ensures
            s.wf(),
            s.allowance_of(o@, sp@) == v.0,
            forall|o2: Seq<char>, s2: Seq<char>| #![auto]
                !(o2 == o@ && s2 == sp@) ==> s.allowance_of(o2, s2) == self.allowance_of(o2, s2),
            s.balances == self.balances,
            forall|k: Seq<char>| #![auto] s.balance_of(k) == self.balance_of(k),
            s.total_supply == self.total_supply,
            s.same_metadata(&self),
    {
        let mut s = self;
        s.allowances.set(o, sp, v);
        s
    }
}

} // verus!
