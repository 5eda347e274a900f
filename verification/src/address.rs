use vstd::prelude::*;
use vstd::string::StrSliceExecFns;

verus! {

/// An account identity: an opaque, non-empty string, compared by its exact
/// contents.  Two addresses are equal iff their identity strings are equal.
#[derive(Clone, Debug)]
pub struct Address {
    text: String,
}

/// The identity strings this ledger accepts as addresses: any non-empty
/// string.  The caller identity handed in by the host dispatcher is parsed
/// against this predicate.
pub open spec fn valid_address(s: Seq<char>) -> bool {
    s.len() > 0
}

impl View for Address {
    type V = Seq<char>;

    closed spec fn view(&self) -> Seq<char> {
        self.text@
    }
}

impl PartialEq for Address {
    fn eq(&self, other: &Address) -> bool {
        self.text == other.text
    }
}

impl vstd::std_specs::cmp::PartialEqSpecImpl for Address {
    open spec fn obeys_eq_spec() -> bool {
        true
    }

    open spec fn eq_spec(&self, other: &Address) -> bool {
        self@ == other@
    }
}

impl Address {
    /// Parse an identity string into an address, rejecting strings that
    /// [`valid_address`] refuses.  The error value is a description of the
    /// failure for diagnostics.
    pub fn parse(s: &str) -> (r: Result<Address, String>)
        ensures
            r is Ok <==> valid_address(s@),
            r matches Ok(a) ==> a@ == s@,
    {
        if s.unicode_len() == 0 {
            Err("address must not be empty".to_owned())
        } else {
            Ok(Address { text: s.to_owned() })
        }
    }

    /// An exact copy of this address.
    pub fn dup(&self) -> (r: Address)
        ensures
            r == *self,
    {
        Address { text: self.text.clone() }
    }

    /// The identity string, for callers outside the ledger.
    pub fn text(&self) -> (r: &String)
        ensures
            r@ == self@,
    {
        &self.text
    }
}

} // verus!
