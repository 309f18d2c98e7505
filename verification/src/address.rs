//! Bluetooth device addresses.

use vstd::prelude::*;

verus! {

/// The six bytes of a Bluetooth device address, least significant byte first,
/// as the controller sends them.
#[derive(Clone, Copy, Debug)]
pub struct BdAddr {
    pub raw: [u8; 6],
}

impl BdAddr {
    /// The address with these bytes.
    pub fn new(raw: [u8; 6]) -> (addr: BdAddr)
        ensures
            addr.raw == raw,
    {
        BdAddr { raw }
    }
}

impl PartialEq for BdAddr {
    fn eq(&self, other: &Self) -> (same: bool) {
        let same = self.raw[0] == other.raw[0] && self.raw[1] == other.raw[1] && self.raw[2]
            == other.raw[2] && self.raw[3] == other.raw[3] && self.raw[4] == other.raw[4]
            && self.raw[5] == other.raw[5];
        proof {
            if same {
                assert(self.raw =~= other.raw);
            }
        }
        same
    }
}

impl Eq for BdAddr {

}

impl vstd::std_specs::cmp::PartialEqSpecImpl for BdAddr {
    open spec fn obeys_eq_spec() -> bool {
        true
    }

    open spec fn eq_spec(&self, other: &Self) -> bool {
        *self == *other
    }
}

/// A device address together with its address type, as a connect or a filter
/// accept list needs it.
#[derive(Clone, Copy, Debug)]
pub struct Address {
    /// The address type as the controller numbers it: 0 for public, 1 for
    /// random, 2 and 3 for resolved identities.
    pub kind: u8,
    pub addr: BdAddr,
}

impl Address {
    /// A random address with these bytes.
    ///
    /// Calls `trouble_host::Address::random`, which pairs the bytes, unchanged,
    /// with the address type 1 (random).
    #[verifier::external_body]
    pub(crate) fn random(raw: [u8; 6]) -> (address: Address)
        ensures
            address.kind == 1,
            address.addr.raw == raw,
    {
        let address = trouble_host::Address::random(raw);
        Address {
            kind: address.kind.as_raw(),
            addr: BdAddr { raw: address.addr.into_inner() },
        }
    }
}

impl PartialEq for Address {
    fn eq(&self, other: &Self) -> (same: bool) {
        self.kind == other.kind && self.addr == other.addr
    }
}

impl Eq for Address {

}

impl vstd::std_specs::cmp::PartialEqSpecImpl for Address {
    open spec fn obeys_eq_spec() -> bool {
        true
    }

    open spec fn eq_spec(&self, other: &Self) -> bool {
        *self == *other
    }
}

/// Two device addresses are the same exactly if all six bytes are, and two
/// addresses if the address types are the same too.
pub proof fn law_same_address(left: Address, right: Address)
    ensures
        vstd::std_specs::cmp::PartialEqSpec::eq_spec(&left.addr, &right.addr) <==> (forall|i: int|
            0 <= i < 6 ==> #[trigger] left.addr.raw@[i] == right.addr.raw@[i]),
        vstd::std_specs::cmp::PartialEqSpec::eq_spec(&left, &right) <==> left.kind == right.kind
            && (forall|i: int|
            0 <= i < 6 ==> #[trigger] left.addr.raw@[i] == right.addr.raw@[i]),
{
    if forall|i: int| 0 <= i < 6 ==> #[trigger] left.addr.raw@[i] == right.addr.raw@[i] {
        assert(left.addr.raw =~= right.addr.raw);
    }
}

} // verus!
