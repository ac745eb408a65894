//! Plain value types shared by the whole crate: EVM addresses and transaction
//! hashes, caller principals, and timer handles.

use vstd::prelude::*;

verus! {

/// Compares two byte vectors element by element.
pub fn bytes_eq(a: &Vec<u8>, b: &Vec<u8>) -> (r: bool)
    ensures
        r == (a@ == b@),
{
    if a.len() != b.len() {
        return false;
    }
    let mut i: usize = 0;
    while i < a.len()
        invariant
            i <= a.len(),
            a.len() == b.len(),
            forall|j: int| 0 <= j < i ==> a@[j] == b@[j],
        decreases a.len() - i,
    {
        if a[i] != b[i] {
            return false;
        }
        i = i + 1;
    }
    proof {
        assert(a@ =~= b@);
    }
    true
}

/// A 20-byte EVM account or contract address.
#[derive(Debug)]
pub struct H160 {
    pub bytes: Vec<u8>,
}

impl View for H160 {
    type V = Seq<u8>;

    open spec fn view(&self) -> Seq<u8> {
        self.bytes@
    }
}

impl H160 {
    /// True when the address has its full 20 bytes.
    pub open spec fn wf(&self) -> bool {
        self@.len() == 20
    }

    pub fn from_slice(data: &[u8]) -> (r: H160)
        requires
            data@.len() == 20,
        ensures
            r@ == data@,
            r.wf(),
    {
        H160 { bytes: vstd::slice::slice_to_vec(data) }
    }

    /// The all-zero address.
    pub fn zero() -> (r: H160)
        ensures
            r@ == Seq::new(20, |i: int| 0u8),
            r.wf(),
    {
        let mut bytes: Vec<u8> = Vec::new();
        let mut i: usize = 0;
        while i < 20
            invariant
                i <= 20,
            bytes@ =~= Seq::new(i as nat, |j: int| 0u8),
            decreases 20 - i,
        {
            bytes.push(0u8);
            i = i + 1;
        }
        H160 { bytes }
    }
}

impl H160 {
    /// Parses `0x`-prefixed 40-digit hexadecimal text into an address.
    pub fn from_hex_str(s: &str) -> (r: Option<H160>)
        ensures
            r is Some <==> (s@.len() == 42 && s@[0] == '0' && s@[1] == 'x'
                && crate::encoding::all_hex(s@.subrange(2, 42))),
            r is Some ==> r->0@ == crate::encoding::hex_bytes_of(s@.subrange(2, 42))
                && r->0.wf(),
    {
        let n = s.unicode_len();
        if n != 42 {
            return None;
        }
        if s.get_char(0) != '0' || s.get_char(1) != 'x' {
            return None;
        }
        let digits = s.substring_char(2, 42);
        match crate::encoding::decode_hex_str(digits) {
            Some(bytes) => Some(H160 { bytes }),
            None => None,
        }
    }
}

impl Clone for H160 {
    fn clone(&self) -> (r: Self)
        ensures
            r@ == self@,
    {
        H160 { bytes: self.bytes.clone() }
    }
}

impl PartialEq for H160 {
    fn eq(&self, other: &Self) -> (r: bool) {
        bytes_eq(&self.bytes, &other.bytes)
    }
}

impl vstd::std_specs::cmp::PartialEqSpecImpl for H160 {
    open spec fn obeys_eq_spec() -> bool {
        true
    }

    open spec fn eq_spec(&self, other: &Self) -> bool {
        self@ == other@
    }
}

/// A 32-byte transaction hash.
#[derive(Debug)]
pub struct H256 {
    pub bytes: Vec<u8>,
}

impl View for H256 {
    type V = Seq<u8>;

    open spec fn view(&self) -> Seq<u8> {
        self.bytes@
    }
}

impl H256 {
    /// True when the hash has its full 32 bytes.
    pub open spec fn wf(&self) -> bool {
        self@.len() == 32
    }

    pub fn from_slice(data: &[u8]) -> (r: H256)
        requires
            data@.len() == 32,
        ensures
            r@ == data@,
            r.wf(),
    {
        H256 { bytes: vstd::slice::slice_to_vec(data) }
    }
}

impl Clone for H256 {
    fn clone(&self) -> (r: Self)
        ensures
            r@ == self@,
    {
        H256 { bytes: self.bytes.clone() }
    }
}

impl PartialEq for H256 {
    fn eq(&self, other: &Self) -> (r: bool) {
        bytes_eq(&self.bytes, &other.bytes)
    }
}

impl vstd::std_specs::cmp::PartialEqSpecImpl for H256 {
    open spec fn obeys_eq_spec() -> bool {
        true
    }

    open spec fn eq_spec(&self, other: &Self) -> bool {
        self@ == other@
    }
}

/// The caller identity of the actor runtime, as an opaque byte string.
#[derive(Debug)]
pub struct Principal {
    pub bytes: Vec<u8>,
}

impl View for Principal {
    type V = Seq<u8>;

    open spec fn view(&self) -> Seq<u8> {
        self.bytes@
    }
}

/// The byte string of the anonymous principal.
pub open spec fn anonymous_bytes() -> Seq<u8> {
    seq![4u8]
}

impl Principal {
    /// The anonymous principal, which must never become an owner.
    pub fn anonymous() -> (r: Principal)
        ensures
            r@ == anonymous_bytes(),
    {
        let mut bytes: Vec<u8> = Vec::new();
        bytes.push(4u8);
        proof {
            assert(bytes@ =~= anonymous_bytes());
        }
        Principal { bytes }
    }

    /// The management principal, whose byte string is empty.
    pub fn management_canister() -> (r: Principal)
        ensures
            r@ == Seq::<u8>::empty(),
    {
        Principal { bytes: Vec::new() }
    }

    pub fn from_slice(data: &[u8]) -> (r: Principal)
        ensures
            r@ == data@,
    {
        Principal { bytes: vstd::slice::slice_to_vec(data) }
    }

    pub fn is_anonymous(&self) -> (r: bool)
        ensures
            r == (self@ == anonymous_bytes()),
    {
        let anon = Principal::anonymous();
        bytes_eq(&self.bytes, &anon.bytes)
    }
}

impl Clone for Principal {
    fn clone(&self) -> (r: Self)
        ensures
            r@ == self@,
    {
        Principal { bytes: self.bytes.clone() }
    }
}

impl PartialEq for Principal {
    fn eq(&self, other: &Self) -> (r: bool) {
        bytes_eq(&self.bytes, &other.bytes)
    }
}

impl vstd::std_specs::cmp::PartialEqSpecImpl for Principal {
    open spec fn obeys_eq_spec() -> bool {
        true
    }

    open spec fn eq_spec(&self, other: &Self) -> bool {
        self@ == other@
    }
}

/// Handle of a recurring timer armed by the scheduler. Timer handles are not
/// durable across restarts; they identify a currently armed timer only.
#[derive(Debug, Clone, Copy, PartialEq, Eq, Structural)]
pub struct TimerId(pub u64);

impl View for TimerId {
    type V = u64;

    open spec fn view(&self) -> u64 {
        self.0
    }
}

impl Default for TimerId {
    fn default() -> (r: Self)
        ensures
            r.0 == 0,
    {
        TimerId(0)
    }
}

} // verus!
