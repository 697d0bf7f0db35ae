//! Principals: the identifiers of users and canisters on the Internet Computer.
//!
//! A principal is a blob of at most 29 bytes. Its textual form (with a CRC32
//! check sequence and base32) is computed by `candid`, re-exported by `ic_cdk`.

use vstd::prelude::*;
use ic_cdk::export::Principal as CandidPrincipal;
use crate::text::bytes_to_vec;

verus! {

/// An Internet Computer principal, held as its bytes.
#[derive(Debug, PartialEq, Eq, Hash)]
pub struct Principal {
    bytes: Vec<u8>,
}

/// The longest blob that a principal can be.
pub open spec fn principal_max_len() -> nat {
    29
}

/// The textual form of the principal with the given bytes, as `candid`'s
/// `Principal::to_text` writes it.
pub uninterp spec fn principal_text(bytes: Seq<u8>) -> Seq<char>;

/// The bytes of the principal that `candid`'s `Principal::from_text` reads
/// from `text`, or `None` where it refuses the text.
pub uninterp spec fn principal_of_text(text: Seq<char>) -> Option<Seq<u8>>;

/// `candid::Principal::to_text`, on the principal with the given bytes.
/// `Principal::from_text` reads the text back to the same bytes: it decodes
/// the base32 groups, checks the CRC32 and compares the text with the
/// principal's own text, which is this one.
#[verifier::external_body]
fn candid_principal_text(bytes: &[u8]) -> (r: String)
    requires
        bytes@.len() <= principal_max_len(),
    ensures
        r@ == principal_text(bytes@),
        principal_of_text(r@) == Some(bytes@),
{
    CandidPrincipal::from_slice(bytes).to_text()
}

/// `candid::Principal::from_text`, giving back the bytes of the principal it
/// read. Its source builds a principal of at most 29 bytes whenever it succeeds.
#[verifier::external_body]
fn candid_principal_from_text(text: &str) -> (r: Option<Vec<u8>>)
    ensures
        r is Some <==> principal_of_text(text@) is Some,
        r matches Some(v) ==> v@ == principal_of_text(text@)->0 && v@.len() <= principal_max_len(),
{
    match CandidPrincipal::from_text(text) {
        Ok(p) => Some(p.as_slice().to_vec()),
        Err(_) => None,
    }
}

impl View for Principal {
    type V = Seq<u8>;

    closed spec fn view(&self) -> Seq<u8> {
        self.bytes@
    }
}

impl Principal {
    #[verifier::type_invariant]
    spec fn short_enough(&self) -> bool {
        self.bytes@.len() <= principal_max_len()
    }

    /// The principal with the given bytes (at most 29 of them).
    pub fn from_slice(bytes: &[u8]) -> (r: Principal)
        requires
            bytes@.len() <= principal_max_len(),
        ensures
            r@ == bytes@,
    {
        Principal { bytes: bytes_to_vec(bytes) }
    }

    /// The principal with the given bytes, if there are at most 29.
    pub fn try_from_slice(bytes: &[u8]) -> (r: Option<Principal>)
        ensures
            r is Some <==> bytes@.len() <= principal_max_len(),
            r matches Some(p) ==> p@ == bytes@,
    {
        if bytes.len() <= 29 {
            Some(Principal { bytes: bytes_to_vec(bytes) })
        } else {
            None
        }
    }

    /// The management canister, whose principal is the empty blob.
    pub fn management_canister() -> (r: Principal)
        ensures
            r@ == Seq::<u8>::empty(),
    {
        Principal { bytes: Vec::new() }
    }

    /// The anonymous principal, the single byte 4.
    pub fn anonymous() -> (r: Principal)
        ensures
            r@ == seq![4u8],
    {
        let mut bytes: Vec<u8> = Vec::new();
        bytes.push(4);
        Principal { bytes }
    }

    /// The bytes of the principal.
    pub fn as_slice(&self) -> (r: &[u8])
        ensures
            r@ == self@,
    {
        self.bytes.as_slice()
    }

    /// Whether the two principals are the same blob.
    pub fn same_as(&self, other: &Principal) -> (r: bool)
        ensures
            r == (self@ == other@),
    {
        let n = self.bytes.len();
        if n != other.bytes.len() {
            return false;
        }
        let mut i: usize = 0;
        while i < n
            invariant
                n == self.bytes@.len(),
                n == other.bytes@.len(),
                i <= n,
                forall|k: int| 0 <= k < i ==> self.bytes@[k] == other.bytes@[k],
            decreases n - i,
        {
            if self.bytes[i] != other.bytes[i] {
                return false;
            }
            i = i + 1;
        }
        assert(self.bytes@ =~= other.bytes@);
        true
    }

    /// A second principal with the same bytes.
    pub fn duplicate(&self) -> (r: Principal)
        ensures
            r@ == self@,
    {
        proof {
            use_type_invariant(self);
        }
        Principal { bytes: bytes_to_vec(self.bytes.as_slice()) }
    }

    /// The textual form of the principal.
    pub fn to_text(&self) -> (r: String)
        ensures
            r@ == principal_text(self@),
            principal_of_text(r@) == Some(self@),
    {
        proof {
            use_type_invariant(self);
        }
        candid_principal_text(self.bytes.as_slice())
    }

    /// Reads a principal from its textual form.
    pub fn from_text(text: &str) -> (r: Option<Principal>)
        ensures
            r is Some <==> principal_of_text(text@) is Some,
            r matches Some(p) ==> p@ == principal_of_text(text@)->0,
    {
        match candid_principal_from_text(text) {
            Some(v) => Some(Principal { bytes: v }),
            None => None,
        }
    }
}

/// The management canister's principal, the empty blob.
pub open spec fn management_principal() -> Seq<u8> {
    Seq::empty()
}

/// The anonymous principal, the single byte 4.
pub open spec fn anonymous_principal() -> Seq<u8> {
    seq![4u8]
}

} // verus!
