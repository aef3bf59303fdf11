use vstd::prelude::*;
use crate::hexstr::{bytes_to_hex, hex_of, lemma_hex_of_is_lower, lemma_hex_of_len,
    is_lower_hex_char};
use sha2::{Digest, Sha256};

verus! {

/// The SHA-256 digest of the UTF-8 bytes of a character sequence.
/// The digest is a fixed function of the input alone; its definition
/// is the hash function's, not this crate's, so it is left unspecified
/// here and every fact about it comes from the trusted wrapper below.
pub uninterp spec fn sha256_of(s: Seq<char>) -> Seq<u8>;

/// Relies on sha2::Sha256::digest: a 256-bit (32-byte) digest computed
/// from the input bytes alone, the same on every call and every machine.
#[verifier::external_body]
fn sha256(s: &str) -> (r: Vec<u8>)
    ensures
        r@ == sha256_of(s@),
        r@.len() == 32,
{
    Sha256::digest(s.as_bytes()).to_vec()
}

/// The author identifier derived from an address and a pepper: the
/// lowercase hexadecimal rendering of the SHA-256 digest of the
/// address concatenated with the pepper.
pub open spec fn derived_id(addr: Seq<char>, pepper: Seq<char>) -> Seq<char> {
    hex_of(sha256_of(addr + pepper))
}

/// Derives pseudonymous author identifiers from raw network addresses,
/// mixing in a fixed secret pepper so that an identifier cannot be
/// mapped back to an address without the secret.
pub struct Deriver {
    pepper: String,
}

impl Deriver {
    /// The pepper this deriver was built with.
    pub closed spec fn pepper(&self) -> Seq<char> {
        self.pepper@
    }

    pub fn new(pepper: String) -> (r: Deriver)
        ensures
            r.pepper() == pepper@,
    {
        Deriver { pepper }
    }

    /// Derives the author identifier for a raw address string, taken in
    /// its literal textual form: two addresses that differ only in the
    /// port are distinct inputs and yield distinct identifiers.
    pub fn derive(&self, addr: &str) -> (r: String)
        ensures
            r@ == derived_id(addr@, self.pepper()),
            r@.len() == 64,
            forall|i: int| 0 <= i < r@.len() ==> is_lower_hex_char(#[trigger] r@[i]),
    {
        let mut keyed = addr.to_owned();
        keyed.append(self.pepper.as_str());
        let digest = sha256(keyed.as_str());
        let hex = bytes_to_hex(&digest);
        proof {
            lemma_hex_of_len(sha256_of(addr@ + self.pepper@));
            lemma_hex_of_is_lower(sha256_of(addr@ + self.pepper@));
        }
        hex
    }
}

/// Derivation is deterministic: two derivations from the same address
/// and the same pepper are the same identifier.
pub proof fn lemma_derive_deterministic(
    addr: Seq<char>,
    pepper: Seq<char>,
    r1: Seq<char>,
    r2: Seq<char>,
)
    requires
        r1 == derived_id(addr, pepper),
        r2 == derived_id(addr, pepper),
    ensures
        r1 == r2,
{
}

} // verus!
