//! Account addresses, and the two computations on them that are left to
//! `solana_program`: deriving a program address and reading an address
//! from its text form.

use solana_program::pubkey::Pubkey;
use std::str::FromStr;
use vstd::prelude::*;

verus! {

/// The address of an account or of a caller: thirty-two bytes that are
/// compared and never looked into.
#[derive(Clone, Copy, Debug, PartialEq, Eq, Hash)]
pub struct Identity {
    pub bytes: [u8; 32],
}

impl View for Identity {
    type V = Seq<u8>;

    open spec fn view(&self) -> Seq<u8> {
        self.bytes@
    }
}

impl Identity {
    /// The address with the given bytes.
    pub fn new(bytes: [u8; 32]) -> (id: Identity)
        ensures
            id@ == bytes@,
    {
        Identity { bytes }
    }

    /// Whether two addresses are the same.
    pub fn same(&self, other: &Identity) -> (b: bool)
        ensures
            b == (self@ == other@),
    {
        let mut i: usize = 0;
        while i < 32
            invariant
                i <= 32,
                forall|j: int| 0 <= j < i ==> self.bytes@[j] == other.bytes@[j],
            decreases 32 - i,
        {
            if self.bytes[i] != other.bytes[i] {
                return false;
            }
            i += 1;
        }
        assert(self@ =~= other@);
        true
    }
}

/// The program address that `solana_program` derives from a creator's
/// address, a title's bytes and the program's address, with the bump byte
/// that was found for it; `None` where it derives none.
pub uninterp spec fn derived_address(creator: Seq<u8>, title: Seq<u8>, program: Seq<u8>) -> Option<
    (Seq<u8>, u8),
>;

/// The address that `solana_program` reads from a text, `None` where the
/// text is not the base-58 form of thirty-two bytes.
pub uninterp spec fn parsed_identity(text: Seq<char>) -> Option<Seq<u8>>;

/// `Pubkey::try_find_program_address` of `solana_program`, with the seeds
/// `[creator, title]`. The result is a function of the three arguments
/// alone, so it is `derived_address` of them. A seed of more than
/// thirty-two bytes is refused, so a longer title derives nothing.
#[verifier::external_body]
fn try_find_program_address(creator: &Identity, title: &[u8], program: &Identity) -> (r: Option<
    (Identity, u8),
>)
    ensures
        match (derived_address(creator@, title@, program@), r) {
            (Some((address, bump)), Some((got, found))) => got@ == address && found == bump,
            (None, None) => true,
            _ => false,
        },
        title@.len() > 32 ==> r is None,
{
    let program = Pubkey::new_from_array(program.bytes);
    match Pubkey::try_find_program_address(&[&creator.bytes, title], &program) {
        Some((address, bump)) => Some((Identity { bytes: address.to_bytes() }, bump)),
        None => None,
    }
}

/// `Pubkey::from_str` of `solana_program`. The result is a function of the
/// text alone, so it is `parsed_identity` of it.
#[verifier::external_body]
fn pubkey_from_str(text: &str) -> (r: Option<Identity>)
    ensures
        match (parsed_identity(text@), r) {
            (Some(bytes), Some(got)) => got@ == bytes,
            (None, None) => true,
            _ => false,
        },
{
    match Pubkey::from_str(text) {
        Ok(key) => Some(Identity { bytes: key.to_bytes() }),
        Err(_) => None,
    }
}

/// What `derive_address` returns for the given inputs.
pub open spec fn derives(
    creator: Seq<u8>,
    title: Seq<char>,
    program: Seq<u8>,
    r: Option<(Identity, u8)>,
) -> bool {
    match (derived_address(creator, vstd::utf8::encode_utf8(title), program), r) {
        (Some((address, bump)), Some((got, found))) => got@ == address && found == bump,
        (None, None) => true,
        _ => false,
    }
}

/// The address at which a creator's note with a given title is kept, and
/// the bump byte that proves the derivation to the allocation service.
/// `None` where no address can be derived, as for a title of more than
/// thirty-two bytes.
pub fn derive_address(creator: &Identity, title: &str, program: &Identity) -> (r: Option<(Identity, u8)>)
    ensures
        derives(creator@, title@, program@, r),
        vstd::utf8::encode_utf8(title@).len() > 32 ==> r is None,
{
    try_find_program_address(creator, title.as_bytes(), program)
}

/// The address that a text spells, if it spells one.
pub fn parse_identity(text: &str) -> (r: Option<Identity>)
    ensures
        match (parsed_identity(text@), r) {
            (Some(bytes), Some(got)) => got@ == bytes,
            (None, None) => true,
            _ => false,
        },
{
    pubkey_from_str(text)
}

/// Deriving is deterministic: two results for the same creator, title and
/// program are the same address and the same bump byte, or both are none.
pub proof fn lemma_derive_deterministic(
    creator: Seq<u8>,
    title: Seq<char>,
    program: Seq<u8>,
    first: Option<(Identity, u8)>,
    second: Option<(Identity, u8)>,
)
    requires
        derives(creator, title, program, first),
        derives(creator, title, program, second),
    ensures
        match (first, second) {
            (Some((a, x)), Some((b, y))) => a@ == b@ && x == y,
            (None, None) => true,
            _ => false,
        },
{
}

} // verus!
