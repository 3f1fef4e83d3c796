//! Ledger identities and the keyless authority that a formula derives.
use vstd::prelude::*;

verus! {

/// A 32-byte ledger identity: an account address, an asset type or a program.
#[derive(Clone, Copy, Debug, PartialEq, Eq)]
pub struct Identity {
    pub bytes: [u8; 32],
}

impl View for Identity {
    type V = Seq<u8>;

    open spec fn view(&self) -> Seq<u8> {
        self.bytes@
    }
}

/// The domain tag that opens the seeds of every formula's authority.
pub const AUTHORITY_TAG: [u8; 8] = [99, 114, 97, 102, 116, 105, 110, 103];

/// The program address that the ledger's derivation gives for these seeds
/// under `program_id`, or `None` where it gives no address.
pub uninterp spec fn program_address(seeds: Seq<Seq<u8>>, program_id: Seq<u8>) -> Option<Seq<u8>>;

/// The seeds of a formula's authority: the tag, the formula's address, the bump.
pub open spec fn authority_seeds(formula_key: Seq<u8>, bump: u8) -> Seq<Seq<u8>> {
    seq![AUTHORITY_TAG@, formula_key, seq![bump]]
}

/// The authority of the formula at `formula_key` with this bump, if the
/// derivation gives one.
pub open spec fn authority_of(formula_key: Seq<u8>, bump: u8, program_id: Seq<u8>) -> Option<Seq<u8>> {
    program_address(authority_seeds(formula_key, bump), program_id)
}

/// Whether no bump above `bump` derives an authority for the formula: the
/// canonical bump is the highest one that derives one.
pub open spec fn no_higher_bump(formula_key: Seq<u8>, bump: u8, program_id: Seq<u8>) -> bool {
    forall|c: u8| bump < c ==> (#[trigger] authority_of(formula_key, c, program_id)) is None
}

/// The authority of the formula at `formula_key` where `bump` is its
/// canonical bump, and `None` for any other bump.
pub open spec fn canonical_authority_of(formula_key: Seq<u8>, bump: u8, program_id: Seq<u8>) -> Option<Seq<u8>> {
    if no_higher_bump(formula_key, bump, program_id) {
        authority_of(formula_key, bump, program_id)
    } else {
        None
    }
}

pub open spec fn identity_view(o: Option<Identity>) -> Option<Seq<u8>> {
    match o {
        Some(k) => Some(k@),
        None => None,
    }
}

impl Identity {
    pub fn new(bytes: [u8; 32]) -> (r: Identity)
        ensures
            r.bytes == bytes,
    {
        Identity { bytes }
    }

    /// Byte-wise equality of two identities.
    pub fn same(&self, other: &Identity) -> (r: bool)
        ensures
            r == (self@ == other@),
    {
        let mut i: usize = 0;
        while i < 32
            invariant
                0 <= i <= 32,
                self@.len() == 32,
                other@.len() == 32,
                forall|j: int| 0 <= j < i ==> self@[j] == other@[j],
            decreases 32 - i,
        {
            if self.bytes[i] != other.bytes[i] {
                return false;
            }
            i = i + 1;
        }
        assert(self@ =~= other@);
        true
    }
}

/// Relies on solana_program's Pubkey::create_program_address: off the chain it
/// hashes the seeds with the program id, and on the chain a syscall gives the
/// same; either way the outcome depends on the seeds and the program id alone.
/// Each of its errors (too many or too long seeds, a point on the curve) is `None`.
#[verifier::external_body]
fn create_program_address(tag: &[u8; 8], key: &[u8; 32], bump: u8, program_id: &Identity) -> (r: Option<Identity>)
    ensures
        identity_view(r) == program_address(seq![tag@, key@, seq![bump]], program_id@),
{
    let program = anchor_lang::prelude::Pubkey::new_from_array(program_id.bytes);
    let seeds: [&[u8]; 3] = [&tag[..], &key[..], &[bump]];
    anchor_lang::prelude::Pubkey::create_program_address(&seeds, &program)
        .ok()
        .map(|k| Identity { bytes: k.to_bytes() })
}

/// Derives the keyless authority of the formula stored at `formula_key`.
pub fn derive_authority(formula_key: &Identity, bump: u8, program_id: &Identity) -> (r: Option<Identity>)
    ensures
        identity_view(r) == authority_of(formula_key@, bump, program_id@),
{
    let tag = AUTHORITY_TAG;
    create_program_address(&tag, &formula_key.bytes, bump, program_id)
}

/// Derives the formula's authority where `bump` is its canonical bump, that
/// is, the highest bump that derives an authority; `None` for any other bump.
pub fn derive_canonical_authority(formula_key: &Identity, bump: u8, program_id: &Identity) -> (r: Option<Identity>)
    ensures
        identity_view(r) == canonical_authority_of(formula_key@, bump, program_id@),
{
    let mut b: u8 = 255;
    while b > bump
        invariant
            bump <= b,
            forall|c: u8| b < c ==> (#[trigger] authority_of(formula_key@, c, program_id@)) is None,
        decreases b,
    {
        if derive_authority(formula_key, b, program_id).is_some() {
            assert(authority_of(formula_key@, b, program_id@) is Some);
            return None;
        }
        b = b - 1;
    }
    derive_authority(formula_key, bump, program_id)
}

} // verus!
