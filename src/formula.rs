//! Formulas: what a recipe consumes and what it produces.
use vstd::prelude::*;
use crate::identity::Identity;

verus! {

/// One required input of a formula.
#[derive(Clone, Copy, Debug, PartialEq, Eq)]
pub struct Ingredient {
    /// The asset type (mint) the input must be of.
    pub mint: Identity,
    /// The quantity the holder must have.
    pub amount: u8,
    /// Whether crafting destroys `amount` units, or only checks they are held.
    pub burn_on_craft: bool,
}

/// One output of a formula.
#[derive(Clone, Copy, Debug, PartialEq, Eq)]
pub struct Item {
    /// The asset type (mint) of the output.
    pub mint: Identity,
    /// The quantity minted per craft; a unique output always moves one unit.
    pub amount: u8,
    /// Whether the output is a unique asset held in custody rather than minted.
    pub is_master_edition: bool,
    /// For a unique output, the custody account that holds its one instance.
    pub master_token_account: Identity,
}

/// A persisted recipe.
#[derive(Clone, Debug, PartialEq, Eq)]
pub struct Formula {
    pub ingredients: Vec<Ingredient>,
    pub output_items: Vec<Item>,
}

/// The authority kinds a ledger account or asset type can have reassigned.
#[derive(Clone, Copy, Debug, PartialEq, Eq)]
pub enum AuthorityType {
    /// Authority to mint new units of an asset type.
    MintTokens,
    /// Authority to freeze any holding of an asset type.
    FreezeAccount,
    /// Owner of a holding account.
    AccountOwner,
    /// Authority to close a holding account.
    CloseAccount,
}

/// Every way registration and crafting can fail.
#[derive(Clone, Copy, Debug, PartialEq, Eq)]
pub enum ErrorCode {
    /// The accounts supplied do not match the formula's ingredients or outputs.
    AccountCountMismatch,
    /// A holding is of another asset type than its ingredient asks for.
    InvalidAssetType,
    /// A holding has less than its ingredient's amount.
    InsufficientAmount,
    /// A holding is not controlled by the caller.
    UnauthorizedHolder,
    /// The bump does not derive the authority that was supplied.
    AuthorityDerivationMismatch,
    /// The ledger refused a call.
    LedgerOperationFailed,
    /// An account is not kept by the expected ledger program.
    InvalidAccountData,
    /// A custody account is not controlled by the formula's authority.
    TokenAccountOwnerMustBeOutputMintAuthority,
}

/// Bytes of a stored ingredient: a 32-byte mint, an amount and a flag.
pub const INGREDIENT_SIZE: u64 = 34;

/// Bytes of a stored output item: two 32-byte keys, an amount and a flag.
pub const ITEM_SIZE: u64 = 66;

/// Bytes of the record header (8) and of the two length prefixes (4 each).
pub const FORMULA_HEADER_SIZE: u64 = 16;

pub open spec fn space_of(ingredient_count: int, output_count: int) -> int {
    FORMULA_HEADER_SIZE + INGREDIENT_SIZE * ingredient_count + ITEM_SIZE * output_count
}

impl Formula {
    /// The storage this formula's record occupies, or `None` where that does
    /// not fit in a `u64`.
    pub fn record_space(&self) -> (r: Option<u64>)
        ensures
            r matches Some(s) ==> s == space_of(self.ingredients@.len() as int, self.output_items@.len() as int),
            r is None <==> space_of(self.ingredients@.len() as int, self.output_items@.len() as int) > u64::MAX,
    {
        formula_space(self.ingredients.len() as u64, self.output_items.len() as u64)
    }
}

/// The storage a formula with these counts must declare when it is created,
/// or `None` where that does not fit in a `u64`.
pub fn formula_space(ingredient_count: u64, output_count: u64) -> (r: Option<u64>)
    ensures
        r matches Some(s) ==> s == space_of(ingredient_count as int, output_count as int),
        r is None <==> space_of(ingredient_count as int, output_count as int) > u64::MAX,
{
    let a = ingredient_count.checked_mul(INGREDIENT_SIZE);
    let b = output_count.checked_mul(ITEM_SIZE);
    match (a, b) {
        (Some(a), Some(b)) => {
            match a.checked_add(b) {
                Some(s) => s.checked_add(FORMULA_HEADER_SIZE),
                None => None,
            }
        },
        _ => None,
    }
}

} // verus!
