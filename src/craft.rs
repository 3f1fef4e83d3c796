//! Crafting: a formula's ingredients checked against the caller's holdings,
//! then the burns and emissions that carry it out, as one plan of ledger calls.
use vstd::prelude::*;
use crate::formula::{ErrorCode, Formula, Ingredient, Item};
use crate::identity::{canonical_authority_of, derive_canonical_authority, identity_view, Identity};
use crate::ledger::{Holding, LedgerCall};

verus! {

/// The accounts and formula a craft is given.
pub struct Craft {
    /// The formula being crafted.
    pub formula: Formula,
    /// The address the formula is stored at.
    pub formula_key: Identity,
    /// The caller, who holds and controls the ingredients.
    pub authority: Identity,
    /// The formula's derived authority, which signs every emission.
    pub pda_auth: Identity,
    /// The ledger program that must keep every holding.
    pub token_program: Identity,
    /// The crafting program, under which the authority is derived.
    pub program_id: Identity,
}

/// Why a holding cannot stand for an ingredient, checked in this order.
pub open spec fn ingredient_error(ing: Ingredient, h: Holding, caller: Identity, ledger: Identity) -> Option<ErrorCode> {
    if h.owner@ != ledger@ {
        Some(ErrorCode::InvalidAccountData)
    } else if h.asset_type@ != ing.mint@ {
        Some(ErrorCode::InvalidAssetType)
    } else if h.balance < ing.amount {
        Some(ErrorCode::InsufficientAmount)
    } else if h.authority@ != caller@ {
        Some(ErrorCode::UnauthorizedHolder)
    } else {
        None
    }
}

/// The error of the first ingredient from index `i` on that fails its check.
pub open spec fn first_ingredient_error(
    ings: Seq<Ingredient>,
    hs: Seq<Holding>,
    caller: Identity,
    ledger: Identity,
    i: int,
) -> Option<ErrorCode>
    decreases ings.len() - i,
{
    if i < 0 || i >= ings.len() {
        None
    } else {
        match ingredient_error(ings[i], hs[i], caller, ledger) {
            Some(e) => Some(e),
            None => first_ingredient_error(ings, hs, caller, ledger, i + 1),
        }
    }
}

pub open spec fn burn_call(ing: Ingredient, h: Holding, caller: Identity) -> LedgerCall {
    LedgerCall::Burn { holding: h.address, asset_type: ing.mint, amount: ing.amount as u64, authority: caller }
}

/// The burns of the ingredients from index `i` on, in order, signed by the caller.
pub open spec fn burn_calls(ings: Seq<Ingredient>, hs: Seq<Holding>, caller: Identity, i: int) -> Seq<LedgerCall>
    decreases ings.len() - i,
{
    if i < 0 || i >= ings.len() {
        Seq::empty()
    } else if ings[i].burn_on_craft {
        seq![burn_call(ings[i], hs[i], caller)] + burn_calls(ings, hs, caller, i + 1)
    } else {
        burn_calls(ings, hs, caller, i + 1)
    }
}

/// How one output reaches its target: a unique one moves its single instance
/// out of custody, any other is minted.
pub open spec fn emit_call(item: Item, target: Identity, authority: Identity) -> LedgerCall {
    if item.is_master_edition {
        LedgerCall::Transfer { from: item.master_token_account, to: target, amount: 1, authority }
    } else {
        LedgerCall::MintTo { asset_type: item.mint, to: target, amount: item.amount as u64, authority }
    }
}

/// The emissions of the outputs from index `i` on, in order.
pub open spec fn emit_calls(items: Seq<Item>, targets: Seq<Identity>, authority: Identity, i: int) -> Seq<LedgerCall>
    decreases items.len() - i,
{
    if i < 0 || i >= items.len() {
        Seq::empty()
    } else {
        seq![emit_call(items[i], targets[i], authority)] + emit_calls(items, targets, authority, i + 1)
    }
}

/// What crafting decides, given the authority that the bump derives where it
/// is the formula's canonical bump (`None` for any other bump): the
/// plan of ledger calls, or the error.
pub open spec fn craft_outcome(
    ctx: Craft,
    ingredient_accounts: Seq<Holding>,
    output_accounts: Seq<Identity>,
    derived: Option<Seq<u8>>,
) -> Result<Seq<LedgerCall>, ErrorCode> {
    let ings = ctx.formula.ingredients@;
    let outs = ctx.formula.output_items@;
    if ingredient_accounts.len() != ings.len() || output_accounts.len() != outs.len() {
        Err(ErrorCode::AccountCountMismatch)
    } else if derived != Some(ctx.pda_auth@) {
        Err(ErrorCode::AuthorityDerivationMismatch)
    } else {
        match first_ingredient_error(ings, ingredient_accounts, ctx.authority, ctx.token_program, 0) {
            Some(e) => Err(e),
            None => Ok(
                burn_calls(ings, ingredient_accounts, ctx.authority, 0)
                    + emit_calls(outs, output_accounts, ctx.pda_auth, 0),
            ),
        }
    }
}

pub open spec fn plan_view(r: Result<Vec<LedgerCall>, ErrorCode>) -> Result<Seq<LedgerCall>, ErrorCode> {
    match r {
        Ok(v) => Ok(v@),
        Err(e) => Err(e),
    }
}

/// Checks one holding against its ingredient.
pub fn check_ingredient(ing: &Ingredient, h: &Holding, caller: &Identity, ledger: &Identity) -> (r: Option<ErrorCode>)
    ensures
        r == ingredient_error(*ing, *h, *caller, *ledger),
{
    if !h.owner.same(ledger) {
        Some(ErrorCode::InvalidAccountData)
    } else if !h.asset_type.same(&ing.mint) {
        Some(ErrorCode::InvalidAssetType)
    } else if h.balance < ing.amount as u64 {
        Some(ErrorCode::InsufficientAmount)
    } else if !h.authority.same(caller) {
        Some(ErrorCode::UnauthorizedHolder)
    } else {
        None
    }
}

/// Crafts with the authority that the canonical bump derived (`None` where
/// the bump was not canonical): checks the accounts against the formula and returns the ledger
/// calls that burn the consumed ingredients and emit the outputs.
pub fn craft_with_authority(
    ctx: &Craft,
    ingredient_accounts: &Vec<Holding>,
    output_accounts: &Vec<Identity>,
    derived: Option<Identity>,
) -> (r: Result<Vec<LedgerCall>, ErrorCode>)
    ensures
        plan_view(r) == craft_outcome(*ctx, ingredient_accounts@, output_accounts@, identity_view(derived)),
{
    let ings = &ctx.formula.ingredients;
    let outs = &ctx.formula.output_items;
    if ingredient_accounts.len() != ings.len() || output_accounts.len() != outs.len() {
        return Err(ErrorCode::AccountCountMismatch);
    }
    match &derived {
        Some(k) => {
            if !k.same(&ctx.pda_auth) {
                return Err(ErrorCode::AuthorityDerivationMismatch);
            }
        },
        None => {
            return Err(ErrorCode::AuthorityDerivationMismatch);
        },
    }
    let ghost hs = ingredient_accounts@;
    let mut i: usize = 0;
    while i < ings.len()
        invariant
            i <= ings@.len(),
            ings@.len() == hs.len(),
            hs == ingredient_accounts@,
            output_accounts@.len() == outs@.len(),
            ings@ == ctx.formula.ingredients@,
            outs@ == ctx.formula.output_items@,
            identity_view(derived) == Some(ctx.pda_auth@),
            first_ingredient_error(ings@, hs, ctx.authority, ctx.token_program, 0)
                == first_ingredient_error(ings@, hs, ctx.authority, ctx.token_program, i as int),
        decreases ings@.len() - i,
    {
        if let Some(e) = check_ingredient(&ings[i], &ingredient_accounts[i], &ctx.authority, &ctx.token_program) {
            return Err(e);
        }
        i = i + 1;
    }
    let mut plan: Vec<LedgerCall> = Vec::new();
    let ghost burns = burn_calls(ings@, hs, ctx.authority, 0);
    let mut i: usize = 0;
    while i < ings.len()
        invariant
            i <= ings@.len(),
            ings@.len() == hs.len(),
            hs == ingredient_accounts@,
            plan@ + burn_calls(ings@, hs, ctx.authority, i as int) == burns,
        decreases ings@.len() - i,
    {
        let ing = ings[i];
        if ing.burn_on_craft {
            let call = LedgerCall::Burn {
                holding: ingredient_accounts[i].address,
                asset_type: ing.mint,
                amount: ing.amount as u64,
                authority: ctx.authority,
            };
            assert(plan@.push(call) + burn_calls(ings@, hs, ctx.authority, i + 1)
                =~= plan@ + burn_calls(ings@, hs, ctx.authority, i as int));
            plan.push(call);
        }
        i = i + 1;
    }
    assert(plan@ =~= burns);
    let ghost emits = emit_calls(outs@, output_accounts@, ctx.pda_auth, 0);
    let mut j: usize = 0;
    while j < outs.len()
        invariant
            j <= outs@.len(),
            outs@.len() == output_accounts@.len(),
            plan@ + emit_calls(outs@, output_accounts@, ctx.pda_auth, j as int) == burns + emits,
        decreases outs@.len() - j,
    {
        let item = outs[j];
        let target = output_accounts[j];
        let call = if item.is_master_edition {
            LedgerCall::Transfer { from: item.master_token_account, to: target, amount: 1, authority: ctx.pda_auth }
        } else {
            LedgerCall::MintTo { asset_type: item.mint, to: target, amount: item.amount as u64, authority: ctx.pda_auth }
        };
        assert(plan@.push(call) + emit_calls(outs@, output_accounts@, ctx.pda_auth, j + 1)
            =~= plan@ + emit_calls(outs@, output_accounts@, ctx.pda_auth, j as int));
        plan.push(call);
        j = j + 1;
    }
    assert(plan@ =~= burns + emits);
    Ok(plan)
}

/// Crafts the formula: derives its authority from the formula's address and
/// `bump`, which must be the canonical bump and derive `ctx.pda_auth`, checks every ingredient holding, and returns the ledger calls that
/// burn the consumed ingredients and then emit every output. A failure returns
/// before any call is planned.
pub fn craft(
    ctx: &Craft,
    ingredient_accounts: &Vec<Holding>,
    output_accounts: &Vec<Identity>,
    bump: u8,
) -> (r: Result<Vec<LedgerCall>, ErrorCode>)
    ensures
        plan_view(r) == craft_outcome(
            *ctx,
            ingredient_accounts@,
            output_accounts@,
            canonical_authority_of(ctx.formula_key@, bump, ctx.program_id@),
        ),
        ingredient_accounts@.len() != ctx.formula.ingredients@.len()
            || output_accounts@.len() != ctx.formula.output_items@.len()
            ==> r == Err::<Vec<LedgerCall>, ErrorCode>(ErrorCode::AccountCountMismatch),
{
    let derived = derive_canonical_authority(&ctx.formula_key, bump, &ctx.program_id);
    craft_with_authority(ctx, ingredient_accounts, output_accounts, derived)
}

} // verus!
