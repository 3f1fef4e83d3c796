//! Registering a formula: its outputs are put under the control of the
//! formula's derived authority.
use vstd::prelude::*;
use crate::formula::{space_of, AuthorityType, ErrorCode, Formula, Ingredient, Item};
use crate::identity::{canonical_authority_of, derive_canonical_authority, identity_view, Identity};
use crate::ledger::{Holding, LedgerCall};

verus! {

/// The accounts a formula's creation is given.
#[derive(Clone, Copy, Debug, PartialEq, Eq)]
pub struct CreateFormula {
    /// The address the new formula is stored at.
    pub formula: Identity,
    /// The caller, who controls the outputs being handed over.
    pub authority: Identity,
    /// The authority the formula is to derive.
    pub output_authority: Identity,
    /// The ledger program that must keep every custody account.
    pub token_program: Identity,
    /// The crafting program, under which the authority is derived.
    pub program_id: Identity,
}

/// What an output is registered from: an asset type whose mint authority is
/// handed over, or the holder of a unique instance and the custody account
/// it moves to.
#[derive(Clone, Copy, Debug, PartialEq, Eq)]
pub enum OutputSource {
    Mint,
    Unique { holder: Identity, custody: Holding },
}

/// Why a source cannot stand for an output, checked in this order.
pub open spec fn source_error(item: Item, src: OutputSource, authority: Identity, ledger: Identity) -> Option<ErrorCode> {
    match src {
        OutputSource::Mint => if item.is_master_edition {
            Some(ErrorCode::AccountCountMismatch)
        } else {
            None
        },
        OutputSource::Unique { holder, custody } => if !item.is_master_edition {
            Some(ErrorCode::AccountCountMismatch)
        } else if custody.owner@ != ledger@ {
            Some(ErrorCode::InvalidAccountData)
        } else if custody.asset_type@ != item.mint@ {
            Some(ErrorCode::InvalidAssetType)
        } else if custody.authority@ != authority@ {
            Some(ErrorCode::TokenAccountOwnerMustBeOutputMintAuthority)
        } else {
            None
        },
    }
}

/// The error of the first output from index `i` on whose source fails.
pub open spec fn first_source_error(
    items: Seq<Item>,
    srcs: Seq<OutputSource>,
    authority: Identity,
    ledger: Identity,
    i: int,
) -> Option<ErrorCode>
    decreases items.len() - i,
{
    if i < 0 || i >= items.len() {
        None
    } else {
        match source_error(items[i], srcs[i], authority, ledger) {
            Some(e) => Some(e),
            None => first_source_error(items, srcs, authority, ledger, i + 1),
        }
    }
}

/// The output as the formula records it: a unique one notes its custody account.
pub open spec fn recorded_item(item: Item, src: OutputSource) -> Item {
    match src {
        OutputSource::Unique { holder, custody } => Item {
            mint: item.mint,
            amount: item.amount,
            is_master_edition: item.is_master_edition,
            master_token_account: custody.address,
        },
        OutputSource::Mint => item,
    }
}

/// The call that hands an output over to the formula's authority.
pub open spec fn handover_call(item: Item, src: OutputSource, caller: Identity, authority: Identity) -> LedgerCall {
    match src {
        OutputSource::Unique { holder, custody } => LedgerCall::Transfer {
            from: holder,
            to: custody.address,
            amount: 1,
            authority: caller,
        },
        OutputSource::Mint => LedgerCall::SetAuthority {
            target: item.mint,
            kind: AuthorityType::MintTokens,
            new_authority: authority,
            authority: caller,
        },
    }
}

pub open spec fn recorded_items(items: Seq<Item>, srcs: Seq<OutputSource>, i: int) -> Seq<Item>
    decreases items.len() - i,
{
    if i < 0 || i >= items.len() {
        Seq::empty()
    } else {
        seq![recorded_item(items[i], srcs[i])] + recorded_items(items, srcs, i + 1)
    }
}

pub open spec fn handover_calls(
    items: Seq<Item>,
    srcs: Seq<OutputSource>,
    caller: Identity,
    authority: Identity,
    i: int,
) -> Seq<LedgerCall>
    decreases items.len() - i,
{
    if i < 0 || i >= items.len() {
        Seq::empty()
    } else {
        seq![handover_call(items[i], srcs[i], caller, authority)] + handover_calls(items, srcs, caller, authority, i + 1)
    }
}

/// What registration decides, given the authority that the bump derives where
/// it is the formula's canonical bump (`None` for any other bump): the
/// outputs as recorded and the calls that hand them over, or the error.
pub open spec fn create_outcome(
    ctx: CreateFormula,
    output_items: Seq<Item>,
    sources: Seq<OutputSource>,
    derived: Option<Seq<u8>>,
) -> Result<(Seq<Item>, Seq<LedgerCall>), ErrorCode> {
    if sources.len() != output_items.len() {
        Err(ErrorCode::AccountCountMismatch)
    } else if derived != Some(ctx.output_authority@) {
        Err(ErrorCode::AuthorityDerivationMismatch)
    } else {
        match first_source_error(output_items, sources, ctx.output_authority, ctx.token_program, 0) {
            Some(e) => Err(e),
            None => Ok((
                recorded_items(output_items, sources, 0),
                handover_calls(output_items, sources, ctx.authority, ctx.output_authority, 0),
            )),
        }
    }
}

pub open spec fn creation_view(r: Result<(Formula, Vec<LedgerCall>), ErrorCode>) -> Result<(Seq<Item>, Seq<LedgerCall>), ErrorCode> {
    match r {
        Ok((f, calls)) => Ok((f.output_items@, calls@)),
        Err(e) => Err(e),
    }
}

/// Checks one output's source.
pub fn check_source(item: &Item, src: &OutputSource, authority: &Identity, ledger: &Identity) -> (r: Option<ErrorCode>)
    ensures
        r == source_error(*item, *src, *authority, *ledger),
{
    match src {
        OutputSource::Mint => if item.is_master_edition {
            Some(ErrorCode::AccountCountMismatch)
        } else {
            None
        },
        OutputSource::Unique { holder: _, custody } => if !item.is_master_edition {
            Some(ErrorCode::AccountCountMismatch)
        } else if !custody.owner.same(ledger) {
            Some(ErrorCode::InvalidAccountData)
        } else if !custody.asset_type.same(&item.mint) {
            Some(ErrorCode::InvalidAssetType)
        } else if !custody.authority.same(authority) {
            Some(ErrorCode::TokenAccountOwnerMustBeOutputMintAuthority)
        } else {
            None
        },
    }
}

/// Creates a formula with the authority that the canonical bump derived
/// (`None` where the bump was not canonical): the ingredients are kept as given, each unique output
/// records its custody account, and the calls hand every output over to the
/// formula's authority.
pub fn create_formula_with_authority(
    ctx: &CreateFormula,
    ingredients: Vec<Ingredient>,
    output_items: Vec<Item>,
    sources: &Vec<OutputSource>,
    derived: Option<Identity>,
) -> (r: Result<(Formula, Vec<LedgerCall>), ErrorCode>)
    ensures
        creation_view(r) == create_outcome(*ctx, output_items@, sources@, identity_view(derived)),
        r matches Ok((f, _)) ==> f.ingredients@ == ingredients@,
        r matches Ok((f, _)) ==> f.output_items@.len() == output_items@.len(),
        r matches Ok((f, _)) ==> space_of(f.ingredients@.len() as int, f.output_items@.len() as int)
            == space_of(ingredients@.len() as int, output_items@.len() as int),
{
    if sources.len() != output_items.len() {
        return Err(ErrorCode::AccountCountMismatch);
    }
    match &derived {
        Some(k) => {
            if !k.same(&ctx.output_authority) {
                return Err(ErrorCode::AuthorityDerivationMismatch);
            }
        },
        None => {
            return Err(ErrorCode::AuthorityDerivationMismatch);
        },
    }
    let mut i: usize = 0;
    while i < output_items.len()
        invariant
            i <= output_items@.len(),
            sources@.len() == output_items@.len(),
            identity_view(derived) == Some(ctx.output_authority@),
            first_source_error(output_items@, sources@, ctx.output_authority, ctx.token_program, 0)
                == first_source_error(output_items@, sources@, ctx.output_authority, ctx.token_program, i as int),
        decreases output_items@.len() - i,
    {
        if let Some(e) = check_source(&output_items[i], &sources[i], &ctx.output_authority, &ctx.token_program) {
            return Err(e);
        }
        i = i + 1;
    }
    let ghost items = recorded_items(output_items@, sources@, 0);
    let ghost calls = handover_calls(output_items@, sources@, ctx.authority, ctx.output_authority, 0);
    let mut recorded: Vec<Item> = Vec::new();
    let mut plan: Vec<LedgerCall> = Vec::new();
    let mut j: usize = 0;
    while j < output_items.len()
        invariant
            j <= output_items@.len(),
            sources@.len() == output_items@.len(),
            recorded@ + recorded_items(output_items@, sources@, j as int) == items,
            recorded@.len() == j,
            plan@ + handover_calls(output_items@, sources@, ctx.authority, ctx.output_authority, j as int) == calls,
        decreases output_items@.len() - j,
    {
        let item = output_items[j];
        let (kept, call) = match sources[j] {
            OutputSource::Unique { holder, custody } => (
                Item { master_token_account: custody.address, ..item },
                LedgerCall::Transfer { from: holder, to: custody.address, amount: 1, authority: ctx.authority },
            ),
            OutputSource::Mint => (
                item,
                LedgerCall::SetAuthority {
                    target: item.mint,
                    kind: AuthorityType::MintTokens,
                    new_authority: ctx.output_authority,
                    authority: ctx.authority,
                },
            ),
        };
        assert(recorded@.push(kept) + recorded_items(output_items@, sources@, j + 1)
            =~= recorded@ + recorded_items(output_items@, sources@, j as int));
        assert(plan@.push(call) + handover_calls(output_items@, sources@, ctx.authority, ctx.output_authority, j + 1)
            =~= plan@ + handover_calls(output_items@, sources@, ctx.authority, ctx.output_authority, j as int));
        recorded.push(kept);
        plan.push(call);
        j = j + 1;
    }
    assert(recorded@ =~= items);
    assert(plan@ =~= calls);
    Ok((Formula { ingredients, output_items: recorded }, plan))
}

/// Creates a formula: derives its authority from the formula's address and
/// `bump`, which must be the canonical bump and give `ctx.output_authority`,
/// checks every output's
/// source, and returns the formula with the calls that hand each fungible
/// output's mint authority, and each unique output's one instance, to that
/// authority. A failure returns before any call is planned.
pub fn create_formula(
    ctx: &CreateFormula,
    ingredients: Vec<Ingredient>,
    output_items: Vec<Item>,
    sources: &Vec<OutputSource>,
    bump: u8,
) -> (r: Result<(Formula, Vec<LedgerCall>), ErrorCode>)
    ensures
        creation_view(r) == create_outcome(
            *ctx,
            output_items@,
            sources@,
            canonical_authority_of(ctx.formula@, bump, ctx.program_id@),
        ),
        r matches Ok((f, _)) ==> f.ingredients@ == ingredients@,
        r matches Ok((f, _)) ==> f.output_items@.len() == output_items@.len(),
        r matches Ok((f, _)) ==> space_of(f.ingredients@.len() as int, f.output_items@.len() as int)
            == space_of(ingredients@.len() as int, output_items@.len() as int),
{
    let derived = derive_canonical_authority(&ctx.formula, bump, &ctx.program_id);
    create_formula_with_authority(ctx, ingredients, output_items, sources, derived)
}

} // verus!
