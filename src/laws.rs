//! Properties that relate registration, crafting and the ledger.
use vstd::prelude::*;
use crate::craft::{
    burn_calls, craft_outcome, emit_calls, first_ingredient_error, ingredient_error, Craft,
};
use crate::formula::{ErrorCode, Ingredient, Item};
use crate::identity::{authority_of, canonical_authority_of, Identity};
use crate::ledger::{
    balance_of, lemma_run_balance, lemma_totals_concat, lemma_totals_nonnegative, run, total_credit,
    total_debit, Holding, LedgerCall, LedgerState,
};
use crate::register::{create_outcome, CreateFormula, OutputSource};

verus! {

proof fn lemma_head_totals(x: LedgerCall, rest: Seq<LedgerCall>, a: Seq<u8>)
    ensures
        total_debit(seq![x] + rest, a) == crate::ledger::debit(x, a) + total_debit(rest, a),
        total_credit(seq![x] + rest, a) == crate::ledger::credit(x, a) + total_credit(rest, a),
{
    assert((seq![x] + rest).skip(1) =~= rest);
    assert((seq![x] + rest)[0] == x);
}

proof fn lemma_first_error_found(
    ings: Seq<Ingredient>,
    hs: Seq<Holding>,
    caller: Identity,
    ledger: Identity,
    i: int,
    k: int,
)
    requires
        0 <= i <= k < ings.len(),
        ingredient_error(ings[k], hs[k], caller, ledger) is Some,
    ensures
        first_ingredient_error(ings, hs, caller, ledger, i) is Some,
    decreases k - i,
{
    if i < k {
        lemma_first_error_found(ings, hs, caller, ledger, i + 1, k);
    }
}

proof fn lemma_burns_on_holding(ings: Seq<Ingredient>, hs: Seq<Holding>, caller: Identity, i: int, k: int)
    requires
        0 <= i,
        0 <= k < ings.len(),
        hs.len() == ings.len(),
        forall|j: int| 0 <= j < hs.len() && j != k ==> hs[j].address@ != hs[k].address@,
    ensures
        total_debit(burn_calls(ings, hs, caller, i), hs[k].address@)
            == (if i <= k && ings[k].burn_on_craft { ings[k].amount as int } else { 0 }),
        total_credit(burn_calls(ings, hs, caller, i), hs[k].address@) == 0,
    decreases ings.len() - i,
{
    let a = hs[k].address@;
    if i < ings.len() {
        lemma_burns_on_holding(ings, hs, caller, i + 1, k);
        if ings[i].burn_on_craft {
            lemma_head_totals(crate::craft::burn_call(ings[i], hs[i], caller), burn_calls(ings, hs, caller, i + 1), a);
        }
    }
}

proof fn lemma_burns_credit_nothing(ings: Seq<Ingredient>, hs: Seq<Holding>, caller: Identity, i: int, a: Seq<u8>)
    requires
        0 <= i,
    ensures
        total_credit(burn_calls(ings, hs, caller, i), a) == 0,
    decreases ings.len() - i,
{
    if i < ings.len() {
        lemma_burns_credit_nothing(ings, hs, caller, i + 1, a);
        if ings[i].burn_on_craft {
            lemma_head_totals(crate::craft::burn_call(ings[i], hs[i], caller), burn_calls(ings, hs, caller, i + 1), a);
        }
    }
}

proof fn lemma_emits_away_from(items: Seq<Item>, targets: Seq<Identity>, authority: Identity, i: int, a: Seq<u8>)
    requires
        0 <= i,
        targets.len() == items.len(),
    ensures
        (forall|j: int| i <= j < items.len() && items[j].is_master_edition ==> items[j].master_token_account@ != a)
            ==> total_debit(emit_calls(items, targets, authority, i), a) == 0,
        (forall|j: int| i <= j < targets.len() ==> targets[j]@ != a)
            ==> total_credit(emit_calls(items, targets, authority, i), a) == 0,
    decreases items.len() - i,
{
    if i < items.len() {
        lemma_emits_away_from(items, targets, authority, i + 1, a);
        lemma_head_totals(
            crate::craft::emit_call(items[i], targets[i], authority),
            emit_calls(items, targets, authority, i + 1),
            a,
        );
    }
}

proof fn lemma_emits_draw_custody(items: Seq<Item>, targets: Seq<Identity>, authority: Identity, i: int, j: int)
    requires
        0 <= i <= j < items.len(),
        targets.len() == items.len(),
        items[j].is_master_edition,
    ensures
        total_debit(emit_calls(items, targets, authority, i), items[j].master_token_account@) >= 1,
    decreases j - i,
{
    let a = items[j].master_token_account@;
    lemma_head_totals(
        crate::craft::emit_call(items[i], targets[i], authority),
        emit_calls(items, targets, authority, i + 1),
        a,
    );
    if i < j {
        lemma_emits_draw_custody(items, targets, authority, i + 1, j);
    } else {
        lemma_totals_nonnegative(emit_calls(items, targets, authority, i + 1), a);
    }
}

/// Gate versus cost: in a successful craft, an ingredient holding that no
/// other ingredient or custody account shares loses exactly the ingredient's
/// amount where the ingredient burns, and nothing where it does not; on any
/// ledger that accepts the plan, a holding that does not burn ends with at
/// least the balance it had.
pub proof fn gate_versus_cost(
    ctx: Craft,
    ingredient_accounts: Seq<Holding>,
    output_accounts: Seq<Identity>,
    derived: Option<Seq<u8>>,
    k: int,
    s: LedgerState,
)
    requires
        craft_outcome(ctx, ingredient_accounts, output_accounts, derived) is Ok,
        0 <= k < ctx.formula.ingredients@.len(),
        forall|j: int|
            0 <= j < ingredient_accounts.len() && j != k
                ==> ingredient_accounts[j].address@ != ingredient_accounts[k].address@,
        forall|j: int|
            0 <= j < ctx.formula.output_items@.len() && ctx.formula.output_items@[j].is_master_edition
                ==> ctx.formula.output_items@[j].master_token_account@ != ingredient_accounts[k].address@,
    ensures
        ({
            let plan = craft_outcome(ctx, ingredient_accounts, output_accounts, derived)->Ok_0;
            let ing = ctx.formula.ingredients@[k];
            let a = ingredient_accounts[k].address@;
            &&& total_debit(plan, a) == (if ing.burn_on_craft { ing.amount as int } else { 0 })
            &&& run(s, plan) is Some && ing.burn_on_craft
                ==> balance_of(run(s, plan)->0, a) == balance_of(s, a) - ing.amount + total_credit(plan, a)
            &&& run(s, plan) is Some && !ing.burn_on_craft
                ==> balance_of(run(s, plan)->0, a) >= balance_of(s, a)
        }),
{
    let ings = ctx.formula.ingredients@;
    let outs = ctx.formula.output_items@;
    let a = ingredient_accounts[k].address@;
    let burns = burn_calls(ings, ingredient_accounts, ctx.authority, 0);
    let emits = emit_calls(outs, output_accounts, ctx.pda_auth, 0);
    lemma_burns_on_holding(ings, ingredient_accounts, ctx.authority, 0, k);
    lemma_emits_away_from(outs, output_accounts, ctx.pda_auth, 0, a);
    lemma_totals_concat(burns, emits, a);
    lemma_totals_nonnegative(burns + emits, a);
    if run(s, burns + emits) is Some {
        lemma_run_balance(s, burns + emits, a);
    }
}

/// Authority invariance: the bump a formula was registered with derives, at
/// craft time, the very authority registration handed the outputs to, so a
/// craft with it never fails on the authority; any other bump fails with
/// `AuthorityDerivationMismatch` once the accounts match, whatever authority
/// the caller passes.
pub proof fn authority_invariance(
    reg: CreateFormula,
    output_items: Seq<Item>,
    sources: Seq<OutputSource>,
    bump: u8,
    ctx: Craft,
    ingredient_accounts: Seq<Holding>,
    output_accounts: Seq<Identity>,
    other_bump: u8,
)
    requires
        create_outcome(reg, output_items, sources, canonical_authority_of(reg.formula@, bump, reg.program_id@)) is Ok,
        ctx.formula_key == reg.formula,
        ctx.program_id == reg.program_id,
    ensures
        canonical_authority_of(ctx.formula_key@, bump, ctx.program_id@) == Some(reg.output_authority@),
        ctx.pda_auth == reg.output_authority ==> craft_outcome(
            ctx,
            ingredient_accounts,
            output_accounts,
            canonical_authority_of(ctx.formula_key@, bump, ctx.program_id@),
        ) != Err::<Seq<LedgerCall>, ErrorCode>(ErrorCode::AuthorityDerivationMismatch),
        ingredient_accounts.len() == ctx.formula.ingredients@.len()
            && output_accounts.len() == ctx.formula.output_items@.len() && other_bump != bump
            ==> craft_outcome(
            ctx,
            ingredient_accounts,
            output_accounts,
            canonical_authority_of(ctx.formula_key@, other_bump, ctx.program_id@),
        ) == Err::<Seq<LedgerCall>, ErrorCode>(ErrorCode::AuthorityDerivationMismatch),
{
    lemma_no_mismatch_from_checks(ctx.formula.ingredients@, ingredient_accounts, ctx.authority, ctx.token_program, 0);
    let k = ctx.formula_key@;
    let p = ctx.program_id@;
    if other_bump < bump {
        assert(authority_of(k, bump, p) is Some);
    } else if other_bump > bump {
        assert(authority_of(k, other_bump, p) is None);
    }
}

proof fn lemma_no_mismatch_from_checks(ings: Seq<Ingredient>, hs: Seq<Holding>, caller: Identity, ledger: Identity, i: int)
    ensures
        first_ingredient_error(ings, hs, caller, ledger, i) != Some(ErrorCode::AuthorityDerivationMismatch),
    decreases ings.len() - i,
{
    if 0 <= i < ings.len() {
        lemma_no_mismatch_from_checks(ings, hs, caller, ledger, i + 1);
    }
}

/// Unique-asset exhaustion: where a custody account holds the one instance
/// of a unique output, the first craft that the ledger accepts empties it,
/// and a second craft of that output fails at the ledger, unless some output
/// is sent back into the custody account itself.
pub proof fn unique_output_exhausts(
    first: Craft,
    first_ingredients: Seq<Holding>,
    first_targets: Seq<Identity>,
    first_derived: Option<Seq<u8>>,
    second: Craft,
    second_ingredients: Seq<Holding>,
    second_targets: Seq<Identity>,
    second_derived: Option<Seq<u8>>,
    j: int,
    s: LedgerState,
)
    requires
        craft_outcome(first, first_ingredients, first_targets, first_derived) is Ok,
        craft_outcome(second, second_ingredients, second_targets, second_derived) is Ok,
        0 <= j < first.formula.output_items@.len(),
        0 <= j < second.formula.output_items@.len(),
        first.formula.output_items@[j].is_master_edition,
        second.formula.output_items@[j] == first.formula.output_items@[j],
        balance_of(s, first.formula.output_items@[j].master_token_account@) == 1,
        run(s, craft_outcome(first, first_ingredients, first_targets, first_derived)->Ok_0) is Some,
        forall|x: int| 0 <= x < first_targets.len()
            ==> first_targets[x]@ != first.formula.output_items@[j].master_token_account@,
        forall|x: int| 0 <= x < second_targets.len()
            ==> second_targets[x]@ != first.formula.output_items@[j].master_token_account@,
    ensures
        ({
            let c = first.formula.output_items@[j].master_token_account@;
            let t = run(s, craft_outcome(first, first_ingredients, first_targets, first_derived)->Ok_0)->0;
            &&& balance_of(t, c) == 0
            &&& run(t, craft_outcome(second, second_ingredients, second_targets, second_derived)->Ok_0) is None
        }),
{
    let c = first.formula.output_items@[j].master_token_account@;
    let b1 = burn_calls(first.formula.ingredients@, first_ingredients, first.authority, 0);
    let e1 = emit_calls(first.formula.output_items@, first_targets, first.pda_auth, 0);
    let b2 = burn_calls(second.formula.ingredients@, second_ingredients, second.authority, 0);
    let e2 = emit_calls(second.formula.output_items@, second_targets, second.pda_auth, 0);
    lemma_burns_credit_nothing(first.formula.ingredients@, first_ingredients, first.authority, 0, c);
    lemma_burns_credit_nothing(second.formula.ingredients@, second_ingredients, second.authority, 0, c);
    lemma_emits_away_from(first.formula.output_items@, first_targets, first.pda_auth, 0, c);
    lemma_emits_away_from(second.formula.output_items@, second_targets, second.pda_auth, 0, c);
    lemma_emits_draw_custody(first.formula.output_items@, first_targets, first.pda_auth, 0, j);
    lemma_emits_draw_custody(second.formula.output_items@, second_targets, second.pda_auth, 0, j);
    lemma_totals_concat(b1, e1, c);
    lemma_totals_concat(b2, e2, c);
    lemma_totals_nonnegative(b1, c);
    lemma_totals_nonnegative(b2, c);
    lemma_run_balance(s, b1 + e1, c);
    let t = run(s, b1 + e1)->0;
    if run(t, b2 + e2) is Some {
        lemma_run_balance(t, b2 + e2, c);
    }
}

/// Atomicity under failure: where any ingredient's holding fails its check,
/// the craft fails as a whole and plans no call at all: no burn, before or
/// after that ingredient, and no emission.
pub proof fn failed_check_plans_nothing(
    ctx: Craft,
    ingredient_accounts: Seq<Holding>,
    output_accounts: Seq<Identity>,
    derived: Option<Seq<u8>>,
    k: int,
)
    requires
        0 <= k < ctx.formula.ingredients@.len(),
        ingredient_accounts.len() == ctx.formula.ingredients@.len(),
        ingredient_error(ctx.formula.ingredients@[k], ingredient_accounts[k], ctx.authority, ctx.token_program) is Some,
    ensures
        craft_outcome(ctx, ingredient_accounts, output_accounts, derived) is Err,
{
    lemma_first_error_found(ctx.formula.ingredients@, ingredient_accounts, ctx.authority, ctx.token_program, 0, k);
}

} // verus!
