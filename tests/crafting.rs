use crafting::craft::{craft, craft_with_authority, Craft};
use crafting::formula::{formula_space, AuthorityType, ErrorCode, Formula, Ingredient, Item};
use crafting::identity::{derive_authority, Identity};
use crafting::ledger::{Holding, Ledger, LedgerCall, MintState};
use crafting::register::{create_formula, CreateFormula, OutputSource};

fn id(n: u8) -> Identity {
    Identity::new([n; 32])
}

fn token_program() -> Identity {
    id(200)
}

fn program_id() -> Identity {
    id(201)
}

fn formula_key() -> Identity {
    id(202)
}

fn caller() -> Identity {
    id(7)
}

/// The first bump, from 255 down, that derives an authority for the formula.
fn working_bump() -> (u8, Identity) {
    let mut bump: u8 = 255;
    loop {
        if let Some(k) = derive_authority(&formula_key(), bump, &program_id()) {
            return (bump, k);
        }
        bump -= 1;
    }
}

fn holding(address: u8, asset: u8, balance: u64, authority: Identity) -> Holding {
    Holding { address: id(address), owner: token_program(), asset_type: id(asset), balance, authority }
}

fn ingredient(asset: u8, amount: u8, burn: bool) -> Ingredient {
    Ingredient { mint: id(asset), amount, burn_on_craft: burn }
}

fn fungible(asset: u8, amount: u8) -> Item {
    Item { mint: id(asset), amount, is_master_edition: false, master_token_account: id(0) }
}

fn unique(asset: u8, custody: u8) -> Item {
    Item { mint: id(asset), amount: 1, is_master_edition: true, master_token_account: id(custody) }
}

fn craft_ctx(ingredients: Vec<Ingredient>, output_items: Vec<Item>, pda: Identity) -> Craft {
    Craft {
        formula: Formula { ingredients, output_items },
        formula_key: formula_key(),
        authority: caller(),
        pda_auth: pda,
        token_program: token_program(),
        program_id: program_id(),
    }
}

const A: u8 = 10;
const B: u8 = 11;
const U: u8 = 12;

/// Caller's A holding at 20, B holding at 21; B minted by the authority.
fn fungible_ledger(a_balance: u64, pda: Identity) -> Ledger {
    Ledger {
        holdings: vec![holding(20, A, a_balance, caller()), holding(21, B, 0, caller())],
        mints: vec![
            MintState { address: id(A), mint_authority: Some(id(99)) },
            MintState { address: id(B), mint_authority: Some(pda) },
        ],
    }
}

#[test]
fn burn_and_mint_scenario() {
    let (bump, pda) = working_bump();
    let ctx = craft_ctx(vec![ingredient(A, 3, true)], vec![fungible(B, 1)], pda);
    let mut ledger = fungible_ledger(5, pda);
    let plan = craft(&ctx, &vec![ledger.holdings[0]], &vec![id(21)], bump).unwrap();
    assert_eq!(
        plan,
        vec![
            LedgerCall::Burn { holding: id(20), asset_type: id(A), amount: 3, authority: caller() },
            LedgerCall::MintTo { asset_type: id(B), to: id(21), amount: 1, authority: pda },
        ]
    );
    assert_eq!(ledger.apply_all(&plan), Ok(()));
    assert_eq!(ledger.balance(&id(20)), 2);
    assert_eq!(ledger.balance(&id(21)), 1);
}

#[test]
fn insufficient_balance_scenario() {
    let (bump, pda) = working_bump();
    let ctx = craft_ctx(vec![ingredient(A, 3, true)], vec![fungible(B, 1)], pda);
    let ledger = fungible_ledger(2, pda);
    let r = craft(&ctx, &vec![ledger.holdings[0]], &vec![id(21)], bump);
    assert_eq!(r, Err(ErrorCode::InsufficientAmount));
    assert_eq!(ledger.balance(&id(20)), 2);
    assert_eq!(ledger.balance(&id(21)), 0);
}

fn unique_ledger(pda: Identity) -> Ledger {
    Ledger {
        holdings: vec![holding(30, U, 1, pda), holding(31, U, 0, caller()), holding(32, U, 0, id(8))],
        mints: vec![MintState { address: id(U), mint_authority: None }],
    }
}

#[test]
fn unique_output_scenario() {
    let (bump, pda) = working_bump();
    let ctx = craft_ctx(vec![], vec![unique(U, 30)], pda);
    let mut ledger = unique_ledger(pda);
    let plan = craft(&ctx, &vec![], &vec![id(31)], bump).unwrap();
    assert_eq!(plan, vec![LedgerCall::Transfer { from: id(30), to: id(31), amount: 1, authority: pda }]);
    assert_eq!(ledger.apply_all(&plan), Ok(()));
    assert_eq!(ledger.balance(&id(30)), 0);
    assert_eq!(ledger.balance(&id(31)), 1);
    let again = craft(&ctx, &vec![], &vec![id(32)], bump).unwrap();
    assert_eq!(ledger.apply_all(&again), Err(ErrorCode::LedgerOperationFailed));
    assert_eq!(ledger.balance(&id(30)), 0);
    assert_eq!(ledger.balance(&id(32)), 0);
}

#[test]
fn too_few_accounts_fail_before_any_call() {
    let (bump, pda) = working_bump();
    let ctx = craft_ctx(vec![ingredient(A, 1, true), ingredient(B, 1, false)], vec![fungible(B, 1)], pda);
    let a = holding(20, A, 5, caller());
    let b = holding(21, B, 5, caller());
    assert_eq!(craft(&ctx, &vec![a], &vec![id(21)], bump), Err(ErrorCode::AccountCountMismatch));
    assert_eq!(craft(&ctx, &vec![a, b], &vec![], bump), Err(ErrorCode::AccountCountMismatch));
    assert_eq!(craft(&ctx, &vec![a, b, b], &vec![id(21)], bump), Err(ErrorCode::AccountCountMismatch));
}

#[test]
fn gate_keeps_balance_and_cost_burns_it() {
    let (bump, pda) = working_bump();
    let ctx = craft_ctx(vec![ingredient(A, 4, false), ingredient(B, 2, true)], vec![fungible(B, 3)], pda);
    let mut ledger = Ledger {
        holdings: vec![holding(20, A, 4, caller()), holding(21, B, 5, caller()), holding(22, B, 0, caller())],
        mints: vec![MintState { address: id(B), mint_authority: Some(pda) }],
    };
    let accounts = vec![ledger.holdings[0], ledger.holdings[1]];
    let plan = craft(&ctx, &accounts, &vec![id(22)], bump).unwrap();
    assert_eq!(ledger.apply_all(&plan), Ok(()));
    assert_eq!(ledger.balance(&id(20)), 4);
    assert_eq!(ledger.balance(&id(21)), 3);
    assert_eq!(ledger.balance(&id(22)), 3);
}

#[test]
fn registration_and_craft_derive_the_same_authority() {
    let (bump, pda) = working_bump();
    assert_eq!(derive_authority(&formula_key(), bump, &program_id()), Some(pda));
    assert_ne!(pda, formula_key());
    assert_ne!(pda, program_id());
    let reg = CreateFormula {
        formula: formula_key(),
        authority: caller(),
        output_authority: pda,
        token_program: token_program(),
        program_id: program_id(),
    };
    let (formula, _) = create_formula(&reg, vec![ingredient(A, 1, false)], vec![fungible(B, 1)], &vec![OutputSource::Mint], bump).unwrap();
    let ctx = Craft {
        formula,
        formula_key: formula_key(),
        authority: caller(),
        pda_auth: pda,
        token_program: token_program(),
        program_id: program_id(),
    };
    let a = holding(20, A, 1, caller());
    assert!(craft(&ctx, &vec![a], &vec![id(21)], bump).is_ok());
    let mut other = bump.wrapping_sub(1);
    while derive_authority(&formula_key(), other, &program_id()) == Some(pda) {
        other = other.wrapping_sub(1);
    }
    assert_eq!(craft(&ctx, &vec![a], &vec![id(21)], other), Err(ErrorCode::AuthorityDerivationMismatch));
}

#[test]
fn derivation_depends_on_the_formula() {
    let (bump, pda) = working_bump();
    let other = derive_authority(&id(203), bump, &program_id());
    assert_ne!(other, Some(pda));
}

#[test]
fn unique_exhaustion_after_one_craft() {
    let (bump, pda) = working_bump();
    let ctx = craft_ctx(vec![], vec![unique(U, 30)], pda);
    let mut ledger = unique_ledger(pda);
    let first = craft(&ctx, &vec![], &vec![id(31)], bump).unwrap();
    ledger.apply_all(&first).unwrap();
    let second = craft(&ctx, &vec![], &vec![id(31)], bump).unwrap();
    assert_eq!(ledger.apply_all(&second), Err(ErrorCode::LedgerOperationFailed));
    assert_eq!(ledger.balance(&id(31)), 1);
}

#[test]
fn failing_ingredient_plans_no_call() {
    let (bump, pda) = working_bump();
    let ctx = craft_ctx(vec![ingredient(A, 1, true), ingredient(B, 9, true)], vec![fungible(B, 1)], pda);
    let accounts = vec![holding(20, A, 5, caller()), holding(21, B, 5, caller())];
    assert_eq!(craft(&ctx, &accounts, &vec![id(22)], bump), Err(ErrorCode::InsufficientAmount));
}

#[test]
fn each_check_has_its_error() {
    let pda = id(90);
    let ctx = craft_ctx(vec![ingredient(A, 2, true)], vec![], pda);
    let good = holding(20, A, 5, caller());
    let run = |h: Holding| craft_with_authority(&ctx, &vec![h], &vec![], Some(pda));
    assert!(run(good).is_ok());
    assert_eq!(run(Holding { owner: id(1), ..good }), Err(ErrorCode::InvalidAccountData));
    assert_eq!(run(Holding { asset_type: id(B), ..good }), Err(ErrorCode::InvalidAssetType));
    assert_eq!(run(Holding { balance: 1, ..good }), Err(ErrorCode::InsufficientAmount));
    assert_eq!(run(Holding { authority: id(8), ..good }), Err(ErrorCode::UnauthorizedHolder));
    assert_eq!(craft_with_authority(&ctx, &vec![good], &vec![], Some(id(91))), Err(ErrorCode::AuthorityDerivationMismatch));
    assert_eq!(craft_with_authority(&ctx, &vec![good], &vec![], None), Err(ErrorCode::AuthorityDerivationMismatch));
}

#[test]
fn burn_amount_equal_to_balance_passes() {
    let pda = id(90);
    let ctx = craft_ctx(vec![ingredient(A, 5, true)], vec![], pda);
    let plan = craft_with_authority(&ctx, &vec![holding(20, A, 5, caller())], &vec![], Some(pda)).unwrap();
    assert_eq!(plan, vec![LedgerCall::Burn { holding: id(20), asset_type: id(A), amount: 5, authority: caller() }]);
}

#[test]
fn registration_hands_outputs_over() {
    let (bump, pda) = working_bump();
    let reg = CreateFormula {
        formula: formula_key(),
        authority: caller(),
        output_authority: pda,
        token_program: token_program(),
        program_id: program_id(),
    };
    let custody = holding(30, U, 0, pda);
    let sources = vec![OutputSource::Mint, OutputSource::Unique { holder: id(33), custody }];
    let items = vec![fungible(B, 2), unique(U, 0)];
    let (formula, calls) = create_formula(&reg, vec![ingredient(A, 1, true)], items, &sources, bump).unwrap();
    assert_eq!(formula.ingredients, vec![ingredient(A, 1, true)]);
    assert_eq!(formula.output_items, vec![fungible(B, 2), unique(U, 30)]);
    assert_eq!(
        calls,
        vec![
            LedgerCall::SetAuthority { target: id(B), kind: AuthorityType::MintTokens, new_authority: pda, authority: caller() },
            LedgerCall::Transfer { from: id(33), to: id(30), amount: 1, authority: caller() },
        ]
    );
    let mut ledger = Ledger {
        holdings: vec![custody, holding(33, U, 1, caller())],
        mints: vec![MintState { address: id(B), mint_authority: Some(caller()) }],
    };
    assert_eq!(ledger.apply_all(&calls), Ok(()));
    assert_eq!(ledger.mints[0].mint_authority, Some(pda));
    assert_eq!(ledger.balance(&id(30)), 1);
    assert_eq!(ledger.balance(&id(33)), 0);
}

#[test]
fn registration_errors() {
    let (bump, pda) = working_bump();
    let reg = CreateFormula {
        formula: formula_key(),
        authority: caller(),
        output_authority: pda,
        token_program: token_program(),
        program_id: program_id(),
    };
    let items = vec![unique(U, 0)];
    let src = |custody: Holding| vec![OutputSource::Unique { holder: id(33), custody }];
    let good = holding(30, U, 0, pda);
    assert!(create_formula(&reg, vec![], items.clone(), &src(good), bump).is_ok());
    assert_eq!(create_formula(&reg, vec![], items.clone(), &vec![], bump), Err(ErrorCode::AccountCountMismatch));
    assert_eq!(create_formula(&reg, vec![], items.clone(), &vec![OutputSource::Mint], bump), Err(ErrorCode::AccountCountMismatch));
    assert_eq!(
        create_formula(&reg, vec![], items.clone(), &src(Holding { owner: id(1), ..good }), bump),
        Err(ErrorCode::InvalidAccountData)
    );
    assert_eq!(
        create_formula(&reg, vec![], items.clone(), &src(Holding { authority: caller(), ..good }), bump),
        Err(ErrorCode::TokenAccountOwnerMustBeOutputMintAuthority)
    );
    assert_eq!(
        create_formula(&reg, vec![], items.clone(), &src(Holding { asset_type: id(A), ..good }), bump),
        Err(ErrorCode::InvalidAssetType)
    );
    let wrong = CreateFormula { output_authority: id(95), ..reg };
    assert_eq!(create_formula(&wrong, vec![], items, &src(good), bump), Err(ErrorCode::AuthorityDerivationMismatch));
}

#[test]
fn ledger_refuses_unauthorized_calls() {
    let pda = id(90);
    let mut ledger = fungible_ledger(5, pda);
    let mint = LedgerCall::MintTo { asset_type: id(B), to: id(21), amount: 1, authority: caller() };
    assert_eq!(ledger.apply(&mint), Err(ErrorCode::LedgerOperationFailed));
    let burn = LedgerCall::Burn { holding: id(20), asset_type: id(A), amount: 6, authority: caller() };
    assert_eq!(ledger.apply(&burn), Err(ErrorCode::LedgerOperationFailed));
    let good = LedgerCall::Burn { holding: id(20), asset_type: id(A), amount: 1, authority: caller() };
    assert_eq!(ledger.apply_all(&vec![good, mint]), Err(ErrorCode::LedgerOperationFailed));
    assert_eq!(ledger.balance(&id(20)), 5);
}

#[test]
fn formula_space_counts_entries() {
    assert_eq!(formula_space(0, 0), Some(16));
    assert_eq!(formula_space(1, 1), Some(116));
    assert_eq!(formula_space(3, 2), Some(16 + 102 + 132));
    assert_eq!(formula_space(u64::MAX, 0), None);
    assert_eq!(formula_space(0, u64::MAX / 66 + 1), None);
}

#[test]
fn identity_same_compares_bytes() {
    let mut b = [3u8; 32];
    assert!(id(3).same(&Identity::new(b)));
    b[31] = 4;
    assert!(!id(3).same(&Identity::new(b)));
}

/// The next bump below the canonical one that also derives an authority.
fn lower_bump(canonical: u8) -> (u8, Identity) {
    let mut bump = canonical - 1;
    loop {
        if let Some(k) = derive_authority(&formula_key(), bump, &program_id()) {
            return (bump, k);
        }
        bump -= 1;
    }
}

#[test]
fn registration_refuses_a_lower_bump() {
    let (bump, _) = working_bump();
    let (low, low_pda) = lower_bump(bump);
    let reg = CreateFormula {
        formula: formula_key(),
        authority: caller(),
        output_authority: low_pda,
        token_program: token_program(),
        program_id: program_id(),
    };
    let r = create_formula(&reg, vec![], vec![fungible(B, 1)], &vec![OutputSource::Mint], low);
    assert_eq!(r, Err(ErrorCode::AuthorityDerivationMismatch));
}

#[test]
fn craft_refuses_another_bump_with_its_own_authority() {
    let (bump, pda) = working_bump();
    let (low, low_pda) = lower_bump(bump);
    let a = holding(20, A, 5, caller());
    let ctx = craft_ctx(vec![ingredient(A, 1, true)], vec![fungible(B, 1)], low_pda);
    assert_eq!(craft(&ctx, &vec![a], &vec![id(21)], low), Err(ErrorCode::AuthorityDerivationMismatch));
    let ctx = craft_ctx(vec![ingredient(A, 1, true)], vec![fungible(B, 1)], pda);
    assert!(craft(&ctx, &vec![a], &vec![id(21)], bump).is_ok());
}

#[test]
fn record_space_matches_counts() {
    let f = Formula { ingredients: vec![ingredient(A, 1, true); 2], output_items: vec![fungible(B, 1); 3] };
    assert_eq!(f.record_space(), Some(16 + 68 + 198));
    assert_eq!(f.record_space(), formula_space(2, 3));
}
