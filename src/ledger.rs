//! A model of the asset ledger that formulas act on: holding accounts, asset
//! types with their mint authority, and the calls the engine issues.
use vstd::prelude::*;
use crate::formula::{AuthorityType, ErrorCode};
use crate::identity::Identity;

verus! {

/// A holding account as the ledger records it.
#[derive(Clone, Copy, Debug, PartialEq, Eq)]
pub struct Holding {
    /// The account's own address.
    pub address: Identity,
    /// The program that keeps the account.
    pub owner: Identity,
    /// The asset type (mint) held.
    pub asset_type: Identity,
    /// The units held.
    pub balance: u64,
    /// Who may move or destroy the units.
    pub authority: Identity,
}

/// An asset type as the ledger records it.
#[derive(Clone, Copy, Debug, PartialEq, Eq)]
pub struct MintState {
    pub address: Identity,
    /// Who may mint new units; `None` once minting is closed for good.
    pub mint_authority: Option<Identity>,
}

/// One mutating call on the ledger, with the identity that authorizes it.
#[derive(Clone, Copy, Debug, PartialEq, Eq)]
pub enum LedgerCall {
    /// Destroy `amount` units of `asset_type` from `holding`.
    Burn { holding: Identity, asset_type: Identity, amount: u64, authority: Identity },
    /// Create `amount` units of `asset_type` in holding `to`.
    MintTo { asset_type: Identity, to: Identity, amount: u64, authority: Identity },
    /// Move `amount` units from holding `from` to holding `to`.
    Transfer { from: Identity, to: Identity, amount: u64, authority: Identity },
    /// Hand the `kind` authority over `target` to `new_authority`.
    SetAuthority { target: Identity, kind: AuthorityType, new_authority: Identity, authority: Identity },
}

/// The ledger's state as plain sequences.
pub struct LedgerState {
    pub holdings: Seq<Holding>,
    pub mints: Seq<MintState>,
}

/// An in-memory ledger.
pub struct Ledger {
    pub holdings: Vec<Holding>,
    pub mints: Vec<MintState>,
}

impl View for Ledger {
    type V = LedgerState;

    open spec fn view(&self) -> LedgerState {
        LedgerState { holdings: self.holdings@, mints: self.mints@ }
    }
}

/// Index of the first holding at or after `from` with address `a`, or -1.
pub open spec fn holding_index(hs: Seq<Holding>, a: Seq<u8>, from: int) -> int
    decreases hs.len() - from,
{
    if from < 0 || from >= hs.len() {
        -1
    } else if hs[from].address@ == a {
        from
    } else {
        holding_index(hs, a, from + 1)
    }
}

/// Index of the first asset type at or after `from` with address `a`, or -1.
pub open spec fn mint_index(ms: Seq<MintState>, a: Seq<u8>, from: int) -> int
    decreases ms.len() - from,
{
    if from < 0 || from >= ms.len() {
        -1
    } else if ms[from].address@ == a {
        from
    } else {
        mint_index(ms, a, from + 1)
    }
}

pub open spec fn with_balance(h: Holding, balance: int) -> Holding {
    Holding { address: h.address, owner: h.owner, asset_type: h.asset_type, balance: balance as u64, authority: h.authority }
}

pub open spec fn may_mint(m: MintState, who: Identity) -> bool {
    m.mint_authority matches Some(k) && k@ == who@
}

/// What one call does to the ledger: the next state, or `None` where the
/// ledger refuses it.
pub open spec fn step(s: LedgerState, c: LedgerCall) -> Option<LedgerState> {
    let hs = s.holdings;
    let ms = s.mints;
    match c {
        LedgerCall::Burn { holding, asset_type, amount, authority } => {
            let i = holding_index(hs, holding@, 0);
            if i >= 0 && hs[i].asset_type@ == asset_type@ && hs[i].authority@ == authority@
                && hs[i].balance >= amount {
                Some(LedgerState { holdings: hs.update(i, with_balance(hs[i], hs[i].balance - amount)), mints: ms })
            } else {
                None
            }
        },
        LedgerCall::MintTo { asset_type, to, amount, authority } => {
            let m = mint_index(ms, asset_type@, 0);
            let i = holding_index(hs, to@, 0);
            if m >= 0 && may_mint(ms[m], authority) && i >= 0 && hs[i].asset_type@ == asset_type@
                && hs[i].balance + amount <= u64::MAX {
                Some(LedgerState { holdings: hs.update(i, with_balance(hs[i], hs[i].balance + amount)), mints: ms })
            } else {
                None
            }
        },
        LedgerCall::Transfer { from, to, amount, authority } => {
            let i = holding_index(hs, from@, 0);
            let j = holding_index(hs, to@, 0);
            if i >= 0 && j >= 0 && hs[i].authority@ == authority@ && hs[i].asset_type@ == hs[j].asset_type@
                && hs[i].balance >= amount {
                if i == j {
                    Some(s)
                } else if hs[j].balance + amount <= u64::MAX {
                    let moved = hs.update(i, with_balance(hs[i], hs[i].balance - amount));
                    Some(LedgerState { holdings: moved.update(j, with_balance(hs[j], hs[j].balance + amount)), mints: ms })
                } else {
                    None
                }
            } else {
                None
            }
        },
        LedgerCall::SetAuthority { target, kind, new_authority, authority } => {
            let m = mint_index(ms, target@, 0);
            if kind == AuthorityType::MintTokens && m >= 0 && may_mint(ms[m], authority) {
                Some(LedgerState {
                    holdings: hs,
                    mints: ms.update(m, MintState { address: ms[m].address, mint_authority: Some(new_authority) }),
                })
            } else {
                None
            }
        },
    }
}

/// What a sequence of calls does when the ledger applies it as one
/// transaction: the final state, or `None` where any call is refused.
pub open spec fn run(s: LedgerState, calls: Seq<LedgerCall>) -> Option<LedgerState>
    decreases calls.len(),
{
    if calls.len() == 0 {
        Some(s)
    } else {
        match step(s, calls[0]) {
            Some(t) => run(t, calls.skip(1)),
            None => None,
        }
    }
}

/// The balance of the holding at address `a`, or 0 where there is none.
pub open spec fn balance_of(s: LedgerState, a: Seq<u8>) -> int {
    let i = holding_index(s.holdings, a, 0);
    if i >= 0 { s.holdings[i].balance as int } else { 0 }
}

/// What a call takes out of the holding at address `a`.
pub open spec fn debit(c: LedgerCall, a: Seq<u8>) -> int {
    match c {
        LedgerCall::Burn { holding, amount, .. } => if holding@ == a { amount as int } else { 0 },
        LedgerCall::Transfer { from, amount, .. } => if from@ == a { amount as int } else { 0 },
        _ => 0,
    }
}

/// What a call puts into the holding at address `a`.
pub open spec fn credit(c: LedgerCall, a: Seq<u8>) -> int {
    match c {
        LedgerCall::MintTo { to, amount, .. } => if to@ == a { amount as int } else { 0 },
        LedgerCall::Transfer { to, amount, .. } => if to@ == a { amount as int } else { 0 },
        _ => 0,
    }
}

/// What a sequence of calls takes out of the holding at address `a`.
pub open spec fn total_debit(calls: Seq<LedgerCall>, a: Seq<u8>) -> int
    decreases calls.len(),
{
    if calls.len() == 0 {
        0
    } else {
        debit(calls[0], a) + total_debit(calls.skip(1), a)
    }
}

/// What a sequence of calls puts into the holding at address `a`.
pub open spec fn total_credit(calls: Seq<LedgerCall>, a: Seq<u8>) -> int
    decreases calls.len(),
{
    if calls.len() == 0 {
        0
    } else {
        credit(calls[0], a) + total_credit(calls.skip(1), a)
    }
}

proof fn lemma_index_update(hs: Seq<Holding>, i: int, h: Holding, a: Seq<u8>, from: int)
    requires
        0 <= i < hs.len(),
        h.address == hs[i].address,
    ensures
        holding_index(hs.update(i, h), a, from) == holding_index(hs, a, from),
    decreases hs.len() - from,
{
    if 0 <= from < hs.len() {
        lemma_index_update(hs, i, h, a, from + 1);
    }
}

proof fn lemma_step_balance(s: LedgerState, c: LedgerCall, a: Seq<u8>)
    requires
        step(s, c) is Some,
    ensures
        balance_of(step(s, c)->0, a) == balance_of(s, a) - debit(c, a) + credit(c, a),
{
    let hs = s.holdings;
    let k = holding_index(hs, a, 0);
    lemma_holding_index_range(hs, a, 0);
    match c {
        LedgerCall::Burn { holding, asset_type, amount, authority } => {
            let i = holding_index(hs, holding@, 0);
            lemma_holding_index_range(hs, holding@, 0);
            lemma_index_update(hs, i, with_balance(hs[i], hs[i].balance - amount), a, 0);
        },
        LedgerCall::MintTo { asset_type, to, amount, authority } => {
            let i = holding_index(hs, to@, 0);
            lemma_holding_index_range(hs, to@, 0);
            lemma_index_update(hs, i, with_balance(hs[i], hs[i].balance + amount), a, 0);
        },
        LedgerCall::Transfer { from, to, amount, authority } => {
            let i = holding_index(hs, from@, 0);
            let j = holding_index(hs, to@, 0);
            lemma_holding_index_range(hs, from@, 0);
            lemma_holding_index_range(hs, to@, 0);
            if i != j {
                let moved = hs.update(i, with_balance(hs[i], hs[i].balance - amount));
                lemma_index_update(hs, i, with_balance(hs[i], hs[i].balance - amount), a, 0);
                lemma_index_update(moved, j, with_balance(hs[j], hs[j].balance + amount), a, 0);
            }
        },
        LedgerCall::SetAuthority { .. } => {},
    }
}

/// Accounting of a transaction: where the ledger accepts a sequence of
/// calls, each holding ends with its balance, less what the calls take out of
/// it, plus what they put in.
pub proof fn lemma_run_balance(s: LedgerState, calls: Seq<LedgerCall>, a: Seq<u8>)
    requires
        run(s, calls) is Some,
    ensures
        balance_of(run(s, calls)->0, a) == balance_of(s, a) - total_debit(calls, a) + total_credit(calls, a),
    decreases calls.len(),
{
    if calls.len() > 0 {
        let t = step(s, calls[0])->0;
        lemma_step_balance(s, calls[0], a);
        lemma_run_balance(t, calls.skip(1), a);
    }
}

/// Debits and credits add up over the parts of a sequence of calls.
pub proof fn lemma_totals_concat(p: Seq<LedgerCall>, q: Seq<LedgerCall>, a: Seq<u8>)
    ensures
        total_debit(p + q, a) == total_debit(p, a) + total_debit(q, a),
        total_credit(p + q, a) == total_credit(p, a) + total_credit(q, a),
    decreases p.len(),
{
    if p.len() > 0 {
        assert((p + q).skip(1) =~= p.skip(1) + q);
        lemma_totals_concat(p.skip(1), q, a);
    } else {
        assert(p + q =~= q);
    }
}

/// Nothing is ever taken out or put in in negative amounts.
pub proof fn lemma_totals_nonnegative(p: Seq<LedgerCall>, a: Seq<u8>)
    ensures
        total_debit(p, a) >= 0,
        total_credit(p, a) >= 0,
    decreases p.len(),
{
    if p.len() > 0 {
        lemma_totals_nonnegative(p.skip(1), a);
    }
}

proof fn lemma_holding_index_range(hs: Seq<Holding>, a: Seq<u8>, from: int)
    ensures
        holding_index(hs, a, from) == -1 || (from <= holding_index(hs, a, from) < hs.len()
            && hs[holding_index(hs, a, from)].address@ == a),
    decreases hs.len() - from,
{
    if 0 <= from < hs.len() && hs[from].address@ != a {
        lemma_holding_index_range(hs, a, from + 1);
    }
}

fn find_holding(hs: &Vec<Holding>, a: &Identity) -> (r: Option<usize>)
    ensures
        match r {
            Some(i) => i as int == holding_index(hs@, a@, 0) && i < hs@.len(),
            None => holding_index(hs@, a@, 0) == -1,
        },
{
    let mut i: usize = 0;
    while i < hs.len()
        invariant
            i <= hs@.len(),
            holding_index(hs@, a@, 0) == holding_index(hs@, a@, i as int),
        decreases hs@.len() - i,
    {
        if hs[i].address.same(a) {
            return Some(i);
        }
        i = i + 1;
    }
    None
}

fn find_mint(ms: &Vec<MintState>, a: &Identity) -> (r: Option<usize>)
    ensures
        match r {
            Some(i) => i as int == mint_index(ms@, a@, 0) && i < ms@.len(),
            None => mint_index(ms@, a@, 0) == -1,
        },
{
    let mut i: usize = 0;
    while i < ms.len()
        invariant
            i <= ms@.len(),
            mint_index(ms@, a@, 0) == mint_index(ms@, a@, i as int),
        decreases ms@.len() - i,
    {
        if ms[i].address.same(a) {
            return Some(i);
        }
        i = i + 1;
    }
    None
}

fn holds_mint_authority(m: &MintState, who: &Identity) -> (r: bool)
    ensures
        r == may_mint(*m, *who),
{
    match &m.mint_authority {
        Some(k) => k.same(who),
        None => false,
    }
}

impl Ledger {
    pub fn new() -> (r: Ledger)
        ensures
            r@.holdings.len() == 0,
            r@.mints.len() == 0,
    {
        Ledger { holdings: Vec::new(), mints: Vec::new() }
    }

    /// The balance of the holding at `address`, or 0 where there is none.
    pub fn balance(&self, address: &Identity) -> (r: u64)
        ensures
            r == balance_of(self@, address@),
    {
        match find_holding(&self.holdings, address) {
            Some(i) => self.holdings[i].balance,
            None => 0,
        }
    }

    /// A copy of this ledger.
    pub fn snapshot(&self) -> (r: Ledger)
        ensures
            r@ == self@,
    {
        let mut holdings: Vec<Holding> = Vec::new();
        let mut i: usize = 0;
        while i < self.holdings.len()
            invariant
                i <= self.holdings@.len(),
                holdings@ == self.holdings@.subrange(0, i as int),
            decreases self.holdings@.len() - i,
        {
            holdings.push(self.holdings[i]);
            i = i + 1;
            assert(holdings@ =~= self.holdings@.subrange(0, i as int));
        }
        let mut mints: Vec<MintState> = Vec::new();
        let mut j: usize = 0;
        while j < self.mints.len()
            invariant
                j <= self.mints@.len(),
                mints@ == self.mints@.subrange(0, j as int),
            decreases self.mints@.len() - j,
        {
            mints.push(self.mints[j]);
            j = j + 1;
            assert(mints@ =~= self.mints@.subrange(0, j as int));
        }
        assert(holdings@ =~= self.holdings@);
        assert(mints@ =~= self.mints@);
        Ledger { holdings, mints }
    }

    /// Applies the calls in order as one transaction: all of them take
    /// effect, or, where the ledger refuses any, none does.
    pub fn apply_all(&mut self, calls: &Vec<LedgerCall>) -> (r: Result<(), ErrorCode>)
        ensures
            match run(old(self)@, calls@) {
                Some(t) => r is Ok && final(self)@ == t,
                None => r == Err::<(), ErrorCode>(ErrorCode::LedgerOperationFailed) && final(self)@ == old(self)@,
            },
    {
        let mut next = self.snapshot();
        let mut i: usize = 0;
        assert(calls@.skip(0) =~= calls@);
        while i < calls.len()
            invariant
                i <= calls@.len(),
                run(self@, calls@) == run(next@, calls@.skip(i as int)),
            decreases calls@.len() - i,
        {
            let res = next.apply(&calls[i]);
            assert(calls@.skip(i as int).skip(1) =~= calls@.skip(i + 1));
            if res.is_err() {
                return Err(ErrorCode::LedgerOperationFailed);
            }
            i = i + 1;
        }
        assert(calls@.skip(i as int) =~= Seq::<LedgerCall>::empty());
        *self = next;
        Ok(())
    }

    /// Applies one call; a refused call leaves the ledger as it was.
    pub fn apply(&mut self, c: &LedgerCall) -> (r: Result<(), ErrorCode>)
        ensures
            match step(old(self)@, *c) {
                Some(t) => r is Ok && final(self)@ == t,
                None => r == Err::<(), ErrorCode>(ErrorCode::LedgerOperationFailed) && final(self)@ == old(self)@,
            },
    {
        match c {
            LedgerCall::Burn { holding, asset_type, amount, authority } => {
                if let Some(i) = find_holding(&self.holdings, holding) {
                    let h = self.holdings[i];
                    if h.asset_type.same(asset_type) && h.authority.same(authority) && h.balance >= *amount {
                        let nh = Holding { balance: h.balance - *amount, ..h };
                        self.holdings.set(i, nh);
                        return Ok(());
                    }
                }
                Err(ErrorCode::LedgerOperationFailed)
            },
            LedgerCall::MintTo { asset_type, to, amount, authority } => {
                if let (Some(m), Some(i)) = (find_mint(&self.mints, asset_type), find_holding(&self.holdings, to)) {
                    let h = self.holdings[i];
                    if holds_mint_authority(&self.mints[m], authority) && h.asset_type.same(asset_type)
                        && h.balance <= u64::MAX - *amount {
                        let nh = Holding { balance: h.balance + *amount, ..h };
                        self.holdings.set(i, nh);
                        return Ok(());
                    }
                }
                Err(ErrorCode::LedgerOperationFailed)
            },
            LedgerCall::Transfer { from, to, amount, authority } => {
                if let (Some(i), Some(j)) = (find_holding(&self.holdings, from), find_holding(&self.holdings, to)) {
                    let hi = self.holdings[i];
                    let hj = self.holdings[j];
                    if hi.authority.same(authority) && hi.asset_type.same(&hj.asset_type) && hi.balance >= *amount {
                        if i == j {
                            return Ok(());
                        } else if hj.balance <= u64::MAX - *amount {
                            self.holdings.set(i, Holding { balance: hi.balance - *amount, ..hi });
                            self.holdings.set(j, Holding { balance: hj.balance + *amount, ..hj });
                            return Ok(());
                        }
                    }
                }
                Err(ErrorCode::LedgerOperationFailed)
            },
            LedgerCall::SetAuthority { target, kind, new_authority, authority } => {
                if let AuthorityType::MintTokens = kind {
                    if let Some(m) = find_mint(&self.mints, target) {
                        if holds_mint_authority(&self.mints[m], authority) {
                            let nm = MintState { address: self.mints[m].address, mint_authority: Some(*new_authority) };
                            self.mints.set(m, nm);
                            return Ok(());
                        }
                    }
                }
                Err(ErrorCode::LedgerOperationFailed)
            },
        }
    }
}

} // verus!
