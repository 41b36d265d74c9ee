//! What the token ledger keeps, and the steps that change it. Each step
//! leaves the sum of the balances equal to the total supply.

use vstd::prelude::*;
use crate::accounts::Accounts;
use crate::bindings::checked_sub;
use crate::chain::{CommonError, OverflowOperation, Timestamp};
use crate::interface::{no_allowance, AllowanceResponse};
use crate::order::PairKey;
use crate::sorted_map::SortedMap;
use crate::sums::{all_positive_amounts, amount_of, lemma_sum_bounds, sum_of, with_amount};

verus! {

/// What the minter may issue within one window.
pub const MINT_CAP: u128 = 10_000_000;

/// The length of a mint window: 24 hours, in nanoseconds.
pub const WINDOW_NANOS: u64 = 86_400_000_000_000;

#[derive(Clone, Debug, PartialEq, Eq)]
pub struct TokenInfo {
    pub name: String,
    pub symbol: String,
    pub decimals: u8,
    pub total_supply: u128,
    pub mint: String,
}

pub struct TokenInfoView {
    pub name: Seq<char>,
    pub symbol: Seq<char>,
    pub decimals: u8,
    pub total_supply: u128,
    pub mint: Seq<char>,
}

impl View for TokenInfo {
    type V = TokenInfoView;

    open spec fn view(&self) -> TokenInfoView {
        TokenInfoView {
            name: self.name@,
            symbol: self.symbol@,
            decimals: self.decimals,
            total_supply: self.total_supply,
            mint: self.mint@,
        }
    }
}

/// The token record of a ledger as a mathematical value.
pub open spec fn info_view(info: Option<TokenInfo>) -> Option<TokenInfoView> {
    match info {
        Some(i) => Some(i@),
        None => None,
    }
}

/// The mint window: when it began, and what may still be issued in it.
#[derive(Clone, Copy, Debug, PartialEq, Eq, Structural)]
pub struct PetStakingData {
    pub start_time: Timestamp,
    pub amount: u128,
}

impl PetStakingData {
    /// `time` lies in the window: not before its start, and less than 24
    /// hours after it.
    pub open spec fn covers(self, time: Timestamp) -> bool {
        self.start_time.nanos <= time.nanos < self.start_time.nanos + WINDOW_NANOS
    }

    /// A window that begins at `start_time` with the full cap.
    pub fn new(start_time: &Timestamp) -> (r: PetStakingData)
        ensures
            r == (PetStakingData { start_time: *start_time, amount: MINT_CAP }),
    {
        PetStakingData { start_time: *start_time, amount: MINT_CAP }
    }

    pub fn is_valid(&self, time: &Timestamp) -> (r: bool)
        ensures
            r == self.covers(*time),
    {
        if self.start_time.nanos > time.nanos {
            return false;
        }
        time.nanos - self.start_time.nanos < WINDOW_NANOS
    }

    /// Takes `amount` from what may still be issued.
    pub fn update_amount(&mut self, amount: &u128) -> (r: Result<(), CommonError>)
        ensures
            *amount <= old(self).amount ==> r is Ok && *final(self) == (PetStakingData {
                start_time: old(self).start_time,
                amount: (old(self).amount - *amount) as u128,
            }),
            *amount > old(self).amount ==> r == Err::<(), CommonError>(
                CommonError::Overflow { operation: OverflowOperation::Sub },
            ) && *final(self) == *old(self),
    {
        match checked_sub(self.amount, *amount) {
            Ok(rest) => {
                self.amount = rest;
                Ok(())
            },
            Err(_) => Err(CommonError::Overflow { operation: OverflowOperation::Sub }),
        }
    }
}

/// The window that a mint at `now` is counted against: the stored one while
/// it covers `now`, else a fresh one that begins at `now`.
pub open spec fn window_at(stored: Option<PetStakingData>, now: Timestamp) -> PetStakingData {
    match stored {
        Some(w) if w.covers(now) => w,
        _ => PetStakingData { start_time: now, amount: MINT_CAP },
    }
}

pub type Approvals = Map<(Seq<char>, Seq<char>), AllowanceResponse>;

/// The allowance under the pair `(a, b)`; a pair without a record has none.
pub open spec fn allowance_of(m: Approvals, a: Seq<char>, b: Seq<char>) -> AllowanceResponse {
    if m.contains_key((a, b)) {
        m[(a, b)]
    } else {
        no_allowance()
    }
}

/// The map with `value` under the pair `(a, b)`; the absence of an
/// allowance is not stored.
pub open spec fn with_allowance(m: Approvals, a: Seq<char>, b: Seq<char>, value: AllowanceResponse) -> Approvals {
    if value == no_allowance() {
        m.remove((a, b))
    } else {
        m.insert((a, b), value)
    }
}

/// No record states the absence of an allowance.
pub open spec fn no_empty_records(m: Approvals) -> bool {
    forall|p: (Seq<char>, Seq<char>)| m.contains_key(p) ==> #[trigger] m[p] != no_allowance()
}

/// The balances after `amount` has gone from `from` to `to`.
pub open spec fn moved(m: Map<Seq<char>, u128>, from: Seq<char>, to: Seq<char>, amount: u128) -> Map<
    Seq<char>,
    u128,
> {
    let taken = with_amount(m, from, (amount_of(m, from) - amount) as u128);
    with_amount(taken, to, (amount_of(taken, to) + amount) as u128)
}

/// The index by spender after the records of the index by owner have been
/// written into it: a record of the index by owner replaces what the index
/// by spender held for the same two accounts, and what it held for others
/// stays.
pub open spec fn backfilled(forward: Approvals, reverse: Approvals) -> Approvals {
    Map::new(
        |p: (Seq<char>, Seq<char>)| reverse.contains_key(p) || forward.contains_key((p.1, p.0)),
        |p: (Seq<char>, Seq<char>)|
            if forward.contains_key((p.1, p.0)) {
                forward[(p.1, p.0)]
            } else {
                reverse[p]
            },
    )
}

/// The index by spender after the first `n` records of the listing `keys`
/// of the index by owner have been written into it.
pub open spec fn backfilled_to(
    keys: Seq<(Seq<char>, Seq<char>)>,
    n: int,
    forward: Approvals,
    reverse: Approvals,
) -> Approvals {
    Map::new(
        |p: (Seq<char>, Seq<char>)| reverse.contains_key(p) || keys.take(n).contains((p.1, p.0)),
        |p: (Seq<char>, Seq<char>)|
            if keys.take(n).contains((p.1, p.0)) {
                forward[(p.1, p.0)]
            } else {
                reverse[p]
            },
    )
}

/// The token ledger as a mathematical value.
pub struct TokenLedgerView {
    pub token_info: Option<TokenInfoView>,
    pub balances: Map<Seq<char>, u128>,
    /// The allowances by `(owner, spender)`.
    pub allowances: Approvals,
    /// The same allowances by `(spender, owner)`.
    pub allowances_spender: Approvals,
    pub pet_staking_data: Option<PetStakingData>,
}

impl TokenLedgerView {
    /// A ledger that has not been set up.
    pub open spec fn empty() -> TokenLedgerView {
        TokenLedgerView {
            token_info: None,
            balances: Map::empty(),
            allowances: Map::empty(),
            allowances_spender: Map::empty(),
            pet_staking_data: None,
        }
    }

    /// The total supply; zero before the ledger is set up.
    pub open spec fn supply(self) -> u128 {
        match self.token_info {
            Some(info) => info.total_supply,
            None => 0,
        }
    }

    /// What holds of every ledger: the balances add up to the total
    /// supply, and nothing is stored that says nothing.
    pub open spec fn inv(self) -> bool {
        &&& all_positive_amounts(self.balances)
        &&& sum_of(self.balances) == self.supply()
        &&& no_empty_records(self.allowances)
        &&& no_empty_records(self.allowances_spender)
    }

    /// The index by spender holds what the index by owner holds.
    pub open spec fn mirrored(self) -> bool {
        forall|a: Seq<char>, b: Seq<char>|
            (#[trigger] self.allowances.contains_key((a, b)) <==> #[trigger] self.allowances_spender.contains_key((b, a)))
            && (self.allowances.contains_key((a, b)) ==> self.allowances[(a, b)] == self.allowances_spender[(b, a)])
    }
}

pub struct TokenLedger {
    token_info: Option<TokenInfo>,
    balances: Accounts,
    allowances: SortedMap<PairKey, AllowanceResponse>,
    allowances_spender: SortedMap<PairKey, AllowanceResponse>,
    pet_staking_data: Option<PetStakingData>,
}

impl View for TokenLedger {
    type V = TokenLedgerView;

    closed spec fn view(&self) -> TokenLedgerView {
        TokenLedgerView {
            token_info: info_view(self.token_info),
            balances: self.balances@,
            allowances: self.allowances@,
            allowances_spender: self.allowances_spender@,
            pet_staking_data: self.pet_staking_data,
        }
    }
}

impl TokenLedger {
    pub closed spec fn wf(&self) -> bool {
        &&& self.balances.wf()
        &&& self.allowances.wf()
        &&& self.allowances_spender.wf()
        &&& self@.inv()
    }

    /// In every ledger the balances add up to the total supply.
    pub proof fn lemma_inv(&self)
        requires
            self.wf(),
        ensures
            self@.inv(),
    {
    }

    /// A ledger that has not been set up.
    pub fn new() -> (r: TokenLedger)
        ensures
            r.wf(),
            r@ == TokenLedgerView::empty(),
            r@.mirrored(),
    {
        TokenLedger {
            token_info: None,
            balances: Accounts::new(),
            allowances: SortedMap::new(),
            allowances_spender: SortedMap::new(),
            pet_staking_data: None,
        }
    }

    pub fn token_info(&self) -> (r: &Option<TokenInfo>)
        ensures
            info_view(*r) == self@.token_info,
    {
        &self.token_info
    }

    pub fn pet_staking_data(&self) -> (r: Option<PetStakingData>)
        ensures
            r == self@.pet_staking_data,
    {
        self.pet_staking_data
    }

    pub fn balances(&self) -> (r: &Accounts)
        requires
            self.wf(),
        ensures
            r.wf(),
            r@ == self@.balances,
    {
        &self.balances
    }

    pub fn allowances(&self) -> (r: &SortedMap<PairKey, AllowanceResponse>)
        requires
            self.wf(),
        ensures
            r.wf(),
            r@ == self@.allowances,
    {
        &self.allowances
    }

    pub fn allowances_spender(&self) -> (r: &SortedMap<PairKey, AllowanceResponse>)
        requires
            self.wf(),
        ensures
            r.wf(),
            r@ == self@.allowances_spender,
    {
        &self.allowances_spender
    }

    /// Moves `amount` from `from` to `to`.
    pub(crate) fn move_amount(&mut self, from: &String, to: &String, amount: u128)
        requires
            old(self).wf(),
            amount <= amount_of(old(self)@.balances, from@),
        ensures
            final(self).wf(),
            final(self)@ == (TokenLedgerView {
                balances: moved(old(self)@.balances, from@, to@, amount),
                ..old(self)@
            }),
    {
        let rest = self.balances.balance(from) - amount;
        self.balances.set(from, rest);
        proof {
            self.balances.lemma_wf();
            lemma_sum_bounds(self.balances@, to@);
        }
        let raised = self.balances.balance(to) + amount;
        self.balances.set(to, raised);
        proof {
            self.balances.lemma_wf();
        }
    }

    /// Creates `amount` new tokens in the account `to`.
    pub(crate) fn issue(&mut self, to: &String, amount: u128)
        requires
            old(self).wf(),
            old(self)@.token_info is Some,
            old(self)@.supply() + amount <= u128::MAX,
        ensures
            final(self).wf(),
            final(self)@ == (TokenLedgerView {
                token_info: Some(
                    TokenInfoView {
                        total_supply: (old(self)@.supply() + amount) as u128,
                        ..old(self)@.token_info->0
                    },
                ),
                balances: with_amount(
                    old(self)@.balances,
                    to@,
                    (amount_of(old(self)@.balances, to@) + amount) as u128,
                ),
                ..old(self)@
            }),
    {
        proof {
            self.balances.lemma_wf();
            lemma_sum_bounds(self.balances@, to@);
        }
        let raised = self.balances.balance(to) + amount;
        self.balances.set(to, raised);
        let info = match &self.token_info {
            Some(i) => Some(
                TokenInfo {
                    name: i.name.clone(),
                    symbol: i.symbol.clone(),
                    decimals: i.decimals,
                    total_supply: i.total_supply + amount,
                    mint: i.mint.clone(),
                },
            ),
            None => None,
        };
        self.token_info = info;
        proof {
            self.balances.lemma_wf();
        }
    }

    /// Destroys `amount` tokens of the account `from`.
    pub(crate) fn destroy(&mut self, from: &String, amount: u128)
        requires
            old(self).wf(),
            old(self)@.token_info is Some,
            amount <= amount_of(old(self)@.balances, from@),
        ensures
            final(self).wf(),
            final(self)@ == (TokenLedgerView {
                token_info: Some(
                    TokenInfoView {
                        total_supply: (old(self)@.supply() - amount) as u128,
                        ..old(self)@.token_info->0
                    },
                ),
                balances: with_amount(
                    old(self)@.balances,
                    from@,
                    (amount_of(old(self)@.balances, from@) - amount) as u128,
                ),
                ..old(self)@
            }),
    {
        proof {
            self.balances.lemma_wf();
            lemma_sum_bounds(self.balances@, from@);
        }
        let rest = self.balances.balance(from) - amount;
        self.balances.set(from, rest);
        let info = match &self.token_info {
            Some(i) => Some(
                TokenInfo {
                    name: i.name.clone(),
                    symbol: i.symbol.clone(),
                    decimals: i.decimals,
                    total_supply: i.total_supply - amount,
                    mint: i.mint.clone(),
                },
            ),
            None => None,
        };
        self.token_info = info;
        proof {
            self.balances.lemma_wf();
        }
    }

    /// Makes `minter` the minter.
    pub(crate) fn set_minter(&mut self, minter: String)
        requires
            old(self).wf(),
            old(self)@.token_info is Some,
        ensures
            final(self).wf(),
            final(self)@ == (TokenLedgerView {
                token_info: Some(TokenInfoView { mint: minter@, ..old(self)@.token_info->0 }),
                ..old(self)@
            }),
    {
        let info = match &self.token_info {
            Some(i) => Some(
                TokenInfo {
                    name: i.name.clone(),
                    symbol: i.symbol.clone(),
                    decimals: i.decimals,
                    total_supply: i.total_supply,
                    mint: minter,
                },
            ),
            None => None,
        };
        self.token_info = info;
    }

    /// Stores the mint window.
    pub(crate) fn set_window(&mut self, window: PetStakingData)
        requires
            old(self).wf(),
        ensures
            final(self).wf(),
            final(self)@ == (TokenLedgerView { pet_staking_data: Some(window), ..old(self)@ }),
    {
        self.pet_staking_data = Some(window);
    }

    /// Records what `spender` may take from `owner`, in both indices.
    pub(crate) fn set_allowance(&mut self, owner: &String, spender: &String, value: AllowanceResponse)
        requires
            old(self).wf(),
        ensures
            final(self).wf(),
            final(self)@ == (TokenLedgerView {
                allowances: with_allowance(old(self)@.allowances, owner@, spender@, value),
                allowances_spender: with_allowance(old(self)@.allowances_spender, spender@, owner@, value),
                ..old(self)@
            }),
            old(self)@.mirrored() ==> final(self)@.mirrored(),
    {
        let forward = PairKey { first: owner.clone(), second: spender.clone() };
        let reverse = PairKey { first: spender.clone(), second: owner.clone() };
        if value.is_none() {
            self.allowances.remove(&forward);
            self.allowances_spender.remove(&reverse);
        } else {
            self.allowances.insert(forward, value);
            self.allowances_spender.insert(reverse, value);
        }
        proof {
            if old(self)@.mirrored() {
                assert forall|a: Seq<char>, b: Seq<char>|
                    (#[trigger] self@.allowances.contains_key((a, b)) <==> #[trigger] self@.allowances_spender.contains_key((b, a)))
                    && (self@.allowances.contains_key((a, b)) ==> self@.allowances[(a, b)] == self@.allowances_spender[(b, a)]) by {
                    assert(old(self)@.allowances.contains_key((a, b)) <==> old(self)@.allowances_spender.contains_key((b, a)));
                }
            }
        }
    }

    /// Writes every record of the index by owner into the index by
    /// spender.
    pub(crate) fn backfill(&mut self)
        requires
            old(self).wf(),
        ensures
            final(self).wf(),
            final(self)@ == (TokenLedgerView {
                allowances_spender: backfilled(old(self)@.allowances, old(self)@.allowances_spender),
                ..old(self)@
            }),
    {
        let ghost keys = self.allowances.keys();
        let ghost forward = self.allowances@;
        let ghost reverse = self.allowances_spender@;
        proof {
            self.allowances.lemma_keys();
            assert(self.allowances_spender@ =~= backfilled_to(keys, 0, forward, reverse));
        }
        let mut i: usize = 0;
        while i < self.allowances.len()
            invariant
                self.balances == old(self).balances,
                self.token_info == old(self).token_info,
                self.pet_staking_data == old(self).pet_staking_data,
                self.allowances == old(self).allowances,
                self.allowances.wf(),
                self.allowances_spender.wf(),
                keys == self.allowances.keys(),
                forward == self.allowances@,
                forall|j: int| 0 <= j < keys.len() ==> forward.contains_key(#[trigger] keys[j]),
                i <= keys.len(),
                self.allowances_spender@ == backfilled_to(keys, i as int, forward, reverse),
            decreases keys.len() - i,
        {
            let key = self.allowances.key(i);
            let value = self.allowances.value(i);
            let swapped = PairKey { first: key.second.clone(), second: key.first.clone() };
            self.allowances_spender.insert(swapped, value);
            proof {
                let k = keys[i as int];
                let done = keys.take(i as int);
                let next = keys.take(i + 1);
                assert(next =~= done.push(k));
                assert forall|p: (Seq<char>, Seq<char>)|
                    next.contains((p.1, p.0)) <==> (done.contains((p.1, p.0)) || p == (k.1, k.0)) by {
                    if done.contains((p.1, p.0)) {
                        let j = choose|j: int| 0 <= j < done.len() && done[j] == (p.1, p.0);
                        assert(next[j] == (p.1, p.0));
                    }
                    if p == (k.1, k.0) {
                        assert(next[i as int] == (p.1, p.0));
                    }
                    if next.contains((p.1, p.0)) {
                        let j = choose|j: int| 0 <= j < next.len() && next[j] == (p.1, p.0);
                        if j < i {
                            assert(done[j] == (p.1, p.0));
                        }
                    }
                }
                assert(self.allowances_spender@ =~= backfilled_to(keys, i + 1, forward, reverse));
            }
            i += 1;
        }
        proof {
            assert(keys.take(keys.len() as int) =~= keys);
            assert(backfilled_to(keys, keys.len() as int, forward, reverse) =~= backfilled(forward, reverse));
        }
    }

    /// The ledger made of the given parts.
    pub(crate) fn assemble(
        token_info: Option<TokenInfo>,
        balances: Accounts,
        allowances: SortedMap<PairKey, AllowanceResponse>,
        allowances_spender: SortedMap<PairKey, AllowanceResponse>,
        pet_staking_data: Option<PetStakingData>,
    ) -> (r: TokenLedger)
        requires
            balances.wf(),
            allowances.wf(),
            allowances_spender.wf(),
            no_empty_records(allowances@),
            no_empty_records(allowances_spender@),
            balances.total() == match token_info {
                Some(info) => info.total_supply,
                None => 0,
            },
        ensures
            r.wf(),
            r@ == (TokenLedgerView {
                token_info: info_view(token_info),
                balances: balances@,
                allowances: allowances@,
                allowances_spender: allowances_spender@,
                pet_staking_data,
            }),
    {
        proof {
            balances.lemma_wf();
        }
        TokenLedger { token_info, balances, allowances, allowances_spender, pet_staking_data }
    }

    /// Replaces what the ledger holds by a token record and its balances.
    pub(crate) fn reset(&mut self, info: TokenInfo, balances: Accounts)
        requires
            balances.wf(),
            balances.total() == info.total_supply,
        ensures
            final(self).wf(),
            final(self)@ == (TokenLedgerView {
                token_info: Some(info@),
                balances: balances@,
                ..TokenLedgerView::empty()
            }),
    {
        proof {
            balances.lemma_wf();
        }
        self.token_info = Some(info);
        self.balances = balances;
        self.allowances = SortedMap::new();
        self.allowances_spender = SortedMap::new();
        self.pet_staking_data = None;
    }
}

/// Where the index by spender held nothing that the index by owner does
/// not hold, the two hold the same after the backfill.
pub proof fn lemma_backfilled_mirrored(pre: TokenLedgerView)
    requires
        forall|a: Seq<char>, b: Seq<char>| #[trigger]
            pre.allowances_spender.contains_key((b, a)) ==> pre.allowances.contains_key((a, b)),
    ensures
        (TokenLedgerView {
            allowances_spender: backfilled(pre.allowances, pre.allowances_spender),
            ..pre
        }).mirrored(),
{
}

} // verus!
