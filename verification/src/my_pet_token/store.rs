//! The token ledger as a key-value store keeps it, record by record, and
//! the way from such records to a ledger and back.

use vstd::prelude::*;
use crate::accounts::{has_duplicates, seed_total, seeded, Accounts};
use crate::interface::{no_allowance, AllowanceResponse, Cw20Coin};
use crate::my_pet_token::contract::create_accounts;
use crate::my_pet_token::state::{
    info_view, no_empty_records, with_allowance, Approvals, PetStakingData, TokenInfo, TokenLedger,
    TokenLedgerView,
};
use crate::order::{Key, PairKey};
use crate::sorted_map::{as_map, ascending, id_at, lemma_entry, lemma_inserted, Entry, SortedMap};

verus! {

/// The records of a token ledger: the token record, the balances, the
/// allowances by `(owner, spender)` and by `(spender, owner)`, and the mint
/// window.
#[derive(Clone, Debug, PartialEq, Eq)]
pub struct Stored {
    pub token_info: Option<TokenInfo>,
    pub balances: Vec<Cw20Coin>,
    pub allowances: Vec<Entry<PairKey, AllowanceResponse>>,
    pub allowances_spender: Vec<Entry<PairKey, AllowanceResponse>>,
    pub pet_staking_data: Option<PetStakingData>,
}

/// The allowances `m` after each record of the list, in turn, has been
/// written; a record that allows nothing and never ends is no record.
pub open spec fn recorded(m: Approvals, records: Seq<Entry<PairKey, AllowanceResponse>>) -> Approvals
    decreases records.len(),
{
    if records.len() == 0 {
        m
    } else {
        with_allowance(
            recorded(m, records.drop_last()),
            records.last().key.first@,
            records.last().key.second@,
            records.last().value,
        )
    }
}

/// The total supply that the token record states; zero without a record.
pub open spec fn stated_supply(token_info: Option<TokenInfo>) -> u128 {
    match token_info {
        Some(info) => info.total_supply,
        None => 0,
    }
}

impl Stored {
    /// The records are those of a ledger: no account has two balances, and
    /// the balances add up to the total supply.
    pub open spec fn sound(&self) -> bool {
        &&& !has_duplicates(self.balances@)
        &&& seed_total(self.balances@) == stated_supply(self.token_info)
    }

    /// The ledger that the records describe.
    pub open spec fn ledger(&self) -> TokenLedgerView {
        TokenLedgerView {
            token_info: info_view(self.token_info),
            balances: seeded(Map::empty(), self.balances@),
            allowances: recorded(Map::empty(), self.allowances@),
            allowances_spender: recorded(Map::empty(), self.allowances_spender@),
            pet_staking_data: self.pet_staking_data,
        }
    }
}

/// Nothing that has been recorded states the absence of an allowance.
proof fn lemma_recorded_has_no_empty_records(records: Seq<Entry<PairKey, AllowanceResponse>>)
    ensures
        no_empty_records(recorded(Map::empty(), records)),
    decreases records.len(),
{
    if records.len() > 0 {
        lemma_recorded_has_no_empty_records(records.drop_last());
    }
}

/// The table of the allowances that the list records.
fn table_of(records: &Vec<Entry<PairKey, AllowanceResponse>>) -> (r: SortedMap<PairKey, AllowanceResponse>)
    ensures
        r.wf(),
        r@ == recorded(Map::empty(), records@),
        no_empty_records(r@),
{
    let mut table: SortedMap<PairKey, AllowanceResponse> = SortedMap::new();
    let mut i: usize = 0;
    while i < records.len()
        invariant
            i <= records@.len(),
            table.wf(),
            table@ == recorded(Map::empty(), records@.take(i as int)),
        decreases records@.len() - i,
    {
        proof {
            assert(records@.take(i + 1).drop_last() =~= records@.take(i as int));
        }
        if records[i].value.is_none() {
            table.remove(&records[i].key);
        } else {
            table.insert(records[i].key.duplicate(), records[i].value);
        }
        i += 1;
    }
    proof {
        assert(records@.take(records@.len() as int) =~= records@);
        lemma_recorded_has_no_empty_records(records@);
    }
    table
}

/// The ledger that the records describe, or `None` where they are not
/// those of a ledger.
pub fn restore(stored: Stored) -> (r: Option<TokenLedger>)
    ensures
        stored.sound() ==> (r matches Some(ledger) && ledger.wf() && ledger@ == stored.ledger()),
        !stored.sound() ==> r is None,
{
    let mut balances = Accounts::new();
    let total = match create_accounts(&mut balances, stored.balances.as_slice()) {
        Ok(total) => total,
        Err(_) => {
            return None;
        },
    };
    let supply = match &stored.token_info {
        Some(info) => info.total_supply,
        None => 0,
    };
    if total != supply {
        return None;
    }
    proof {
        crate::accounts::lemma_seeded_total(stored.balances@);
    }
    let allowances = table_of(&stored.allowances);
    let allowances_spender = table_of(&stored.allowances_spender);
    Some(
        TokenLedger::assemble(
            stored.token_info,
            balances,
            allowances,
            allowances_spender,
            stored.pet_staking_data,
        ),
    )
}

/// Recording the entries of a table in their order gives the table again.
proof fn lemma_listing_records(entries: Seq<Entry<PairKey, AllowanceResponse>>)
    requires
        ascending(entries),
        forall|i: int| 0 <= i < entries.len() ==> (#[trigger] entries[i]).value != no_allowance(),
    ensures
        recorded(Map::empty(), entries) == as_map(entries),
    decreases entries.len(),
{
    if entries.len() == 0 {
        assert(as_map(entries) =~= Map::<(Seq<char>, Seq<char>), AllowanceResponse>::empty());
    } else {
        let n = entries.len() - 1;
        let front = entries.drop_last();
        assert forall|i: int, j: int| 0 <= i < j < front.len() implies PairKey::before(
            #[trigger] id_at(front, i),
            #[trigger] id_at(front, j),
        ) by {
            assert(PairKey::before(id_at(entries, i), id_at(entries, j)));
        }
        assert forall|i: int| 0 <= i < front.len() implies (#[trigger] front[i]).value != no_allowance() by {
            assert(entries[i].value != no_allowance());
        }
        lemma_listing_records(front);
        assert forall|j: int| 0 <= j < n implies PairKey::before(#[trigger] id_at(front, j), entries[n].key.id()) by {
            assert(PairKey::before(id_at(entries, j), id_at(entries, n)));
        }
        lemma_inserted(front, n, entries[n]);
        assert(front.insert(n, entries[n]) =~= entries);
        assert(entries[n].value != no_allowance());
    }
}

/// The entries of a table of allowances, in ascending order.
fn records_of(table: &SortedMap<PairKey, AllowanceResponse>) -> (r: Vec<Entry<PairKey, AllowanceResponse>>)
    requires
        table.wf(),
        no_empty_records(table@),
    ensures
        ascending(r@),
        recorded(Map::empty(), r@) == table@,
{
    let entries = table.to_vec();
    proof {
        assert forall|i: int| 0 <= i < entries@.len() implies (#[trigger] entries@[i]).value
            != no_allowance() by {
            lemma_entry(entries@, i);
            assert(table@.contains_key(id_at(entries@, i)));
        }
        lemma_listing_records(entries@);
    }
    entries
}

/// The records of the ledger. They describe the ledger: restoring them
/// gives a ledger that holds the same.
pub fn export(ledger: &TokenLedger) -> (r: Stored)
    requires
        ledger.wf(),
    ensures
        r.sound(),
        r.ledger() == ledger@,
{
    proof {
        ledger.lemma_inv();
    }
    let token_info = match ledger.token_info() {
        Some(info) => Some(
            TokenInfo {
                name: info.name.clone(),
                symbol: info.symbol.clone(),
                decimals: info.decimals,
                total_supply: info.total_supply,
                mint: info.mint.clone(),
            },
        ),
        None => None,
    };
    Stored {
        token_info,
        balances: ledger.balances().to_vec(),
        allowances: records_of(ledger.allowances()),
        allowances_spender: records_of(ledger.allowances_spender()),
        pet_staking_data: ledger.pet_staking_data(),
    }
}

} // verus!
