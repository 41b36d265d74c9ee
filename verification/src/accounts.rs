//! Amounts by account: the table behind the token balances and behind the
//! stakes. An account that the table does not hold has the amount zero, and
//! an amount of zero is not stored.

use vstd::prelude::*;
use crate::interface::Cw20Coin;
use crate::order::{key_lt, Key};
use crate::sorted_map::{
    as_map, ascending, id_at, is_page, lemma_entry, lemma_inserted, Entry, SortedMap,
};
use crate::sums::{all_positive_amounts, amount_of, lemma_sum_with_amount, sum_of, with_amount};

verus! {

pub struct Accounts {
    table: SortedMap<String, u128>,
}

impl View for Accounts {
    type V = Map<Seq<char>, u128>;

    closed spec fn view(&self) -> Map<Seq<char>, u128> {
        self.table@
    }
}

/// The identifiers that a sequence of strings stands for.
pub open spec fn names(v: Seq<String>) -> Seq<Seq<char>> {
    Seq::new(v.len(), |i: int| v[i]@)
}

/// `k` comes behind the cursor, if there is a cursor.
pub open spec fn behind(cursor: Option<Seq<char>>, k: Seq<char>) -> bool {
    cursor matches Some(c) ==> key_lt(c, k)
}

/// The cursor of a listing as a mathematical value.
pub open spec fn cursor_of(start_after: Option<String>) -> Option<Seq<char>> {
    match start_after {
        Some(c) => Some(c@),
        None => None,
    }
}

/// The accounts of `m` that come behind the cursor.
pub open spec fn accounts_behind(m: Map<Seq<char>, u128>, cursor: Option<Seq<char>>) -> Set<
    Seq<char>,
> {
    Set::new(|k: Seq<char>| m.contains_key(k) && behind(cursor, k))
}

/// An account occurs twice in the list.
pub open spec fn has_duplicates(accounts: Seq<Cw20Coin>) -> bool {
    exists|i: int, j: int|
        0 <= i < j < accounts.len() && (#[trigger] accounts[i]).address@ == (#[trigger] accounts[j]).address@
}

/// The sum of the amounts in the list.
pub open spec fn seed_total(accounts: Seq<Cw20Coin>) -> nat
    decreases accounts.len(),
{
    if accounts.len() == 0 {
        0
    } else {
        seed_total(accounts.drop_last()) + accounts.last().amount as nat
    }
}

/// The balances `m` after each account of the list, in turn, has been given
/// its amount.
pub open spec fn seeded(m: Map<Seq<char>, u128>, accounts: Seq<Cw20Coin>) -> Map<Seq<char>, u128>
    decreases accounts.len(),
{
    if accounts.len() == 0 {
        m
    } else {
        with_amount(seeded(m, accounts.drop_last()), accounts.last().address@, accounts.last().amount)
    }
}

/// Seeding leaves an account that is not in the list as it was.
pub proof fn lemma_seeded_others(m: Map<Seq<char>, u128>, accounts: Seq<Cw20Coin>, k: Seq<char>)
    requires
        forall|i: int| 0 <= i < accounts.len() ==> (#[trigger] accounts[i]).address@ != k,
    ensures
        amount_of(seeded(m, accounts), k) == amount_of(m, k),
    decreases accounts.len(),
{
    if accounts.len() > 0 {
        let front = accounts.drop_last();
        assert(accounts[accounts.len() - 1].address@ != k);
        assert forall|i: int| 0 <= i < front.len() implies (#[trigger] front[i]).address@ != k by {
            assert(accounts[i].address@ != k);
        }
        lemma_seeded_others(m, front, k);
    }
}

/// A list without an account that occurs twice stays so without its last
/// entry.
pub proof fn lemma_front_has_no_duplicates(accounts: Seq<Cw20Coin>)
    requires
        !has_duplicates(accounts),
        accounts.len() > 0,
    ensures
        !has_duplicates(accounts.drop_last()),
{
    let front = accounts.drop_last();
    if has_duplicates(front) {
        let (i, j) = choose|i: int, j: int|
            0 <= i < j < front.len() && (#[trigger] front[i]).address@ == (#[trigger] front[j]).address@;
        assert(accounts[i].address@ == accounts[j].address@);
    }
}

/// Where no account occurs twice, seeding gives each account of the list
/// its amount.
pub proof fn lemma_seeded_amounts(m: Map<Seq<char>, u128>, accounts: Seq<Cw20Coin>)
    requires
        !has_duplicates(accounts),
    ensures
        forall|i: int|
            0 <= i < accounts.len() ==> amount_of(seeded(m, accounts), (#[trigger] accounts[i]).address@)
                == accounts[i].amount,
    decreases accounts.len(),
{
    if accounts.len() > 0 {
        let front = accounts.drop_last();
        lemma_front_has_no_duplicates(accounts);
        lemma_seeded_amounts(m, front);
        assert forall|i: int| 0 <= i < accounts.len() implies amount_of(
            seeded(m, accounts),
            (#[trigger] accounts[i]).address@,
        ) == accounts[i].amount by {
            if i < accounts.len() - 1 {
                assert(front[i] == accounts[i]);
                assert(accounts[i].address@ != accounts[accounts.len() - 1].address@);
            }
        }
    }
}

/// Where no account occurs twice, the balances seeded into an empty table
/// add up to the sum of the list.
pub proof fn lemma_seeded_total(accounts: Seq<Cw20Coin>)
    requires
        !has_duplicates(accounts),
    ensures
        seeded(Map::empty(), accounts).dom().finite(),
        sum_of(seeded(Map::empty(), accounts)) == seed_total(accounts),
    decreases accounts.len(),
{
    if accounts.len() > 0 {
        let front = accounts.drop_last();
        let last = accounts.last();
        lemma_front_has_no_duplicates(accounts);
        lemma_seeded_total(front);
        assert forall|i: int| 0 <= i < front.len() implies (#[trigger] front[i]).address@ != last.address@ by {
            assert(accounts[i].address@ != accounts[accounts.len() - 1].address@);
        }
        lemma_seeded_others(Map::empty(), front, last.address@);
        lemma_sum_with_amount(seeded(Map::empty(), front), last.address@, last.amount);
    }
}

/// A list of accounts that holds what an ascending sequence of entries
/// holds, place by place, seeds the map of the entries.
proof fn lemma_listing_seeds(entries: Seq<Entry<String, u128>>, accounts: Seq<Cw20Coin>)
    requires
        ascending(entries),
        accounts.len() == entries.len(),
        forall|i: int|
            0 <= i < entries.len() ==> (#[trigger] accounts[i]).address@ == entries[i].key@ && accounts[i].amount
                == entries[i].value && entries[i].value > 0,
    ensures
        !has_duplicates(accounts),
        seeded(Map::empty(), accounts) == as_map(entries),
    decreases entries.len(),
{
    if has_duplicates(accounts) {
        let (i, j) = choose|i: int, j: int|
            0 <= i < j < accounts.len() && (#[trigger] accounts[i]).address@ == (#[trigger] accounts[j]).address@;
        assert(String::before(id_at(entries, i), id_at(entries, j)));
        String::lemma_irreflexive(id_at(entries, i));
    }
    if entries.len() == 0 {
        assert(as_map(entries) =~= Map::<Seq<char>, u128>::empty());
    } else {
        let n = entries.len() - 1;
        let front = entries.drop_last();
        assert forall|i: int, j: int| 0 <= i < j < front.len() implies String::before(
            #[trigger] id_at(front, i),
            #[trigger] id_at(front, j),
        ) by {
            assert(String::before(id_at(entries, i), id_at(entries, j)));
        }
        assert forall|i: int| 0 <= i < front.len() implies (#[trigger] accounts.drop_last()[i]).address@
            == front[i].key@ && accounts.drop_last()[i].amount == front[i].value && front[i].value > 0 by {
            assert(accounts[i].address@ == entries[i].key@);
        }
        lemma_listing_seeds(front, accounts.drop_last());
        assert forall|j: int| 0 <= j < n implies String::before(#[trigger] id_at(front, j), entries[n].key.id()) by {
            assert(String::before(id_at(entries, j), id_at(entries, n)));
        }
        lemma_inserted(front, n, entries[n]);
        assert(front.insert(n, entries[n]) =~= entries);
        assert(accounts[n].address@ == entries[n].key@);
    }
}

impl Accounts {
    pub closed spec fn wf(&self) -> bool {
        &&& self.table.wf()
        &&& all_positive_amounts(self@)
    }

    /// The sum of all amounts.
    pub open spec fn total(&self) -> nat {
        sum_of(self@)
    }

    pub proof fn lemma_wf(&self)
        requires
            self.wf(),
        ensures
            all_positive_amounts(self@),
    {
    }

    pub fn new() -> (r: Accounts)
        ensures
            r.wf(),
            r@ == Map::<Seq<char>, u128>::empty(),
    {
        Accounts { table: SortedMap::new() }
    }

    /// The amount of `address`.
    pub fn balance(&self, address: &String) -> (r: u128)
        requires
            self.wf(),
        ensures
            r == amount_of(self@, address@),
    {
        match self.table.get(address) {
            Some(amount) => amount,
            None => 0,
        }
    }

    /// Sets the amount of `address`.
    pub fn set(&mut self, address: &String, amount: u128)
        requires
            old(self).wf(),
        ensures
            final(self).wf(),
            final(self)@ == with_amount(old(self)@, address@, amount),
            final(self).total() == old(self).total() - amount_of(old(self)@, address@) + amount,
    {
        proof {
            lemma_sum_with_amount(self@, address@, amount);
        }
        if amount == 0 {
            self.table.remove(address);
        } else {
            self.table.insert(address.clone(), amount);
        }
    }

    /// The accounts with their amounts, in ascending order of the accounts.
    /// Seeding an empty table with the list gives this table again.
    pub fn to_vec(&self) -> (r: Vec<Cw20Coin>)
        requires
            self.wf(),
        ensures
            forall|i: int, j: int|
                0 <= i < j < r@.len() ==> key_lt((#[trigger] r@[i]).address@, (#[trigger] r@[j]).address@),
            !has_duplicates(r@),
            seeded(Map::empty(), r@) == self@,
            seed_total(r@) == self.total(),
    {
        let entries = self.table.to_vec();
        let mut out: Vec<Cw20Coin> = Vec::new();
        let mut i: usize = 0;
        while i < entries.len()
            invariant
                i <= entries@.len(),
                out@.len() == i,
                forall|j: int|
                    0 <= j < i ==> (#[trigger] out@[j]).address@ == entries@[j].key@ && out@[j].amount
                        == entries@[j].value,
            decreases entries@.len() - i,
        {
            out.push(Cw20Coin { address: entries[i].key.clone(), amount: entries[i].value });
            i += 1;
        }
        proof {
            assert forall|j: int| 0 <= j < entries@.len() implies (#[trigger] entries@[j]).value > 0 by {
                lemma_entry(entries@, j);
                assert(self@.contains_key(id_at(entries@, j)));
            }
            lemma_listing_seeds(entries@, out@);
            lemma_seeded_total(out@);
            assert forall|i: int, j: int| 0 <= i < j < out@.len() implies key_lt(
                (#[trigger] out@[i]).address@,
                (#[trigger] out@[j]).address@,
            ) by {
                assert(String::before(id_at(entries@, i), id_at(entries@, j)));
            }
        }
        out
    }

    /// The accounts behind the cursor in ascending order, `limit` of them
    /// at most.
    pub fn page(&self, start_after: &Option<String>, limit: usize) -> (r: Vec<String>)
        requires
            self.wf(),
        ensures
            is_page::<String>(
                names(r@),
                accounts_behind(self@, cursor_of(*start_after)),
                limit as nat,
            ),
    {
        let start = match start_after {
            Some(cursor) => self.table.first_after(cursor),
            None => 0,
        };
        let mut out: Vec<String> = Vec::new();
        let mut i = start;
        while i < self.table.len() && out.len() < limit
            invariant
                start <= i <= self.table.keys().len(),
                out@.len() == i - start,
                out@.len() <= limit,
                forall|j: int| 0 <= j < out@.len() ==> (#[trigger] out@[j])@ == self.table.keys()[start + j],
            decreases self.table.keys().len() - i,
        {
            out.push(self.table.key(i).clone());
            i += 1;
        }
        proof {
            let keys = self.table.keys();
            let page = names(out@);
            let set = accounts_behind(self@, cursor_of(*start_after));
            self.table.lemma_keys();
            assert forall|j: int| 0 <= j < page.len() implies #[trigger] page[j] == keys[start + j] by {
                assert(out@[j]@ == keys[start + j]);
            }
            assert forall|j: int| 0 <= j < page.len() implies set.contains(#[trigger] page[j]) by {
                assert(self@.contains_key(keys[start + j]));
            }
            assert forall|a: int, b: int| 0 <= a < b < page.len() implies String::before(
                #[trigger] page[a],
                #[trigger] page[b],
            ) by {
                assert(String::before(keys[start + a], keys[start + b]));
            }
            assert forall|k: Seq<char>| #[trigger] set.contains(k) implies page.contains(k) || (
            page.len() == limit && (limit == 0 || String::before(page.last(), k))) by {
                assert(keys.contains(k));
                let j = choose|j: int| 0 <= j < keys.len() && keys[j] == k;
                if j < start {
                    assert(!String::before(start_after->0@, keys[j]));
                }
                if j < i {
                    assert(page[j - start] == k);
                } else if limit > 0 {
                    assert(page.last() == page[page.len() - 1]);
                    assert(String::before(keys[i - 1], keys[j]));
                }
            }
        }
        out
    }
}

} // verus!
