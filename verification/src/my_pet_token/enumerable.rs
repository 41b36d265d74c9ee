//! Listings of accounts and allowances, page by page and in ascending
//! order of the account identifiers.

use vstd::prelude::*;
use crate::accounts::{accounts_behind, behind, cursor_of, names};
use crate::chain::CommonError;
use crate::interface::{
    AllAccountsResponse, AllAllowancesResponse, AllSpenderAllowancesResponse, AllowanceInfo,
    AllowanceResponse, SpenderAllowanceInfo,
};
use crate::my_pet_token::state::{Approvals, TokenLedger};
use crate::order::{key_lt, lemma_key_lt_irreflexive, lemma_key_lt_transitive, Key, PairKey};
use crate::sorted_map::{is_page, SortedMap};

verus! {

/// The length of a page where the caller asks for none.
pub const DEFAULT_LIMIT: u32 = 10;

/// The greatest length of a page.
pub const MAX_LIMIT: u32 = 30;

/// The length of the page that a query with `limit` gets.
pub open spec fn page_limit(limit: Option<u32>) -> nat {
    match limit {
        Some(l) => if l > MAX_LIMIT {
            MAX_LIMIT as nat
        } else {
            l as nat
        },
        None => DEFAULT_LIMIT as nat,
    }
}

fn limit_of(limit: Option<u32>) -> (r: usize)
    ensures
        r == page_limit(limit),
{
    match limit {
        Some(l) => if l > MAX_LIMIT {
            MAX_LIMIT as usize
        } else {
            l as usize
        },
        None => DEFAULT_LIMIT as usize,
    }
}

/// The accounts that stand with `first` in a pair of `m` and come behind
/// the cursor.
pub open spec fn partners_behind(m: Approvals, first: Seq<char>, cursor: Option<Seq<char>>) -> Set<Seq<char>> {
    Set::new(|k: Seq<char>| m.contains_key((first, k)) && behind(cursor, k))
}

/// The partners that a list of pairs names.
pub open spec fn partners(v: Seq<PairKey>) -> Seq<Seq<char>> {
    Seq::new(v.len(), |i: int| v[i].second@)
}

/// The pairs of `table` that begin with `first` and whose second account
/// comes behind the cursor, in ascending order, `limit` of them at most.
fn pairs_under(
    table: &SortedMap<PairKey, AllowanceResponse>,
    first: &String,
    start_after: &Option<String>,
    limit: usize,
) -> (r: Vec<PairKey>)
    requires
        table.wf(),
    ensures
        is_page::<String>(partners(r@), partners_behind(table@, first@, cursor_of(*start_after)), limit as nat),
        forall|i: int| 0 <= i < r@.len() ==> (#[trigger] r@[i]).first@ == first@,
{
    let ghost cursor = cursor_of(*start_after);
    let ghost low: (Seq<char>, Seq<char>) = (
        first@,
        match cursor {
            Some(c) => c,
            None => Seq::empty(),
        },
    );
    let start = match start_after {
        Some(c) => table.first_after(&PairKey { first: first.clone(), second: c.clone() }),
        None => {
            let least = PairKey { first: first.clone(), second: String::new() };
            table.rank(&least)
        },
    };
    let ghost keys = table.keys();
    proof {
        table.lemma_keys();
        lemma_key_lt_irreflexive(first@);
        // behind the start, every pair with `first` has its partner behind the cursor
        assert forall|j: int| start <= j < keys.len() && (#[trigger] keys[j]).0 == first@ implies behind(
            cursor,
            keys[j].1,
        ) by {
            if cursor is Some {
                assert(PairKey::before(low, keys[j]));
            }
        }
        // before the start, no pair with `first` has its partner behind the cursor
        assert forall|j: int| 0 <= j < start && (#[trigger] keys[j]).0 == first@ implies !behind(
            cursor,
            keys[j].1,
        ) by {
            if cursor is Some {
                assert(!PairKey::before(low, keys[j]));
            } else {
                assert(PairKey::before(keys[j], low));
                assert(vstd::utf8::encode_utf8(Seq::<char>::empty()).len() == 0);
            }
        }
    }
    let mut out: Vec<PairKey> = Vec::new();
    let mut i = start;
    let mut more = true;
    while more && i < table.len() && out.len() < limit
        invariant
            table.wf(),
            keys == table.keys(),
            start <= i <= keys.len(),
            out@.len() == i - start,
            out@.len() <= limit,
            forall|j: int| 0 <= j < out@.len() ==> (#[trigger] out@[j]).id() == keys[start + j],
            forall|j: int| 0 <= j < out@.len() ==> (#[trigger] out@[j]).first@ == first@,
            !more ==> i < keys.len() && keys[i as int].0 != first@,
        decreases keys.len() - i + if more { 1int } else { 0int },
    {
        let key = table.key(i);
        if key.first == *first {
            out.push(key.duplicate());
            i += 1;
        } else {
            more = false;
        }
    }
    proof {
        let page = partners(out@);
        let set = partners_behind(table@, first@, cursor);
        assert forall|j: int| 0 <= j < page.len() implies #[trigger] page[j] == keys[start + j].1 && keys[start
            + j].0 == first@ by {
            assert(out@[j].id() == keys[start + j]);
        }
        assert forall|j: int| 0 <= j < page.len() implies set.contains(#[trigger] page[j]) by {
            assert(table@.contains_key(keys[start + j]));
            assert(keys[start + j] == (first@, page[j]));
        }
        assert forall|a: int, b: int| 0 <= a < b < page.len() implies String::before(
            #[trigger] page[a],
            #[trigger] page[b],
        ) by {
            assert(PairKey::before(keys[start + a], keys[start + b]));
        }
        assert forall|k: Seq<char>| #[trigger] set.contains(k) implies page.contains(k) || (page.len() == limit
            && (limit == 0 || String::before(page.last(), k))) by {
            assert(keys.contains((first@, k)));
            let j = choose|j: int| 0 <= j < keys.len() && keys[j] == (first@, k);
            if j < start {
                assert(!behind(cursor, keys[j].1));
            } else if j < i {
                assert(page[j - start] == k);
            } else if !more {
                // the listing has left the pairs of `first` behind
                if i < j {
                    assert(PairKey::before(keys[i as int], keys[j]));
                }
                if cursor is Some {
                    assert(PairKey::before(low, keys[i as int]));
                } else {
                    assert(!PairKey::before(keys[i as int], low));
                    PairKey::lemma_connected(keys[i as int], low);
                }
                assert(key_lt(first@, keys[i as int].0));
                if i < j && key_lt(keys[i as int].0, first@) {
                    lemma_key_lt_transitive(first@, keys[i as int].0, first@);
                }
            } else if limit > 0 {
                assert(page.last() == page[page.len() - 1]);
                assert(PairKey::before(keys[i - 1], keys[j]));
            }
        }
    }
    out
}

/// The accounts that hold tokens and come behind `start_after`, in
/// ascending order; `limit` of them at most, and never more than
/// `MAX_LIMIT`.
pub fn query_all_accounts(state: &TokenLedger, start_after: Option<String>, limit: Option<u32>) -> (r: Result<
    AllAccountsResponse,
    CommonError,
>)
    requires
        state.wf(),
    ensures
        r matches Ok(res) && is_page::<String>(
            names(res.accounts@),
            accounts_behind(state@.balances, cursor_of(start_after)),
            page_limit(limit),
        ),
{
    let accounts = state.balances().page(&start_after, limit_of(limit));
    Ok(AllAccountsResponse { accounts })
}

/// The spenders that a list of allowances names.
pub open spec fn spenders(v: Seq<AllowanceInfo>) -> Seq<Seq<char>> {
    Seq::new(v.len(), |i: int| v[i].spender@)
}

/// The allowances that `owner` has given to the spenders behind
/// `start_after`, in ascending order of the spenders; `limit` of them at
/// most, and never more than `MAX_LIMIT`.
pub fn query_owner_allowances(state: &TokenLedger, owner: String, start_after: Option<String>, limit: Option<u32>) -> (r:
    Result<AllAllowancesResponse, CommonError>)
    requires
        state.wf(),
    ensures
        r matches Ok(res) && is_page::<String>(
            spenders(res.allowances@),
            partners_behind(state@.allowances, owner@, cursor_of(start_after)),
            page_limit(limit),
        ) && forall|i: int|
            0 <= i < res.allowances@.len() ==> {
                let a = #[trigger] res.allowances@[i];
                state@.allowances[(owner@, a.spender@)] == (AllowanceResponse {
                    allowance: a.allowance,
                    expires: a.expires,
                })
            },
{
    let table = state.allowances();
    let pairs = pairs_under(table, &owner, &start_after, limit_of(limit));
    let mut allowances: Vec<AllowanceInfo> = Vec::new();
    let mut i: usize = 0;
    while i < pairs.len()
        invariant
            table.wf(),
            table@ == state@.allowances,
            i <= pairs@.len(),
            allowances@.len() == i,
            is_page::<String>(
                partners(pairs@),
                partners_behind(table@, owner@, cursor_of(start_after)),
                page_limit(limit),
            ),
            forall|j: int| 0 <= j < pairs@.len() ==> (#[trigger] pairs@[j]).first@ == owner@,
            forall|j: int|
                0 <= j < i ==> {
                    let a = #[trigger] allowances@[j];
                    a.spender@ == pairs@[j].second@ && table@[(owner@, a.spender@)] == (AllowanceResponse {
                        allowance: a.allowance,
                        expires: a.expires,
                    })
                },
        decreases pairs@.len() - i,
    {
        proof {
            assert(partners(pairs@)[i as int] == pairs@[i as int].second@);
            assert(pairs@[i as int].first@ == owner@);
        }
        match table.get(&pairs[i]) {
            Some(a) => {
                allowances.push(
                    AllowanceInfo {
                        spender: pairs[i].second.clone(),
                        allowance: a.allowance,
                        expires: a.expires,
                    },
                );
            },
            None => {
                proof {
                    assert(false);
                }
            },
        }
        i += 1;
    }
    proof {
        assert(spenders(allowances@) =~= partners(pairs@));
    }
    Ok(AllAllowancesResponse { allowances })
}

/// The owners that a list of allowances names.
pub open spec fn owners(v: Seq<SpenderAllowanceInfo>) -> Seq<Seq<char>> {
    Seq::new(v.len(), |i: int| v[i].owner@)
}

/// The allowances that `spender` has been given by the owners behind
/// `start_after`, in ascending order of the owners; `limit` of them at
/// most, and never more than `MAX_LIMIT`. They are read from the index by
/// spender.
pub fn query_spender_allowances(state: &TokenLedger, spender: String, start_after: Option<String>, limit: Option<u32>) -> (r:
    Result<AllSpenderAllowancesResponse, CommonError>)
    requires
        state.wf(),
    ensures
        r matches Ok(res) && is_page::<String>(
            owners(res.allowances@),
            partners_behind(state@.allowances_spender, spender@, cursor_of(start_after)),
            page_limit(limit),
        ) && forall|i: int|
            0 <= i < res.allowances@.len() ==> {
                let a = #[trigger] res.allowances@[i];
                state@.allowances_spender[(spender@, a.owner@)] == (AllowanceResponse {
                    allowance: a.allowance,
                    expires: a.expires,
                })
            },
{
    let table = state.allowances_spender();
    let pairs = pairs_under(table, &spender, &start_after, limit_of(limit));
    let mut allowances: Vec<SpenderAllowanceInfo> = Vec::new();
    let mut i: usize = 0;
    while i < pairs.len()
        invariant
            table.wf(),
            table@ == state@.allowances_spender,
            i <= pairs@.len(),
            allowances@.len() == i,
            is_page::<String>(
                partners(pairs@),
                partners_behind(table@, spender@, cursor_of(start_after)),
                page_limit(limit),
            ),
            forall|j: int| 0 <= j < pairs@.len() ==> (#[trigger] pairs@[j]).first@ == spender@,
            forall|j: int|
                0 <= j < i ==> {
                    let a = #[trigger] allowances@[j];
                    a.owner@ == pairs@[j].second@ && table@[(spender@, a.owner@)] == (AllowanceResponse {
                        allowance: a.allowance,
                        expires: a.expires,
                    })
                },
        decreases pairs@.len() - i,
    {
        proof {
            assert(partners(pairs@)[i as int] == pairs@[i as int].second@);
            assert(pairs@[i as int].first@ == spender@);
        }
        match table.get(&pairs[i]) {
            Some(a) => {
                allowances.push(
                    SpenderAllowanceInfo {
                        owner: pairs[i].second.clone(),
                        allowance: a.allowance,
                        expires: a.expires,
                    },
                );
            },
            None => {
                proof {
                    assert(false);
                }
            },
        }
        i += 1;
    }
    proof {
        assert(owners(allowances@) =~= partners(pairs@));
    }
    Ok(AllSpenderAllowancesResponse { allowances })
}

} // verus!
