use vstd::prelude::*;
use crate::keys::{key_lt, lemma_key_lt_irreflexive};
use crate::book::{side_of, book_wf, sorted_ids, has_id, index_of, lemma_index_unique};
use crate::settle::{
    BookModel, update_step, remove_step, add_step, cancel_step, lookup_balance,
    offered_asset, covers,
};
use crate::query::{page_limit, after_cursor};
use crate::types::{PairInfo, TraderRecord, BalanceEntry, ContractError};

verus! {

/// A successful partial fill was covered by the resting owner's reported
/// balance: for a buy order converted to `to_asset` terms, at least the
/// amount filled.
pub proof fn law_partial_fill_solvent(
    pairs: Seq<PairInfo>,
    bm: BookModel,
    taker: TraderRecord,
    entry: TraderRecord,
    tbl: Seq<BalanceEntry>,
)
    requires
        update_step(pairs, bm, taker, entry, tbl) is Ok,
    ensures
        ({
            let s = side_of(bm, entry.is_buy);
            let owner = s[index_of(s, entry.id@)].address@;
            lookup_balance(tbl, offered_asset(pairs[entry.pair_id as int], entry.is_buy), owner) matches Some(b)
                && covers(b, entry.price, entry.current_stock_amount, entry.is_buy)
        }),
{
}

/// A successful full fill was covered by the resting owner's reported
/// balance: for a buy order converted to `to_asset` terms, at least the
/// amount filled.
pub proof fn law_full_fill_solvent(
    pairs: Seq<PairInfo>,
    bm: BookModel,
    taker: TraderRecord,
    entry: TraderRecord,
    tbl: Seq<BalanceEntry>,
)
    requires
        remove_step(pairs, bm, taker, entry, tbl) is Ok,
    ensures
        ({
            let s = side_of(bm, entry.is_buy);
            let owner = s[index_of(s, entry.id@)].address@;
            lookup_balance(tbl, offered_asset(pairs[entry.pair_id as int], entry.is_buy), owner) matches Some(b)
                && covers(b, entry.price, entry.current_stock_amount, entry.is_buy)
        }),
{
}

/// A partial fill by a positive amount leaves the order on the book with a
/// remainder that is strictly smaller than before and still positive, so a
/// run of partial fills strictly decreases it and never stores zero.
pub proof fn law_partial_fill_shrinks(
    pairs: Seq<PairInfo>,
    bm: BookModel,
    taker: TraderRecord,
    entry: TraderRecord,
    tbl: Seq<BalanceEntry>,
)
    requires
        book_wf(bm),
        entry.current_stock_amount > 0,
        update_step(pairs, bm, taker, entry, tbl) is Ok,
    ensures
        ({
            let s = side_of(bm, entry.is_buy);
            let bm2 = update_step(pairs, bm, taker, entry, tbl)->Ok_0.0;
            let s2 = side_of(bm2, entry.is_buy);
            &&& book_wf(bm2)
            &&& has_id(s2, entry.id@)
            &&& s2[index_of(s2, entry.id@)].current_stock_amount < s[index_of(s, entry.id@)].current_stock_amount
            &&& s2[index_of(s2, entry.id@)].current_stock_amount > 0
        }),
{
    let s = side_of(bm, entry.is_buy);
    let i = index_of(s, entry.id@);
    let bm2 = update_step(pairs, bm, taker, entry, tbl)->Ok_0.0;
    let s2 = side_of(bm2, entry.is_buy);
    assert(s2.len() == s.len());
    assert forall|a: int, b: int| 0 <= a < b < s2.len() implies key_lt(#[trigger] s2[a].id@, #[trigger] s2[b].id@) by {
        assert(s2[a].id@ == s[a].id@ && s2[b].id@ == s[b].id@);
    }
    assert(sorted_ids(s2));
    assert(book_wf(bm2));
    lemma_index_unique(s2, i);
}

/// A full fill takes the order off its side: its id is no longer there.
pub proof fn law_full_fill_deletes(
    pairs: Seq<PairInfo>,
    bm: BookModel,
    taker: TraderRecord,
    entry: TraderRecord,
    tbl: Seq<BalanceEntry>,
)
    requires
        book_wf(bm),
        remove_step(pairs, bm, taker, entry, tbl) is Ok,
    ensures
        !has_id(side_of(remove_step(pairs, bm, taker, entry, tbl)->Ok_0.0, entry.is_buy), entry.id@),
{
    let s = side_of(bm, entry.is_buy);
    let i = index_of(s, entry.id@);
    let s2 = side_of(remove_step(pairs, bm, taker, entry, tbl)->Ok_0.0, entry.is_buy);
    assert(s2 == s.remove(i));
    if has_id(s2, entry.id@) {
        let j = choose|j: int| 0 <= j < s2.len() && #[trigger] s2[j].id@ == entry.id@;
        let jj = if j < i { j } else { j + 1 };
        assert(s[jj].id@ == entry.id@);
        lemma_index_unique(s, jj);
    }
}

/// Inserting an order whose id is already on its side fails with
/// `AlreadyStarted`.
pub proof fn law_duplicate_id_rejected(bm: BookModel, order: TraderRecord)
    requires
        has_id(side_of(bm, order.is_buy), order.id@),
    ensures
        add_step(bm, order) == Err::<BookModel, ContractError>(ContractError::AlreadyStarted {}),
{
}

/// Cancelling an order on behalf of anyone but its owner fails with
/// `Unauthorized`.
pub proof fn law_cancel_by_stranger_rejected(bm: BookModel, sender: Seq<char>, id: Seq<char>, is_buy: bool)
    requires
        has_id(side_of(bm, is_buy), id),
        side_of(bm, is_buy)[index_of(side_of(bm, is_buy), id)].address@ != sender,
    ensures
        cancel_step(bm, sender, id, is_buy) == Err::<BookModel, ContractError>(ContractError::Unauthorized {}),
{
}

/// Pages hold at most 10 orders when no limit is asked for, and never more
/// than 30.
pub proof fn law_page_size(limit: Option<u32>)
    ensures
        page_limit(None) == 10,
        page_limit(limit) <= 30,
{
}

/// A page cut from a side past the cursor lists strictly ascending ids, none
/// of them the cursor itself.
pub proof fn law_page_ordered(s: Seq<TraderRecord>, k: int, m: int, start_after: Option<String>)
    requires
        sorted_ids(s),
        0 <= k <= k + m <= s.len(),
        forall|j: int| k <= j < s.len() ==> after_cursor(start_after, #[trigger] s[j].id@),
    ensures
        ({
            let page = s.subrange(k, k + m);
            &&& forall|a: int, b: int| 0 <= a < b < m ==> key_lt(#[trigger] page[a].id@, #[trigger] page[b].id@)
            &&& forall|a: int| 0 <= a < m ==> (start_after matches Some(st) ==> #[trigger] page[a].id@ != st@)
        }),
{
    let page = s.subrange(k, k + m);
    assert forall|a: int, b: int| 0 <= a < b < m implies key_lt(#[trigger] page[a].id@, #[trigger] page[b].id@) by {
        assert(page[a] == s[k + a] && page[b] == s[k + b]);
    }
    assert forall|a: int| 0 <= a < m implies (start_after matches Some(st) ==> #[trigger] page[a].id@ != st@) by {
        assert(page[a] == s[k + a]);
        assert(after_cursor(start_after, s[k + a].id@));
        if let Some(st) = start_after {
            lemma_key_lt_irreflexive(st@);
        }
    }
}

} // verus!
