use vstd::prelude::*;
use crate::keys::{key_lt, lemma_key_lt_transitive};
use crate::book::{OrderBook, side_of, sorted_ids};
use crate::types::{TraderRecord, TraderInfo, TraderListResponse};

verus! {

/// Page size when none is asked for.
pub const DEFAULT_LIMIT: u32 = 10;

/// Largest page size.
pub const MAX_LIMIT: u32 = 30;

/// The page size used for a requested `limit`.
pub open spec fn page_limit(limit: Option<u32>) -> int {
    let l = match limit {
        Some(l) => l as int,
        None => DEFAULT_LIMIT as int,
    };
    if l < MAX_LIMIT as int {
        l
    } else {
        MAX_LIMIT as int
    }
}

/// Id `id` comes strictly after the cursor `start_after`.
pub open spec fn after_cursor(start_after: Option<String>, id: Seq<char>) -> bool {
    match start_after {
        Some(st) => key_lt(st@, id),
        None => true,
    }
}

/// The listed form of a record.
pub open spec fn info_of(r: TraderRecord) -> TraderInfo {
    TraderInfo {
        id: r.id,
        address: r.address,
        order_stock_amount: r.order_stock_amount,
        current_stock_amount: r.current_stock_amount,
        price: r.price,
    }
}

/// The listed form of a record.
pub fn map_trader(r: &TraderRecord) -> (t: TraderInfo)
    ensures
        t == info_of(*r),
{
    TraderInfo {
        id: r.id.clone(),
        address: r.address.clone(),
        order_stock_amount: r.order_stock_amount,
        current_stock_amount: r.current_stock_amount,
        price: r.price,
    }
}

/// Lists, in ascending id order, the orders of one side whose ids come after
/// `start_after`, at most `page_limit(limit)` of them.
pub fn query_list_traders(
    book: &OrderBook,
    is_buy: bool,
    start_after: Option<String>,
    limit: Option<u32>,
) -> (r: TraderListResponse)
    requires
        book.wf(),
    ensures
        ({
            let s = side_of(book@, is_buy);
            exists|k: int|
                #![trigger s.subrange(k, s.len() as int)]
                0 <= k <= s.len()
                && (forall|j: int| 0 <= j < k ==> !after_cursor(start_after, #[trigger] s[j].id@))
                && (forall|j: int| k <= j < s.len() ==> after_cursor(start_after, #[trigger] s[j].id@))
                && r.traders@ == s.subrange(k, s.len() as int).take(
                    if s.len() - k < page_limit(limit) { s.len() - k } else { page_limit(limit) },
                ).map_values(|x: TraderRecord| info_of(x))
        }),
{
    let lim: u32 = match limit {
        Some(l) => if l < MAX_LIMIT { l } else { MAX_LIMIT },
        None => DEFAULT_LIMIT,
    };
    let side = book.side(is_buy);
    let ghost s = side@;
    let n = side.orders.len();
    let mut k: usize = 0;
    while k < n
        invariant
            s == side@,
            n == s.len(),
            k <= n,
            forall|j: int| 0 <= j < k ==> !after_cursor(start_after, #[trigger] s[j].id@),
        ensures
            k == n || after_cursor(start_after, s[k as int].id@),
            forall|j: int| 0 <= j < k ==> !after_cursor(start_after, #[trigger] s[j].id@),
        decreases n - k,
    {
        let past = match &start_after {
            Some(st) => crate::keys::id_lt(st, &side.orders[k].id),
            None => true,
        };
        if past {
            break;
        }
        k = k + 1;
    }
    assert forall|j: int| k <= j < s.len() implies after_cursor(start_after, #[trigger] s[j].id@) by {
        if j > k {
            assert(sorted_ids(s));
            assert(key_lt(s[k as int].id@, s[j].id@));
            if let Some(st) = start_after {
                lemma_key_lt_transitive(st@, s[k as int].id@, s[j].id@);
            }
        }
    }
    let mut traders: Vec<TraderInfo> = Vec::new();
    let mut i: usize = k;
    let mut taken: u32 = 0;
    while i < n && taken < lim
        invariant
            s == side@,
            n == s.len(),
            k <= i <= n,
            taken as int == i - k,
            taken <= lim,
            traders@ == s.subrange(k as int, i as int).map_values(|x: TraderRecord| info_of(x)),
        decreases n - i,
    {
        traders.push(map_trader(&side.orders[i]));
        i = i + 1;
        taken = taken + 1;
        assert(traders@ =~= s.subrange(k as int, i as int).map_values(|x: TraderRecord| info_of(x)));
    }
    assert(s.subrange(k as int, i as int) =~= s.subrange(k as int, s.len() as int).take(i - k));
    TraderListResponse { traders }
}

} // verus!
