use vstd::prelude::*;
use crate::book::{OrderBook, side_of, with_side, has_id, index_of, insert_sorted};
use crate::types::{
    AssetInfo, PairInfo, TraderRecord, MatchOrderResponse, TransferInstruction, BalanceEntry,
    Config, ContractError, same_asset, NORMAL_DECIMAL,
};

verus! {

/// A model of the book: buy side, then sell side.
pub type BookModel = (Seq<TraderRecord>, Seq<TraderRecord>);

/// The first balance the table reports for `addr` in `asset`.
pub open spec fn lookup_balance(tbl: Seq<BalanceEntry>, asset: AssetInfo, addr: Seq<char>) -> Option<u128>
    decreases tbl.len(),
{
    if tbl.len() == 0 {
        None
    } else if same_asset(tbl[0].asset, asset) && tbl[0].address@ == addr {
        Some(tbl[0].amount)
    } else {
        lookup_balance(tbl.drop_first(), asset, addr)
    }
}

/// The asset a trader offers: buyers pay in `from_asset`, sellers in `to_asset`.
pub open spec fn offered_asset(pair: PairInfo, is_buy: bool) -> AssetInfo {
    if is_buy {
        pair.from_asset
    } else {
        pair.to_asset
    }
}

/// A balance of `bal` covers a fill of `amount` at `price`: for a buyer the
/// balance is converted to `to_asset` terms as `bal / price * NORMAL_DECIMAL`.
pub open spec fn covers(bal: u128, price: u128, amount: u128, is_buy: bool) -> bool {
    if is_buy {
        price > 0 && (bal / price) as int * NORMAL_DECIMAL as int >= amount as int
    } else {
        bal >= amount
    }
}

/// Outcome of the taker's own checks: a non-zero amount, and a balance that,
/// for a buyer converted as `bal * price / NORMAL_DECIMAL`, covers it.
pub open spec fn taker_check(pairs: Seq<PairInfo>, taker: TraderRecord, tbl: Seq<BalanceEntry>) -> Result<(), ContractError> {
    if taker.current_stock_amount == 0 {
        Err(ContractError::InvalidZeroAmount {})
    } else {
        let asset = offered_asset(pairs[taker.pair_id as int], taker.is_buy);
        match lookup_balance(tbl, asset, taker.address@) {
            None => Err(ContractError::Std {}),
            Some(bal) => if taker.is_buy {
                if bal as int * taker.price as int > u128::MAX as int {
                    Err(ContractError::OverflowError {})
                } else if (bal as int * taker.price as int) / (NORMAL_DECIMAL as int) < taker.current_stock_amount as int {
                    Err(ContractError::InvalidInput {})
                } else {
                    Ok(())
                }
            } else if bal < taker.current_stock_amount {
                Err(ContractError::InvalidInput {})
            } else {
                Ok(())
            },
        }
    }
}

/// Outcome of the solvency check of a resting order's owner `owner` for a
/// fill of `amount`, at the price and on the pair that `entry` names.
pub open spec fn fill_check(
    pairs: Seq<PairInfo>,
    entry: TraderRecord,
    owner: Seq<char>,
    amount: u128,
    tbl: Seq<BalanceEntry>,
) -> Result<(), ContractError> {
    let asset = offered_asset(pairs[entry.pair_id as int], entry.is_buy);
    match lookup_balance(tbl, asset, owner) {
        None => Err(ContractError::Std {}),
        Some(bal) => if entry.is_buy {
            if entry.price == 0 {
                Err(ContractError::DivideByZero {})
            } else if (bal / entry.price) as int * NORMAL_DECIMAL as int > u128::MAX as int {
                Err(ContractError::OverflowError {})
            } else if !covers(bal, entry.price, amount, true) {
                Err(ContractError::NotEnoughReward {})
            } else {
                Ok(())
            }
        } else if !covers(bal, entry.price, amount, false) {
            Err(ContractError::NotEnoughReward {})
        } else {
            Ok(())
        },
    }
}

/// The match between a resting order's owner and the taker: a resting buy
/// makes its owner the buyer, a resting sell makes its owner the seller.
pub open spec fn match_of(owner: String, taker: String, resting_is_buy: bool, amount: u128) -> MatchOrderResponse {
    if resting_is_buy {
        MatchOrderResponse { buyer: owner, seller: taker, move_amount: amount }
    } else {
        MatchOrderResponse { buyer: taker, seller: owner, move_amount: amount }
    }
}

/// Outcome of inserting `order` on its side.
pub open spec fn add_step(bm: BookModel, order: TraderRecord) -> Result<BookModel, ContractError> {
    let s = side_of(bm, order.is_buy);
    if has_id(s, order.id@) {
        Err(ContractError::AlreadyStarted {})
    } else {
        Ok(with_side(bm, order.is_buy, insert_sorted(s, order)))
    }
}

/// Outcome of a partial fill of the resting order that `entry` names, by
/// `entry.current_stock_amount`, against `taker`.
pub open spec fn update_step(
    pairs: Seq<PairInfo>,
    bm: BookModel,
    taker: TraderRecord,
    entry: TraderRecord,
    tbl: Seq<BalanceEntry>,
) -> Result<(BookModel, MatchOrderResponse), ContractError> {
    let s = side_of(bm, entry.is_buy);
    if !has_id(s, entry.id@) {
        Err(ContractError::NotStarted {})
    } else {
        let i = index_of(s, entry.id@);
        let rec = s[i];
        let amount = entry.current_stock_amount;
        if amount >= rec.current_stock_amount {
            Err(ContractError::NotStarted {})
        } else {
            match fill_check(pairs, entry, rec.address@, amount, tbl) {
                Err(e) => Err(e),
                Ok(_) => {
                    let rest = TraderRecord {
                        current_stock_amount: (rec.current_stock_amount - amount) as u128,
                        ..rec
                    };
                    Ok((with_side(bm, entry.is_buy, s.update(i, rest)), match_of(rec.address, taker.address, entry.is_buy, amount)))
                },
            }
        }
    }
}

/// Outcome of a full fill of the resting order that `entry` names, by
/// `entry.current_stock_amount`, against `taker`: the order leaves the book.
pub open spec fn remove_step(
    pairs: Seq<PairInfo>,
    bm: BookModel,
    taker: TraderRecord,
    entry: TraderRecord,
    tbl: Seq<BalanceEntry>,
) -> Result<(BookModel, MatchOrderResponse), ContractError> {
    let s = side_of(bm, entry.is_buy);
    if !has_id(s, entry.id@) {
        Err(ContractError::NotStarted {})
    } else {
        let i = index_of(s, entry.id@);
        let rec = s[i];
        let amount = entry.current_stock_amount;
        match fill_check(pairs, entry, rec.address@, amount, tbl) {
            Err(e) => Err(e),
            Ok(_) => Ok((with_side(bm, entry.is_buy, s.remove(i)), match_of(rec.address, taker.address, entry.is_buy, amount))),
        }
    }
}

/// Outcome of full fills of `entries`, in order; the first failure ends it.
pub open spec fn remove_steps(
    pairs: Seq<PairInfo>,
    bm: BookModel,
    taker: TraderRecord,
    entries: Seq<TraderRecord>,
    tbl: Seq<BalanceEntry>,
) -> Result<(BookModel, Seq<MatchOrderResponse>), ContractError>
    decreases entries.len(),
{
    if entries.len() == 0 {
        Ok((bm, Seq::empty()))
    } else {
        match remove_steps(pairs, bm, taker, entries.drop_last(), tbl) {
            Err(e) => Err(e),
            Ok((b, ms)) => match remove_step(pairs, b, taker, entries.last(), tbl) {
                Err(e) => Err(e),
                Ok((b2, m)) => Ok((b2, ms.push(m))),
            },
        }
    }
}

/// All resting-order entries name a configured pair.
pub open spec fn pairs_known(pairs: Seq<PairInfo>, entries: Seq<TraderRecord>) -> bool {
    forall|i: int| 0 <= i < entries.len() ==> (#[trigger] entries[i].pair_id as int) < pairs.len()
}

/// The first balance `balances` reports for `addr` in `asset`.
pub fn find_balance(balances: &Vec<BalanceEntry>, asset: &AssetInfo, addr: &String) -> (r: Option<u128>)
    ensures
        r == lookup_balance(balances@, *asset, addr@),
{
    let mut i: usize = 0;
    assert(balances@.skip(0) =~= balances@);
    while i < balances.len()
        invariant
            i <= balances.len(),
            lookup_balance(balances@, *asset, addr@) == lookup_balance(balances@.skip(i as int), *asset, addr@),
        decreases balances.len() - i,
    {
        let e = &balances[i];
        if e.asset.same_as(asset) && e.address == *addr {
            return Some(e.amount);
        }
        assert(balances@.skip(i as int).drop_first() =~= balances@.skip(i + 1));
        i = i + 1;
    }
    None
}

/// Checks the taker: a non-zero amount that its balance covers.
pub fn check_taker(cfg: &Config, order: &TraderRecord, balances: &Vec<BalanceEntry>) -> (r: Result<(), ContractError>)
    requires
        (order.pair_id as int) < cfg.pair_list@.len(),
    ensures
        r == taker_check(cfg.pair_list@, *order, balances@),
{
    if order.current_stock_amount == 0 {
        return Err(ContractError::InvalidZeroAmount {});
    }
    let n = cfg.pair_list.len();
    assert((order.pair_id as int) < n);
    let idx: usize = order.pair_id as usize;
    let pair = &cfg.pair_list[idx];
    let asset = if order.is_buy { &pair.from_asset } else { &pair.to_asset };
    let remains = match find_balance(balances, asset, &order.address) {
        Some(b) => b,
        None => return Err(ContractError::Std {}),
    };
    if order.is_buy {
        let product = match remains.checked_mul(order.price) {
            Some(p) => p,
            None => return Err(ContractError::OverflowError {}),
        };
        if product / NORMAL_DECIMAL < order.current_stock_amount {
            return Err(ContractError::InvalidInput {});
        }
    } else if remains < order.current_stock_amount {
        return Err(ContractError::InvalidInput {});
    }
    Ok(())
}

/// Checks that `owner`, the owner of the resting order `entry` names, can
/// cover a fill of `amount`.
pub fn check_fill(
    cfg: &Config,
    entry: &TraderRecord,
    owner: &String,
    amount: u128,
    balances: &Vec<BalanceEntry>,
) -> (r: Result<(), ContractError>)
    requires
        (entry.pair_id as int) < cfg.pair_list@.len(),
    ensures
        r == fill_check(cfg.pair_list@, *entry, owner@, amount, balances@),
{
    let n = cfg.pair_list.len();
    assert((entry.pair_id as int) < n);
    let idx: usize = entry.pair_id as usize;
    let pair = &cfg.pair_list[idx];
    let asset = if entry.is_buy { &pair.from_asset } else { &pair.to_asset };
    let remains = match find_balance(balances, asset, owner) {
        Some(b) => b,
        None => return Err(ContractError::Std {}),
    };
    if entry.is_buy {
        if entry.price == 0 {
            return Err(ContractError::DivideByZero {});
        }
        let other_remains = match (remains / entry.price).checked_mul(NORMAL_DECIMAL) {
            Some(p) => p,
            None => return Err(ContractError::OverflowError {}),
        };
        if other_remains < amount {
            return Err(ContractError::NotEnoughReward {});
        }
    } else if remains < amount {
        return Err(ContractError::NotEnoughReward {});
    }
    Ok(())
}

/// The match between a resting order's owner and the taker.
fn make_match(owner: &String, taker: &String, resting_is_buy: bool, amount: u128) -> (r: MatchOrderResponse)
    ensures
        r == match_of(*owner, *taker, resting_is_buy, amount),
{
    if resting_is_buy {
        MatchOrderResponse { buyer: owner.clone(), seller: taker.clone(), move_amount: amount }
    } else {
        MatchOrderResponse { buyer: taker.clone(), seller: owner.clone(), move_amount: amount }
    }
}

/// Adds `order` to its side; `AlreadyStarted`, with the book unchanged, when
/// its id is already there.
pub fn add_orderbook(book: &mut OrderBook, order: TraderRecord) -> (r: Result<bool, ContractError>)
    requires
        old(book).wf(),
    ensures
        final(book).wf(),
        match add_step(old(book)@, order) {
            Ok(bm) => r == Ok::<bool, ContractError>(true) && final(book)@ == bm,
            Err(e) => r == Err::<bool, ContractError>(e) && final(book)@ == old(book)@,
        },
{
    if book.side(order.is_buy).has(&order.id) {
        return Err(ContractError::AlreadyStarted {});
    }
    book.insert(order);
    Ok(true)
}

/// Partially fills the resting order that `update_order` names by
/// `update_order.current_stock_amount`, against the taker `order`.
pub fn update_orderbook(
    book: &mut OrderBook,
    cfg: &Config,
    balances: &Vec<BalanceEntry>,
    order: &TraderRecord,
    update_order: &TraderRecord,
) -> (r: Result<MatchOrderResponse, ContractError>)
    requires
        old(book).wf(),
        (update_order.pair_id as int) < cfg.pair_list@.len(),
    ensures
        final(book).wf(),
        match update_step(cfg.pair_list@, old(book)@, *order, *update_order, balances@) {
            Ok((bm, m)) => r == Ok::<MatchOrderResponse, ContractError>(m) && final(book)@ == bm,
            Err(e) => r == Err::<MatchOrderResponse, ContractError>(e) && final(book)@ == old(book)@,
        },
{
    let is_buy = update_order.is_buy;
    let i = match book.side(is_buy).find(&update_order.id) {
        Some(i) => i,
        None => return Err(ContractError::NotStarted {}),
    };
    let mut record = book.side(is_buy).orders[i].duplicate();
    let move_amount = update_order.current_stock_amount;
    if move_amount >= record.current_stock_amount {
        return Err(ContractError::NotStarted {});
    }
    match check_fill(cfg, update_order, &record.address, move_amount, balances) {
        Ok(()) => {},
        Err(e) => return Err(e),
    }
    let m = make_match(&record.address, &order.address, is_buy, move_amount);
    record.current_stock_amount = record.current_stock_amount - move_amount;
    book.replace_at(is_buy, i, record);
    Ok(m)
}

/// Fully fills the resting order that `remove_order` names, by
/// `remove_order.current_stock_amount`, against the taker `order`; the
/// resting order leaves the book. The amount filled is the one the entry
/// carries: it is not compared with the order's remainder, and the order is
/// removed whatever that remainder was.
pub fn remove_orderbook(
    book: &mut OrderBook,
    cfg: &Config,
    balances: &Vec<BalanceEntry>,
    order: &TraderRecord,
    remove_order: &TraderRecord,
) -> (r: Result<MatchOrderResponse, ContractError>)
    requires
        old(book).wf(),
        (remove_order.pair_id as int) < cfg.pair_list@.len(),
    ensures
        final(book).wf(),
        match remove_step(cfg.pair_list@, old(book)@, *order, *remove_order, balances@) {
            Ok((bm, m)) => r == Ok::<MatchOrderResponse, ContractError>(m) && final(book)@ == bm,
            Err(e) => r == Err::<MatchOrderResponse, ContractError>(e) && final(book)@ == old(book)@,
        },
{
    let is_buy = remove_order.is_buy;
    let i = match book.side(is_buy).find(&remove_order.id) {
        Some(i) => i,
        None => return Err(ContractError::NotStarted {}),
    };
    let move_amount = remove_order.current_stock_amount;
    let m = {
        let record = &book.side(is_buy).orders[i];
        match check_fill(cfg, remove_order, &record.address, move_amount, balances) {
            Ok(()) => {},
            Err(e) => return Err(e),
        }
        make_match(&record.address, &order.address, is_buy, move_amount)
    };
    book.delete_at(is_buy, i);
    Ok(m)
}

/// Outcome of a whole settlement call on the book model: the taker's checks,
/// then the insertion, the partial fill and the full fills, in that order.
pub open spec fn order_steps(
    pairs: Seq<PairInfo>,
    bm: BookModel,
    taker: TraderRecord,
    add: Option<TraderRecord>,
    update: Option<TraderRecord>,
    removes: Seq<TraderRecord>,
    tbl: Seq<BalanceEntry>,
) -> Result<(BookModel, Seq<MatchOrderResponse>), ContractError> {
    match taker_check(pairs, taker, tbl) {
        Err(e) => Err(e),
        Ok(_) => {
            let added = match add {
                None => Ok(bm),
                Some(a) => add_step(bm, a),
            };
            match added {
                Err(e) => Err(e),
                Ok(b1) => {
                    let updated = match update {
                        None => Ok((b1, Seq::<MatchOrderResponse>::empty())),
                        Some(u) => match update_step(pairs, b1, taker, u, tbl) {
                            Err(e) => Err(e),
                            Ok((b, m)) => Ok((b, seq![m])),
                        },
                    };
                    match updated {
                        Err(e) => Err(e),
                        Ok((b2, ms)) => match remove_steps(pairs, b2, taker, removes, tbl) {
                            Err(e) => Err(e),
                            Ok((b3, ms2)) => Ok((b3, ms + ms2)),
                        },
                    }
                },
            }
        },
    }
}

/// The transfers that settle one match on `pair` at the taker's `price`:
/// the `to_asset` leg from seller to buyer, then the `from_asset` leg of
/// `move_amount * price / NORMAL_DECIMAL` from buyer to seller; only token
/// legs are settled.
pub open spec fn match_transfers(pair: PairInfo, price: u128, m: MatchOrderResponse) -> Result<Seq<TransferInstruction>, ContractError> {
    if m.move_amount as int * price as int > u128::MAX as int {
        Err(ContractError::OverflowError {})
    } else {
        let other = ((m.move_amount as int * price as int) / NORMAL_DECIMAL as int) as u128;
        let to_leg = match pair.to_asset {
            AssetInfo::Token { contract_addr } => seq![TransferInstruction { token: contract_addr, owner: m.seller, recipient: m.buyer, amount: m.move_amount }],
            AssetInfo::NativeToken { .. } => Seq::empty(),
        };
        let from_leg = match pair.from_asset {
            AssetInfo::Token { contract_addr } => seq![TransferInstruction { token: contract_addr, owner: m.buyer, recipient: m.seller, amount: other }],
            AssetInfo::NativeToken { .. } => Seq::empty(),
        };
        Ok(to_leg + from_leg)
    }
}

/// The transfers that settle `ms`, in order.
pub open spec fn all_transfers(pair: PairInfo, price: u128, ms: Seq<MatchOrderResponse>) -> Result<Seq<TransferInstruction>, ContractError>
    decreases ms.len(),
{
    if ms.len() == 0 {
        Ok(Seq::empty())
    } else {
        match all_transfers(pair, price, ms.drop_last()) {
            Err(e) => Err(e),
            Ok(ts) => match match_transfers(pair, price, ms.last()) {
                Err(e) => Err(e),
                Ok(t) => Ok(ts + t),
            },
        }
    }
}

/// Outcome of a settlement call: the new book, the matches and the transfers.
pub open spec fn settlement(
    pairs: Seq<PairInfo>,
    bm: BookModel,
    taker: TraderRecord,
    add: Option<TraderRecord>,
    update: Option<TraderRecord>,
    removes: Seq<TraderRecord>,
    tbl: Seq<BalanceEntry>,
) -> Result<(BookModel, Seq<MatchOrderResponse>, Seq<TransferInstruction>), ContractError> {
    match order_steps(pairs, bm, taker, add, update, removes, tbl) {
        Err(e) => Err(e),
        Ok((b, ms)) => match all_transfers(pairs[taker.pair_id as int], taker.price, ms) {
            Err(e) => Err(e),
            Ok(ts) => Ok((b, ms, ts)),
        },
    }
}

/// The entries of an optional list of full fills.
pub open spec fn entries_of(remove_orders: Option<Vec<TraderRecord>>) -> Seq<TraderRecord> {
    match remove_orders {
        Some(v) => v@,
        None => Seq::empty(),
    }
}

/// What a settled call produced.
pub struct OrderSettlement {
    pub matches: Vec<MatchOrderResponse>,
    pub transfers: Vec<TransferInstruction>,
}

/// The transfers that settle one match.
fn push_match_transfers(
    pair: &PairInfo,
    price: u128,
    m: &MatchOrderResponse,
    out: &mut Vec<TransferInstruction>,
) -> (r: Result<(), ContractError>)
    ensures
        match match_transfers(*pair, price, *m) {
            Ok(t) => r is Ok && final(out)@ == old(out)@ + t,
            Err(e) => r == Err::<(), ContractError>(e),
        },
{
    let other_move_amount = match m.move_amount.checked_mul(price) {
        Some(p) => p / NORMAL_DECIMAL,
        None => return Err(ContractError::OverflowError {}),
    };
    let ghost before = out@;
    if let AssetInfo::Token { .. } = &pair.to_asset {
        let t = transfer_from_token_message(&m.seller, &pair.to_asset, m.move_amount, &m.buyer);
        if let Ok(t) = t {
            out.push(t);
        }
    }
    let ghost mid = out@;
    if let AssetInfo::Token { .. } = &pair.from_asset {
        let t = transfer_from_token_message(&m.buyer, &pair.from_asset, other_move_amount, &m.seller);
        if let Ok(t) = t {
            out.push(t);
        }
    }
    proof {
        let t = match_transfers(*pair, price, *m)->Ok_0;
        assert(out@ =~= before + t);
    }
    Ok(())
}

/// A pre-authorised transfer of `amount` of `asset` from `owner` to
/// `receiver`; native assets cannot be moved this way (`UnacceptableToken`).
pub fn transfer_from_token_message(
    owner: &String,
    asset: &AssetInfo,
    amount: u128,
    receiver: &String,
) -> (r: Result<TransferInstruction, ContractError>)
    ensures
        match *asset {
            AssetInfo::Token { contract_addr } => r == Ok::<TransferInstruction, ContractError>(
                TransferInstruction { token: contract_addr, owner: *owner, recipient: *receiver, amount },
            ),
            AssetInfo::NativeToken { .. } => r == Err::<TransferInstruction, ContractError>(ContractError::UnacceptableToken {}),
        },
{
    match asset {
        AssetInfo::NativeToken { .. } => Err(ContractError::UnacceptableToken {}),
        AssetInfo::Token { contract_addr } => Ok(
            TransferInstruction {
                token: contract_addr.clone(),
                owner: owner.clone(),
                recipient: receiver.clone(),
                amount,
            },
        ),
    }
}

/// The transfers that settle `ms`, in order.
fn settle_transfers(pair: &PairInfo, price: u128, ms: &Vec<MatchOrderResponse>) -> (r: Result<Vec<TransferInstruction>, ContractError>)
    ensures
        match all_transfers(*pair, price, ms@) {
            Ok(ts) => r matches Ok(v) && v@ == ts,
            Err(e) => r == Err::<Vec<TransferInstruction>, ContractError>(e),
        },
{
    let mut out: Vec<TransferInstruction> = Vec::new();
    let mut i: usize = 0;
    while i < ms.len()
        invariant
            i <= ms.len(),
            all_transfers(*pair, price, ms@.take(i as int)) == Ok::<Seq<TransferInstruction>, ContractError>(out@),
        decreases ms.len() - i,
    {
        assert(ms@.take(i + 1).drop_last() =~= ms@.take(i as int));
        assert(ms@.take(i + 1).last() == ms@[i as int]);
        match push_match_transfers(pair, price, &ms[i], &mut out) {
            Ok(()) => {},
            Err(e) => {
                proof {
                    lemma_transfers_fail_extends(*pair, price, ms@, i as int + 1);
                }
                return Err(e);
            },
        }
        i = i + 1;
    }
    assert(ms@.take(i as int) =~= ms@);
    Ok(out)
}

proof fn lemma_transfers_fail_extends(pair: PairInfo, price: u128, ms: Seq<MatchOrderResponse>, k: int)
    requires
        0 < k <= ms.len(),
        all_transfers(pair, price, ms.take(k)) is Err,
    ensures
        all_transfers(pair, price, ms) == all_transfers(pair, price, ms.take(k)),
    decreases ms.len() - k,
{
    if k == ms.len() {
        assert(ms.take(k) =~= ms);
    } else {
        assert(ms.take(k + 1).drop_last() =~= ms.take(k));
        lemma_transfers_fail_extends(pair, price, ms, k + 1);
    }
}

proof fn lemma_removes_fail_extends(
    pairs: Seq<PairInfo>,
    bm: BookModel,
    taker: TraderRecord,
    es: Seq<TraderRecord>,
    tbl: Seq<BalanceEntry>,
    k: int,
)
    requires
        0 < k <= es.len(),
        remove_steps(pairs, bm, taker, es.take(k), tbl) is Err,
    ensures
        remove_steps(pairs, bm, taker, es, tbl) == remove_steps(pairs, bm, taker, es.take(k), tbl),
    decreases es.len() - k,
{
    if k == es.len() {
        assert(es.take(k) =~= es);
    } else {
        assert(es.take(k + 1).drop_last() =~= es.take(k));
        lemma_removes_fail_extends(pairs, bm, taker, es, tbl, k + 1);
    }
}

/// Runs the full fills of `remove_orders` in order on `book`.
fn remove_all(
    book: &mut OrderBook,
    cfg: &Config,
    balances: &Vec<BalanceEntry>,
    order: &TraderRecord,
    remove_orders: &Vec<TraderRecord>,
    matches: &mut Vec<MatchOrderResponse>,
) -> (r: Result<(), ContractError>)
    requires
        old(book).wf(),
        pairs_known(cfg.pair_list@, remove_orders@),
    ensures
        final(book).wf(),
        match remove_steps(cfg.pair_list@, old(book)@, *order, remove_orders@, balances@) {
            Ok((bm, ms)) => r is Ok && final(book)@ == bm && final(matches)@ == old(matches)@ + ms,
            Err(e) => r == Err::<(), ContractError>(e),
        },
{
    let ghost b0 = old(book)@;
    let ghost m0 = old(matches)@;
    let mut i: usize = 0;
    while i < remove_orders.len()
        invariant
            i <= remove_orders.len(),
            b0 == old(book)@,
            m0 == old(matches)@,
            book.wf(),
            pairs_known(cfg.pair_list@, remove_orders@),
            remove_steps(cfg.pair_list@, b0, *order, remove_orders@.take(i as int), balances@) matches Ok((bm, ms))
                && bm == book@ && matches@ == m0 + ms,
        decreases remove_orders.len() - i,
    {
        let ghost es = remove_orders@.take(i + 1);
        assert(es.drop_last() =~= remove_orders@.take(i as int));
        assert(es.last() == remove_orders@[i as int]);
        assert((remove_orders@[i as int].pair_id as int) < cfg.pair_list@.len());
        match remove_orderbook(book, cfg, balances, order, &remove_orders[i]) {
            Ok(m) => {
                let ghost before = matches@;
                matches.push(m);
                proof {
                    let ms = remove_steps(cfg.pair_list@, b0, *order, remove_orders@.take(i as int), balances@)->Ok_0.1;
                    assert(matches@ =~= m0 + ms.push(m));
                }
            },
            Err(e) => {
                proof {
                    assert(remove_steps(cfg.pair_list@, b0, *order, es, balances@)
                        == Err::<(BookModel, Seq<MatchOrderResponse>), ContractError>(e));
                    lemma_removes_fail_extends(cfg.pair_list@, b0, *order, remove_orders@, balances@, i as int + 1);
                    assert(remove_steps(cfg.pair_list@, b0, *order, remove_orders@, balances@)
                        == Err::<(BookModel, Seq<MatchOrderResponse>), ContractError>(e));
                }
                return Err(e);
            },
        }
        i = i + 1;
    }
    assert(remove_orders@.take(i as int) =~= remove_orders@);
    Ok(())
}

/// Settles one call: checks the taker `order`, inserts `add_order`, partially
/// fills the order `update_order` names, fully fills each order of
/// `remove_orders` in turn, and derives the transfers of every match. The
/// call is atomic: on any error the book is left as it was.
pub fn execute_order(
    cfg: &Config,
    book: &mut OrderBook,
    balances: &Vec<BalanceEntry>,
    order: &TraderRecord,
    add_order: Option<TraderRecord>,
    update_order: Option<TraderRecord>,
    remove_orders: Option<Vec<TraderRecord>>,
) -> (r: Result<OrderSettlement, ContractError>)
    requires
        old(book).wf(),
        (order.pair_id as int) < cfg.pair_list@.len(),
        (update_order matches Some(u) ==> (u.pair_id as int) < cfg.pair_list@.len()),
        pairs_known(cfg.pair_list@, entries_of(remove_orders)),
    ensures
        final(book).wf(),
        match settlement(cfg.pair_list@, old(book)@, *order, add_order, update_order, entries_of(remove_orders), balances@) {
            Ok((bm, ms, ts)) => r matches Ok(o) && final(book)@ == bm && o.matches@ == ms && o.transfers@ == ts,
            Err(e) => r matches Err(x) && x == e && final(book)@ == old(book)@,
        },
{
    match check_taker(cfg, order, balances) {
        Ok(()) => {},
        Err(e) => return Err(e),
    }
    let ghost pairs = cfg.pair_list@;
    let ghost b0 = old(book)@;
    let mut work = book.duplicate();
    let mut matches: Vec<MatchOrderResponse> = Vec::new();
    if let Some(a) = add_order {
        match add_orderbook(&mut work, a) {
            Ok(_) => {},
            Err(e) => return Err(e),
        }
    }
    let ghost b1 = work@;
    if let Some(u) = update_order {
        match update_orderbook(&mut work, cfg, balances, order, &u) {
            Ok(m) => matches.push(m),
            Err(e) => return Err(e),
        }
    }
    let ghost b2 = work@;
    let ghost ms1 = matches@;
    assert(ms1.len() > 0 ==> ms1 =~= seq![ms1[0]]);
    let empty: Vec<TraderRecord> = Vec::new();
    let entries = match &remove_orders {
        Some(v) => v,
        None => &empty,
    };
    assert(entries@ == entries_of(remove_orders));
    match remove_all(&mut work, cfg, balances, order, entries, &mut matches) {
        Ok(()) => {},
        Err(e) => return Err(e),
    }
    assert(order_steps(pairs, b0, *order, add_order, update_order, entries@, balances@)
        == Ok::<(BookModel, Seq<MatchOrderResponse>), ContractError>((work@, matches@)));
    let n = cfg.pair_list.len();
    assert((order.pair_id as int) < n);
    let idx: usize = order.pair_id as usize;
    let transfers = match settle_transfers(&cfg.pair_list[idx], order.price, &matches) {
        Ok(t) => t,
        Err(e) => return Err(e),
    };
    *book = work;
    Ok(OrderSettlement { matches, transfers })
}

/// Outcome of a cancellation of order `id` on one side by `sender`.
pub open spec fn cancel_step(bm: BookModel, sender: Seq<char>, id: Seq<char>, is_buy: bool) -> Result<BookModel, ContractError> {
    let s = side_of(bm, is_buy);
    if !has_id(s, id) {
        Err(ContractError::NotStarted {})
    } else if s[index_of(s, id)].address@ != sender {
        Err(ContractError::Unauthorized {})
    } else {
        Ok(with_side(bm, is_buy, s.remove(index_of(s, id))))
    }
}

/// Cancels the order `order_key` on the given side on behalf of `sender`,
/// who must own it.
pub fn execute_cancel(
    book: &mut OrderBook,
    sender: &String,
    order_key: &String,
    is_buy: bool,
) -> (r: Result<(), ContractError>)
    requires
        old(book).wf(),
    ensures
        final(book).wf(),
        match cancel_step(old(book)@, sender@, order_key@, is_buy) {
            Ok(bm) => r is Ok && final(book)@ == bm,
            Err(e) => r == Err::<(), ContractError>(e) && final(book)@ == old(book)@,
        },
{
    let i = match book.side(is_buy).find(order_key) {
        Some(i) => i,
        None => return Err(ContractError::NotStarted {}),
    };
    if book.side(is_buy).orders[i].address != *sender {
        return Err(ContractError::Unauthorized {});
    }
    book.delete_at(is_buy, i);
    Ok(())
}

} // verus!
