use terrapexc_trading::book::OrderBook;
use terrapexc_trading::query::{map_trader, query_list_traders};
use terrapexc_trading::settle::{
    add_orderbook, execute_cancel, execute_order, remove_orderbook, transfer_from_token_message,
    update_orderbook,
};
use terrapexc_trading::types::{
    AssetInfo, BalanceEntry, Config, ContractError, MatchOrderResponse, PairInfo, TraderRecord,
    TransferInstruction,
};

fn token(a: &str) -> AssetInfo {
    AssetInfo::Token { contract_addr: a.to_string() }
}

fn native(d: &str) -> AssetInfo {
    AssetInfo::NativeToken { denom: d.to_string() }
}

fn config(pairs: Vec<PairInfo>) -> Config {
    Config { owner: "admin".to_string(), pair_list: pairs, enabled: true }
}

fn token_pair() -> Config {
    config(vec![PairInfo { from_asset: token("tokA"), to_asset: token("tokB") }])
}

fn rec(id: &str, addr: &str, is_buy: bool, amount: u128, price: u128) -> TraderRecord {
    TraderRecord {
        id: id.to_string(),
        address: addr.to_string(),
        pair_id: 0,
        is_buy,
        order_stock_amount: amount,
        current_stock_amount: amount,
        price,
    }
}

fn bal(asset: AssetInfo, addr: &str, amount: u128) -> BalanceEntry {
    BalanceEntry { asset, address: addr.to_string(), amount }
}

fn ids(book: &OrderBook, is_buy: bool) -> Vec<String> {
    book.side(is_buy).orders.iter().map(|r| r.id.clone()).collect()
}

#[test]
fn full_fill_of_sell_order_settles_both_token_legs() {
    let cfg = token_pair();
    let mut book = OrderBook::new();
    add_orderbook(&mut book, rec("S1", "seller", false, 100, 2_000_000)).unwrap();
    let taker = rec("T", "taker", true, 100, 2_000_000);
    let balances = vec![bal(token("tokA"), "taker", 1000), bal(token("tokB"), "seller", 100)];
    let out = execute_order(
        &cfg,
        &mut book,
        &balances,
        &taker,
        None,
        None,
        Some(vec![rec("S1", "seller", false, 100, 2_000_000)]),
    )
    .unwrap();
    assert!(book.side(false).orders.is_empty());
    assert_eq!(
        out.matches,
        vec![MatchOrderResponse { buyer: "taker".to_string(), seller: "seller".to_string(), move_amount: 100 }]
    );
    assert_eq!(
        out.transfers,
        vec![
            TransferInstruction {
                token: "tokB".to_string(),
                owner: "seller".to_string(),
                recipient: "taker".to_string(),
                amount: 100,
            },
            TransferInstruction {
                token: "tokA".to_string(),
                owner: "taker".to_string(),
                recipient: "seller".to_string(),
                amount: 200,
            },
        ]
    );
}

#[test]
fn native_legs_produce_no_transfer() {
    let cfg = config(vec![PairInfo { from_asset: native("uluna"), to_asset: token("tokB") }]);
    let mut book = OrderBook::new();
    add_orderbook(&mut book, rec("S1", "seller", false, 50, 3_000_000)).unwrap();
    let taker = rec("T", "taker", true, 50, 3_000_000);
    let balances = vec![bal(native("uluna"), "taker", 100), bal(token("tokB"), "seller", 50)];
    let out = execute_order(&cfg, &mut book, &balances, &taker, None, None,
        Some(vec![rec("S1", "seller", false, 50, 3_000_000)])).unwrap();
    assert_eq!(out.transfers.len(), 1);
    assert_eq!(out.transfers[0].token, "tokB");
    assert_eq!(out.transfers[0].amount, 50);
}

#[test]
fn duplicate_id_is_rejected_and_record_kept() {
    let mut book = OrderBook::new();
    assert_eq!(add_orderbook(&mut book, rec("a", "x", true, 10, 1)), Ok(true));
    assert_eq!(
        add_orderbook(&mut book, rec("a", "y", true, 99, 7)),
        Err(ContractError::AlreadyStarted {})
    );
    assert_eq!(book.side(true).orders, vec![rec("a", "x", true, 10, 1)]);
    // the same id on the other side is a different order
    assert_eq!(add_orderbook(&mut book, rec("a", "y", false, 5, 1)), Ok(true));
}

#[test]
fn partial_fills_shrink_the_remainder() {
    let cfg = token_pair();
    let mut book = OrderBook::new();
    add_orderbook(&mut book, rec("S1", "seller", false, 100, 1_000_000)).unwrap();
    let taker = rec("T", "taker", true, 0, 1_000_000);
    let balances = vec![bal(token("tokB"), "seller", 100)];
    let m = update_orderbook(&mut book, &cfg, &balances, &taker, &rec("S1", "seller", false, 30, 1_000_000)).unwrap();
    assert_eq!(m, MatchOrderResponse { buyer: "taker".to_string(), seller: "seller".to_string(), move_amount: 30 });
    assert_eq!(book.side(false).orders[0].current_stock_amount, 70);
    update_orderbook(&mut book, &cfg, &balances, &taker, &rec("S1", "seller", false, 69, 1_000_000)).unwrap();
    assert_eq!(book.side(false).orders[0].current_stock_amount, 1);
    // a fill of the whole remainder is not a partial fill
    assert_eq!(
        update_orderbook(&mut book, &cfg, &balances, &taker, &rec("S1", "seller", false, 1, 1_000_000)),
        Err(ContractError::NotStarted {})
    );
    assert_eq!(book.side(false).orders[0].current_stock_amount, 1);
}

#[test]
fn partial_fill_of_missing_order_is_not_started() {
    let cfg = token_pair();
    let mut book = OrderBook::new();
    let taker = rec("T", "taker", true, 1, 1_000_000);
    assert_eq!(
        update_orderbook(&mut book, &cfg, &vec![], &taker, &rec("nope", "s", false, 1, 1)),
        Err(ContractError::NotStarted {})
    );
    assert_eq!(
        remove_orderbook(&mut book, &cfg, &vec![], &taker, &rec("nope", "s", true, 1, 1)),
        Err(ContractError::NotStarted {})
    );
}

#[test]
fn resting_buyer_balance_is_converted_at_entry_price() {
    let cfg = token_pair();
    let mut book = OrderBook::new();
    add_orderbook(&mut book, rec("B1", "buyer", true, 100, 2_000_000)).unwrap();
    let taker = rec("T", "taker", false, 10, 2_000_000);
    // 5_000_000 / 2_000_000 * 1_000_000 = 2_000_000 covers 60
    let ok = vec![bal(token("tokA"), "buyer", 5_000_000)];
    let m = update_orderbook(&mut book, &cfg, &ok, &taker, &rec("B1", "buyer", true, 60, 2_000_000)).unwrap();
    assert_eq!(m, MatchOrderResponse { buyer: "buyer".to_string(), seller: "taker".to_string(), move_amount: 60 });
    // 1_999_999 / 2_000_000 = 0, which covers nothing
    let poor = vec![bal(token("tokA"), "buyer", 1_999_999)];
    assert_eq!(
        update_orderbook(&mut book, &cfg, &poor, &taker, &rec("B1", "buyer", true, 1, 2_000_000)),
        Err(ContractError::NotEnoughReward {})
    );
    assert_eq!(
        remove_orderbook(&mut book, &cfg, &ok, &taker, &rec("B1", "buyer", true, 40, 0)),
        Err(ContractError::DivideByZero {})
    );
    assert_eq!(book.side(true).orders[0].current_stock_amount, 40);
}

#[test]
fn resting_seller_without_balance_is_not_enough_reward() {
    let cfg = token_pair();
    let mut book = OrderBook::new();
    add_orderbook(&mut book, rec("S1", "seller", false, 100, 1_000_000)).unwrap();
    let taker = rec("T", "taker", true, 100, 1_000_000);
    let balances = vec![bal(token("tokB"), "seller", 99)];
    assert_eq!(
        remove_orderbook(&mut book, &cfg, &balances, &taker, &rec("S1", "seller", false, 100, 1_000_000)),
        Err(ContractError::NotEnoughReward {})
    );
    assert_eq!(book.side(false).orders.len(), 1);
    assert_eq!(
        remove_orderbook(&mut book, &cfg, &vec![], &taker, &rec("S1", "seller", false, 100, 1_000_000)),
        Err(ContractError::Std {})
    );
}

#[test]
fn taker_checks() {
    let cfg = token_pair();
    let mut book = OrderBook::new();
    let balances = vec![bal(token("tokA"), "tb", 10), bal(token("tokB"), "ts", 10)];
    let zero = rec("T", "tb", true, 0, 1_000_000);
    assert_eq!(
        execute_order(&cfg, &mut book, &balances, &zero, None, None, None).err(),
        Some(ContractError::InvalidZeroAmount {})
    );
    // 10 * 1_500_000 / 1_000_000 = 15 < 16
    let buyer = rec("T", "tb", true, 16, 1_500_000);
    assert_eq!(
        execute_order(&cfg, &mut book, &balances, &buyer, None, None, None).err(),
        Some(ContractError::InvalidInput {})
    );
    let buyer = rec("T", "tb", true, 15, 1_500_000);
    assert!(execute_order(&cfg, &mut book, &balances, &buyer, None, None, None).is_ok());
    let seller = rec("T", "ts", false, 11, 1);
    assert_eq!(
        execute_order(&cfg, &mut book, &balances, &seller, None, None, None).err(),
        Some(ContractError::InvalidInput {})
    );
    let unknown = rec("T", "nobody", false, 1, 1);
    assert_eq!(
        execute_order(&cfg, &mut book, &balances, &unknown, None, None, None).err(),
        Some(ContractError::Std {})
    );
    let huge = rec("T", "tb", true, 1, u128::MAX);
    assert_eq!(
        execute_order(&cfg, &mut book, &balances, &huge, None, None, None).err(),
        Some(ContractError::OverflowError {})
    );
}

#[test]
fn failed_call_leaves_book_untouched() {
    let cfg = token_pair();
    let mut book = OrderBook::new();
    add_orderbook(&mut book, rec("S1", "seller", false, 100, 1_000_000)).unwrap();
    add_orderbook(&mut book, rec("S2", "seller", false, 100, 1_000_000)).unwrap();
    let taker = rec("T", "taker", true, 100, 1_000_000);
    let balances = vec![bal(token("tokA"), "taker", 1000), bal(token("tokB"), "seller", 1000)];
    let before: Vec<TraderRecord> = book.side(false).orders.clone();
    let r = execute_order(
        &cfg,
        &mut book,
        &balances,
        &taker,
        Some(rec("B9", "taker", true, 100, 1_000_000)),
        Some(rec("S1", "seller", false, 10, 1_000_000)),
        Some(vec![rec("S2", "seller", false, 100, 1_000_000), rec("S3", "seller", false, 1, 1_000_000)]),
    );
    assert_eq!(r.err(), Some(ContractError::NotStarted {}));
    assert_eq!(book.side(false).orders, before);
    assert!(book.side(true).orders.is_empty());
}

#[test]
fn combined_call_applies_every_step() {
    let cfg = token_pair();
    let mut book = OrderBook::new();
    add_orderbook(&mut book, rec("S1", "s1", false, 100, 1_000_000)).unwrap();
    add_orderbook(&mut book, rec("S2", "s2", false, 40, 1_000_000)).unwrap();
    let taker = rec("T", "taker", true, 100, 1_000_000);
    let balances = vec![
        bal(token("tokA"), "taker", 1000),
        bal(token("tokB"), "s1", 1000),
        bal(token("tokB"), "s2", 1000),
    ];
    let out = execute_order(
        &cfg,
        &mut book,
        &balances,
        &taker,
        Some(rec("B1", "taker", true, 30, 1_000_000)),
        Some(rec("S1", "s1", false, 60, 1_000_000)),
        Some(vec![rec("S2", "s2", false, 40, 1_000_000)]),
    )
    .unwrap();
    assert_eq!(ids(&book, true), vec!["B1".to_string()]);
    assert_eq!(ids(&book, false), vec!["S1".to_string()]);
    assert_eq!(book.side(false).orders[0].current_stock_amount, 40);
    assert_eq!(out.matches.len(), 2);
    assert_eq!(out.matches[0].seller, "s1");
    assert_eq!(out.matches[1].seller, "s2");
    assert_eq!(out.transfers.len(), 4);
    assert_eq!(out.transfers[3].amount, 40);
}

#[test]
fn cancel_checks_owner() {
    let mut book = OrderBook::new();
    add_orderbook(&mut book, rec("a", "alice", true, 10, 1)).unwrap();
    assert_eq!(
        execute_cancel(&mut book, &"bob".to_string(), &"a".to_string(), true),
        Err(ContractError::Unauthorized {})
    );
    assert_eq!(book.side(true).orders.len(), 1);
    assert_eq!(
        execute_cancel(&mut book, &"alice".to_string(), &"a".to_string(), false),
        Err(ContractError::NotStarted {})
    );
    assert_eq!(execute_cancel(&mut book, &"alice".to_string(), &"a".to_string(), true), Ok(()));
    assert!(book.side(true).orders.is_empty());
}

#[test]
fn orders_are_kept_in_id_order() {
    let mut book = OrderBook::new();
    for id in ["c", "ba", "b", "a", "bb"] {
        add_orderbook(&mut book, rec(id, "x", false, 1, 1)).unwrap();
    }
    assert_eq!(ids(&book, false), vec!["a", "b", "ba", "bb", "c"]);
}

#[test]
fn listing_pages() {
    let mut book = OrderBook::new();
    for i in 0..40u32 {
        add_orderbook(&mut book, rec(&format!("id{:02}", 39 - i), "x", true, 1 + i as u128, 1)).unwrap();
    }
    let page = query_list_traders(&book, true, None, None).traders;
    assert_eq!(page.len(), 10);
    assert_eq!(page[0].id, "id00");
    assert_eq!(page[9].id, "id09");
    let page = query_list_traders(&book, true, None, Some(35)).traders;
    assert_eq!(page.len(), 30);
    let page = query_list_traders(&book, true, Some("id05".to_string()), Some(3)).traders;
    let got: Vec<String> = page.iter().map(|t| t.id.clone()).collect();
    assert_eq!(got, vec!["id06", "id07", "id08"]);
    let page = query_list_traders(&book, true, Some("id38".to_string()), None).traders;
    assert_eq!(page.len(), 1);
    assert_eq!(page[0].id, "id39");
    assert!(query_list_traders(&book, false, None, None).traders.is_empty());
    for w in query_list_traders(&book, true, Some("id1".to_string()), Some(30)).traders.windows(2) {
        assert!(w[0].id < w[1].id);
    }
}

#[test]
fn map_trader_copies_fields() {
    let r = rec("k", "owner", true, 7, 9);
    let t = map_trader(&r);
    assert_eq!(t.id, "k");
    assert_eq!(t.address, "owner");
    assert_eq!(t.current_stock_amount, 7);
    assert_eq!(t.price, 9);
}

#[test]
fn transfer_from_native_is_unacceptable() {
    let o = "o".to_string();
    let r = "r".to_string();
    assert_eq!(
        transfer_from_token_message(&o, &native("uluna"), 5, &r),
        Err(ContractError::UnacceptableToken {})
    );
    assert_eq!(
        transfer_from_token_message(&o, &token("tok"), 5, &r),
        Ok(TransferInstruction { token: "tok".to_string(), owner: o.clone(), recipient: r.clone(), amount: 5 })
    );
}

#[test]
fn resting_buyer_conversion_overflow_is_reported() {
    let cfg = token_pair();
    let mut book = OrderBook::new();
    add_orderbook(&mut book, rec("B1", "buyer", true, 100, 1)).unwrap();
    let taker = rec("T", "taker", false, 10, 1);
    let balances = vec![bal(token("tokA"), "buyer", u128::MAX)];
    assert_eq!(
        update_orderbook(&mut book, &cfg, &balances, &taker, &rec("B1", "buyer", true, 5, 1)),
        Err(ContractError::OverflowError {})
    );
    assert_eq!(book.side(true).orders[0].current_stock_amount, 100);
}

#[test]
fn transfer_amount_overflow_fails_the_whole_call() {
    let cfg = token_pair();
    let mut book = OrderBook::new();
    let big: u128 = 1 << 30;
    let price: u128 = 1 << 100;
    add_orderbook(&mut book, rec("S1", "seller", false, big, price)).unwrap();
    let taker = rec("T", "taker", true, 1, price);
    let balances = vec![bal(token("tokA"), "taker", 1), bal(token("tokB"), "seller", big)];
    let r = execute_order(&cfg, &mut book, &balances, &taker, None, None,
        Some(vec![rec("S1", "seller", false, big, price)]));
    assert_eq!(r.err(), Some(ContractError::OverflowError {}));
    assert_eq!(ids(&book, false), vec!["S1".to_string()]);
}
