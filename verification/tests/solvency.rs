use cypher::accounts::{
    CypherGroup, CypherGroupConfig, CypherMarket, CypherToken, CypherUser, Identity,
    OpenOrdersInfo, UserPosition,
};
use cypher::constants::{MARKETS_MAX_CNT, QUOTE_TOKEN_IDX};
use cypher::number::Number;

fn ident(n: u64) -> Identity {
    Identity { w0: n, w1: 0, w2: 0, w3: 0 }
}

fn empty_token() -> CypherToken {
    CypherToken {
        mint: Identity::empty(),
        vault: Identity::empty(),
        decimals: 0,
        deposit_index: Number::zero(),
        borrow_index: Number::zero(),
        base_deposits: Number::zero(),
        base_borrows: Number::zero(),
    }
}

fn empty_market() -> CypherMarket {
    CypherMarket { dex_market: Identity::empty(), market_price: 0, oracle_price: 0 }
}

fn closed_orders() -> OpenOrdersInfo {
    OpenOrdersInfo { is_account_open: false, coin_total: 0, pc_total: 0, referrer_rebates_accrued: 0 }
}

fn free_position() -> UserPosition {
    UserPosition {
        market_idx: MARKETS_MAX_CNT as u8,
        base_deposits: Number::zero(),
        base_borrows: Number::zero(),
        oo_info: closed_orders(),
    }
}

/// One quote token (deposit index one) and one market with the given mark
/// price in slot 0.
fn one_market_group(mark_price: u64) -> CypherGroup {
    let mut group = CypherGroup {
        config: CypherGroupConfig {
            margin_init_ratio: 120,
            margin_maint_ratio: 110,
            margin_partial_ratio: 115,
            liquidator_bonus_bps: 500,
            liquidation_insurance_fee_bps: 100,
        },
        tokens: [empty_token(); 16],
        markets: [empty_market(); 15],
    };
    group.tokens[QUOTE_TOKEN_IDX].mint = ident(900);
    group.tokens[QUOTE_TOKEN_IDX].deposit_index = Number::one();
    group.tokens[QUOTE_TOKEN_IDX].borrow_index = Number::one();
    group.tokens[0].mint = ident(10);
    group.tokens[0].deposit_index = Number::one();
    group.tokens[0].borrow_index = Number::one();
    group.markets[0].dex_market = ident(50);
    group.markets[0].market_price = mark_price;
    group
}

fn empty_user() -> CypherUser {
    CypherUser { owner: ident(1), delegate: Identity::empty(), positions: [free_position(); 16] }
}

#[test]
fn iteration_visits_last_valid_slot_only() {
    let mut user = empty_user();
    user.positions[3].market_idx = (MARKETS_MAX_CNT - 1) as u8;  // last valid slot: visited
    user.positions[3].base_deposits = Number::from_u64(7);
    user.positions[5].market_idx = MARKETS_MAX_CNT as u8;  // at the bound: skipped
    user.positions[5].base_deposits = Number::from_u64(9);
    let visited = user.iter_positions();
    assert_eq!(visited.len(), 1);
    assert_eq!(visited[0].market_idx, (MARKETS_MAX_CNT - 1) as u8);
    assert_eq!(visited[0].base_deposits, Number::from_u64(7));
}

#[test]
fn iteration_keeps_slot_order() {
    let mut user = empty_user();
    user.positions[4].market_idx = 2;
    user.positions[1].market_idx = 9;
    user.positions[8].market_idx = 0;
    let visited = user.iter_positions();
    let idxs: Vec<u8> = visited.iter().map(|p| p.market_idx).collect();
    assert_eq!(idxs, vec![9, 2, 0]);
}

#[test]
fn position_lookup() {
    let mut user = empty_user();
    user.positions[2].market_idx = 6;
    user.positions[2].base_borrows = Number::from_u64(3);
    // the quote index always resolves to the quote slot
    let quote = user.get_position(QUOTE_TOKEN_IDX).unwrap();
    assert_eq!(quote.market_idx, MARKETS_MAX_CNT as u8);
    // other indices resolve by market_idx
    let found = user.get_position(6).unwrap();
    assert_eq!(found.base_borrows(), Number::from_u64(3));
    assert!(user.get_position(7).is_none());
}

#[test]
fn scenario_deposits_only() {
    // quote deposits 5, one position with 2 base deposits at price 10:
    // assets 5 + 2*10 = 25, no liabilities, ratio is the MAX sentinel
    let group = one_market_group(10);
    let mut user = empty_user();
    user.positions[QUOTE_TOKEN_IDX].base_deposits = Number::from_u64(5);
    user.positions[0].market_idx = 0;
    user.positions[0].base_deposits = Number::from_u64(2);
    let assets = user.get_assets_value(&group).unwrap();
    assert_eq!(assets, Number::from_u64(25));
    let liabs = user.get_liabilities_value(&group).unwrap();
    assert_eq!(liabs, Number::zero());
    let ratio = user.get_margin_c_ratio(&group).unwrap();
    assert!(ratio.is_max());
}

#[test]
fn scenario_borrows_only() {
    // no deposits, one position borrowing 1 at price 10:
    // assets 0, liabilities 10, ratio 0
    let group = one_market_group(10);
    let mut user = empty_user();
    user.positions[0].market_idx = 0;
    user.positions[0].base_borrows = Number::from_u64(1);
    let assets = user.get_assets_value(&group).unwrap();
    assert_eq!(assets, Number::zero());
    let liabs = user.get_liabilities_value(&group).unwrap();
    assert_eq!(liabs, Number::from_u64(10));
    let ratio = user.get_margin_c_ratio(&group).unwrap();
    assert_eq!(ratio, Number::zero());
}

#[test]
fn scenario_ratio_below_maintenance() {
    // assets 100, liabilities 95: the precise truncated ratio is below the
    // 1.1 maintenance ratio, so a consumer must flag liquidation
    let group = one_market_group(10);
    let mut user = empty_user();
    user.positions[QUOTE_TOKEN_IDX].base_deposits = Number::from_u64(100);
    user.positions[QUOTE_TOKEN_IDX].base_borrows = Number::from_u64(95);
    let (ratio, assets, liabs) = user.get_margin_c_ratio_components(&group).unwrap();
    assert_eq!(assets, Number::from_u64(100));
    assert_eq!(liabs, Number::from_u64(95));
    assert_eq!(ratio.bits, 296289449169111);
    assert!(ratio.bits < group.margin_maint_ratio().bits);
}

#[test]
fn components_agree_with_ratio() {
    let group = one_market_group(10);
    let mut user = empty_user();
    user.positions[QUOTE_TOKEN_IDX].base_deposits = Number::from_u64(100);
    user.positions[QUOTE_TOKEN_IDX].base_borrows = Number::from_u64(95);
    user.positions[0].market_idx = 0;
    user.positions[0].base_deposits = Number::from_u64(3);
    user.positions[0].base_borrows = Number::from_u64(2);
    let (ratio, assets, liabs) = user.get_margin_c_ratio_components(&group).unwrap();
    assert_eq!(user.get_margin_c_ratio(&group), Some(ratio));
    assert_eq!(user.get_assets_value(&group), Some(assets));
    assert_eq!(user.get_liabilities_value(&group), Some(liabs));
    assert_eq!(ratio, assets.checked_div(liabs).unwrap());
}

#[test]
fn open_orders_mirror_counts_when_open() {
    let group = one_market_group(10);
    let mut user = empty_user();
    user.positions[0].market_idx = 0;
    user.positions[0].oo_info = OpenOrdersInfo {
        is_account_open: true,
        coin_total: 3,
        pc_total: 4,
        referrer_rebates_accrued: 5,
    };
    // 3 coins at price 10, plus 4 + 5 quote units
    assert_eq!(user.get_assets_value(&group), Some(Number::from_u64(39)));
    // a closed mirror contributes nothing
    user.positions[0].oo_info.is_account_open = false;
    assert_eq!(user.get_assets_value(&group), Some(Number::zero()));
}

#[test]
fn unresolvable_market_is_skipped() {
    let mut group = one_market_group(10);
    let mut user = empty_user();
    user.positions[0].market_idx = 0;
    user.positions[0].base_deposits = Number::from_u64(2);
    user.positions[1].market_idx = 3;  // no market in slot 3
    user.positions[1].base_deposits = Number::from_u64(100);
    user.positions[1].base_borrows = Number::from_u64(100);
    assert_eq!(user.get_assets_value(&group), Some(Number::from_u64(20)));
    assert_eq!(user.get_liabilities_value(&group), Some(Number::zero()));
    // deregistering the remaining market removes its contribution too
    group.markets[0].dex_market = Identity::empty();
    assert_eq!(user.get_assets_value(&group), Some(Number::zero()));
}

#[test]
fn zero_liabilities_ratio_is_max_even_with_zero_assets() {
    let group = one_market_group(10);
    let user = empty_user();
    let ratio = user.get_margin_c_ratio(&group).unwrap();
    assert!(ratio.is_max());
    assert_eq!(user.get_assets_value(&group), Some(Number::zero()));
}

#[test]
fn valuation_overflow_aborts() {
    let group = one_market_group(10);
    let mut user = empty_user();
    user.positions[QUOTE_TOKEN_IDX].base_deposits = Number::max_value();
    // quote deposit index above one: the product no longer fits
    let mut big_group = group;
    big_group.tokens[QUOTE_TOKEN_IDX].deposit_index = Number::from_u64(2);
    assert_eq!(user.get_assets_value(&big_group), None);
    assert_eq!(user.get_margin_c_ratio_components(&big_group), None);
    // the plain ratio query settles on MAX before valuing assets
    let ratio = user.get_margin_c_ratio(&big_group).unwrap();
    assert!(ratio.is_max());
}

#[test]
fn ratio_overflow_aborts() {
    // a huge asset value over a sub-unit debt: the quotient does not fit
    let group = one_market_group(10);
    let mut user = empty_user();
    user.positions[QUOTE_TOKEN_IDX].base_deposits = Number { bits: i128::MAX };
    user.positions[QUOTE_TOKEN_IDX].base_borrows = Number { bits: 1 };
    assert_eq!(user.get_margin_c_ratio(&group), None);
}

#[test]
fn bankruptcy_scenario() {
    // largest deposit value 1, lowest borrow price 100, liquidator bonus
    // 5% and insurance fee 1%: collateral needed 1.06 * 100 = 106 > 1
    let group = one_market_group(100);
    let mut user = empty_user();
    user.positions[QUOTE_TOKEN_IDX].base_deposits = Number::from_u64(1);
    user.positions[0].market_idx = 0;
    user.positions[0].base_borrows = Number::from_u64(1);
    assert_eq!(user.is_bankrupt(&group), Some(true));
}

#[test]
fn bankruptcy_needs_unpayable_debt() {
    // same debt, but collateral 200 > 106: not bankrupt
    let group = one_market_group(100);
    let mut user = empty_user();
    user.positions[QUOTE_TOKEN_IDX].base_deposits = Number::from_u64(200);
    user.positions[0].market_idx = 0;
    user.positions[0].base_borrows = Number::from_u64(1);
    assert_eq!(user.is_bankrupt(&group), Some(false));
}

#[test]
fn no_borrows_never_bankrupt() {
    let group = one_market_group(100);
    let mut user = empty_user();
    user.positions[QUOTE_TOKEN_IDX].base_deposits = Number::from_u64(1);
    user.positions[0].market_idx = 0;
    user.positions[0].base_deposits = Number::from_u64(5);
    assert_eq!(user.is_bankrupt(&group), Some(false));
}

#[test]
fn quote_borrow_seeds_lowest_price_at_one() {
    // a quote borrow seeds the lowest borrow price at one, so the fee on
    // one unit (1.06) is compared against the largest deposit
    let group = one_market_group(100);
    let mut user = empty_user();
    user.positions[QUOTE_TOKEN_IDX].base_borrows = Number::from_u64(1);
    assert_eq!(user.is_bankrupt(&group), Some(true));
    user.positions[QUOTE_TOKEN_IDX].base_deposits = Number::from_u64(5);
    assert_eq!(user.is_bankrupt(&group), Some(false));
}

#[test]
fn explicit_seed_is_honored() {
    let group = one_market_group(100);
    let mut user = empty_user();
    user.positions[QUOTE_TOKEN_IDX].base_deposits = Number::from_u64(5);
    // the MAX seed means "no debt observed yet": never bankrupt
    assert_eq!(user.is_bankrupt_with_seed(&group, Number::max_value()), Some(false));
    // a seed of one puts the cheapest debt at one unit: 1.06 < 5
    assert_eq!(user.is_bankrupt_with_seed(&group, Number::one()), Some(false));
    user.positions[QUOTE_TOKEN_IDX].base_deposits = Number::zero();
    assert_eq!(user.is_bankrupt_with_seed(&group, Number::one()), Some(true));
}

#[test]
fn bankruptcy_scan_overflow_aborts() {
    let group = one_market_group(100);
    let mut user = empty_user();
    user.positions[0].market_idx = 0;
    user.positions[0].base_deposits = Number::max_value();
    user.positions[0].base_borrows = Number::from_u64(1);
    assert_eq!(user.is_bankrupt(&group), None);
}

#[test]
fn position_totals_track_indices() {
    let group = one_market_group(10);
    let mut position = free_position();
    position.base_deposits = Number::from_u64(6);
    position.base_borrows = Number::from_u64(4);
    let mut token = group.tokens[QUOTE_TOKEN_IDX];
    token.deposit_index = Number::from_u64(2);
    token.borrow_index = Number::from_u64(3);
    assert_eq!(position.total_deposits(&token), Some(Number::from_u64(12)));
    assert_eq!(position.total_borrows(&token), Some(Number::from_u64(12)));
    assert_eq!(position.base_deposits(), Number::from_u64(6));
    token.deposit_index = Number::max_value();
    assert_eq!(position.total_deposits(&token), None);
}

#[test]
fn wf_checks_accept_and_reject() {
    let group = one_market_group(10);
    let user = empty_user();
    assert!(group.check_wf());
    assert!(user.check_wf());
    assert!(user.check_positions_resolvable(&group));
    let mut bad_group = group;
    bad_group.tokens[3].borrow_index = Number { bits: -1 };
    assert!(!bad_group.check_wf());
    let mut headless = group;
    headless.tokens[QUOTE_TOKEN_IDX].mint = Identity::empty();
    assert!(!headless.check_wf());
    let mut bad_user = user;
    bad_user.positions[9].base_deposits = Number { bits: -5 };
    assert!(!bad_user.check_wf());
    let mut dangling = user;
    dangling.positions[0].market_idx = 7;  // no market in slot 7
    assert!(!dangling.check_positions_resolvable(&group));
}
