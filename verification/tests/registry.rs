use cypher::accounts::{
    CypherGroup, CypherGroupConfig, CypherMarket, CypherToken, Identity,
};
use cypher::constants::{MARKETS_MAX_CNT, QUOTE_TOKEN_IDX, TOKENS_MAX_CNT};
use cypher::number::Number;

fn ident(n: u64) -> Identity {
    Identity { w0: n, w1: 0, w2: 0, w3: 0 }
}

fn empty_token() -> CypherToken {
    CypherToken {
        mint: Identity::empty(),
        vault: Identity::empty(),
        decimals: 0,
        deposit_index: Number::zero(),
        borrow_index: Number::zero(),
        base_deposits: Number::zero(),
        base_borrows: Number::zero(),
    }
}

fn empty_market() -> CypherMarket {
    CypherMarket { dex_market: Identity::empty(), market_price: 0, oracle_price: 0 }
}

fn base_group() -> CypherGroup {
    let mut group = CypherGroup {
        config: CypherGroupConfig {
            margin_init_ratio: 120,
            margin_maint_ratio: 110,
            margin_partial_ratio: 115,
            liquidator_bonus_bps: 500,
            liquidation_insurance_fee_bps: 100,
        },
        tokens: [empty_token(); 16],
        markets: [empty_market(); 15],
    };
    group.tokens[QUOTE_TOKEN_IDX].mint = ident(900);
    group.tokens[QUOTE_TOKEN_IDX].vault = ident(901);
    group.tokens[QUOTE_TOKEN_IDX].decimals = 6;
    group.tokens[QUOTE_TOKEN_IDX].deposit_index = Number::one();
    group.tokens[QUOTE_TOKEN_IDX].borrow_index = Number::one();
    group
}

#[test]
fn identity_sentinel() {
    assert!(Identity::empty().is_empty());
    assert!(!ident(3).is_empty());
    assert_eq!(ident(3), ident(3));
    assert_ne!(ident(3), ident(4));
}

#[test]
fn slot_bounds() {
    assert_eq!(MARKETS_MAX_CNT, 15);
    assert_eq!(TOKENS_MAX_CNT, 16);
    assert_eq!(QUOTE_TOKEN_IDX, 15);
}

#[test]
fn token_lookup_by_index() {
    let mut group = base_group();
    group.tokens[2].mint = ident(7);
    assert!(group.get_cypher_token(0).is_none());
    assert_eq!(group.get_cypher_token(2).unwrap().mint, ident(7));
    assert_eq!(group.get_cypher_token(QUOTE_TOKEN_IDX).unwrap().mint, ident(900));
}

#[test]
fn market_lookup_by_index() {
    let mut group = base_group();
    group.markets[4].dex_market = ident(40);
    group.markets[4].market_price = 12;
    group.markets[4].oracle_price = 13;
    assert!(group.get_cypher_market(0).is_none());
    let market = group.get_cypher_market(4).unwrap();
    assert_eq!(market.market_price, 12);
    assert_eq!(market.oracle_price(), 13);
}

#[test]
fn token_index_scan_keeps_slot_numbers() {
    let mut group = base_group();
    // slot 0 stays empty: the match in slot 1 must report slot 1
    group.tokens[1].mint = ident(7);
    group.tokens[3].mint = ident(8);
    assert_eq!(group.get_token_idx(ident(7)), Some(1));
    assert_eq!(group.get_token_idx(ident(8)), Some(3));
    assert_eq!(group.get_token_idx(ident(42)), None);
    assert_eq!(group.get_token_idx(ident(900)), Some(QUOTE_TOKEN_IDX));
}

#[test]
fn market_index_rejects_numeraire() {
    let mut group = base_group();
    group.tokens[1].mint = ident(7);
    assert_eq!(group.get_market_idx(ident(900)), None);
    assert_eq!(group.get_market_idx(ident(7)), Some(1));
    assert_eq!(group.get_market_idx(ident(42)), None);
}

#[test]
fn quote_projections() {
    let group = base_group();
    assert_eq!(group.quote_vault(), ident(901));
    assert_eq!(group.quote_mint(), ident(900));
    assert!(group.tokens[QUOTE_TOKEN_IDX].is_quote(&group.quote_mint()));
    assert!(!group.tokens[0].is_quote(&group.quote_mint()));
}

#[test]
fn risk_parameter_conversions() {
    let group = base_group();
    assert_eq!(group.margin_init_ratio().bits, 120 * 281474976710656 / 100);
    assert_eq!(group.margin_maint_ratio().bits, 309622474381721);
    assert_eq!(group.margin_partial_ratio().bits, 115 * 281474976710656 / 100);
    assert_eq!(group.liq_liqor_fee().bits, 281474976710656 + 14073748835532);
    assert_eq!(group.liq_insurance_fee().bits, 2814749767106);
}

#[test]
fn token_totals_track_indices() {
    let mut token = empty_token();
    token.mint = ident(5);
    token.deposit_index = Number::from_u64(2);
    token.borrow_index = Number::from_u64(3);
    token.base_deposits = Number::from_u64(10);
    token.base_borrows = Number::from_u64(4);
    assert_eq!(token.total_deposits(), Some(Number::from_u64(20)));
    assert_eq!(token.total_borrows(), Some(Number::from_u64(12)));
    assert_eq!(token.base_deposits(), Number::from_u64(10));
    assert_eq!(token.base_borrows(), Number::from_u64(4));
    assert_eq!(token.deposit_index(), Number::from_u64(2));
    assert_eq!(token.borrow_index(), Number::from_u64(3));
    assert_eq!(token.decimals(), 0);
    token.base_deposits = Number::max_value();
    assert_eq!(token.total_deposits(), None);
}

#[test]
fn duplicate_identities_first_match_wins() {
    // identities are unique by construction; if duplicates ever appear the
    // scan still reports the first occupied match in slot order
    let mut group = base_group();
    group.tokens[2].mint = ident(7);
    group.tokens[5].mint = ident(7);
    assert_eq!(group.get_token_idx(ident(7)), Some(2));
}
