//! Solvency engine: valuation, margin ratio, and bankruptcy queries.
//!
//! Every query is a pure read over one `(CypherGroup, CypherUser)` snapshot.
//! Monetary sums follow the fixed ascending position-slot order, so
//! intermediate values are reproducible across implementations. Arithmetic
//! overflow aborts the enclosing computation — a query returns `None`
//! instead of a partial or wrapped verdict.

use vstd::prelude::*;
use vstd::pervasive::unreached;
use vstd::arithmetic::div_mod::{lemma_div_nonincreasing, lemma_div_pos_is_pos};
use crate::constants::{MARKETS_MAX_CNT, QUOTE_TOKEN_IDX};
use crate::number::{div_fx, fx_in_range, int_fx, mul_fx, Number, FX_SCALE};
use crate::accounts::{
    spec_market_present, spec_token_present, CypherGroup, CypherToken, CypherUser,
    OpenOrdersInfo, UserPosition,
};

verus! {

/// Validity of a token slot: interest indices and pool balances are
/// nonnegative.
pub open spec fn spec_token_wf(t: CypherToken) -> bool {
    t.deposit_index.bits >= 0 && t.borrow_index.bits >= 0 && t.base_deposits.bits >= 0
        && t.base_borrows.bits >= 0
}

/// Validity of a position slot: base balances are nonnegative (every summed
/// valuation term is a credit).
pub open spec fn spec_position_wf(p: UserPosition) -> bool {
    p.base_deposits.bits >= 0 && p.base_borrows.bits >= 0
}

/// Validity of a group snapshot: all token slots are valid and the quote
/// token slot is occupied.
pub open spec fn spec_group_wf(g: CypherGroup) -> bool {
    (forall|i: int| 0 <= i < 16 ==> #[trigger] spec_token_wf(g.tokens@[i])) && spec_token_present(
        g,
        QUOTE_TOKEN_IDX as int,
    )
}

/// Validity of a user snapshot: all position slots are valid.
pub open spec fn spec_user_wf(u: CypherUser) -> bool {
    forall|i: int| 0 <= i < 16 ==> #[trigger] spec_position_wf(u.positions@[i])
}

/// Fixed-point value of an open-order mirror at the given fixed-point
/// price: funds at the venue are credited as `coin_total` at the price plus
/// the quote-denominated totals.
pub open spec fn spec_oo_value(oo: OpenOrdersInfo, price: int) -> int {
    if oo.is_account_open {
        mul_fx(int_fx(oo.coin_total as int), price) + int_fx(oo.pc_total as int) + int_fx(
            oo.referrer_rebates_accrued as int,
        )
    } else {
        0
    }
}

/// Asset contribution of one occupied position: the open-order mirror (if
/// open) plus base deposits, both at the market's mark price. A position
/// whose market is unresolvable contributes nothing (it is skipped).
pub open spec fn spec_position_assets(p: UserPosition, g: CypherGroup) -> int {
    if spec_market_present(g, p.market_idx as int) {
        let price = int_fx(g.markets@[p.market_idx as int].market_price as int);
        spec_oo_value(p.oo_info, price) + mul_fx(p.base_deposits.bits as int, price)
    } else {
        0
    }
}

/// Liability contribution of one occupied position: base borrows at the
/// market's mark price; skipped when the market is unresolvable.
pub open spec fn spec_position_liabs(p: UserPosition, g: CypherGroup) -> int {
    if spec_market_present(g, p.market_idx as int) {
        mul_fx(p.base_borrows.bits as int, int_fx(g.markets@[p.market_idx as int].market_price as int))
    } else {
        0
    }
}

/// Sum of the asset contributions of the occupied slots among the first
/// `n`, in slot order.
pub open spec fn spec_assets_prefix(u: CypherUser, g: CypherGroup, n: int) -> int
    decreases n,
{
    if n <= 0 {
        0
    } else {
        spec_assets_prefix(u, g, n - 1) + if u.positions@[n - 1].is_occupied() {
            spec_position_assets(u.positions@[n - 1], g)
        } else {
            0
        }
    }
}

/// Sum of the liability contributions of the occupied slots among the
/// first `n`, in slot order.
pub open spec fn spec_liabs_prefix(u: CypherUser, g: CypherGroup, n: int) -> int
    decreases n,
{
    if n <= 0 {
        0
    } else {
        spec_liabs_prefix(u, g, n - 1) + if u.positions@[n - 1].is_occupied() {
            spec_position_liabs(u.positions@[n - 1], g)
        } else {
            0
        }
    }
}

/// Deposits value of the always-addressable quote position: base deposits
/// scaled by the quote token's deposit index.
pub open spec fn spec_quote_deposits(u: CypherUser, g: CypherGroup) -> int {
    mul_fx(
        u.positions@[QUOTE_TOKEN_IDX as int].base_deposits.bits as int,
        g.tokens@[QUOTE_TOKEN_IDX as int].deposit_index.bits as int,
    )
}

/// Borrows value of the always-addressable quote position: base borrows
/// scaled by the quote token's borrow index.
pub open spec fn spec_quote_borrows(u: CypherUser, g: CypherGroup) -> int {
    mul_fx(
        u.positions@[QUOTE_TOKEN_IDX as int].base_borrows.bits as int,
        g.tokens@[QUOTE_TOKEN_IDX as int].borrow_index.bits as int,
    )
}

/// The user's total assets value: quote deposits plus every occupied
/// position's contribution, in slot order.
pub open spec fn spec_assets_value(u: CypherUser, g: CypherGroup) -> int {
    spec_quote_deposits(u, g) + spec_assets_prefix(u, g, 16)
}

/// The user's total liabilities value: quote borrows plus every occupied
/// position's contribution, in slot order.
pub open spec fn spec_liabs_value(u: CypherUser, g: CypherGroup) -> int {
    spec_quote_borrows(u, g) + spec_liabs_prefix(u, g, 16)
}

/// The truncating product of nonnegative factors is nonnegative.
pub proof fn lemma_mul_fx_nonneg(a: int, b: int)
    requires
        a >= 0,
        b >= 0,
    ensures
        mul_fx(a, b) >= 0,
{
    assert(a * b >= 0) by (nonlinear_arith)
        requires
            a >= 0,
            b >= 0,
    ;
    lemma_div_pos_is_pos(a * b, FX_SCALE as int);
}

/// Every asset term of a valid position is a credit.
pub proof fn lemma_position_assets_nonneg(p: UserPosition, g: CypherGroup)
    requires
        spec_position_wf(p),
    ensures
        spec_position_assets(p, g) >= 0,
{
    if spec_market_present(g, p.market_idx as int) {
        let price = int_fx(g.markets@[p.market_idx as int].market_price as int);
        lemma_mul_fx_nonneg(int_fx(p.oo_info.coin_total as int), price);
        lemma_mul_fx_nonneg(p.base_deposits.bits as int, price);
    }
}

/// Every liability term of a valid position is a credit to the debt side.
pub proof fn lemma_position_liabs_nonneg(p: UserPosition, g: CypherGroup)
    requires
        spec_position_wf(p),
    ensures
        spec_position_liabs(p, g) >= 0,
{
    if spec_market_present(g, p.market_idx as int) {
        lemma_mul_fx_nonneg(
            p.base_borrows.bits as int,
            int_fx(g.markets@[p.market_idx as int].market_price as int),
        );
    }
}

/// Prefix sums of asset contributions are nonnegative and monotone in the
/// prefix length.
pub proof fn lemma_assets_prefix_bounds(u: CypherUser, g: CypherGroup, n: int)
    requires
        spec_user_wf(u),
        0 <= n <= 16,
    ensures
        0 <= spec_assets_prefix(u, g, n),
        spec_assets_prefix(u, g, n) <= spec_assets_prefix(u, g, 16),
    decreases 16 - n,
{
    lemma_assets_prefix_nonneg_below(u, g, n);
    if n < 16 {
        lemma_assets_prefix_bounds(u, g, n + 1);
        assert(spec_position_wf(u.positions@[n]));
        lemma_position_assets_nonneg(u.positions@[n], g);
    }
}

proof fn lemma_assets_prefix_nonneg_below(u: CypherUser, g: CypherGroup, n: int)
    requires
        spec_user_wf(u),
        n <= 16,
    ensures
        0 <= spec_assets_prefix(u, g, n),
    decreases n,
{
    if n > 0 {
        lemma_assets_prefix_nonneg_below(u, g, n - 1);
        if 0 <= n - 1 < 16 {
            assert(spec_position_wf(u.positions@[n - 1]));
            lemma_position_assets_nonneg(u.positions@[n - 1], g);
        }
    }
}

/// Prefix sums of liability contributions are nonnegative and monotone in
/// the prefix length.
pub proof fn lemma_liabs_prefix_bounds(u: CypherUser, g: CypherGroup, n: int)
    requires
        spec_user_wf(u),
        0 <= n <= 16,
    ensures
        0 <= spec_liabs_prefix(u, g, n),
        spec_liabs_prefix(u, g, n) <= spec_liabs_prefix(u, g, 16),
    decreases 16 - n,
{
    lemma_liabs_prefix_nonneg_below(u, g, n);
    if n < 16 {
        lemma_liabs_prefix_bounds(u, g, n + 1);
        assert(spec_position_wf(u.positions@[n]));
        lemma_position_liabs_nonneg(u.positions@[n], g);
    }
}

proof fn lemma_liabs_prefix_nonneg_below(u: CypherUser, g: CypherGroup, n: int)
    requires
        spec_user_wf(u),
        n <= 16,
    ensures
        0 <= spec_liabs_prefix(u, g, n),
    decreases n,
{
    if n > 0 {
        lemma_liabs_prefix_nonneg_below(u, g, n - 1);
        if 0 <= n - 1 < 16 {
            assert(spec_position_wf(u.positions@[n - 1]));
            lemma_position_liabs_nonneg(u.positions@[n - 1], g);
        }
    }
}

/// For all valid accounts, the assets value and the liabilities value are
/// nonnegative: every summed term is a credit.
pub proof fn lemma_values_nonneg(user: CypherUser, group: CypherGroup)
    requires
        spec_user_wf(user),
        spec_group_wf(group),
    ensures
        spec_assets_value(user, group) >= 0,
        spec_liabs_value(user, group) >= 0,
{
    assert(spec_position_wf(user.positions@[QUOTE_TOKEN_IDX as int]));
    assert(spec_token_wf(group.tokens@[QUOTE_TOKEN_IDX as int]));
    lemma_mul_fx_nonneg(
        user.positions@[QUOTE_TOKEN_IDX as int].base_deposits.bits as int,
        group.tokens@[QUOTE_TOKEN_IDX as int].deposit_index.bits as int,
    );
    lemma_mul_fx_nonneg(
        user.positions@[QUOTE_TOKEN_IDX as int].base_borrows.bits as int,
        group.tokens@[QUOTE_TOKEN_IDX as int].borrow_index.bits as int,
    );
    lemma_assets_prefix_bounds(user, group, 16);
    lemma_liabs_prefix_bounds(user, group, 16);
}

/// Overflow-tracking accumulator for valuation sums. The exact mathematical
/// sum lives in ghost state; the stored value is `None` from the first step
/// that overflows on. Since every added term is nonnegative, the stored
/// value is `None` exactly when the exact sum exceeds the storage range.
struct ValueAcc {
    current: Option<Number>,
    total: Ghost<int>,
}

impl ValueAcc {
    spec fn wf(&self) -> bool {
        match self.current {
            Some(n) => n.bits == self.total@ && 0 <= self.total@,
            None => self.total@ > i128::MAX,
        }
    }

    fn new() -> (r: ValueAcc)
        ensures
            r.wf(),
            r.total@ == 0,
    {
        ValueAcc { current: Some(Number { bits: 0 }), total: Ghost(0) }
    }

    /// Add the truncating fixed-point product of two nonnegative factors.
    fn add_product(&mut self, a: Number, b: Number)
        requires
            old(self).wf(),
            a.bits >= 0,
            b.bits >= 0,
        ensures
            final(self).wf(),
            final(self).total@ == old(self).total@ + mul_fx(a.bits as int, b.bits as int),
    {
        proof {
            lemma_mul_fx_nonneg(a.bits as int, b.bits as int);
        }
        let term = a.checked_mul(b);
        let next: Option<Number> = match (self.current, term) {
            (Some(acc), Some(t)) => acc.checked_add(t),
            _ => None,
        };
        self.current = next;
        self.total = Ghost(self.total@ + mul_fx(a.bits as int, b.bits as int));
    }

    /// Add the fixed-point value of an integer quantity.
    fn add_u64(&mut self, v: u64)
        requires
            old(self).wf(),
        ensures
            final(self).wf(),
            final(self).total@ == old(self).total@ + int_fx(v as int),
    {
        let t = Number::from_u64(v);
        let next: Option<Number> = match self.current {
            Some(acc) => acc.checked_add(t),
            None => None,
        };
        self.current = next;
        self.total = Ghost(self.total@ + int_fx(v as int));
    }

    /// The accumulated value, or `None` if any step overflowed.
    fn result(self) -> (r: Option<Number>)
        requires
            self.wf(),
        ensures
            match r {
                Some(n) => self.total@ <= i128::MAX && n.bits == self.total@,
                None => self.total@ > i128::MAX,
            },
    {
        self.current
    }
}

impl CypherUser {
    /// The user's assets value against the group snapshot: the quote
    /// position's index-scaled deposits, then for each occupied position in
    /// slot order the open-order mirror (when open) and the base deposits
    /// at the mark price. Positions whose market is unresolvable are
    /// skipped. `None` exactly when the total overflows the numeric range.
    pub fn get_assets_value(&self, group: &CypherGroup) -> (r: Option<Number>)
        requires
            spec_user_wf(*self),
            spec_group_wf(*group),
        ensures
            match r {
                Some(n) => spec_assets_value(*self, *group) <= i128::MAX && n.bits
                    == spec_assets_value(*self, *group),
                None => spec_assets_value(*self, *group) > i128::MAX,
            },
    {
        let quote_token: &CypherToken = match group.get_cypher_token(QUOTE_TOKEN_IDX) {
            Some(t) => t,
            None => unreached(),
        };
        let mut acc = ValueAcc::new();
        match self.get_position(QUOTE_TOKEN_IDX) {
            Some(position) => {
                proof {
                    assert(spec_position_wf(self.positions@[QUOTE_TOKEN_IDX as int]));
                    assert(spec_token_wf(group.tokens@[QUOTE_TOKEN_IDX as int]));
                }
                acc.add_product(position.base_deposits, quote_token.deposit_index);
            },
            None => {
                // absent quote position: start from zero (never reached
                // here, since the quote slot is always addressable)
                proof {
                    assert(false);
                }
            },
        }
        let mut i: usize = 0;
        while i < 16
            invariant
                i <= 16,
                spec_user_wf(*self),
                spec_group_wf(*group),
                acc.wf(),
                acc.total@ == spec_quote_deposits(*self, *group) + spec_assets_prefix(
                    *self,
                    *group,
                    i as int,
                ),
            decreases 16 - i,
        {
            let p: &UserPosition = &self.positions[i];
            proof {
                assert(spec_position_wf(self.positions@[i as int]));
            }
            if p.market_idx < (MARKETS_MAX_CNT as u8) {
                match group.get_cypher_market(p.market_idx as usize) {
                    Some(market) => {
                        let price = Number::from_u64(market.market_price);
                        if p.oo_info.is_account_open {
                            acc.add_product(Number::from_u64(p.oo_info.coin_total), price);
                            acc.add_u64(p.oo_info.pc_total);
                            acc.add_u64(p.oo_info.referrer_rebates_accrued);
                        }
                        acc.add_product(p.base_deposits, price);
                    },
                    None => {
                        // unresolvable market: skip this position's
                        // market-denominated contributions
                    },
                }
            }
            i = i + 1;
        }
        acc.result()
    }

    /// The user's liabilities value against the group snapshot: the quote
    /// position's index-scaled borrows, then for each occupied position in
    /// slot order the base borrows at the mark price. Positions whose
    /// market is unresolvable are skipped. `None` exactly when the total
    /// overflows the numeric range.
    pub fn get_liabilities_value(&self, group: &CypherGroup) -> (r: Option<Number>)
        requires
            spec_user_wf(*self),
            spec_group_wf(*group),
        ensures
            match r {
                Some(n) => spec_liabs_value(*self, *group) <= i128::MAX && n.bits
                    == spec_liabs_value(*self, *group),
                None => spec_liabs_value(*self, *group) > i128::MAX,
            },
    {
        let quote_token: &CypherToken = match group.get_cypher_token(QUOTE_TOKEN_IDX) {
            Some(t) => t,
            None => unreached(),
        };
        let mut acc = ValueAcc::new();
        match self.get_position(QUOTE_TOKEN_IDX) {
            Some(position) => {
                proof {
                    assert(spec_position_wf(self.positions@[QUOTE_TOKEN_IDX as int]));
                    assert(spec_token_wf(group.tokens@[QUOTE_TOKEN_IDX as int]));
                }
                acc.add_product(position.base_borrows, quote_token.borrow_index);
            },
            None => {
                // absent quote position: start from zero (never reached
                // here, since the quote slot is always addressable)
                proof {
                    assert(false);
                }
            },
        }
        let mut i: usize = 0;
        while i < 16
            invariant
                i <= 16,
                spec_user_wf(*self),
                spec_group_wf(*group),
                acc.wf(),
                acc.total@ == spec_quote_borrows(*self, *group) + spec_liabs_prefix(
                    *self,
                    *group,
                    i as int,
                ),
            decreases 16 - i,
        {
            let p: &UserPosition = &self.positions[i];
            proof {
                assert(spec_position_wf(self.positions@[i as int]));
            }
            if p.market_idx < (MARKETS_MAX_CNT as u8) {
                match group.get_cypher_market(p.market_idx as usize) {
                    Some(market) => {
                        let price = Number::from_u64(market.market_price);
                        acc.add_product(p.base_borrows, price);
                    },
                    None => {
                        // unresolvable market: skip this position's
                        // market-denominated contributions
                    },
                }
            }
            i = i + 1;
        }
        acc.result()
    }
}

/// Outcome of the margin ratio query on a snapshot: `None` when a step
/// overflows, the `MAX` sentinel bit pattern with no debt, else the
/// truncating quotient of assets by liabilities.
pub open spec fn spec_margin_ratio(u: CypherUser, g: CypherGroup) -> Option<int> {
    let l = spec_liabs_value(u, g);
    if l > i128::MAX {
        None
    } else if l == 0 {
        Some(i128::MAX as int)
    } else {
        let a = spec_assets_value(u, g);
        if a > i128::MAX {
            None
        } else if !fx_in_range(div_fx(a, l)) {
            None
        } else {
            Some(div_fx(a, l))
        }
    }
}

/// Outcome of the margin components query: the ratio as above, together
/// with the assets and liabilities values it was formed from. Unlike the
/// plain ratio query, the assets value is computed (and can overflow) even
/// with no debt.
pub open spec fn spec_margin_components(u: CypherUser, g: CypherGroup) -> Option<(int, int, int)> {
    let l = spec_liabs_value(u, g);
    if l > i128::MAX {
        None
    } else {
        let a = spec_assets_value(u, g);
        if a > i128::MAX {
            None
        } else if l == 0 {
            Some((i128::MAX as int, a, l))
        } else if !fx_in_range(div_fx(a, l)) {
            None
        } else {
            Some((div_fx(a, l), a, l))
        }
    }
}

impl CypherUser {
    /// The user's margin c-ratio: the `MAX` sentinel when liabilities are
    /// zero (no debt is never liquidation-eligible), else assets divided by
    /// liabilities with truncation. `None` exactly when a step overflows.
    pub fn get_margin_c_ratio(&self, group: &CypherGroup) -> (r: Option<Number>)
        requires
            spec_user_wf(*self),
            spec_group_wf(*group),
        ensures
            match spec_margin_ratio(*self, *group) {
                Some(v) => r matches Some(n) && n.bits == v,
                None => r is None,
            },
    {
        proof {
            lemma_values_nonneg(*self, *group);
        }
        match self.get_liabilities_value(group) {
            None => None,
            Some(liabs_value) => {
                if liabs_value.is_zero() {
                    Some(Number::max_value())
                } else {
                    match self.get_assets_value(group) {
                        None => None,
                        Some(assets_value) => assets_value.checked_div(liabs_value),
                    }
                }
            },
        }
    }

    /// The user's margin c-ratio together with the assets and liabilities
    /// values it was formed from, so callers need not recompute them.
    pub fn get_margin_c_ratio_components(&self, group: &CypherGroup) -> (r: Option<
        (Number, Number, Number),
    >)
        requires
            spec_user_wf(*self),
            spec_group_wf(*group),
        ensures
            match spec_margin_components(*self, *group) {
                Some(v) => r matches Some(c) && c.0.bits == v.0 && c.1.bits == v.1 && c.2.bits
                    == v.2,
                None => r is None,
            },
    {
        proof {
            lemma_values_nonneg(*self, *group);
        }
        match self.get_liabilities_value(group) {
            None => None,
            Some(liabs_value) => {
                match self.get_assets_value(group) {
                    None => None,
                    Some(assets_value) => {
                        if liabs_value.is_zero() {
                            Some((Number::max_value(), assets_value, liabs_value))
                        } else {
                            match assets_value.checked_div(liabs_value) {
                                None => None,
                                Some(ratio) => Some((ratio, assets_value, liabs_value)),
                            }
                        }
                    },
                }
            },
        }
    }
}

/// Deposit value of a position: base deposits at its market's mark price.
/// Base deposits can be used directly here because these assets do not
/// accrue interest.
pub open spec fn spec_position_deposit_value(p: UserPosition, g: CypherGroup) -> int {
    mul_fx(p.base_deposits.bits as int, int_fx(g.markets@[p.market_idx as int].market_price as int))
}

/// Every occupied position's market is resolvable. This is the documented
/// external invariant that markets are never deregistered while debt
/// against them is outstanding; the bankruptcy scan relies on it.
pub open spec fn spec_positions_resolvable(u: CypherUser, g: CypherGroup) -> bool {
    forall|i: int|
        0 <= i < 16 ==> ((#[trigger] u.positions@[i]).is_occupied() ==> spec_market_present(
            g,
            u.positions@[i].market_idx as int,
        ))
}

/// Whether the bankruptcy scan stays in numeric range: the quote deposits
/// value and every occupied position's deposit value fit the storage.
pub open spec fn spec_bankrupt_scan_ok(u: CypherUser, g: CypherGroup) -> bool {
    spec_quote_deposits(u, g) <= i128::MAX && forall|i: int|
        0 <= i < 16 ==> ((#[trigger] u.positions@[i]).is_occupied()
            ==> spec_position_deposit_value(u.positions@[i], g) <= i128::MAX)
}

/// Largest single deposit value among the first `n` slots, seeded with the
/// quote position's deposits value.
pub open spec fn spec_largest_deposit_prefix(u: CypherUser, g: CypherGroup, n: int) -> int
    decreases n,
{
    if n <= 0 {
        spec_quote_deposits(u, g)
    } else {
        let prev = spec_largest_deposit_prefix(u, g, n - 1);
        if u.positions@[n - 1].is_occupied() {
            let dep = spec_position_deposit_value(u.positions@[n - 1], g);
            if dep > prev {
                dep
            } else {
                prev
            }
        } else {
            prev
        }
    }
}

/// Lowest mark price among markets where one of the first `n` slots
/// carries a borrow, starting from the given seed.
pub open spec fn spec_lowest_borrow_prefix(u: CypherUser, g: CypherGroup, n: int, seed: int) -> int
    decreases n,
{
    if n <= 0 {
        seed
    } else {
        let prev = spec_lowest_borrow_prefix(u, g, n - 1, seed);
        if u.positions@[n - 1].is_occupied() && u.positions@[n - 1].base_borrows.bits > 0 {
            let price = int_fx(g.markets@[u.positions@[n - 1].market_idx as int].market_price as int);
            if price < prev {
                price
            } else {
                prev
            }
        } else {
            prev
        }
    }
}

/// The combined liquidation fee: liquidator bonus plus insurance fee.
pub open spec fn spec_liq_fee(g: CypherGroup) -> int {
    FX_SCALE as int + int_fx(g.config.liquidator_bonus_bps as int) / 10000 + int_fx(
        g.config.liquidation_insurance_fee_bps as int,
    ) / 10000
}

/// The documented seed rule for the lowest borrow price: one when the
/// quote position carries a borrow (priced 1:1, already the cheapest),
/// else the `MAX` sentinel meaning "no debt observed yet".
pub open spec fn spec_bankrupt_seed(u: CypherUser) -> int {
    if u.positions@[QUOTE_TOKEN_IDX as int].base_borrows.bits > 0 {
        FX_SCALE as int
    } else {
        i128::MAX as int
    }
}

/// Outcome of the bankruptcy query from a given seed: `None` when the
/// deposit scan overflows; `false` when no debt was observed anywhere
/// (the lowest borrow price is still the sentinel); else whether the
/// collateral needed to buy the cheapest unit of debt — after liquidator
/// and insurance haircuts — exceeds the single largest deposit.
pub open spec fn spec_is_bankrupt_with_seed(u: CypherUser, g: CypherGroup, seed: int) -> Option<
    bool,
> {
    if !spec_bankrupt_scan_ok(u, g) {
        None
    } else {
        let lowest = spec_lowest_borrow_prefix(u, g, 16, seed);
        if lowest == i128::MAX as int {
            Some(false)
        } else {
            let needed = mul_fx(spec_liq_fee(g), lowest);
            if !fx_in_range(needed) {
                None
            } else {
                Some(needed > spec_largest_deposit_prefix(u, g, 16))
            }
        }
    }
}

/// Outcome of the bankruptcy query under the documented seed rule.
pub open spec fn spec_is_bankrupt(u: CypherUser, g: CypherGroup) -> Option<bool> {
    spec_is_bankrupt_with_seed(u, g, spec_bankrupt_seed(u))
}

impl CypherUser {
    /// The bankruptcy scan from an explicit lowest-borrow-price seed: the
    /// seed rule is a separately tested parameter. Determines whether even
    /// seizing the single largest collateral holding to pay for the
    /// cheapest unit of debt (after liquidator-bonus and insurance-fee
    /// haircuts) would be insufficient. `None` exactly when a step
    /// overflows the numeric range.
    pub fn is_bankrupt_with_seed(&self, group: &CypherGroup, seed: Number) -> (r: Option<bool>)
        requires
            spec_user_wf(*self),
            spec_group_wf(*group),
            spec_positions_resolvable(*self, *group),
        ensures
            r == spec_is_bankrupt_with_seed(*self, *group, seed.bits as int),
    {
        let quote_token: &CypherToken = match group.get_cypher_token(QUOTE_TOKEN_IDX) {
            Some(t) => t,
            None => unreached(),
        };
        proof {
            assert(spec_position_wf(self.positions@[QUOTE_TOKEN_IDX as int]));
            assert(spec_token_wf(group.tokens@[QUOTE_TOKEN_IDX as int]));
            lemma_mul_fx_nonneg(
                self.positions@[QUOTE_TOKEN_IDX as int].base_deposits.bits as int,
                group.tokens@[QUOTE_TOKEN_IDX as int].deposit_index.bits as int,
            );
        }
        let mut largest: Number = match self.get_position(QUOTE_TOKEN_IDX) {
            Some(quote_position) => match quote_position.total_deposits(quote_token) {
                Some(v) => v,
                None => {
                    return None;
                },
            },
            // absent quote position: seed with zero (never reached here,
            // since the quote slot is always addressable)
            None => Number::zero(),
        };
        let mut lowest: Number = seed;
        let mut i: usize = 0;
        while i < 16
            invariant
                i <= 16,
                spec_user_wf(*self),
                spec_group_wf(*group),
                spec_positions_resolvable(*self, *group),
                largest.bits == spec_largest_deposit_prefix(*self, *group, i as int),
                lowest.bits == spec_lowest_borrow_prefix(*self, *group, i as int, seed.bits as int),
                spec_quote_deposits(*self, *group) <= i128::MAX,
                forall|j: int|
                    0 <= j < i ==> ((#[trigger] self.positions@[j]).is_occupied()
                        ==> spec_position_deposit_value(self.positions@[j], *group) <= i128::MAX),
            decreases 16 - i,
        {
            let p: &UserPosition = &self.positions[i];
            proof {
                assert(spec_position_wf(self.positions@[i as int]));
            }
            if p.market_idx < (MARKETS_MAX_CNT as u8) {
                let market = match group.get_cypher_market(p.market_idx as usize) {
                    Some(m) => m,
                    None => unreached(),
                };
                let price = Number::from_u64(market.market_price);
                proof {
                    lemma_mul_fx_nonneg(p.base_deposits.bits as int, price.bits as int);
                }
                let deposit_value: Number = match p.base_deposits.checked_mul(price) {
                    Some(v) => v,
                    None => {
                        return None;
                    },
                };
                largest = largest.max_of(deposit_value);
                if p.base_borrows.bits > 0 {
                    lowest = lowest.min_of(price);
                }
            }
            i = i + 1;
        }
        if lowest.is_max() {
            return Some(false);
        }
        let liqor_fee = group.liq_liqor_fee();
        let insurance_fee = group.liq_insurance_fee();
        proof {
            lemma_div_pos_is_pos(int_fx(group.config.liquidator_bonus_bps as int), 10000);
            lemma_div_nonincreasing(int_fx(group.config.liquidator_bonus_bps as int), 10000);
            lemma_div_pos_is_pos(int_fx(group.config.liquidation_insurance_fee_bps as int), 10000);
            lemma_div_nonincreasing(
                int_fx(group.config.liquidation_insurance_fee_bps as int),
                10000,
            );
        }
        let liq_fee = Number { bits: liqor_fee.bits + insurance_fee.bits };
        match liq_fee.checked_mul(lowest) {
            None => None,
            Some(collateral_for_min_borrow_unit) => Some(
                collateral_for_min_borrow_unit.bits > largest.bits,
            ),
        }
    }

    /// Whether the account is bankrupt: even seizing its single largest
    /// collateral holding, at current prices, to pay for its cheapest unit
    /// of debt (after liquidator-bonus and insurance-fee haircuts) would be
    /// insufficient, so it must go through loss socialization instead of
    /// ordinary liquidation. The lowest-borrow-price seed follows the
    /// documented rule on the quote position's borrow. `None` exactly when
    /// a step overflows the numeric range.
    pub fn is_bankrupt(&self, group: &CypherGroup) -> (r: Option<bool>)
        requires
            spec_user_wf(*self),
            spec_group_wf(*group),
            spec_positions_resolvable(*self, *group),
        ensures
            r == spec_is_bankrupt(*self, *group),
    {
        let seed: Number = match self.get_position(QUOTE_TOKEN_IDX) {
            Some(p) => if p.base_borrows.bits > 0 {
                Number::one()
            } else {
                Number::max_value()
            },
            None => Number::max_value(),
        };
        self.is_bankrupt_with_seed(group, seed)
    }
}

proof fn lemma_lowest_stays_seed(u: CypherUser, g: CypherGroup, n: int, seed: int)
    requires
        0 <= n <= 16,
        forall|i: int| 0 <= i < 16 ==> (#[trigger] u.positions@[i]).base_borrows.bits == 0,
    ensures
        spec_lowest_borrow_prefix(u, g, n, seed) == seed,
    decreases n,
{
    if n > 0 {
        lemma_lowest_stays_seed(u, g, n - 1, seed);
        assert(u.positions@[n - 1].base_borrows.bits == 0);
    }
}

/// An account carrying no borrows anywhere is never flagged bankrupt,
/// provided its deposit scan stays in numeric range so the scan completes.
pub proof fn lemma_no_borrows_not_bankrupt(user: CypherUser, group: CypherGroup)
    requires
        forall|i: int| 0 <= i < 16 ==> (#[trigger] user.positions@[i]).base_borrows.bits == 0,
        spec_bankrupt_scan_ok(user, group),
    ensures
        spec_is_bankrupt(user, group) == Some(false),
{
    assert(user.positions@[QUOTE_TOKEN_IDX as int].base_borrows.bits == 0);
    lemma_lowest_stays_seed(user, group, 16, i128::MAX as int);
}

impl CypherGroup {
    /// Runtime check of the group validity that the valuation queries
    /// require, for callers outside the proof system: all token slots
    /// valid and the quote token slot occupied.
    pub fn check_wf(&self) -> (r: bool)
        ensures
            r == spec_group_wf(*self),
    {
        let mut i: usize = 0;
        while i < 16
            invariant
                i <= 16,
                forall|j: int| 0 <= j < i ==> #[trigger] spec_token_wf(self.tokens@[j]),
            decreases 16 - i,
        {
            let t = &self.tokens[i];
            if t.deposit_index.bits < 0 || t.borrow_index.bits < 0 || t.base_deposits.bits < 0
                || t.base_borrows.bits < 0 {
                proof {
                    assert(!spec_token_wf(self.tokens@[i as int]));
                }
                return false;
            }
            i = i + 1;
        }
        !self.tokens[QUOTE_TOKEN_IDX].mint.is_empty()
    }
}

impl CypherUser {
    /// Runtime check of the account validity that the valuation queries
    /// require, for callers outside the proof system: all position slots
    /// valid.
    pub fn check_wf(&self) -> (r: bool)
        ensures
            r == spec_user_wf(*self),
    {
        let mut i: usize = 0;
        while i < 16
            invariant
                i <= 16,
                forall|j: int| 0 <= j < i ==> #[trigger] spec_position_wf(self.positions@[j]),
            decreases 16 - i,
    {
            let p = &self.positions[i];
            if p.base_deposits.bits < 0 || p.base_borrows.bits < 0 {
                proof {
                    assert(!spec_position_wf(self.positions@[i as int]));
                }
                return false;
            }
            i = i + 1;
        }
        true
    }

    /// Runtime check that every occupied position's market resolves, the
    /// precondition of the bankruptcy scan.
    pub fn check_positions_resolvable(&self, group: &CypherGroup) -> (r: bool)
        ensures
            r == spec_positions_resolvable(*self, *group),
    {
        let mut i: usize = 0;
        while i < 16
            invariant
                i <= 16,
                forall|j: int|
                    0 <= j < i ==> ((#[trigger] self.positions@[j]).is_occupied()
                        ==> spec_market_present(*group, self.positions@[j].market_idx as int)),
            decreases 16 - i,
        {
            let p = &self.positions[i];
            if p.market_idx < (MARKETS_MAX_CNT as u8) {
                if group.get_cypher_market(p.market_idx as usize).is_none() {
                    return false;
                }
            }
            i = i + 1;
        }
        true
    }
}

/// With zero liabilities the margin ratio is the `MAX` sentinel, regardless
/// of asset value, including zero assets.
pub proof fn lemma_zero_liabilities_ratio_max(user: CypherUser, group: CypherGroup)
    requires
        spec_liabs_value(user, group) == 0,
    ensures
        spec_margin_ratio(user, group) == Some(i128::MAX as int),
{
}

/// The components query never diverges from the ratio query: whenever the
/// components are returned, the ratio component is assets over liabilities
/// (the `MAX` sentinel with no debt), and the standalone ratio query
/// returns the same ratio.
pub proof fn lemma_components_agree_with_ratio(user: CypherUser, group: CypherGroup)
    ensures
        match spec_margin_components(user, group) {
            Some(v) => (if v.2 == 0 {
                v.0 == i128::MAX as int
            } else {
                v.0 == div_fx(v.1, v.2)
            }) && spec_margin_ratio(user, group) == Some(v.0),
            None => true,
        },
{
}

} // verus!
