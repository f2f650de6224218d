//! Registry and account snapshot types.
//!
//! A [`CypherGroup`] aggregates a fixed-size registry of token and market
//! slots plus global risk parameters; a [`CypherUser`] aggregates per-market
//! position slots. Slots are fixed-size arenas: an empty token or market
//! slot is marked by a null identity sentinel, and a free position slot is
//! marked by a `market_idx` at or above the market-slot bound. Lookups
//! return an explicit "absent" result instead of faulting.

use vstd::prelude::*;
use crate::constants::{MARKETS_MAX_CNT, QUOTE_TOKEN_IDX, TOKENS_MAX_CNT};
use crate::number::{int_fx, fx_in_range, mul_fx, Number, FX_SCALE};

verus! {

/// A 32-byte asset or account identity, held as four 64-bit words. The
/// all-zero value is the null sentinel that marks an empty slot.
#[derive(Clone, Copy, Debug, PartialEq, Eq, Structural)]
pub struct Identity {
    pub w0: u64,
    pub w1: u64,
    pub w2: u64,
    pub w3: u64,
}

impl Identity {
    /// Whether this is the null identity that marks an empty slot.
    pub open spec fn spec_is_empty(&self) -> bool {
        self.w0 == 0 && self.w1 == 0 && self.w2 == 0 && self.w3 == 0
    }

    /// The null identity.
    pub fn empty() -> (r: Identity)
        ensures
            r.spec_is_empty(),
    {
        Identity { w0: 0, w1: 0, w2: 0, w3: 0 }
    }

    /// Whether this is the null identity that marks an empty slot.
    pub fn is_empty(&self) -> (r: bool)
        ensures
            r == self.spec_is_empty(),
    {
        self.w0 == 0 && self.w1 == 0 && self.w2 == 0 && self.w3 == 0
    }
}

/// Global risk parameters of a group. Ratios are whole-number percentages;
/// fees are in basis points.
#[derive(Clone, Copy, Debug)]
pub struct CypherGroupConfig {
    pub margin_init_ratio: u16,
    pub margin_maint_ratio: u16,
    pub margin_partial_ratio: u16,
    pub liquidator_bonus_bps: u16,
    pub liquidation_insurance_fee_bps: u16,
}

/// Per-asset interest-index and pool balance state.
#[derive(Clone, Copy, Debug)]
pub struct CypherToken {
    /// Asset identity; the null sentinel marks the slot as empty.
    pub mint: Identity,
    /// Vault that holds this token's funds.
    pub vault: Identity,
    pub decimals: u8,
    /// Fixed-point multiplier converting base deposits to real value.
    pub deposit_index: Number,
    /// Fixed-point multiplier converting base borrows to real value.
    pub borrow_index: Number,
    /// Pool total of deposits in base units.
    pub base_deposits: Number,
    /// Pool total of borrows in base units.
    pub base_borrows: Number,
}

impl CypherToken {
    /// Whether the token is the quote token, identified by the given
    /// numeraire mint.
    pub fn is_quote(&self, quote_mint: &Identity) -> (r: bool)
        ensures
            r == (self.mint == *quote_mint),
    {
        self.mint == *quote_mint
    }

    /// The token's decimals.
    pub fn decimals(&self) -> (r: u8)
        ensures
            r == self.decimals,
    {
        self.decimals
    }

    /// The token's deposit index.
    pub fn deposit_index(&self) -> (r: Number)
        ensures
            r == self.deposit_index,
    {
        self.deposit_index
    }

    /// The token's borrow index.
    pub fn borrow_index(&self) -> (r: Number)
        ensures
            r == self.borrow_index,
    {
        self.borrow_index
    }

    /// The pool's base deposit amount.
    pub fn base_deposits(&self) -> (r: Number)
        ensures
            r == self.base_deposits,
    {
        self.base_deposits
    }

    /// The pool's base borrow amount.
    pub fn base_borrows(&self) -> (r: Number)
        ensures
            r == self.base_borrows,
    {
        self.base_borrows
    }

    /// The pool's total deposits adjusted for the deposit index; `None`
    /// exactly when the product overflows.
    pub fn total_deposits(&self) -> (r: Option<Number>)
        ensures
            match r {
                Some(n) => fx_in_range(mul_fx(self.base_deposits.bits as int, self.deposit_index.bits as int))
                    && n.bits == mul_fx(self.base_deposits.bits as int, self.deposit_index.bits as int),
                None => !fx_in_range(mul_fx(self.base_deposits.bits as int, self.deposit_index.bits as int)),
            },
    {
        self.base_deposits.checked_mul(self.deposit_index)
    }

    /// The pool's total borrows adjusted for the borrow index; `None`
    /// exactly when the product overflows.
    pub fn total_borrows(&self) -> (r: Option<Number>)
        ensures
            match r {
                Some(n) => fx_in_range(mul_fx(self.base_borrows.bits as int, self.borrow_index.bits as int))
                    && n.bits == mul_fx(self.base_borrows.bits as int, self.borrow_index.bits as int),
                None => !fx_in_range(mul_fx(self.base_borrows.bits as int, self.borrow_index.bits as int)),
            },
    {
        self.base_borrows.checked_mul(self.borrow_index)
    }
}

/// Per-tradable-market pricing state.
#[derive(Clone, Copy, Debug)]
pub struct CypherMarket {
    /// Market identity; the null sentinel marks the slot as empty.
    pub dex_market: Identity,
    /// Latest mark price, quote per base unit.
    pub market_price: u64,
    /// Latest cached oracle spot price, quote per base unit.
    pub oracle_price: u64,
}

impl CypherMarket {
    /// The latest cached oracle price.
    pub fn oracle_price(&self) -> (r: u64)
        ensures
            r == self.oracle_price,
    {
        self.oracle_price
    }
}

/// Aggregated registry state: token slots, market slots, and global risk
/// parameters. Token slot `i` and market slot `i` describe the same
/// underlying asset; the quote token is always the last token slot.
#[derive(Clone, Copy, Debug)]
pub struct CypherGroup {
    pub config: CypherGroupConfig,
    pub tokens: [CypherToken; 16],
    pub markets: [CypherMarket; 15],
}

/// Whether token slot `i` of the group is occupied.
pub open spec fn spec_token_present(g: CypherGroup, i: int) -> bool {
    !g.tokens@[i].mint.spec_is_empty()
}

/// Whether market slot `i` of the group is occupied.
pub open spec fn spec_market_present(g: CypherGroup, i: int) -> bool {
    !g.markets@[i].dex_market.spec_is_empty()
}

/// Whether token slot `i` is occupied and holds the asset `mint`.
pub open spec fn spec_token_match(g: CypherGroup, mint: Identity, i: int) -> bool {
    spec_token_present(g, i) && g.tokens@[i].mint == mint
}

impl CypherGroup {
    /// The group's margin initialization ratio.
    pub fn margin_init_ratio(&self) -> (r: Number)
        ensures
            r.bits == int_fx(self.config.margin_init_ratio as int) / 100,
    {
        Number::from_percent(self.config.margin_init_ratio)
    }

    /// The group's margin maintenance ratio: below it an account is
    /// liquidation-eligible.
    pub fn margin_maint_ratio(&self) -> (r: Number)
        ensures
            r.bits == int_fx(self.config.margin_maint_ratio as int) / 100,
    {
        Number::from_percent(self.config.margin_maint_ratio)
    }

    /// The group's partial margin ratio, the target ratio during
    /// liquidations.
    pub fn margin_partial_ratio(&self) -> (r: Number)
        ensures
            r.bits == int_fx(self.config.margin_partial_ratio as int) / 100,
    {
        Number::from_percent(self.config.margin_partial_ratio)
    }

    /// The group's liquidator bonus fee: one plus the bonus in basis points.
    pub fn liq_liqor_fee(&self) -> (r: Number)
        ensures
            r.bits == FX_SCALE + int_fx(self.config.liquidator_bonus_bps as int) / 10000,
    {
        let bonus = Number::from_bps(self.config.liquidator_bonus_bps);
        Number { bits: FX_SCALE + bonus.bits }
    }

    /// The group's liquidation insurance fee.
    pub fn liq_insurance_fee(&self) -> (r: Number)
        ensures
            r.bits == int_fx(self.config.liquidation_insurance_fee_bps as int) / 10000,
    {
        Number::from_bps(self.config.liquidation_insurance_fee_bps)
    }

    /// The mint of the quote (numeraire) token.
    pub fn quote_mint(&self) -> (r: Identity)
        ensures
            r == self.tokens@[QUOTE_TOKEN_IDX as int].mint,
    {
        self.tokens[QUOTE_TOKEN_IDX].mint
    }

    /// The token at the given index, or absent if the slot is empty.
    pub fn get_cypher_token(&self, token_index: usize) -> (r: Option<&CypherToken>)
        requires
            token_index < TOKENS_MAX_CNT,
        ensures
            match r {
                Some(t) => spec_token_present(*self, token_index as int) && *t
                    == self.tokens@[token_index as int],
                None => !spec_token_present(*self, token_index as int),
            },
    {
        if self.tokens[token_index].mint.is_empty() {
            None
        } else {
            Some(&self.tokens[token_index])
        }
    }

    /// The market at the given index, or absent if the slot is empty.
    pub fn get_cypher_market(&self, market_index: usize) -> (r: Option<&CypherMarket>)
        requires
            market_index < MARKETS_MAX_CNT,
        ensures
            match r {
                Some(m) => spec_market_present(*self, market_index as int) && *m
                    == self.markets@[market_index as int],
                None => !spec_market_present(*self, market_index as int),
            },
    {
        if self.markets[market_index].dex_market.is_empty() {
            None
        } else {
            Some(&self.markets[market_index])
        }
    }

    /// The index of the occupied token slot holding `mint`: the first match
    /// in slot order wins, and absence is a normal result.
    pub fn get_token_idx(&self, mint: Identity) -> (r: Option<usize>)
        ensures
            match r {
                Some(i) => 0 <= i < TOKENS_MAX_CNT && spec_token_match(*self, mint, i as int)
                    && (forall|j: int| 0 <= j < i ==> !spec_token_match(*self, mint, j)),
                None => forall|j: int|
                    0 <= j < TOKENS_MAX_CNT ==> !spec_token_match(*self, mint, j),
            },
    {
        let mut i: usize = 0;
        while i < TOKENS_MAX_CNT
            invariant
                i <= TOKENS_MAX_CNT,
                forall|j: int| 0 <= j < i ==> !spec_token_match(*self, mint, j),
            decreases TOKENS_MAX_CNT - i,
        {
            if !self.tokens[i].mint.is_empty() && self.tokens[i].mint == mint {
                return Some(i);
            }
            i = i + 1;
        }
        None
    }

    /// The index of the market for `c_asset_mint`, or absent when the mint
    /// is the numeraire (the quote asset has no tradeable market) or is not
    /// registered.
    pub fn get_market_idx(&self, c_asset_mint: Identity) -> (r: Option<usize>)
        ensures
            c_asset_mint == self.tokens@[QUOTE_TOKEN_IDX as int].mint ==> r is None,
            c_asset_mint != self.tokens@[QUOTE_TOKEN_IDX as int].mint ==> match r {
                Some(i) => 0 <= i < TOKENS_MAX_CNT && spec_token_match(*self, c_asset_mint, i as int)
                    && (forall|j: int| 0 <= j < i ==> !spec_token_match(*self, c_asset_mint, j)),
                None => forall|j: int|
                    0 <= j < TOKENS_MAX_CNT ==> !spec_token_match(*self, c_asset_mint, j),
            },
    {
        if c_asset_mint == self.quote_mint() {
            return None;
        }
        self.get_token_idx(c_asset_mint)
    }

    /// The quote token's vault.
    pub fn quote_vault(&self) -> (r: Identity)
        ensures
            r == self.tokens@[QUOTE_TOKEN_IDX as int].vault,
    {
        self.tokens[QUOTE_TOKEN_IDX].vault
    }
}

/// Record of funds temporarily held at an external order-book venue on a
/// position's behalf, not yet settled into base balances.
#[derive(Clone, Copy, Debug)]
pub struct OpenOrdersInfo {
    pub is_account_open: bool,
    pub coin_total: u64,
    pub pc_total: u64,
    pub referrer_rebates_accrued: u64,
}

/// Per-account, per-market accounting slot: base balances plus an
/// open-order mirror. A `market_idx` at or above the market-slot bound
/// marks the slot as free.
#[derive(Clone, Copy, Debug)]
pub struct UserPosition {
    pub market_idx: u8,
    /// Deposits in base units.
    pub base_deposits: Number,
    /// Borrows in base units.
    pub base_borrows: Number,
    pub oo_info: OpenOrdersInfo,
}

impl UserPosition {
    /// Whether the slot is live: free slots are skipped on iteration.
    pub open spec fn is_occupied(&self) -> bool {
        (self.market_idx as int) < (MARKETS_MAX_CNT as int)
    }

    /// The position's base deposit amount.
    pub fn base_deposits(&self) -> (r: Number)
        ensures
            r == self.base_deposits,
    {
        self.base_deposits
    }

    /// The position's base borrow amount.
    pub fn base_borrows(&self) -> (r: Number)
        ensures
            r == self.base_borrows,
    {
        self.base_borrows
    }

    /// The position's total deposits adjusted for the token's deposit
    /// index; `None` exactly when the product overflows.
    pub fn total_deposits(&self, cypher_token: &CypherToken) -> (r: Option<Number>)
        ensures
            match r {
                Some(n) => fx_in_range(mul_fx(self.base_deposits.bits as int, cypher_token.deposit_index.bits as int))
                    && n.bits == mul_fx(self.base_deposits.bits as int, cypher_token.deposit_index.bits as int),
                None => !fx_in_range(mul_fx(self.base_deposits.bits as int, cypher_token.deposit_index.bits as int)),
            },
    {
        self.base_deposits.checked_mul(cypher_token.deposit_index)
    }

    /// The position's total borrows adjusted for the token's borrow index;
    /// `None` exactly when the product overflows.
    pub fn total_borrows(&self, cypher_token: &CypherToken) -> (r: Option<Number>)
        ensures
            match r {
                Some(n) => fx_in_range(mul_fx(self.base_borrows.bits as int, cypher_token.borrow_index.bits as int))
                    && n.bits == mul_fx(self.base_borrows.bits as int, cypher_token.borrow_index.bits as int),
                None => !fx_in_range(mul_fx(self.base_borrows.bits as int, cypher_token.borrow_index.bits as int)),
            },
    {
        self.base_borrows.checked_mul(cypher_token.borrow_index)
    }
}

/// The occupied positions of the first `n` slots of `s`, in slot order.
pub open spec fn spec_occupied_prefix(s: Seq<UserPosition>, n: int) -> Seq<UserPosition>
    decreases n,
{
    if n <= 0 {
        Seq::empty()
    } else {
        spec_occupied_prefix(s, n - 1) + if s[n - 1].is_occupied() {
            seq![s[n - 1]]
        } else {
            Seq::empty()
        }
    }
}

/// Everything that iteration yields is a live position: free slots, whose
/// `market_idx` is at or above the market-slot bound, are skipped.
pub proof fn lemma_iteration_yields_occupied(s: Seq<UserPosition>, n: int)
    ensures
        forall|k: int|
            0 <= k < spec_occupied_prefix(s, n).len() ==> (#[trigger] spec_occupied_prefix(s, n)[k]).is_occupied(),
    decreases n,
{
    if n > 0 {
        lemma_iteration_yields_occupied(s, n - 1);
        let prev = spec_occupied_prefix(s, n - 1);
        let full = spec_occupied_prefix(s, n);
        assert forall|k: int| 0 <= k < full.len() implies (#[trigger] full[k]).is_occupied() by {
            if k < prev.len() {
                assert(full[k] == prev[k]);
            } else {
                assert(full[k] == s[n - 1]);
            }
        }
    }
}

/// Every occupied slot below the bound is visited by iteration: its
/// position appears in the yielded sequence.
pub proof fn lemma_iteration_visits_occupied(s: Seq<UserPosition>, n: int, i: int)
    requires
        0 <= i < n,
        s[i].is_occupied(),
    ensures
        spec_occupied_prefix(s, n).contains(s[i]),
    decreases n,
{
    if i == n - 1 {
        assert(spec_occupied_prefix(s, n) == spec_occupied_prefix(s, n - 1) + seq![s[n - 1]]);
        let full = spec_occupied_prefix(s, n);
        assert(full[full.len() - 1] == s[i]);
    } else {
        lemma_iteration_visits_occupied(s, n - 1, i);
        let prev = spec_occupied_prefix(s, n - 1);
        let full = spec_occupied_prefix(s, n);
        let k = choose|k: int| 0 <= k < prev.len() && prev[k] == s[i];
        assert(full[k] == s[i]);
    }
}

/// The first position slot from `j` on whose `market_idx` equals
/// `token_idx`.
pub open spec fn spec_position_idx_from(s: Seq<UserPosition>, token_idx: int, j: int) -> Option<
    int,
>
    decreases s.len() - j,
{
    if j < 0 || j >= s.len() {
        None
    } else if s[j].market_idx as int == token_idx {
        Some(j)
    } else {
        spec_position_idx_from(s, token_idx, j + 1)
    }
}

/// The position slot serving `token_idx`: the quote index maps to the
/// always-addressable quote slot, any other index to the first slot whose
/// `market_idx` matches.
pub open spec fn spec_position_idx(u: CypherUser, token_idx: int) -> Option<int> {
    if token_idx == QUOTE_TOKEN_IDX as int {
        Some(QUOTE_TOKEN_IDX as int)
    } else {
        spec_position_idx_from(u.positions@, token_idx, 0)
    }
}

/// A user account: owner and optional delegate identities plus a fixed
/// arena of position slots. The slot at the quote token index is the
/// always-addressable quote position.
#[derive(Clone, Copy, Debug)]
pub struct CypherUser {
    pub owner: Identity,
    pub delegate: Identity,
    pub positions: [UserPosition; 16],
}

impl CypherUser {
    /// The occupied positions in fixed ascending slot order, which is also
    /// insertion order. Free slots are skipped; summation over the result
    /// reproduces the engine's exact iteration order.
    pub fn iter_positions(&self) -> (r: Vec<UserPosition>)
        ensures
            r@ == spec_occupied_prefix(self.positions@, 16),
    {
        let mut r: Vec<UserPosition> = Vec::new();
        let mut i: usize = 0;
        while i < 16
            invariant
                i <= 16,
                r@ == spec_occupied_prefix(self.positions@, i as int),
            decreases 16 - i,
        {
            if self.positions[i].market_idx < (MARKETS_MAX_CNT as u8) {
                r.push(self.positions[i]);
            }
            proof {
                if self.positions@[i as int].is_occupied() {
                    assert(spec_occupied_prefix(self.positions@, i as int + 1)
                        =~= spec_occupied_prefix(self.positions@, i as int)
                        + seq![self.positions@[i as int]]);
                } else {
                    assert(spec_occupied_prefix(self.positions@, i as int + 1)
                        =~= spec_occupied_prefix(self.positions@, i as int));
                }
            }
            i = i + 1;
        }
        r
    }

    /// The index of the position slot serving `token_idx`.
    fn get_position_idx(&self, token_idx: usize) -> (r: Option<usize>)
        ensures
            match spec_position_idx(*self, token_idx as int) {
                Some(i) => r matches Some(k) && k as int == i && k < 16,
                None => r is None,
            },
    {
        if token_idx == QUOTE_TOKEN_IDX {
            Some(QUOTE_TOKEN_IDX)
        } else {
            let mut j: usize = 0;
            while j < 16
                invariant
                    j <= 16,
                    token_idx != QUOTE_TOKEN_IDX,
                    spec_position_idx_from(self.positions@, token_idx as int, 0)
                        == spec_position_idx_from(self.positions@, token_idx as int, j as int),
                decreases 16 - j,
            {
                if (self.positions[j].market_idx as usize) == token_idx {
                    proof {
                        assert(spec_position_idx_from(self.positions@, token_idx as int, j as int)
                            == Some(j as int));
                    }
                    return Some(j);
                }
                proof {
                    assert(spec_position_idx_from(self.positions@, token_idx as int, j as int)
                        == spec_position_idx_from(self.positions@, token_idx as int, j as int + 1));
                }
                j = j + 1;
            }
            None
        }
    }

    /// The user's position for the given token index, or absent if no slot
    /// serves it.
    pub fn get_position(&self, token_idx: usize) -> (r: Option<&UserPosition>)
        ensures
            match spec_position_idx(*self, token_idx as int) {
                Some(i) => r matches Some(p) && *p == self.positions@[i],
                None => r is None,
            },
    {
        let idx = self.get_position_idx(token_idx);
        match idx {
            Some(i) => Some(&self.positions[i]),
            None => None,
        }
    }
}

} // verus!
