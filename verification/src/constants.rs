use vstd::prelude::*;

verus! {

/// Greatest number of market slots a group can hold.
pub const MARKETS_MAX_CNT: usize = 15;

/// Greatest number of token slots a group can hold: one per market plus the
/// quote token.
pub const TOKENS_MAX_CNT: usize = MARKETS_MAX_CNT + 1;

/// Index of the quote (numeraire) token: always the last token slot.
pub const QUOTE_TOKEN_IDX: usize = TOKENS_MAX_CNT - 1;

} // verus!
