//! Solvency and margin accounting core of a leveraged-trading protocol.
//!
//! The library tracks collateral, debt, and open-order exposure across a
//! fixed registry of token and market slots per account. Given a snapshot of
//! global market state (a [`accounts::CypherGroup`]) and an individual
//! account's positions (a [`accounts::CypherUser`]), it decides whether the
//! account's collateral value covers its debt, by what ratio, and whether the
//! account has crossed into an economically unrecoverable (bankrupt) state.
//!
//! All monetary quantities use the fixed-point kernel in [`number`]:
//! results are bit-identical across re-execution and overflow always aborts
//! the enclosing computation instead of wrapping.

pub mod constants;
pub mod number;
pub mod accounts;
pub mod margin;
pub mod discriminator;
