//! Probability engine for a collectible-card game: given a catalog of cards
//! grouped into expansions and packs, per-rarity offering-rate tables for the
//! rare draw slots, and the set of card numbers a player owns, it ranks packs
//! by the probability that opening one yields at least one new card.
//!
//! All probabilities are exact integers in parts per million (ppm), so the
//! whole computation is integer arithmetic with precisely stated rounding.

pub mod calculator;
pub mod card;
pub mod collection;
pub mod errors;
pub mod expansion;
pub mod offering_rates;
pub mod packs;
pub mod ranking;
pub mod rarity;
pub mod text;

pub use errors::EngineError;
pub use offering_rates::OfferingRates;
pub use offering_rates::RATE_SCALE;
pub use rarity::Rarity;
