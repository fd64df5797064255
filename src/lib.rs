//! Monte Carlo estimation of five-card poker hand frequencies.
//!
//! Cards carry one-hot rank and suit bits, so a hand's shape follows from unions
//! and bit counts. Many random deals are classified in parallel and their
//! categories gathered in one histogram.
pub mod bits;
pub mod card;
pub mod tally;
pub mod classify;
pub mod simulate;

pub use card::{Card, Deck, Value, ACE};
pub use classify::get_hand_value;
pub use simulate::{simulate_hands, HANDS_PER_SHUFFLE};
