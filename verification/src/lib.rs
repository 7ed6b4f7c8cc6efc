//! A small registry mapping each owner to at most one card identifier,
//! with a validator for card ids and the decision logic of the two
//! front-end adapters (an interactive command interface and a
//! secret-gated query interface).

mod command;
mod query;
mod registry;
mod validator;

pub use command::RegisterOutcome;
pub use command::LookupOutcome;
pub use command::canonical_card_id;
pub use command::register_or_update;
pub use command::lookup_own;
pub use query::Page;
pub use query::CardList;
pub use query::AuthError;
pub use query::secret_matches;
pub use query::check_secret;
pub use query::list_cards;

pub use registry::Card;
pub use registry::CardV;
pub use registry::Registry;
pub use registry::lemma_upsert_idempotent;
pub use registry::lemma_owner_isolation;

pub use validator::is_whitespace_char;
pub use validator::is_lower_alpha;
pub use validator::upper_char;
pub use validator::is_hex_digit_char;
pub use validator::normalize_seq;
pub use validator::valid_card_seq;
pub use validator::normalize;
pub use validator::validate;
pub use validator::lemma_normalize_clean;
