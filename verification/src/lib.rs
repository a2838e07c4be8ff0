//! Instant-finality consensus by stake-weighted voting, and the peer connection
//! rules of the nodes that run it.

pub mod ballots;
pub mod chance;
pub mod clock;
pub mod connections;
pub mod crypto;
pub mod dialer;
pub mod engine;
pub mod fallback;
pub mod fees;
pub mod identity;
pub mod ip;
pub mod keys;
pub mod messages;
pub mod names;
pub mod partition;
pub mod payments;
pub mod peer;
pub mod ping;
pub mod processing;
pub mod proofs;
pub mod rounds;
pub mod scan;
pub mod select;
pub mod status;
pub mod sums;
pub mod table;
pub mod text;
pub mod thresholds;
pub mod timevote;
pub mod types;
pub mod upkeep;
pub mod validation;
pub mod voting;
