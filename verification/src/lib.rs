//! The logic of a small bitcoin and lightning faucet: which request is
//! answered how, who may be paid, and who paid the fastest.

pub mod clock;
pub mod faucet;
pub mod hex;
pub mod laws;
pub mod leaderboard;
pub mod pages;
pub mod parse;
pub mod passphrase;
pub mod peer;
pub mod requests;
pub mod text;
pub mod user;
pub mod users;

pub use faucet::FaucetSvc;
pub use hex::{bytes_to_hex, hex_to_vec};
pub use peer::convert_peer_info;
pub use user::UserState;
