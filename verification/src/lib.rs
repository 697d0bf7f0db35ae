//! Verified core of an Internet Computer licence shop: the hex signature
//! format, ed25519 checks of signed purchases, a DIP721 ledger of licence
//! tokens and the licence catalogue.

pub mod text;
pub mod hex;
pub mod ed25519;
pub mod verify;
pub mod hello;
pub mod principal;
pub mod date;
pub mod order;
pub mod assoc;
pub mod metadata;
pub mod ledger;
pub mod licenses;
pub mod purchase;
pub mod laws;
