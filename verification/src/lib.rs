//! A cache in front of a Solana RPC node.
//!
//! Requests for an account (`account_info`) and for the accounts of a program
//! (`program_accounts`) are answered from what is known (`state`), or else by the node that
//! stands behind the cache (`backend`). The functions here decide; sending and waiting is left
//! to the caller, who gets back what to send and what to wait for.
//!
//! The laws say what these functions are for: of what a client asks (`laws_asked`), of what is
//! written (`laws_written`) and kept (`laws_kept`), of what a client is answered
//! (`laws_answered`), and of several steps together (`laws`).

pub mod account_info;
pub mod accounts;
pub mod backend;
pub mod codec;
pub mod decode;
pub mod encode;
pub mod error;
pub mod filter;
pub mod json;
pub mod laws;
pub mod laws_answered;
pub mod laws_asked;
pub mod laws_kept;
pub mod laws_written;
pub mod program_accounts;
pub mod request;
pub mod response_cache;
pub mod state;
pub mod table;
pub mod types;
