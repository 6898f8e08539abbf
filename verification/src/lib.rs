//! Verified core of a library that reads, interprets and writes the data
//! reported by cryptocurrency miners (Antminer, Auradine, ePIC, LuxOS,
//! MaraFW and others).
//!
//! Miner firmwares answer with JSON documents.  The library holds them in its
//! own JSON model ([`json::Json`]) and turns them into typed data (pool
//! groups, hardware shape, control boards, messages, mining modes) and back
//! into the request payloads the firmwares expect.
use vstd::prelude::*;

pub mod text;
pub mod json;
pub mod pools;
pub mod errors;
pub mod auth;
pub mod marathon;
pub mod marathon_miner;
pub mod numbers;
pub mod luxminer;
pub mod data;
pub mod antminer;
pub mod antminer_firmware;
pub mod auradine;
pub mod auradine_web;
pub mod auradine_boards;
pub mod chips;
pub mod avalon_chips;
pub mod epic_boards;
pub mod luxminer_boards;
pub mod elphapex_boards;
pub mod marathon_boards;
pub mod braiins_boards;
pub mod avalon;
pub mod braiins;
pub mod braiins_web;
pub mod traits;
pub mod tuning;
pub mod version;
pub mod collector;
pub mod fields;
pub mod elphapex;
pub mod epic;
pub mod epic_web;
pub mod futurebit;
pub mod mac;
pub mod futurebit_web;
pub mod web_errors;

verus! {

} // verus!
