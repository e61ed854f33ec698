//! Verified core of a Bluetooth intrusion detection sensor: btmon line
//! parsing, event classification, signature based detection, SOC incident
//! handling and the decision logic of containment.

pub mod dashboard;
pub mod detector;
pub mod event_queue;
pub mod events;
pub mod matching;
pub mod ml;
pub mod models;
pub mod numtext;
pub mod packet_builder;
pub mod parser;
pub mod pattern;
pub mod patterns;
pub mod prevention;
pub mod sender;
pub mod signatures;
pub mod simulator;
pub mod soc;
pub mod statistics;
pub mod text;
pub mod textmap;
pub mod time;
