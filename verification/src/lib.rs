//! Passive network packet observer: a layered frame decoder, a protocol
//! classifier, an alert heuristic, the capture-pipeline step logic, and an
//! append-only inspection store with its re-decoding inspector.

pub mod models;
pub mod alerts;
pub mod text;
pub mod parser;
pub mod classifier;
pub mod port_classifier;
pub mod storage;
pub mod capture;
pub mod inspect;
