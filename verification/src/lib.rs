//! The verified core of a log pre-processing framework: it turns firewall log
//! lines into normalised events, and takes the decisions of the tools around
//! them.
//!
//! `cisco_asa` reads the messages of one product into the events of `ocsf`;
//! `endpoint`, `ip`, `number`, `direction` and `protocol` read the parts of a
//! message, and `text`, `pattern` and `fields` are what these stand on. `ingest`,
//! `lines`, `corpus`, `benchmark`, `evaluation`, `onboard`, `audit`, `inspect` and
//! `tamper` hold the decisions of the command-line tools.
//!
//! The modules whose names end in `_laws` state what all of this is for:
//! `message_laws` where each part of a message shows in its event, `verdict_laws`
//! what its words decide, `asa_laws` what holds of every event, `pattern_laws`
//! where the patterns look, `endpoint_laws` and `address_laws` how endpoints and
//! addresses are written, `inspect_laws` what is shown of a record, `text_laws`
//! and `tool_laws` what holds of strings and of the tools.
pub mod address_laws;
pub mod asa_laws;
pub mod audit;
pub mod benchmark;
pub mod cisco_asa;
mod clock;
pub mod corpus;
pub mod direction;
pub mod endpoint;
pub mod endpoint_laws;
pub mod evaluation;
pub mod fields;
pub mod ingest;
pub mod inspect;
pub mod inspect_laws;
pub mod ip;
pub mod lines;
pub mod message_laws;
pub mod number;
pub mod ocsf;
pub mod onboard;
pub mod pattern;
pub mod pattern_laws;
pub mod protocol;
pub mod tamper;
pub mod text;
pub mod text_laws;
pub mod tool_laws;
pub mod verdict_laws;
