//! A FIX engine: messages, their fields and groups, the data dictionaries
//! that describe them, the parser that cuts them from a stream, and the
//! settings, schedules and decisions of the sessions that exchange them.
pub mod data_dictionary;
pub mod field_map;
pub mod fields;
pub mod log;
pub mod logging;
pub mod message;
pub mod message_factory;
pub mod message_store;
pub mod parser;
pub mod session;
pub mod tags;
pub mod text;
pub mod wire;
