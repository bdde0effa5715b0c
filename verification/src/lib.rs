//! A bridge that feeds structured input into a Codex app server: the queueing
//! rules, the input parsers and the protocol state machines around them.

pub mod adapter;
pub mod adapter_laws;
pub mod bridge;
pub mod bridge_input;
pub mod bridge_laws;
pub mod bridge_options;
pub mod channel_laws;
pub mod chunking;
pub mod connection_laws;
pub mod controller;
pub mod controller_laws;
pub mod controller_model;
pub mod idle_timing;
pub mod input_laws;
pub mod items;
pub mod message;
pub mod message_laws;
pub mod protocol;
pub mod queue_mode;
pub mod release_laws;
pub mod session_laws;
pub mod side_channel;
pub mod sideband;
pub mod stdio;
pub mod stdio_handshake;
pub mod stdio_worker;
pub mod structured_input;
pub mod text;
pub mod text_laws;
pub mod thread_map;
pub mod timing_laws;
pub mod turn_client;
pub mod view_laws;
pub mod xml;
pub mod xml_reader;
