//! Verified core of syncmesh: synchronised mpv playback over a peer-to-peer mesh.

pub mod addrs;
pub mod binary64;
pub mod collector;
pub mod config;
pub mod conflict;
pub mod double;
pub mod drift;
pub mod echo;
pub mod event_laws;
pub mod framing;
pub mod identity;
pub mod input;
pub mod json;
pub mod link;
pub mod media;
pub mod node_id;
pub mod node_map;
pub mod player;
pub mod postcard_values;
pub mod protocol;
pub mod ready;
pub mod room;
pub mod room_laws;
pub mod rtt;
pub mod session;
pub mod session_laws;
pub mod snapshot;
pub mod startup;
pub mod state;
pub mod std_text;
pub mod step_laws;
pub mod text;
pub mod ticket;
pub mod time;
pub mod ui;
pub mod wire;
