//! Nizaam Core: the communication-focused Control Plane, the Error System
//! and the internal Event vocabulary, with their behaviour stated as
//! contracts and proved.

pub mod text;
pub mod identity;
pub mod status;
pub mod contracts;
pub mod text_map;
pub mod keyed_table;
pub mod runtime;
pub mod health;
pub mod operation;
pub mod retry;
pub mod capability;
pub mod observability;
pub mod artifact;
pub mod provenance;
pub mod error;
pub mod control_plane;
pub mod seq_facts;
pub mod security;
pub mod events;
