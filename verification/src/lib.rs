//! A control-plane library for runtime-registered resource types: coordinates,
//! schema-agnostic storage, schema resolution, discovery documents and the
//! watch broker, each with a machine-checked contract.

pub mod discovery;
pub mod helper;
pub mod loading;
pub mod models;
pub mod resource;
pub mod resource_api;
pub mod schema;
pub mod storage;
pub mod storage_memory;
pub mod text;
pub mod watch;
