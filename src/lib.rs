//! Release orchestration for containerised applications deployed over a
//! remote shell: release naming, the per-host deploy pipeline, the cutover
//! lock, health checking, rollback and retention.

pub mod accessory;
pub mod commands;
pub mod compose;
pub mod config;
pub mod context;
pub mod health;
pub mod local;
pub mod lock;
pub mod monitor;
pub mod nixos;
pub mod os;
pub mod pipeline;
pub mod release;
pub mod retention;
pub mod rollback;
pub mod secrets;
pub mod text;
pub mod wireguard;
