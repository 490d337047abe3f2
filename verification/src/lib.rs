//! Verified core of a multi-tier KV-cache block manager.
//!
//! The crate holds the decision logic of the block manager: the per-request slot state machine,
//! the worker-side transfer scheduler, offload planning, remote-storage configuration, and the
//! registry protocol. Every function is proved against its contract; sockets, environment
//! variables, channels and device transfers live outside the crate and exchange plain values
//! with it.

pub mod protocol;
pub mod table;
pub mod text;
pub mod slot_api;
pub mod slot_ops;
pub mod tokens;
pub mod slot_machine;
pub mod slot_laws;
pub mod outbox;
pub mod scheduler;
pub mod scheduler_client;
pub mod scheduler_laws;
pub mod remote;
pub mod config;
pub mod offload_planner;
pub mod registry_ops;
pub mod transfer_laws;
pub mod transfer_requests;
pub mod signals;
pub mod effect_context;
pub mod slot_runtime;
pub mod effect_executor;
pub mod slot_manager;
pub mod runtime_laws;
pub mod metadata;
pub mod leader_core;
pub mod leader_requests;
pub mod leader_metadata;
pub mod leader_laws;
pub mod metadata_laws;
pub mod poll_laws;
pub mod baggage;
pub mod checksum;
pub mod tier;
pub mod slot_config;
pub mod zmq_transport;
pub mod zmq_hub;
pub mod kvbm_leader;
pub mod fd_cache;
pub mod nixl_transfer;
pub mod xfer_blocks;
pub mod block_transfer;
pub mod storage_laws;
pub mod execution_laws;
pub mod wire_laws;
