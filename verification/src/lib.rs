pub mod cost;
pub mod ids;
pub mod evidence;
pub mod digest;
pub mod slot;
pub mod slot_model;
pub mod slot_ops;
pub mod slot_laws;
pub mod turn_table;
pub mod settlement;
pub mod headroom;
pub mod projection;
pub mod settlement_laws;
pub mod standing_laws;
pub mod account_laws;
pub mod registry_laws;
pub mod retry_laws;
pub mod projection_laws;
pub mod drain_laws;
pub mod handshake;
pub mod turn;
pub mod turn_laws;
pub mod billing_laws;
pub mod outcome_laws;
pub mod signal_laws;
pub mod pipeline_laws;
pub mod stage_laws;
pub mod text;
pub mod encoding;
pub mod receipts;
pub mod receipt_cache;
pub mod session;
pub mod reconcile;
pub mod reconcile_laws;
pub mod journal;
pub mod recovery;
pub mod mirror;
pub mod emitter;
pub mod mirror_laws;
pub mod errors;
pub mod classify;
pub mod chat;
pub mod recall;
pub mod authz;
pub mod approval;
pub mod memory_write;
pub mod minting;
pub mod commit;
pub mod refusal;
pub mod dispatch;
pub mod control;
pub mod operation;
pub mod course_laws;
pub mod streaming;
pub mod facts;
pub mod builder;
pub mod runtime;
