//! Control-plane core for a hypervisor management service: the command
//! envelopes and reply rules of the connection actor, the snapshot
//! workflows and their external commands, the snapshot-description
//! patcher, the job scheduler's bookkeeping and the console relay's
//! step function.

pub mod text;
pub mod virt;
pub mod command;
pub mod workflow;
pub mod shell;
pub mod forest;
pub mod snapshot_info;
pub mod conn;
pub mod dispatch;
pub mod actor;
pub mod scheduler;
pub mod relay;
pub mod utils;
pub mod response;
pub mod xml_model;
pub mod xml_patch;
pub mod xml_laws;
pub mod xml_codec;
