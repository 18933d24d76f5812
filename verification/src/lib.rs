pub mod adaptation;
pub mod adapters;
pub mod alignment;
pub mod artifacts;
pub mod audit;
pub mod benchmark;
pub mod broker;
pub mod canon;
pub mod checker;
pub mod claims;
pub mod collections;
pub mod contract;
pub mod custody;
pub mod digest;
pub mod error;
pub mod evidence;
pub mod execution_gate;
pub mod faults;
pub mod journal;
pub mod governance;
pub mod hex;
pub mod integration;
pub mod json;
pub mod kernel;
pub mod maintenance;
pub mod maintenance_process;
pub mod maintenance_replication;
pub mod market;
pub mod memory;
pub mod order;
pub mod property;
pub mod receipts;
pub mod records;
pub mod routing;
pub mod runtime;
pub mod schema;
pub mod specialist;
pub mod text;

pub use digest::digest_bytes;
pub use error::Error;
pub use evidence::{run_local_workflow, Evidence, EvidenceRegistry};
pub use journal::{JournalEntry, ReplayJournal};
pub use kernel::{Decision, DecisionKind, Kernel, KernelSnapshot};
pub use records::{Action, Capability, Claim, Policy, Proposal, CLAIM_CEILING, STATE_SLICE};
pub use runtime::{Runtime, RuntimeSnapshot};
