//! Risk rules that score a running process.
pub mod behavior;
pub mod command_line;
pub mod dll_check;
pub mod flow;
pub mod hash_cache;
pub mod lineage;
pub mod parent_chain;
pub mod path_check;
pub mod path_rules;
pub mod privilege;
pub mod restricted_spawn;
pub mod signature;
pub mod trusted_signers;
pub mod score;
pub mod self_mitigation;
