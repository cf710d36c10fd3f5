//! Process security heuristics and UI state logic for a process monitor.
pub mod assoc;
pub mod text;
pub mod process;
pub mod pattern;
pub mod security;
pub mod search;
pub mod ui_state;
pub mod theme;
pub mod schannel;
pub mod palette;
pub mod smart;
pub mod smartctl;
pub mod throttle;
pub mod tree;
pub mod display;
pub mod help;
pub mod pty;
pub mod order;
