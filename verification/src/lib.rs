//! Hardware telemetry parsing and CPU governor policy for handheld Linux
//! systems, with every rule stated as a contract and proved.

pub mod cli;
pub mod cpu;
pub mod games;
pub mod governor;
pub mod logs;
pub mod modes;
pub mod panel;
pub mod permissions;
pub mod sensors;
pub mod seqs;
pub mod snapshot;
pub mod text;
pub mod vendor;
