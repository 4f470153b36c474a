pub mod cli;
pub mod commands;
pub mod config;
pub mod display;
pub mod error;
pub mod ovmf;
pub mod paths;
pub mod poll;
pub mod port;
pub mod process;
pub mod qemu;
pub mod signal;
pub mod text;
pub mod tpm;
pub mod vm;
