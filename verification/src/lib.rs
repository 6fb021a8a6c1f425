//! Eggs desktop pet: the verified core of the desktop runtime.
pub mod text;
pub mod bubbles;
pub mod state;
pub mod pet;
pub mod remote;
pub mod upload;
pub mod remote_assets;
pub mod peers;
pub mod pet_menu;
pub mod cli_install;
pub mod ipc;
pub mod pid;
pub mod client;
pub mod cli;
