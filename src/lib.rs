pub mod cli;
pub mod distro;
pub mod doctor;
pub mod error;
pub mod pixi;
pub mod shell;
pub mod symlink;
pub mod text;
