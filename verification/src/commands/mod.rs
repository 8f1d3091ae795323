pub mod games;
pub mod install;
pub mod link_hltas;
pub mod project;
pub mod run_game;
pub mod supervise;
pub mod sync;
pub mod sync_saves;
