//! Local-first terminal workspace: domain rules, application services and
//! adapters' decision logic, with their contracts proved by Verus.

pub mod appearance;
pub mod appearance_editor;
pub mod application;
pub mod commands;
pub mod desktop;
pub mod diagnostics;
pub mod domain;
pub mod host_save;
pub mod ids;
pub mod local_session;
pub mod platform;
pub mod portability;
pub mod repositories;
pub mod ssh;
pub mod ssh_session;
pub mod ssh_trust;
pub mod storage;
pub mod terminal;
pub mod text;
pub mod vault;
pub mod window_opacity;
