pub mod text;
pub mod keys;
pub mod snapshot;
pub mod engine;
pub mod cdp;
pub mod browser;
pub mod sessions;
pub mod discovery;
pub mod delivery;
pub mod digest;
pub mod zellij;
pub mod zellij_panes;
pub mod mailbox;
pub mod runtime_profile;
pub mod telemetry;
pub mod onboarding;
pub mod session_close;
pub mod topology_audit;
pub mod file_resources;
pub mod network;
pub mod inbox;
pub mod queue;
pub mod page;
pub mod interactions;
pub mod time;
pub mod zellij_engine;
pub mod registry;
pub mod roster;
pub mod walker;
