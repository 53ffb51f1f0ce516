//! Orchestration of interchangeable model providers: provider scoring,
//! adaptive model selection, negotiation between responses, dispatch
//! bookkeeping and deployment planning.

pub mod agent;
pub mod deploy;
pub mod fixed;
pub mod providers;
pub mod ranking;
pub mod strmap;
pub mod text;
