//! Pushing task results to the HarmonyOS minus-one screen: the verified core.

pub mod text;
pub mod num;
pub mod version;
pub mod order;
pub mod compat;
pub mod template;
pub mod system;
pub mod validator;
pub mod config;
pub mod payload;
pub mod cli;
