//! A local secret vault: one credential, kept either in the operating
//! system's credential store or in an encrypted record whose bytes the
//! caller persists. Beside it, the plain values of the conversation store
//! and of the chat service that the application built on the vault handles.

pub mod cipher;
pub mod crypto_manager;
pub mod database;
pub mod error;
pub mod file_vault;
pub mod hex;
pub mod llm;
pub mod record;
