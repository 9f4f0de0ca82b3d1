//! Verified domain logic for AgentOS: entities, enterprise permissions,
//! identity, notifications, mail, knowledge, and model adapters.

pub mod text;
mod clock;
pub mod json;
pub mod entity;
pub mod permission;
pub mod token_budget;
pub mod model;
pub mod structured;
pub mod adapter;
pub mod anthropic;
pub mod anthropic_messages;
pub mod openai;
pub mod org_permission;
pub mod server_permission;
pub mod identity;
pub mod notification;
pub mod mail;
pub mod knowledge;
pub mod governance;
pub mod ledger;
pub mod repository;
pub mod knowledge_action;
pub mod fulltext;
pub mod markdown_repo;
pub mod markdown_entry;
pub mod records;
