pub mod text;
pub mod errors;
pub mod domain;
pub mod ledger;
pub mod ledger_laws;
pub mod clock;
pub mod account;
pub mod appearance;
pub mod requests;
pub mod normalization;
pub mod automation;
pub mod validation;
pub mod secrets;
pub mod json;
pub mod events;
pub mod oauth;
pub mod mailboxes;
pub mod logos;
pub mod compose;
pub mod detail;
pub mod gateway;
pub mod read_calls;
pub mod link_wire;
pub mod views;
pub mod account_ids;
pub mod links;
pub mod system_secrets;
pub mod runtime_config;
pub mod mutation_args;
pub mod runtime_handle;
pub mod link_laws;
pub mod ordering;
pub mod keyed;
pub mod view_registry;
pub mod mutations;
pub mod mail_list;
pub mod link_table;
pub mod event_tap;
pub mod fact_log;
pub mod summary_cache;
pub mod sessions;
