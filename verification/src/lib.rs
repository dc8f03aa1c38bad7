//! Policy core of the warden DNS filter.
pub mod answer;
pub mod audit_ecs;
pub mod cache;
pub mod cidr;
pub mod client_subnet;
pub mod cycle;
pub mod dispatch;
pub mod dnssec_validator;
pub mod domain;
pub mod error;
pub mod filter;
pub mod handler;
pub mod handler_laws;
pub mod local;
pub mod local_laws;
pub mod local_profile;
pub mod lock_laws;
pub mod net;
pub mod net_laws;
pub mod outcome;
pub mod record;
pub mod response;
pub mod security;
pub mod settings;
pub mod stage;
pub mod table;
pub mod text;
pub mod text_laws;
pub mod tree_path;
pub mod validator;
pub mod validator_laws;
pub mod validator_reports;
pub mod write_lock;
pub mod writer;
