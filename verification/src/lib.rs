pub mod admin;
pub mod body;
pub mod capture;
pub mod cli;
pub mod clock;
pub mod config;
pub mod digest;
pub mod error;
pub mod event;
pub mod fields;
pub mod form;
pub mod headers;
pub mod json;
pub mod migration;
pub mod number;
pub mod probe;
pub mod proxy;
pub mod runtime_manager;
pub mod schema;
pub mod text;
pub mod tls;
pub mod transform;
pub mod writer;
