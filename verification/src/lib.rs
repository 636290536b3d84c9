pub mod args;
pub mod cli_proxy_api_manager;
pub mod cli_proxy_api_proxy;
pub mod codec;
pub mod config;
pub mod handlers;
pub mod headers;
pub mod json;
pub mod laws;
pub mod models;
pub mod number;
pub mod oauth;
pub mod proxy;
pub mod router;
pub mod seqs;
pub mod state;
pub mod text;
pub mod transform;
