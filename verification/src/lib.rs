pub mod address;
pub mod auth;
pub mod cache;
pub mod client;
pub mod commands;
pub mod config;
pub mod direct_upload;
pub mod format;
pub mod json;
pub mod leftovers;
pub mod markdown;
pub mod order;
pub mod outside;
pub mod provider;
pub mod response;
pub mod schema;
pub mod secure_write;
pub mod sign_in;
pub mod skills;
pub mod sso;
pub mod status;
pub mod text;
pub mod token_store;
pub mod upload;
pub mod web_login;
