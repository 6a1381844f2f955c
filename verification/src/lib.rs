//! IPA package tooling: Mach-O encryption checks, `.sinf` injection planning,
//! IPA inspection and metadata, OTA manifests and the naming / decision rules of
//! the download service.
pub mod macho;
pub mod text;
pub mod injection;
pub mod error;
pub mod archive;
pub mod property_list;
pub mod bundle;
pub mod inspection;
pub mod json;
pub mod signing;
pub mod metadata;
pub mod ota;
pub mod records;
pub mod models;
pub mod naming;
pub mod jobs;
pub mod apple;
pub mod delivery;
pub mod api;
pub mod passwords;
pub mod versions;
pub mod links;
pub mod download_flow;
pub mod download_jobs;
pub mod accounts;
pub mod purchases;
pub mod store_requests;
pub mod auth_flow;
pub mod install_tokens;
pub mod delisted;
pub mod contribution;
pub mod versions_order;
pub mod batch;
pub mod admin_cli;
pub mod artifacts;
pub mod search;
pub mod claims;
