pub mod text;
pub mod jobs;
pub mod attach;
pub mod paths;
pub mod layout;
pub mod admin;
pub mod server;
pub mod cargo;
pub mod flow;
pub mod client;
pub mod console;
pub mod repo;
pub mod options;
pub mod ring;
pub mod auth;
