pub mod config;
pub mod db;
pub mod dtchat;
pub mod endpoint;
pub mod event;
pub mod message;
pub mod prediction;
pub mod proto_message;
pub mod text;
pub mod time;
