pub mod auth;
pub mod bridge;
pub mod context;
pub mod conversation;
pub mod stream;
pub mod tools;
