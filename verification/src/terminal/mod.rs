pub mod ssh;
pub mod engine;
pub mod input;
pub mod paint;
pub mod launch;
