pub mod client;
pub mod decimal;
pub mod histogram;
pub mod pacing;
pub mod tester;
