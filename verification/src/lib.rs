pub mod text;
pub mod numbers;
pub mod domain;
pub mod local;
pub mod detail;
pub mod paths;
pub mod terminal;
pub mod secrets;
pub mod task;
pub mod temporary;
pub mod json;
pub mod civil;
pub mod mock;
