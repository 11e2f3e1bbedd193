pub mod capsule;
pub mod credential;
pub mod hexfmt;
pub mod storage;
