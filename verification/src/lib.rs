//! Verified core of a writing-hint assistant: it turns a language model's
//! reply into writing hints, keeps the catalogue of models, and decides what
//! each request is answered.
pub mod text;
pub mod suggestion;
pub mod fallback;
pub mod models;
pub mod analysis;
pub mod session;
pub mod laws;
