//! Backend-neutral task model and the service rules built on it.

pub mod model;
pub mod service;
