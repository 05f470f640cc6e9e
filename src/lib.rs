pub mod controller;
pub mod entity;
pub mod error;
pub mod laws;
pub mod ident;
pub mod model;
pub mod repository;
