//! An in-memory user store with a verified core: request validation, a
//! repository enforcing identifier and email uniqueness, and a service layer
//! that normalizes input, paginates, and maps records to response shapes.
//! The HTTP boundary around it is ordinary, unverified plumbing; every
//! operation here is synchronous and stated over the sequential semantics
//! that a caller holding a lock for the whole call observes.

pub mod config;
pub mod entities;
pub mod errors;
pub mod ids;
pub mod repository;
pub mod requests;
pub mod responses;
pub mod service;
pub mod text;
