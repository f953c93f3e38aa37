//! A user-management core built on a ports-and-adapters design: validated
//! value objects (`Name`, `EmailAddress`), a `User` entity, a storage-agnostic
//! repository port, an in-memory implementation of that port with a
//! filter/sort/paginate query engine, and a domain service that mediates
//! between validated requests and the port.

pub mod dtos;
pub mod model;
pub mod repository;
pub mod service;
pub mod store;
pub mod text;
