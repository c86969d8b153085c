//! Proxy configuration logic: validating a `host:port` proxy, computing the
//! lines that configuration files gain or lose, and reading the outputs of
//! system tools.
#![allow(non_snake_case)]

pub mod text;
pub mod lines;
pub mod proxy;
pub mod config;
pub mod cli;
pub mod home;
pub mod system;
