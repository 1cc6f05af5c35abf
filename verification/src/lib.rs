//! Verified core of the Kumo package manager.
pub mod text;
pub mod pkgid;
pub mod typo;
pub mod range;
pub mod versions;
pub mod resolve;
pub mod digest;
pub mod store;
pub mod credentials;
pub mod tarball;
pub mod policy;
pub mod engine;
pub mod lockcheck;
pub mod script;
pub mod sandbox;
pub mod proxy;
pub mod install;
pub mod runtime;
pub mod commands;
pub mod upgrade;
pub mod ci;
pub mod kx;
pub mod publish;
pub mod scripts;
pub mod reports;
pub mod setup;
pub mod laws;
