//! Certificate trust-chain verification: verification parameters, a
//! certificate store with its lookup strategies, the chain-building and
//! validation algorithm, and the verification of CMS signatures on top of it.

pub mod error;
pub mod verify;
pub mod x509;
pub mod store;
pub mod context;
pub mod lemmas;
pub mod cms;
