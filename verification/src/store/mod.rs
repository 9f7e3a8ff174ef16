//! The store of a scanner: inventory, caches, runs and their audit.
pub mod artifact;
pub mod cache;
pub mod finalize;
pub mod fingerprint;
pub mod inventory;
pub mod lookup;
pub mod maintenance;
pub mod placement;
pub mod relations;
pub mod replay;
pub mod request;
pub mod retention;
pub mod run;
pub mod schema;
pub mod upgrade;
pub mod upkeep;
