//! The three stores: the dataset catalog, the position log and the
//! latest-value cache.

pub mod cache_repo;
pub mod iss_repo;
pub mod osdr_repo;
