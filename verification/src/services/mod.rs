//! The source fetchers and the job scheduler.

pub mod iss_service;
pub mod job_service;
pub mod osdr_service;
pub mod space_service;
