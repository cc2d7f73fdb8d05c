//! A small generic record store: an identity allocator, a user record with a
//! fluent builder, a repository capability with an in-memory backend, and a
//! work-status type with its classification and rendering.

pub mod allocator;
pub mod decimal;
pub mod repository;
pub mod samples;
pub mod status;
pub mod user;

pub use allocator::IdentityAllocator;
pub use repository::{InMemoryRepository, Repository};
pub use samples::{compare_and_display, process_numbers};
pub use status::{process_status, Status};
pub use user::User;
