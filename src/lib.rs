//! A read-only names service: one SQLite connection, seeded at startup and
//! shared behind an exclusive lock, and the reply to a request that lists it.

pub mod endpoint;
pub mod records;
pub mod sqlite;
pub mod store;

pub use endpoint::{names_reply, Reply};
pub use records::{Name, ServiceError};
pub use sqlite::Store;
pub use store::{get_conn, get_names, prepare_data, seed_list, Shared};
