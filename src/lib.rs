//! A pagination engine that turns an ordered collection of records into a
//! connection: the page of records plus page metadata, under page-number,
//! offset or cursor pagination.
pub mod cursor;
pub mod error;
pub mod key;
pub mod laws;
pub mod meta;
pub mod paging;
pub mod store;

pub use cursor::{decode, encode};
pub use error::PaginationError;
pub use key::KeyTuple;
pub use meta::{Connection, ConnectionMeta};
pub use store::{resolve, MemoryStore};
pub use paging::{
    ceil_div, cursor_connection, cursor_start, offset_connection, offset_page_index, page_connection, page_fetch_index,
    unpaged_connection, PaginationSpec,
};
