use vstd::prelude::*;

verus! {

/// Page metadata of a connection. The numeric fields are filled only by the
/// modes that compute them.
#[derive(Clone, Copy, Debug, PartialEq, Eq, Structural)]
pub struct ConnectionMeta {
    pub has_previous_page: bool,
    pub has_next_page: bool,
    pub pages: Option<u64>,
    pub current_page: Option<u64>,
    pub offset: Option<u64>,
    pub limit: Option<u64>,
    pub total_count: Option<u64>,
}

/// A page of records, in the order the store delivered them, with its metadata.
pub struct Connection<R> {
    pub edges: Vec<R>,
    pub page_info: ConnectionMeta,
}

impl ConnectionMeta {
    /// Metadata with both flags false and no numeric field.
    pub open spec fn empty_spec() -> ConnectionMeta {
        ConnectionMeta {
            has_previous_page: false,
            has_next_page: false,
            pages: None,
            current_page: None,
            offset: None,
            limit: None,
            total_count: None,
        }
    }

    pub fn empty() -> (r: ConnectionMeta)
        ensures
            r == ConnectionMeta::empty_spec(),
    {
        ConnectionMeta {
            has_previous_page: false,
            has_next_page: false,
            pages: None,
            current_page: None,
            offset: None,
            limit: None,
            total_count: None,
        }
    }

    /// Sets the two flags.
    pub fn connection_info(self, has_previous_page: bool, has_next_page: bool) -> (r:
        ConnectionMeta)
        ensures
            r == (ConnectionMeta { has_previous_page, has_next_page, ..self }),
    {
        ConnectionMeta { has_previous_page, has_next_page, ..self }
    }

    /// Sets the page count and the current page.
    pub fn page_info(self, pages: u64, current_page: u64) -> (r: ConnectionMeta)
        ensures
            r == (ConnectionMeta { pages: Some(pages), current_page: Some(current_page), ..self }),
    {
        ConnectionMeta { pages: Some(pages), current_page: Some(current_page), ..self }
    }

    /// Sets the offset, the page size and the total count.
    pub fn offset_info(self, offset: u64, limit: u64, total_count: u64) -> (r: ConnectionMeta)
        ensures
            r == (ConnectionMeta {
                offset: Some(offset),
                limit: Some(limit),
                total_count: Some(total_count),
                ..self
            }),
    {
        ConnectionMeta {
            offset: Some(offset),
            limit: Some(limit),
            total_count: Some(total_count),
            ..self
        }
    }
}

} // verus!
