//! Filter and pagination vocabulary for querying stored messages.

use vstd::prelude::*;

verus! {

/// One page of results together with its position and the overall total.
#[derive(Debug)]
pub struct Paged<T> {
    pub data: Vec<T>,
    pub page: Page,
    pub total: usize,
}

/// A page selected by index and size.
#[derive(Debug, Clone, Copy)]
pub struct Page {
    pub index: usize,
    pub size: usize,
}

/// A cursor: results strictly after the given key.
#[derive(Debug, Clone)]
pub struct After {
    pub key: String,
}

/// How a query selects its slice of the stored data.
#[derive(Debug, Clone)]
pub enum QueryPolicy {
    After(After),
    Page(Page),
}

/// The result of a query: the selected data and how many records remain
/// beyond it.
#[derive(Debug)]
pub struct Queried<T> {
    pub data: Vec<T>,
    pub remain: usize,
}

} // verus!
