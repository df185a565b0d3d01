use vstd::prelude::*;

verus! {

/// A picture of a spool: the stored file name and its place among the
/// spool's pictures.
#[derive(Debug)]
pub struct SpoolImage {
    pub id: i64,
    pub spool_id: i64,
    pub path: String,
    pub sort_order: i64,
}

} // verus!
