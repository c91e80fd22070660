//! An identifier-addressed tree of owned nodes that can be searched by
//! identifier and spliced relative to a located node, and the report
//! nodes that a renderer walks.

pub mod node;
pub mod page;
pub mod report;
