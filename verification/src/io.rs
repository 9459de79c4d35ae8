//! The rules of transport reads and writes. The operations themselves are
//! submitted and awaited outside.

pub mod deadline;
pub mod laws;
pub mod managed;
pub mod recv;
pub mod send;
