//! Records stored as text documents: a front-matter block framed by
//! delimiter lines, followed by a free-form body.

pub mod codec;
pub mod records;
pub mod store;
pub mod pipeline;
