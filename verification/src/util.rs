//! Assorted utility modules: buffers and language helpers.

pub mod buffer_util;
pub mod lang_util;
