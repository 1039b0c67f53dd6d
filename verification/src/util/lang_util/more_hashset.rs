//! Set comparison for the standard `HashSet`.
//!
//! The comparison itself lives with the other collection helpers; this
//! module offers it under its older path.

pub use crate::collections::more_hashset::DiffItem;
pub use crate::collections::more_hashset::MoreHashSet;
