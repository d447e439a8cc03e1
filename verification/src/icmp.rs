//! Internet Control Message Protocol views.

pub mod icmpv4;
