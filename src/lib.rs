//! Point-in-polygon classification by winding number, over fixed-point
//! coordinates with tolerant comparison.
pub mod foundation;
pub mod linear_algebra;
pub mod shape_factory;
