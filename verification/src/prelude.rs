//! What most users need, to be imported together.

pub use crate::adapters::HandlerExt;
pub use crate::app::OpenapiApp;
pub use crate::schema::DescribeSchema;
