//! A minimal blog library: posts with server-assigned ids, an ordered store,
//! pagination, and the request/response decision logic of the HTTP surface.

pub mod form;
pub mod handler;
pub mod laws;
pub mod pagination;
pub mod route;
pub mod store;

pub use handler::Action;
pub use handler::Params;
pub use handler::Request;
pub use handler::form_fields;
pub use handler::params_from_query;
pub use handler::handle;
pub use store::Post;
pub use store::Store;
