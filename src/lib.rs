pub mod api_response;
pub mod error;
pub mod jwt;
pub mod model;
pub mod pool;
pub mod queue;
