pub mod api;
pub mod request;
pub mod state;
