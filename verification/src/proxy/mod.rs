pub mod ctx;
pub mod router;
pub mod service;
pub mod upstream;
