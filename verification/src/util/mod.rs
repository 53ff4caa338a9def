pub mod mime;
