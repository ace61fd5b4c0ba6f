pub mod bytes;
pub mod errors;
pub mod literals;
pub mod urlparse;
pub mod headers;
pub mod options;
pub mod body;
pub mod signing;
pub mod request;
