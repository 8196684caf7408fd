pub mod dispatch;
pub mod format;
pub mod request;
