//! Finds likely duplicate JPEG images in a directory tree by comparing a few
//! metadata attributes of each image.
pub mod detect;
pub mod record;
pub mod report;
pub mod timestamp;
pub mod walk;
