//! Moving files between a browser and a workspace on disk.
pub mod archive;
pub mod archive_laws;
pub mod archive_trace;
pub mod chain;
pub mod confine;
pub mod download;
pub mod download_laws;
pub mod download_trace;
pub mod headers;
pub mod limits;
pub mod path;
pub mod path_laws;
pub mod upload;
pub mod upload_laws;
pub mod upload_path;
pub mod upload_path_laws;
pub mod upload_step;
pub mod upload_trace;
