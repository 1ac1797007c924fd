//! The upload of a cover picture.
use vstd::prelude::*;

verus! {

/// The site's answer to an uploaded picture.
#[derive(Debug, Clone)]
pub struct UploadImage {
    pub size: usize,
    pub url: String,
}

/// What is uploaded.
#[derive(Debug, Clone)]
pub struct UploadImageArgs {
    pub file: Vec<u8>,
    pub csrf: String,
}

} // verus!
