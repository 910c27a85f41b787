//! What is decided about images without touching them.

use crate::config::ImageConfig;
use crate::utils::mime_type::{lower_extension, lower_extension_of};
use crate::utils::validation::{image_extension, is_image_extension};
use vstd::prelude::*;

verus! {

/// The image settings in force.
pub struct ImageProcessor {
    config: ImageConfig,
}

impl ImageProcessor {
    /// The settings of this processor.
    pub closed spec fn config(&self) -> ImageConfig {
        self.config
    }

    /// A processor with the settings `config`.
    pub fn new(config: ImageConfig) -> (out: Self)
        ensures
            out.config() == config,
    {
        ImageProcessor { config }
    }

    /// The side of the square that a thumbnail fits into.
    pub fn thumbnail_size(&self) -> (size: u32)
        ensures
            size == self.config().thumbnail_size,
    {
        self.config.thumbnail_size
    }

    /// Whether uploads are also stored as QOI.
    pub fn qoi_enabled(&self) -> (yes: bool)
        ensures
            yes == self.config().qoi_enabled,
    {
        self.config.qoi_enabled
    }

    /// Whether `filename` has the extension of an image format.
    pub fn is_image_file(filename: &str) -> (yes: bool)
        ensures
            yes == is_image_extension(lower_extension_of(filename@)),
    {
        match lower_extension(filename) {
            Some(e) => image_extension(Some(e.as_str())),
            None => false,
        }
    }
}

} // verus!
