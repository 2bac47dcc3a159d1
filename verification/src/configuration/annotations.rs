//! Annotations configuration.
use vstd::prelude::*;

use crate::format::Format;
use super::constants::DEFAULT_ANNOTATIONS_DELIMITER;

verus! {

/// Annotations configuration.
#[derive(Debug, Clone)]
pub struct AnnotationsConfiguration {
    /// Start delimiter.
    pub start_delimiter: String,
    /// End delimiter.
    pub end_delimiter: String,
    /// Default format.
    pub default_format: Format,
}

impl Default for AnnotationsConfiguration {
    fn default() -> (configuration: Self)
        ensures
            configuration.start_delimiter@ == "```"@,
            configuration.end_delimiter@ == "```"@,
            configuration.default_format == Format::YAML,
    {
        AnnotationsConfiguration {
            start_delimiter: String::from_str(DEFAULT_ANNOTATIONS_DELIMITER),
            end_delimiter: String::from_str(DEFAULT_ANNOTATIONS_DELIMITER),
            default_format: Format::default(),
        }
    }
}

} // verus!
