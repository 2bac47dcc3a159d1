//! Annotation formats, as the `compris` crate names them.
use vstd::prelude::*;

use crate::text::lower;

verus! {

/// Annotation format.
#[derive(Debug, Clone, Copy, PartialEq, Eq, Structural)]
pub enum Format {
    /// CBOR.
    CBOR,
    /// MessagePack.
    MessagePack,
    /// YAML.
    YAML,
    /// JSON.
    JSON,
    /// XJSON.
    XJSON,
    /// XML.
    XML,
}

impl Default for Format {
    fn default() -> (format: Self)
        ensures
            format == Format::YAML,
    {
        Format::YAML
    }
}

/// The format that a representation names, compared without case.
pub open spec fn spec_format_from_str(representation: Seq<char>) -> Option<Format> {
    let lowered = lower(representation);
    if lowered == "cbor"@ {
        Some(Format::CBOR)
    } else if lowered == "messagepack"@ {
        Some(Format::MessagePack)
    } else if lowered == "yaml"@ {
        Some(Format::YAML)
    } else if lowered == "json"@ {
        Some(Format::JSON)
    } else if lowered == "xjson"@ {
        Some(Format::XJSON)
    } else if lowered == "xml"@ {
        Some(Format::XML)
    } else {
        None
    }
}

/// `compris::Format::from_str`: the variant whose lowercase name equals the lowercase
/// (`str::to_lowercase`) of the representation.
#[verifier::external_body]
pub(crate) fn format_from_str(representation: &str) -> (format: Option<Format>)
    ensures
        format == spec_format_from_str(representation@),
{
    match representation.parse::<compris::Format>() {
        Ok(compris::Format::CBOR) => Some(Format::CBOR),
        Ok(compris::Format::MessagePack) => Some(Format::MessagePack),
        Ok(compris::Format::YAML) => Some(Format::YAML),
        Ok(compris::Format::JSON) => Some(Format::JSON),
        Ok(compris::Format::XJSON) => Some(Format::XJSON),
        Ok(compris::Format::XML) => Some(Format::XML),
        Err(_) => None,
    }
}

} // verus!
