//! Parsing annotation text into values (the `compris` crate's parser).
use vstd::prelude::*;

use ::compris::annotate::WithoutAnnotations;
use ::compris::normal::Variant;

use crate::format::Format;
use crate::value::{Value, ValueView};

verus! {

/// A value as `compris` holds it.
#[verifier::external_type_specification]
#[verifier::external_body]
#[verifier::reject_recursive_types(AnnotatedT)]
pub struct ExVariant<AnnotatedT>(::compris::normal::Variant<AnnotatedT>);

/// The `compris` marker of values that carry no annotations.
#[verifier::external_type_specification]
#[verifier::external_body]
pub struct ExWithoutAnnotations(::compris::annotate::WithoutAnnotations);

/// The value that `compris::parse::Parser::parse_string` reads from text in a format; `None`
/// when the text does not parse.
pub uninterp spec fn parsed_annotation_value(format: Format, text: Seq<char>) -> Option<ValueView>;

/// A `compris` value as the library's value, one for one (floats by their bits; an undefined
/// value as null).
#[verifier::external_body]
fn value_of_variant(variant: &Variant<WithoutAnnotations>) -> Value {
    match variant {
        Variant::Integer(i) => Value::Integer(i.inner),
        Variant::UnsignedInteger(u) => Value::UnsignedInteger(u.inner),
        Variant::Float(f) => Value::Float(f.inner.0.to_bits()),
        Variant::Boolean(b) => Value::Boolean(b.inner),
        Variant::Text(t) => Value::Text(t.as_str().to_string()),
        Variant::Blob(b) => Value::Blob(b.inner.to_vec()),
        Variant::List(l) => Value::List(l.inner.iter().map(value_of_variant).collect()),
        Variant::Map(m) => Value::Mapping(m.inner.iter().map(|(k, v)| (value_of_variant(k), value_of_variant(v))).collect()),
        _ => Value::Null,
    }
}

/// `compris::parse::Parser::new(format).parse_string(text)`: the value the text holds in the
/// format, `None` when it does not parse.
#[verifier::external_body]
pub fn parse_annotation_value(format: Format, text: &str) -> (value: Option<Value>)
    ensures
        value is Some <==> parsed_annotation_value(format, text@) is Some,
        value matches Some(v) ==> parsed_annotation_value(format, text@) == Some(crate::value::value_view(v)),
{
    let format = match format {
        Format::CBOR => ::compris::Format::CBOR,
        Format::MessagePack => ::compris::Format::MessagePack,
        Format::YAML => ::compris::Format::YAML,
        Format::JSON => ::compris::Format::JSON,
        Format::XJSON => ::compris::Format::XJSON,
        Format::XML => ::compris::Format::XML,
    };
    let parsed = ::compris::parse::Parser::new(format).parse_string::<WithoutAnnotations>(text);
    parsed.ok().map(|variant| value_of_variant(&variant))
}

} // verus!
