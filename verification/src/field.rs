//! Field-level descriptor data: labels, scalar types, the field type
//! itself and the per-language options that accompany it.
//!
//! The enums mirror the protobuf descriptor's wire codes; each has an
//! exactly specified decoder from the `i32` code the descriptor carries.
//! For the JavaScript type option the conversion from the `protobuf`
//! crate's descriptor types stands here too, reading the wire code
//! through that crate's accessors; the analogous conversions for the
//! descriptor's field type and C++ string option cannot be declared to
//! the verifier and live with the unverified glue around this crate.

use vstd::prelude::*;

use protobuf::EnumOrUnknown;

verus! {

// The `protobuf` descriptor types the conversions below start from.
// They are opaque here; only their wire codes are read.
#[verifier::external_type_specification]
#[verifier::external_body]
pub struct ExFieldOptionsJsType(protobuf::descriptor::field_options::JSType);

#[verifier::external_type_specification]
#[verifier::external_body]
#[verifier::reject_recursive_types(E)]
pub struct ExEnumOrUnknown<E>(EnumOrUnknown<E>);

/// The wire code of a `field_options::JSType` variant.
pub uninterp spec fn jstype_code(v: protobuf::descriptor::field_options::JSType) -> i32;

/// The `i32` that a `EnumOrUnknown<field_options::JSType>` carries.
pub uninterp spec fn jstype_option_code(
    v: EnumOrUnknown<protobuf::descriptor::field_options::JSType>,
) -> i32;

/// Relies on protobuf's `Enum::value` for `field_options::JSType`: the
/// variant's wire code, one of 0, 1 and 2.
#[verifier::external_body]
fn jstype_value(v: protobuf::descriptor::field_options::JSType) -> (r: i32)
    ensures
        r == jstype_code(v),
        0 <= r <= 2,
{
    protobuf::Enum::value(&v)
}

/// Relies on protobuf's `EnumOrUnknown::value`: the contained `i32`,
/// which need not be a valid variant code.
#[verifier::external_body]
fn jstype_option_value(v: &EnumOrUnknown<protobuf::descriptor::field_options::JSType>) -> (r: i32)
    ensures
        r == jstype_option_code(*v),
{
    v.value()
}

/// A field's cardinality label.
#[derive(Clone, Copy, Debug, PartialEq, Eq, Hash, Structural)]
pub enum Label {
    Required,
    Optional,
    Repeated,
    Unkown(i32),
}

/// The C++ representation option of a string field.
#[derive(Clone, Copy, Debug, PartialEq, Eq, Hash, PartialOrd, Ord, Structural)]
pub enum CType {
    /// Default mode.
    String,
    Cord,
    StringPiece,
    Unknown(i32),
}

/// The `CType` that a wire code decodes to.
pub open spec fn ctype_of_code(code: int) -> CType {
    if code == 0 {
        CType::String
    } else if code == 1 {
        CType::Cord
    } else if code == 2 {
        CType::StringPiece
    } else {
        CType::Unknown(code as i32)
    }
}

impl CType {
    /// Decodes a `field_options::CType` wire code; codes outside the
    /// three defined variants are preserved as `Unknown`.
    pub fn from_code(code: i32) -> (r: CType)
        ensures
            r == ctype_of_code(code as int),
    {
        match code {
            0 => CType::String,
            1 => CType::Cord,
            2 => CType::StringPiece,
            _ => CType::Unknown(code),
        }
    }
}

/// A scalar (non-message, non-enum) field type.
#[derive(Debug, Clone, Copy, PartialEq, Eq, PartialOrd, Ord, Structural)]
pub enum Scalar {
    Double,
    Float,
    /// Not ZigZag encoded.  Negative numbers take 10 bytes.  Use `Sint64`
    /// if negative values are likely.
    Int64,
    Uint64,
    /// Not ZigZag encoded.  Negative numbers take 10 bytes.  Use `Sint32`
    /// if negative values are likely.
    Int32,
    Fixed64,
    Fixed32,
    Bool,
    String,
    Bytes,
    Uint32,
    Enum,
    Sfixed32,
    Sfixed64,
    /// Uses ZigZag encoding.
    Sint32,
    /// Uses ZigZag encoding.
    Sint64,
}

/// The scalar's name in `.proto` syntax.
pub open spec fn scalar_name(s: Scalar) -> Seq<char> {
    match s {
        Scalar::Double => "double"@,
        Scalar::Float => "float"@,
        Scalar::Int64 => "int64"@,
        Scalar::Uint64 => "uint64"@,
        Scalar::Int32 => "int32"@,
        Scalar::Fixed64 => "fixed64"@,
        Scalar::Fixed32 => "fixed32"@,
        Scalar::Bool => "bool"@,
        Scalar::String => "string"@,
        Scalar::Bytes => "bytes"@,
        Scalar::Uint32 => "uint32"@,
        Scalar::Enum => "enum"@,
        Scalar::Sfixed32 => "sfixed32"@,
        Scalar::Sfixed64 => "sfixed64"@,
        Scalar::Sint32 => "sint32"@,
        Scalar::Sint64 => "sint64"@,
    }
}

impl Scalar {
    /// The scalar's name as it is rendered in `.proto` syntax.
    pub fn display(&self) -> (r: String)
        ensures
            r@ == scalar_name(*self),
    {
        match self {
            Scalar::Double => "double".to_owned(),
            Scalar::Float => "float".to_owned(),
            Scalar::Int64 => "int64".to_owned(),
            Scalar::Uint64 => "uint64".to_owned(),
            Scalar::Int32 => "int32".to_owned(),
            Scalar::Fixed64 => "fixed64".to_owned(),
            Scalar::Fixed32 => "fixed32".to_owned(),
            Scalar::Bool => "bool".to_owned(),
            Scalar::String => "string".to_owned(),
            Scalar::Bytes => "bytes".to_owned(),
            Scalar::Uint32 => "uint32".to_owned(),
            Scalar::Enum => "enum".to_owned(),
            Scalar::Sfixed32 => "sfixed32".to_owned(),
            Scalar::Sfixed64 => "sfixed64".to_owned(),
            Scalar::Sint32 => "sint32".to_owned(),
            Scalar::Sint64 => "sint64".to_owned(),
        }
    }
}

/// The `Scalar` a scalar wire code decodes to; meaningful only for the
/// scalar codes (1 through 18 without 10, 11 and 14).
pub open spec fn scalar_of_code(code: int) -> Scalar {
    if code == 1 {
        Scalar::Double
    } else if code == 2 {
        Scalar::Float
    } else if code == 3 {
        Scalar::Int64
    } else if code == 4 {
        Scalar::Uint64
    } else if code == 5 {
        Scalar::Int32
    } else if code == 6 {
        Scalar::Fixed64
    } else if code == 7 {
        Scalar::Fixed32
    } else if code == 8 {
        Scalar::Bool
    } else if code == 9 {
        Scalar::String
    } else if code == 12 {
        Scalar::Bytes
    } else if code == 13 {
        Scalar::Uint32
    } else if code == 15 {
        Scalar::Sfixed32
    } else if code == 16 {
        Scalar::Sfixed64
    } else if code == 17 {
        Scalar::Sint32
    } else {
        Scalar::Sint64
    }
}

/// A field's type: a scalar, a named enum or message reference, the
/// unsupported group form, or an unrecognised wire code.
#[derive(Debug, Clone, PartialEq, Eq, PartialOrd, Ord)]
pub enum Type {
    Scalar(Scalar),
    Enum(String),
    Message(String),
    /// not supported
    Group,
    Unknown(i32),
}

/// What `Type` a descriptor wire code decodes to, given the enum and
/// message type names that accompany it: 10 is a group, 11 a message
/// reference, 14 an enum reference, every other code of 1 through 18 a
/// scalar, and anything else is preserved as `Unknown`.
pub open spec fn type_matches_code(
    r: Type,
    code: int,
    enum_name: Seq<char>,
    msg_name: Seq<char>,
) -> bool {
    if code == 10 {
        r is Group
    } else if code == 11 {
        r matches Type::Message(v) && v@ == msg_name
    } else if code == 14 {
        r matches Type::Enum(v) && v@ == enum_name
    } else if 1 <= code <= 18 {
        r matches Type::Scalar(s) && s == scalar_of_code(code)
    } else {
        r matches Type::Unknown(c) && c == code
    }
}

impl Type {
    /// Returns `true` if the type is [`Unknown`].
    ///
    /// [`Unknown`]: Type::Unknown
    pub fn is_unknown(&self) -> (r: bool)
        ensures
            r == (*self is Unknown),
    {
        matches!(self, Type::Unknown(..))
    }

    /// Returns `true` if the type is [`Group`].
    ///
    /// [`Group`]: Type::Group
    pub fn is_group(&self) -> (r: bool)
        ensures
            r == (*self is Group),
    {
        matches!(self, Type::Group)
    }

    /// Returns `true` if the type is [`Scalar`].
    ///
    /// [`Scalar`]: Type::Scalar
    pub fn is_scalar(&self) -> (r: bool)
        ensures
            r == (*self is Scalar),
    {
        matches!(self, Type::Scalar(_))
    }

    /// Returns `true` if the type is [`Message`].
    ///
    /// [`Message`]: Type::Message
    pub fn is_message(&self) -> (r: bool)
        ensures
            r == (*self is Message),
    {
        matches!(self, Type::Message(_))
    }

    /// Returns `true` if the type is [`Enum`].
    ///
    /// [`Enum`]: Type::Enum
    pub fn is_enum(&self) -> (r: bool)
        ensures
            r == (*self is Enum),
    {
        matches!(self, Type::Enum(_))
    }

    /// The referenced enum's type name, if the type is an enum reference.
    pub fn as_enum(&self) -> (r: Option<&String>)
        ensures
            match *self {
                Type::Enum(v) => r matches Some(s) && s@ == v@,
                _ => r is None,
            },
    {
        if let Type::Enum(v) = self {
            Some(v)
        } else {
            None
        }
    }

    /// The scalar, if the type is one.
    pub fn as_scalar(&self) -> (r: Option<Scalar>)
        ensures
            match *self {
                Type::Scalar(v) => r == Some(v),
                _ => r is None,
            },
    {
        if let Type::Scalar(v) = self {
            Some(*v)
        } else {
            None
        }
    }

    /// The referenced message's type name, if the type is a message
    /// reference.
    pub fn as_message(&self) -> (r: Option<&str>)
        ensures
            match *self {
                Type::Message(v) => r matches Some(s) && s@ == v@,
                _ => r is None,
            },
    {
        if let Type::Message(v) = self {
            Some(v.as_str())
        } else {
            None
        }
    }

    /// The unrecognised wire code, if the type is [`Unknown`].
    ///
    /// [`Unknown`]: Type::Unknown
    pub fn as_unknown(&self) -> (r: Option<&i32>)
        ensures
            match *self {
                Type::Unknown(v) => r matches Some(c) && c == v,
                _ => r is None,
            },
    {
        if let Type::Unknown(v) = self {
            Some(v)
        } else {
            None
        }
    }

    /// Decodes a descriptor type wire code, taking the enum or message
    /// type name that accompanies codes 14 and 11.
    pub fn from_code(code: i32, enum_: &str, msg: &str) -> (r: Type)
        ensures
            type_matches_code(r, code as int, enum_@, msg@),
    {
        match code {
            1 => Type::Scalar(Scalar::Double),
            2 => Type::Scalar(Scalar::Float),
            3 => Type::Scalar(Scalar::Int64),
            4 => Type::Scalar(Scalar::Uint64),
            5 => Type::Scalar(Scalar::Int32),
            6 => Type::Scalar(Scalar::Fixed64),
            7 => Type::Scalar(Scalar::Fixed32),
            8 => Type::Scalar(Scalar::Bool),
            9 => Type::Scalar(Scalar::String),
            12 => Type::Scalar(Scalar::Bytes),
            13 => Type::Scalar(Scalar::Uint32),
            15 => Type::Scalar(Scalar::Sfixed32),
            16 => Type::Scalar(Scalar::Sfixed64),
            17 => Type::Scalar(Scalar::Sint32),
            18 => Type::Scalar(Scalar::Sint64),
            14 => Type::Enum(enum_.to_owned()),
            11 => Type::Message(msg.to_owned()),
            10 => Type::Group,
            _ => Type::Unknown(code),
        }
    }
}

/// The JavaScript representation option of a 64-bit integer field.
#[derive(Debug, Clone, Copy, PartialEq, Eq, PartialOrd, Ord, Structural)]
pub enum JsType {
    /// Use the default type.
    Normal,
    /// Use JavaScript strings.
    String,
    /// Use JavaScript numbers.
    Number,
    Unknown(i32),
}

/// The `JsType` that a wire code decodes to.
pub open spec fn jstype_of_code(code: int) -> JsType {
    if code == 0 {
        JsType::Normal
    } else if code == 1 {
        JsType::String
    } else if code == 2 {
        JsType::Number
    } else {
        JsType::Unknown(code as i32)
    }
}

impl JsType {
    /// Decodes a `field_options::JSType` wire code; codes outside the
    /// three defined variants are preserved as `Unknown`.
    pub fn from_code(code: i32) -> (r: JsType)
        ensures
            r == jstype_of_code(code as int),
    {
        match code {
            0 => JsType::Normal,
            1 => JsType::String,
            2 => JsType::Number,
            _ => JsType::Unknown(code),
        }
    }
}

impl From<EnumOrUnknown<protobuf::descriptor::field_options::JSType>> for JsType {
    fn from(value: EnumOrUnknown<protobuf::descriptor::field_options::JSType>) -> (r: JsType) {
        JsType::from_code(jstype_option_value(&value))
    }
}

impl vstd::std_specs::convert::FromSpecImpl<EnumOrUnknown<protobuf::descriptor::field_options::JSType>> for JsType {
    open spec fn obeys_from_spec() -> bool {
        true
    }

    open spec fn from_spec(v: EnumOrUnknown<protobuf::descriptor::field_options::JSType>) -> JsType {
        jstype_of_code(jstype_option_code(v) as int)
    }
}

impl From<protobuf::descriptor::field_options::JSType> for JsType {
    fn from(value: protobuf::descriptor::field_options::JSType) -> (r: JsType) {
        JsType::from_code(jstype_value(value))
    }
}

impl vstd::std_specs::convert::FromSpecImpl<protobuf::descriptor::field_options::JSType> for JsType {
    open spec fn obeys_from_spec() -> bool {
        true
    }

    open spec fn from_spec(v: protobuf::descriptor::field_options::JSType) -> JsType {
        jstype_of_code(jstype_code(v) as int)
    }
}

/// An embedded-message field.
#[derive(Debug, Clone, PartialEq)]
pub struct EmbedField {
    pub fqn: String,
}

/// An enum-typed field.
#[derive(Debug, Clone, PartialEq)]
pub struct EnumField {
    pub fqn: String,
}

/// A map field.
#[derive(Debug, Clone, PartialEq)]
pub struct MapField {
    pub fqn: String,
}

/// A field that is a member of a oneof.
#[derive(Debug, Clone, PartialEq)]
pub struct OneofField {
    pub fqn: String,
}

/// A repeated field.
#[derive(Debug, Clone, PartialEq)]
pub struct RepeatedField {
    pub fqn: String,
}

/// A scalar field.
#[derive(Debug, Clone, PartialEq)]
pub struct ScalarField {
    pub fqn: String,
}

/// A message field, classified by its form.
#[derive(Debug, Clone, PartialEq)]
pub enum Field {
    Embed(EmbedField),
    Enum(EnumField),
    Mapping(MapField),
    Oneof(OneofField),
    Repeated(RepeatedField),
    Scalar(ScalarField),
}

/// The fully qualified name the field carries, whatever its form.
pub open spec fn field_fqn(f: Field) -> Seq<char> {
    match f {
        Field::Embed(v) => v.fqn@,
        Field::Enum(v) => v.fqn@,
        Field::Mapping(v) => v.fqn@,
        Field::Oneof(v) => v.fqn@,
        Field::Repeated(v) => v.fqn@,
        Field::Scalar(v) => v.fqn@,
    }
}

impl Field {
    /// The field's fully qualified name.
    pub fn fully_qualified_name(&self) -> (r: &String)
        ensures
            r@ == field_fqn(*self),
    {
        match self {
            Field::Embed(v) => &v.fqn,
            Field::Enum(v) => &v.fqn,
            Field::Mapping(v) => &v.fqn,
            Field::Oneof(v) => &v.fqn,
            Field::Repeated(v) => &v.fqn,
            Field::Scalar(v) => &v.fqn,
        }
    }
}

} // verus!
