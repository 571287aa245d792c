//! The ten declaration kinds a hydration session can hold.

use vstd::prelude::*;

verus! {

/// One of the ten declaration categories of the AST.
#[derive(Debug, Clone, Copy, PartialEq, Eq, Hash, Structural)]
pub enum Kind {
    Package,
    File,
    Message,
    Oneof,
    Enum,
    EnumValue,
    Service,
    Method,
    Field,
    Extension,
}

/// The kind's display name.
pub open spec fn kind_name(k: Kind) -> Seq<char> {
    match k {
        Kind::Package => "Package"@,
        Kind::File => "File"@,
        Kind::Message => "Message"@,
        Kind::Oneof => "Oneof"@,
        Kind::Enum => "Enum"@,
        Kind::EnumValue => "EnumValue"@,
        Kind::Service => "Service"@,
        Kind::Method => "Method"@,
        Kind::Field => "Field"@,
        Kind::Extension => "Extension"@,
    }
}

impl Kind {
    /// The kind's name as it is rendered for diagnostics.
    pub fn display(&self) -> (r: String)
        ensures
            r@ == kind_name(*self),
    {
        match self {
            Kind::Package => "Package".to_owned(),
            Kind::File => "File".to_owned(),
            Kind::Message => "Message".to_owned(),
            Kind::Oneof => "Oneof".to_owned(),
            Kind::Enum => "Enum".to_owned(),
            Kind::EnumValue => "EnumValue".to_owned(),
            Kind::Service => "Service".to_owned(),
            Kind::Method => "Method".to_owned(),
            Kind::Field => "Field".to_owned(),
            Kind::Extension => "Extension".to_owned(),
        }
    }
}

} // verus!
