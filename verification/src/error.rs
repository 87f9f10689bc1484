//! What can be wrong with a declaration.

use vstd::prelude::*;

verus! {

/// The rule that an attribute's payload breaks.
#[derive(Debug, Clone, Copy, PartialEq, Eq, Structural)]
pub enum AttrErrorKind {
    /// The payload starts with a literal that is no integer of 32 bits.
    MalformedWidth,
    /// A comma should separate one part from the next.
    ExpectedComma,
    /// A name should stand here, and no keyword.
    ExpectedIdent,
    /// An equals sign should follow the key.
    ExpectedEq,
    /// A path should start here.
    ExpectedPath,
    /// The word is none of the access modes.
    UnknownAccessMode,
    /// The word before the equals sign is none of the keys.
    UnknownKey,
}

/// A payload that does not follow the grammar: the rule and the index of the
/// token that breaks it (the number of tokens, where the payload ends too
/// early).
#[derive(Debug, Clone, Copy, PartialEq, Eq, Structural)]
pub struct AttrError {
    pub kind: AttrErrorKind,
    pub at: usize,
}

/// What is wrong with one field.
#[derive(Debug, Clone, Copy, PartialEq, Eq, Structural)]
pub enum FieldError {
    /// Its attribute does not follow the grammar.
    Attribute(AttrError),
    /// Its type is no path.
    InvalidType,
    /// Its width is zero.
    ZeroWidth,
    /// Its width is more than its type can hold.
    WidthExceedsCapacity { width: u32, capacity: u32 },
}

/// What is wrong with a register.
#[derive(Debug, Clone, Copy, PartialEq, Eq, Structural)]
pub enum SchemaError {
    /// The register's attribute names no type.
    UnknownType,
    /// The base type is no path.
    InvalidBaseType,
    /// The fields are not named.
    UnsupportedFields,
    /// The base type is none of `u8`, `u16`, `u32`.
    UnsupportedBaseType,
    /// The field at `index`, counted from the first declared, is wrong.
    Field { index: usize, error: FieldError },
    /// The widths add up to more than the base type holds.
    Overflow { base_bits: u32 },
}

/// What is wrong with an enumeration.
#[derive(Debug, Clone, Copy, PartialEq, Eq, Structural)]
pub enum DeriveError {
    /// The item is a struct.
    Struct,
    /// The item is a union.
    Union,
    /// The code written for the variant at `variant` is no integer literal of
    /// 32 bits.
    NotAnIntegerLiteral { variant: usize },
    /// The variant at `variant` would get a code beyond 32 bits.
    CodeOverflow { variant: usize },
}

impl AttrErrorKind {
    /// The rule in words.
    pub open spec fn text(self) -> Seq<char> {
        match self {
            AttrErrorKind::MalformedWidth => "width is not an integer literal"@,
            AttrErrorKind::ExpectedComma => "expected `,`"@,
            AttrErrorKind::ExpectedIdent => "expected identifier"@,
            AttrErrorKind::ExpectedEq => "expected `=`"@,
            AttrErrorKind::ExpectedPath => "expected path"@,
            AttrErrorKind::UnknownAccessMode => "unsupported access type"@,
            AttrErrorKind::UnknownKey => "unsupported attribute key"@,
        }
    }

    /// The rule in words.
    pub fn message(&self) -> (r: &'static str)
        ensures
            r@ == self.text(),
    {
        match self {
            AttrErrorKind::MalformedWidth => "width is not an integer literal",
            AttrErrorKind::ExpectedComma => "expected `,`",
            AttrErrorKind::ExpectedIdent => "expected identifier",
            AttrErrorKind::ExpectedEq => "expected `=`",
            AttrErrorKind::ExpectedPath => "expected path",
            AttrErrorKind::UnknownAccessMode => "unsupported access type",
            AttrErrorKind::UnknownKey => "unsupported attribute key",
        }
    }
}

impl FieldError {
    /// What is wrong, in words.
    pub open spec fn text(self) -> Seq<char> {
        match self {
            FieldError::Attribute(e) => e.kind.text(),
            FieldError::InvalidType => "invalid bits type"@,
            FieldError::ZeroWidth => "bits cannot be 0"@,
            FieldError::WidthExceedsCapacity { .. } => "overflowing field type"@,
        }
    }

    /// What is wrong, in words.
    pub fn message(&self) -> (r: &'static str)
        ensures
            r@ == self.text(),
    {
        match self {
            FieldError::Attribute(e) => e.kind.message(),
            FieldError::InvalidType => "invalid bits type",
            FieldError::ZeroWidth => "bits cannot be 0",
            FieldError::WidthExceedsCapacity { .. } => "overflowing field type",
        }
    }
}

impl SchemaError {
    /// What is wrong, in words.
    pub open spec fn text(self) -> Seq<char> {
        match self {
            SchemaError::UnknownType => "unknown type"@,
            SchemaError::InvalidBaseType => "invalid base type"@,
            SchemaError::UnsupportedFields => "only named fields are supported"@,
            SchemaError::UnsupportedBaseType => "unsupported base type"@,
            SchemaError::Field { error, .. } => error.text(),
            SchemaError::Overflow { .. } => "overflowing register type"@,
        }
    }

    /// What is wrong, in words.
    pub fn message(&self) -> (r: &'static str)
        ensures
            r@ == self.text(),
    {
        match self {
            SchemaError::UnknownType => "unknown type",
            SchemaError::InvalidBaseType => "invalid base type",
            SchemaError::UnsupportedFields => "only named fields are supported",
            SchemaError::UnsupportedBaseType => "unsupported base type",
            SchemaError::Field { error, .. } => error.message(),
            SchemaError::Overflow { .. } => "overflowing register type",
        }
    }
}

impl DeriveError {
    /// What is wrong, in words.
    pub open spec fn text(self) -> Seq<char> {
        match self {
            DeriveError::Struct => "Struct is not supported"@,
            DeriveError::Union => "Union is not supported"@,
            DeriveError::NotAnIntegerLiteral { .. } => "not an integer literal"@,
            DeriveError::CodeOverflow { .. } => "code does not fit 32 bits"@,
        }
    }

    /// What is wrong, in words.
    pub fn message(&self) -> (r: &'static str)
        ensures
            r@ == self.text(),
    {
        match self {
            DeriveError::Struct => "Struct is not supported",
            DeriveError::Union => "Union is not supported",
            DeriveError::NotAnIntegerLiteral { .. } => "not an integer literal",
            DeriveError::CodeOverflow { .. } => "code does not fit 32 bits",
        }
    }
}

} // verus!
