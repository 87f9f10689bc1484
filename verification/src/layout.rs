//! From the declaration of a register to its layout: every field held
//! against its type, and placed after the fields before it.

use vstd::prelude::*;
use crate::attrs::{parse_spec, Payload, RegBitsAttrs, RegBitsAttrsView};
use crate::bits::{field_mask, law_masks_disjoint, valid_base, valid_span};
use crate::error::{AttrError, FieldError, SchemaError};
use crate::token::{same_text, PathRef, PathRefView, TypeRef};

verus! {

/// One attribute of a field: its path and what stands between its brackets.
#[derive(Debug, Clone, PartialEq, Eq)]
pub struct FieldAttr {
    pub path: PathRef,
    pub payload: Payload,
}

/// One field as it is declared.
#[derive(Debug, Clone, PartialEq, Eq)]
pub struct FieldDecl {
    pub ident: String,
    pub ty: TypeRef,
    pub attrs: Vec<FieldAttr>,
}

/// The fields of a struct as it is declared.
#[derive(Debug, Clone, PartialEq, Eq)]
pub enum Fields {
    Named(Vec<FieldDecl>),
    Unnamed,
    Unit,
}

/// A struct as it is declared.
#[derive(Debug, Clone, PartialEq, Eq)]
pub struct StructDecl {
    pub ident: String,
    pub fields: Fields,
}

/// What the register's own attribute says: the type of the storage.
#[derive(Debug, Clone, PartialEq, Eq)]
pub struct RegisterAttrs {
    pub typ: TypeRef,
}

impl RegisterAttrs {
    /// Reads the register's attribute: the type that it names, where it names
    /// one.
    pub fn parse(typ: Option<TypeRef>) -> (r: Result<RegisterAttrs, SchemaError>)
        ensures
            match typ {
                Some(typ) => r == Ok::<RegisterAttrs, SchemaError>(RegisterAttrs { typ }),
                None => r == Err::<RegisterAttrs, SchemaError>(SchemaError::UnknownType),
            },
    {
        match typ {
            Some(typ) => Ok(RegisterAttrs { typ }),
            None => Err(SchemaError::UnknownType),
        }
    }
}

/// The kind of value that a field holds.
#[derive(Debug, Clone, Copy, PartialEq, Eq, Structural)]
pub enum ValueType {
    Bool,
    U8,
    U16,
    U32,
    /// Any other type: its values turn into bits, and back, by its own codec.
    Symbolic,
}

/// How the bits of a field turn into a value, or a value into bits.
#[derive(Debug, Clone, PartialEq, Eq)]
pub enum Conversion {
    /// By the function that the attribute names.
    Custom(PathRef),
    /// Zero is `false`, and `true` is one.
    Bool,
    /// By a cast between unsigned integers.
    Unsigned,
    /// By the codec of the field's type.
    Codec,
}

/// What a `Conversion` holds.
pub enum ConversionView {
    Custom(PathRefView),
    Bool,
    Unsigned,
    Codec,
}

impl View for Conversion {
    type V = ConversionView;

    open spec fn view(&self) -> ConversionView {
        match self {
            Conversion::Custom(path) => ConversionView::Custom(path@),
            Conversion::Bool => ConversionView::Bool,
            Conversion::Unsigned => ConversionView::Unsigned,
            Conversion::Codec => ConversionView::Codec,
        }
    }
}

impl Conversion {
    /// A copy of the conversion.
    pub fn duplicate(&self) -> (c: Conversion)
        ensures
            c@ == self@,
    {
        match self {
            Conversion::Custom(path) => Conversion::Custom(path.duplicate()),
            Conversion::Bool => Conversion::Bool,
            Conversion::Unsigned => Conversion::Unsigned,
            Conversion::Codec => Conversion::Codec,
        }
    }
}

/// The kind of value of a declared type; none where the type is no path.
pub open spec fn value_type_of(ty: TypeRef) -> Option<ValueType> {
    if ty is Other {
        None
    } else if ty.names("bool"@) {
        Some(ValueType::Bool)
    } else if ty.names("u8"@) {
        Some(ValueType::U8)
    } else if ty.names("u16"@) {
        Some(ValueType::U16)
    } else if ty.names("u32"@) {
        Some(ValueType::U32)
    } else {
        Some(ValueType::Symbolic)
    }
}

/// The width of a storage type: that of `u8`, `u16` or `u32`.
pub open spec fn base_bits_of(ty: TypeRef) -> Option<u32> {
    if ty.names("u8"@) {
        Some(8u32)
    } else if ty.names("u16"@) {
        Some(16u32)
    } else if ty.names("u32"@) {
        Some(32u32)
    } else {
        None
    }
}

impl ValueType {
    /// How many bits a value of the kind can take; a symbolic type sets no
    /// limit.
    pub open spec fn capacity(self) -> Option<u32> {
        match self {
            ValueType::Bool => Some(1u32),
            ValueType::U8 => Some(8u32),
            ValueType::U16 => Some(16u32),
            ValueType::U32 => Some(32u32),
            ValueType::Symbolic => None,
        }
    }

    /// The conversion of the kind where the attribute names none.
    pub open spec fn conversion(self) -> ConversionView {
        match self {
            ValueType::Bool => ConversionView::Bool,
            ValueType::Symbolic => ConversionView::Codec,
            _ => ConversionView::Unsigned,
        }
    }

    /// How many bits a value of the kind can take.
    pub fn bit_capacity(&self) -> (r: Option<u32>)
        ensures
            r == self.capacity(),
    {
        match self {
            ValueType::Bool => Some(1),
            ValueType::U8 => Some(8),
            ValueType::U16 => Some(16),
            ValueType::U32 => Some(32),
            ValueType::Symbolic => None,
        }
    }

    /// The kind of value of a declared type.
    pub fn of(ty: &TypeRef) -> (r: Option<ValueType>)
        ensures
            r == value_type_of(*ty),
    {
        match ty {
            TypeRef::Other => None,
            _ => if ty.is_ident("bool") {
                Some(ValueType::Bool)
            } else if ty.is_ident("u8") {
                Some(ValueType::U8)
            } else if ty.is_ident("u16") {
                Some(ValueType::U16)
            } else if ty.is_ident("u32") {
                Some(ValueType::U32)
            } else {
                Some(ValueType::Symbolic)
            },
        }
    }
}

/// What the attributes of a field say, read up to the `n`th: every one named
/// `bits` is parsed, and the last of them counts.
pub open spec fn attrs_of(attrs: Seq<FieldAttr>, n: int) -> Result<RegBitsAttrsView, AttrError>
    decreases n,
{
    if n <= 0 {
        Ok(RegBitsAttrsView::initial())
    } else {
        match attrs_of(attrs, n - 1) {
            Err(e) => Err(e),
            Ok(said) => if attrs[n - 1].path@.is_ident("bits"@) {
                parse_spec(attrs[n - 1].payload@)
            } else {
                Ok(said)
            },
        }
    }
}

/// The marker of a field that only takes up room.
pub open spec fn is_reserved(f: FieldDecl) -> bool {
    f.ident@ == "__"@
}

/// One field with its place in the register.
#[derive(Debug, Clone, PartialEq, Eq)]
pub struct RegBits {
    /// The place of the field in the declaration, counted from zero.
    pub index: usize,
    /// The bit at which the field starts.
    pub offset: u32,
    /// The width of the register.
    pub base_bits: u32,
    pub typ: ValueType,
    pub ident: String,
    pub attrs: RegBitsAttrs,
    /// How a get turns the bits into a value.
    pub from: Conversion,
    /// How a set turns a value into bits.
    pub into: Conversion,
}

/// What a `RegBits` holds.
pub struct RegBitsView {
    pub index: usize,
    pub offset: u32,
    pub base_bits: u32,
    pub typ: ValueType,
    pub ident: Seq<char>,
    pub attrs: RegBitsAttrsView,
    pub from: ConversionView,
    pub into: ConversionView,
}

impl View for RegBits {
    type V = RegBitsView;

    open spec fn view(&self) -> RegBitsView {
        RegBitsView {
            index: self.index,
            offset: self.offset,
            base_bits: self.base_bits,
            typ: self.typ,
            ident: self.ident@,
            attrs: self.attrs@,
            from: self.from@,
            into: self.into@,
        }
    }
}

impl RegBitsView {
    /// Whether the field lies within its register.
    pub open spec fn fits(self) -> bool {
        valid_span(self.offset, self.attrs.bits, self.base_bits)
    }
}

/// The conversion of a field: by the function that the attribute names, else
/// by the kind of its value.
pub open spec fn conversion_of(custom: Option<PathRefView>, typ: ValueType) -> ConversionView {
    match custom {
        Some(path) => ConversionView::Custom(path),
        None => typ.conversion(),
    }
}

/// The field that a declaration describes, were it to start at `offset`: its
/// attribute parsed, its type a path, its width not zero and no more than
/// its type can hold.
pub open spec fn field_spec(index: usize, offset: u32, f: FieldDecl, base_bits: u32) -> Result<
    RegBitsView,
    FieldError,
> {
    match attrs_of(f.attrs@, f.attrs@.len() as int) {
        Err(e) => Err(FieldError::Attribute(e)),
        Ok(attrs) => match value_type_of(f.ty) {
            None => Err(FieldError::InvalidType),
            Some(typ) => if attrs.bits == 0 {
                Err(FieldError::ZeroWidth)
            } else if typ.capacity() is Some && attrs.bits > typ.capacity()->Some_0 {
                Err(
                    FieldError::WidthExceedsCapacity {
                        width: attrs.bits,
                        capacity: typ.capacity()->Some_0,
                    },
                )
            } else {
                Ok(
                    RegBitsView {
                        index,
                        offset,
                        base_bits,
                        typ,
                        ident: f.ident@,
                        attrs,
                        from: conversion_of(attrs.from, typ),
                        into: conversion_of(attrs.into, typ),
                    },
                )
            },
        },
    }
}

/// What making a field gives, with the field taken by what it holds.
pub open spec fn made(r: Result<RegBits, FieldError>) -> Result<RegBitsView, FieldError> {
    match r {
        Ok(field) => Ok(field@),
        Err(e) => Err(e),
    }
}

/// The conversion of a field.
fn pick_conversion(custom: &Option<PathRef>, typ: ValueType) -> (c: Conversion)
    ensures
        c@ == conversion_of(crate::attrs::path_view(*custom), typ),
{
    match custom {
        Some(path) => Conversion::Custom(path.duplicate()),
        None => match typ {
            ValueType::Bool => Conversion::Bool,
            ValueType::Symbolic => Conversion::Codec,
            _ => Conversion::Unsigned,
        },
    }
}

impl RegBits {
    /// Makes the field of a declaration, to start at `offset`.
    pub fn new(index: usize, offset: u32, f: &FieldDecl, base_bits: u32) -> (r: Result<
        RegBits,
        FieldError,
    >)
        ensures
            made(r) == field_spec(index, offset, *f, base_bits),
    {
        let mut attrs = RegBitsAttrs::new();
        let mut i: usize = 0;
        while i < f.attrs.len()
            invariant
                i <= f.attrs@.len(),
                attrs_of(f.attrs@, i as int) == Ok::<RegBitsAttrsView, AttrError>(attrs@),
            decreases f.attrs.len() - i,
        {
            let attr = &f.attrs[i];
            if attr.path.is_ident("bits") {
                match RegBitsAttrs::parse(&attr.payload) {
                    Ok(parsed) => {
                        attrs = parsed;
                    },
                    Err(e) => {
                        proof {
                            lemma_attrs_error_stays(f.attrs@, i + 1, f.attrs@.len() as int);
                        }
                        return Err(FieldError::Attribute(e));
                    },
                }
            }
            i = i + 1;
        }
        let typ = match ValueType::of(&f.ty) {
            Some(typ) => typ,
            None => {
                return Err(FieldError::InvalidType);
            },
        };
        if attrs.bits == 0 {
            return Err(FieldError::ZeroWidth);
        }
        match typ.bit_capacity() {
            Some(capacity) => {
                if attrs.bits > capacity {
                    return Err(FieldError::WidthExceedsCapacity { width: attrs.bits, capacity });
                }
            },
            None => {},
        }
        let from = pick_conversion(&attrs.from, typ);
        let into = pick_conversion(&attrs.into, typ);
        Ok(RegBits { index, offset, base_bits, typ, ident: f.ident.clone(), attrs, from, into })
    }
}

/// Once an attribute does not parse, more attributes change nothing.
pub proof fn lemma_attrs_error_stays(attrs: Seq<FieldAttr>, m: int, n: int)
    requires
        0 <= m <= n,
        attrs_of(attrs, m) is Err,
    ensures
        attrs_of(attrs, n) == attrs_of(attrs, m),
    decreases n - m,
{
    if m < n {
        lemma_attrs_error_stays(attrs, m, n - 1);
    }
}

/// The width that a declaration gives its field.
pub open spec fn width_of(f: FieldDecl) -> int {
    match attrs_of(f.attrs@, f.attrs@.len() as int) {
        Ok(attrs) => attrs.bits as int,
        Err(_) => 0,
    }
}

/// Where the field at `i` starts: the widths of the fields before it, added
/// up. With the number of fields for `i`, the width of them all.
pub open spec fn offset_at(fields: Seq<FieldDecl>, i: int) -> int
    decreases i,
{
    if i <= 0 {
        0
    } else {
        offset_at(fields, i - 1) + width_of(fields[i - 1])
    }
}

/// The first of the first `n` fields that is wrong, with what is wrong with
/// it.
pub open spec fn first_fault(fields: Seq<FieldDecl>, base_bits: u32, n: int) -> Option<SchemaError>
    decreases n,
{
    if n <= 0 {
        None
    } else {
        match first_fault(fields, base_bits, n - 1) {
            Some(e) => Some(e),
            None => match field_spec((n - 1) as usize, 0, fields[n - 1], base_bits) {
                Err(error) => Some(SchemaError::Field { index: (n - 1) as usize, error }),
                Ok(_) => None,
            },
        }
    }
}

/// The first `n` fields, each at its place, but for the reserved ones.
pub open spec fn placed(fields: Seq<FieldDecl>, base_bits: u32, n: int) -> Seq<RegBitsView>
    decreases n,
{
    if n <= 0 {
        Seq::empty()
    } else {
        let before = placed(fields, base_bits, n - 1);
        match field_spec((n - 1) as usize, offset_at(fields, n - 1) as u32, fields[n - 1], base_bits) {
            Ok(field) => if is_reserved(fields[n - 1]) {
                before
            } else {
                before.push(field)
            },
            Err(_) => before,
        }
    }
}

/// A register with its fields laid out.
#[derive(Debug, Clone, PartialEq, Eq)]
pub struct RegisterDescriptor {
    pub ident: String,
    /// The width of the storage: 8, 16 or 32.
    pub base_bits: u32,
    /// The fields that have accessors, in the order of declaration.
    pub bits: Vec<RegBits>,
}

/// What a `RegisterDescriptor` holds.
pub struct RegisterView {
    pub ident: Seq<char>,
    pub base_bits: u32,
    pub bits: Seq<RegBitsView>,
}

/// What a list of fields holds.
pub open spec fn field_views(list: Seq<RegBits>) -> Seq<RegBitsView> {
    Seq::new(list.len(), |k: int| list[k]@)
}

impl View for RegisterDescriptor {
    type V = RegisterView;

    open spec fn view(&self) -> RegisterView {
        RegisterView { ident: self.ident@, base_bits: self.base_bits, bits: field_views(self.bits@) }
    }
}

impl RegisterView {
    /// Whether the layout is sound: the storage has one of the three widths,
    /// every field lies within it, and each field ends before the next one
    /// starts.
    pub open spec fn wf(self) -> bool {
        &&& valid_base(self.base_bits)
        &&& forall|k: int|
            0 <= k < self.bits.len() ==> (#[trigger] self.bits[k]).fits() && self.bits[k].base_bits
                == self.base_bits
        &&& forall|j: int, k: int|
            0 <= j < k < self.bits.len() ==> (#[trigger] self.bits[j]).offset + self.bits[j].attrs.bits
                <= (#[trigger] self.bits[k]).offset
    }
}

impl RegisterDescriptor {
    /// Whether the layout is sound. What `register` gives always is; a
    /// descriptor put together by hand need not be.
    pub fn is_sound(&self) -> (r: bool)
        ensures
            r == self@.wf(),
    {
        let base = self.base_bits;
        if !(base == 8 || base == 16 || base == 32) {
            return false;
        }
        let mut end: u32 = 0;
        let mut i: usize = 0;
        while i < self.bits.len()
            invariant
                base == self.base_bits,
                valid_base(base),
                i <= self.bits@.len(),
                end <= base,
                i == 0 ==> end == 0,
                i > 0 ==> end == self@.bits[i - 1].offset + self@.bits[i - 1].attrs.bits,
                forall|k: int|
                    0 <= k < i ==> (#[trigger] self@.bits[k]).fits() && self@.bits[k].base_bits == base
                        && self@.bits[k].offset + self@.bits[k].attrs.bits <= end,
                forall|j: int, k: int|
                    0 <= j < k < i ==> (#[trigger] self@.bits[j]).offset + self@.bits[j].attrs.bits <= (
                    #[trigger] self@.bits[k]).offset,
            decreases self.bits.len() - i,
        {
            let f = &self.bits[i];
            assert(self@.bits[i as int] == f@);
            let fits = f.attrs.bits >= 1 && f.base_bits == base && f.attrs.bits <= base && f.offset
                <= base - f.attrs.bits;
            if !fits {
                assert(!(self@.bits[i as int].fits() && self@.bits[i as int].base_bits == base));
                return false;
            }
            if f.offset < end {
                assert(self@.bits[i - 1].offset + self@.bits[i - 1].attrs.bits > self@.bits[i as int].offset);
                return false;
            }
            end = f.offset + f.attrs.bits;
            i = i + 1;
        }
        true
    }
}

/// The layout of a declared register. The storage type has to be a path, the
/// fields named, the storage one of `u8`, `u16` and `u32`, and every field
/// right, asked in this order; then the widths must not add up to more than
/// the storage holds.
pub open spec fn register_spec(attrs: RegisterAttrs, input: StructDecl) -> Result<
    RegisterView,
    SchemaError,
> {
    if attrs.typ is Other {
        Err(SchemaError::InvalidBaseType)
    } else {
        match input.fields {
            Fields::Named(fields) => match base_bits_of(attrs.typ) {
                None => Err(SchemaError::UnsupportedBaseType),
                Some(base_bits) => match first_fault(fields@, base_bits, fields@.len() as int) {
                    Some(e) => Err(e),
                    None => if offset_at(fields@, fields@.len() as int) > base_bits {
                        Err(SchemaError::Overflow { base_bits })
                    } else {
                        Ok(
                            RegisterView {
                                ident: input.ident@,
                                base_bits,
                                bits: placed(fields@, base_bits, fields@.len() as int),
                            },
                        )
                    },
                },
            },
            _ => Err(SchemaError::UnsupportedFields),
        }
    }
}

/// What the compiler gives, with the register taken by what it holds.
pub open spec fn registered(r: Result<RegisterDescriptor, SchemaError>) -> Result<
    RegisterView,
    SchemaError,
> {
    match r {
        Ok(register) => Ok(register@),
        Err(e) => Err(e),
    }
}

/// Once a field is wrong, more fields change nothing.
pub proof fn lemma_fault_stays(fields: Seq<FieldDecl>, base_bits: u32, m: int, n: int)
    requires
        0 <= m <= n,
        first_fault(fields, base_bits, m) is Some,
    ensures
        first_fault(fields, base_bits, n) == first_fault(fields, base_bits, m),
    decreases n - m,
{
    if m < n {
        lemma_fault_stays(fields, base_bits, m, n - 1);
    }
}

/// The widths add up to no less with more fields.
pub proof fn lemma_offsets_grow(fields: Seq<FieldDecl>, m: int, n: int)
    requires
        0 <= m <= n,
    ensures
        0 <= offset_at(fields, m) <= offset_at(fields, n),
    decreases n,
{
    if m < n {
        lemma_offsets_grow(fields, m, n - 1);
    } else if n > 0 {
        lemma_offsets_grow(fields, m - 1, n - 1);
    }
}

/// The width of a storage type.
fn base_width(ty: &TypeRef) -> (r: Option<u32>)
    ensures
        r == base_bits_of(*ty),
{
    if ty.is_ident("u8") {
        Some(8)
    } else if ty.is_ident("u16") {
        Some(16)
    } else if ty.is_ident("u32") {
        Some(32)
    } else {
        None
    }
}

/// Compiles the declaration of a register into its layout.
///
/// The fields follow one another in the order of declaration, the first at
/// bit zero, with no gap and no reordering. A field named `__` takes up its
/// width and is left out of the result.
pub fn register(attrs: &RegisterAttrs, input: &StructDecl) -> (r: Result<RegisterDescriptor, SchemaError>)
    ensures
        registered(r) == register_spec(*attrs, *input),
        r matches Ok(register) ==> register@.wf() && forall|k: int|
            0 <= k < register.bits@.len() ==> (#[trigger] register.bits@[k])@.fits(),
{
    match &attrs.typ {
        TypeRef::Other => {
            return Err(SchemaError::InvalidBaseType);
        },
        _ => {},
    }
    let fields = match &input.fields {
        Fields::Named(fields) => fields,
        _ => {
            return Err(SchemaError::UnsupportedFields);
        },
    };
    let base_bits = match base_width(&attrs.typ) {
        Some(base_bits) => base_bits,
        None => {
            return Err(SchemaError::UnsupportedBaseType);
        },
    };
    let mut offset: u32 = 0;
    let mut overflow = false;
    let mut bits: Vec<RegBits> = Vec::new();
    let mut i: usize = 0;
    while i < fields.len()
        invariant
            input.fields == Fields::Named(*fields),
            base_bits_of(attrs.typ) == Some(base_bits),
            i <= fields@.len(),
            first_fault(fields@, base_bits, i as int) is None,
            overflow ==> offset_at(fields@, i as int) > base_bits,
            !overflow ==> offset == offset_at(fields@, i as int) && offset <= base_bits,
            !overflow ==> field_views(bits@) == placed(fields@, base_bits, i as int),
            forall|k: int|
                0 <= k < bits@.len() ==> (#[trigger] bits@[k])@.fits() && bits@[k].base_bits == base_bits
                    && bits@[k].offset + bits@[k].attrs.bits <= offset,
            forall|j: int, k: int|
                0 <= j < k < bits@.len() ==> (#[trigger] bits@[j]).offset + bits@[j].attrs.bits <= (
                #[trigger] bits@[k]).offset,
        decreases fields.len() - i,
    {
        let f = &fields[i];
        let reg = match RegBits::new(i, offset, f, base_bits) {
            Ok(reg) => reg,
            Err(error) => {
                proof {
                    lemma_fault_stays(fields@, base_bits, i + 1, fields@.len() as int);
                }
                return Err(SchemaError::Field { index: i, error });
            },
        };
        proof {
            lemma_offsets_grow(fields@, i as int, i + 1);
        }
        if !overflow {
            let width = reg.attrs.bits;
            if width > base_bits - offset {
                overflow = true;
            } else {
                if !same_text(f.ident.as_str(), "__") {
                    let ghost before = bits@;
                    bits.push(reg);
                    assert(field_views(bits@) =~= field_views(before).push(reg@));
                }
                offset = offset + width;
            }
        }
        i = i + 1;
    }
    if overflow {
        return Err(SchemaError::Overflow { base_bits });
    }
    let register = RegisterDescriptor { ident: input.ident.clone(), base_bits, bits };
    Ok(register)
}

/// Overflow rejection: a register whose widths add up to more than its
/// storage holds is not compiled.
pub proof fn law_overflow_rejected(attrs: RegisterAttrs, input: StructDecl)
    requires
        input.fields is Named,
        base_bits_of(attrs.typ) is Some,
        offset_at(input.fields->Named_0@, input.fields->Named_0@.len() as int) > base_bits_of(
            attrs.typ,
        )->Some_0,
    ensures
        register_spec(attrs, input) is Err,
{
}

/// Non-overlap: two different fields of a register share no bit.
pub proof fn law_fields_share_no_bit(register: RegisterView, j: int, k: int)
    requires
        register.wf(),
        0 <= j < register.bits.len(),
        0 <= k < register.bits.len(),
        j != k,
    ensures
        field_mask(register.bits[j].offset, register.bits[j].attrs.bits) & field_mask(
            register.bits[k].offset,
            register.bits[k].attrs.bits,
        ) == 0,
{
    let a = register.bits[j];
    let b = register.bits[k];
    let mask_a = field_mask(a.offset, a.attrs.bits);
    let mask_b = field_mask(b.offset, b.attrs.bits);
    assert(a.fits() && b.fits());
    if j < k {
        law_masks_disjoint(a.offset, a.attrs.bits, b.offset, b.attrs.bits);
    } else {
        law_masks_disjoint(b.offset, b.attrs.bits, a.offset, a.attrs.bits);
        assert(mask_a & mask_b == mask_b & mask_a) by (bit_vector);
    }
}

/// Coverage: every field of the layout starts where the widths of the fields
/// declared before it, the reserved ones too, add up to; and it is the field
/// of its declaration, which is not reserved.
pub proof fn law_offsets_add_up(fields: Seq<FieldDecl>, base_bits: u32, n: int, k: int)
    requires
        0 <= n <= fields.len() <= usize::MAX,
        offset_at(fields, n) <= u32::MAX,
        0 <= k < placed(fields, base_bits, n).len(),
    ensures
        ({
            let field = placed(fields, base_bits, n)[k];
            &&& 0 <= field.index < n
            &&& field.offset == offset_at(fields, field.index as int)
            &&& !is_reserved(fields[field.index as int])
            &&& field_spec(field.index, field.offset, fields[field.index as int], base_bits) == Ok::<
                RegBitsView,
                FieldError,
            >(field)
        }),
    decreases n,
{
    if n > 0 {
        lemma_offsets_grow(fields, n - 1, n);
        let before = placed(fields, base_bits, n - 1);
        if k < before.len() {
            law_offsets_add_up(fields, base_bits, n - 1, k);
        }
    }
}

/// Coverage, of a compiled register: each of its fields starts where the
/// widths of all the fields declared before it add up to.
pub proof fn law_register_offsets(attrs: RegisterAttrs, input: StructDecl, k: int)
    requires
        register_spec(attrs, input) is Ok,
        input.fields->Named_0@.len() <= usize::MAX,
        0 <= k < register_spec(attrs, input)->Ok_0.bits.len(),
    ensures
        ({
            let fields = input.fields->Named_0@;
            let field = register_spec(attrs, input)->Ok_0.bits[k];
            &&& input.fields is Named
            &&& 0 <= field.index < fields.len()
            &&& field.offset == offset_at(fields, field.index as int)
            &&& field.attrs.bits == width_of(fields[field.index as int])
            &&& offset_at(fields, field.index + 1) == field.offset + field.attrs.bits
        }),
{
    let fields = input.fields->Named_0@;
    let base_bits = base_bits_of(attrs.typ)->Some_0;
    law_offsets_add_up(fields, base_bits, fields.len() as int, k);
}

/// Every field that is right and not reserved is in the layout.
pub proof fn law_every_field_placed(fields: Seq<FieldDecl>, base_bits: u32, n: int, i: int)
    requires
        0 <= i < n <= fields.len() <= usize::MAX,
        first_fault(fields, base_bits, n) is None,
        !is_reserved(fields[i]),
    ensures
        exists|k: int|
            0 <= k < placed(fields, base_bits, n).len() && (#[trigger] placed(
                fields,
                base_bits,
                n,
            )[k]).index == i,
    decreases n,
{
    let before = placed(fields, base_bits, n - 1);
    if i < n - 1 {
        law_every_field_placed(fields, base_bits, n - 1, i);
        let k = choose|k: int| 0 <= k < before.len() && (#[trigger] before[k]).index == i;
        assert(placed(fields, base_bits, n)[k].index == i);
    } else {
        assert(placed(fields, base_bits, n)[before.len() as int].index == i);
    }
}

} // verus!
