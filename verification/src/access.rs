//! The accessors of a field: which of get, set and clear its access mode
//! asks for, under what names, and what each does to the storage.

use vstd::prelude::*;
use vstd::string::*;
use crate::bits::{
    clear_bits, field_mask, law_clear_keeps_rest, law_raise_keeps_rest, law_read_after_clear,
    law_read_after_raise, law_read_after_write, law_read_ignores_rest, law_write_keeps_rest,
    low_ones, mask_of, raise_bits, read_bits, valid_span, write_bits,
};
use crate::field::{round_trips, RegisterField};
use crate::layout::{
    law_fields_share_no_bit, Conversion, ConversionView, RegBits, RegBitsView, RegisterDescriptor,
    RegisterView, ValueType,
};

verus! {

/// What an accessor does.
#[derive(Debug, Clone, Copy, PartialEq, Eq, Structural)]
pub enum Operation {
    /// Reads the field.
    Get,
    /// Writes a value into the field.
    Assign,
    /// Sets every bit of the field; it takes no value.
    Raise,
    /// Clears every bit of the field.
    Clear,
}

/// One accessor of a field, with the numbers that its code is made of.
#[derive(Debug, Clone, PartialEq, Eq)]
pub struct Accessor {
    pub name: String,
    pub op: Operation,
    /// The place of the field in the declaration, counted from zero.
    pub index: usize,
    pub offset: u32,
    pub bits: u32,
    pub mask: u32,
    pub base_bits: u32,
    /// How a get turns bits into a value, or a set a value into bits.
    pub conversion: Option<Conversion>,
}

/// What an `Accessor` holds.
pub struct AccessorView {
    pub name: Seq<char>,
    pub op: Operation,
    pub index: usize,
    pub offset: u32,
    pub bits: u32,
    pub mask: u32,
    pub base_bits: u32,
    pub conversion: Option<ConversionView>,
}

/// What a conversion that may be missing holds.
pub open spec fn conversion_view(conversion: Option<Conversion>) -> Option<ConversionView> {
    match conversion {
        Some(c) => Some(c@),
        None => None,
    }
}

impl View for Accessor {
    type V = AccessorView;

    open spec fn view(&self) -> AccessorView {
        AccessorView {
            name: self.name@,
            op: self.op,
            index: self.index,
            offset: self.offset,
            bits: self.bits,
            mask: self.mask,
            base_bits: self.base_bits,
            conversion: conversion_view(self.conversion),
        }
    }
}

impl AccessorView {
    /// Whether the numbers belong together: the field lies within the
    /// register, and the mask is that of the field.
    pub open spec fn wf(self) -> bool {
        valid_span(self.offset, self.bits, self.base_bits) && self.mask == field_mask(
            self.offset,
            self.bits,
        )
    }

    /// What the accessor reads from the storage.
    pub open spec fn reading(self, cell: u32) -> u32 {
        read_bits(cell, self.offset, self.bits)
    }

    /// What the accessor leaves in the storage. Only an assignment looks at
    /// `raw`, and a get changes nothing.
    pub open spec fn effect(self, cell: u32, raw: u32) -> u32 {
        match self.op {
            Operation::Get => cell,
            Operation::Assign => write_bits(cell, raw, self.offset, self.bits, self.base_bits),
            Operation::Raise => raise_bits(cell, self.offset, self.bits),
            Operation::Clear => clear_bits(cell, self.offset, self.bits),
        }
    }
}

/// The name of an accessor: the one that the attribute gives, else the
/// prefix and the field's name.
pub open spec fn accessor_name(given: Option<Seq<char>>, prefix: Seq<char>, ident: Seq<char>) -> Seq<
    char,
> {
    match given {
        Some(name) => name,
        None => prefix + ident,
    }
}

/// The accessor of the field `f` that does `op`.
pub open spec fn accessor_of(f: RegBitsView, op: Operation) -> AccessorView {
    AccessorView {
        name: match op {
            Operation::Get => accessor_name(f.attrs.get, "get_"@, f.ident),
            Operation::Clear => accessor_name(f.attrs.clear, "clear_"@, f.ident),
            _ => accessor_name(f.attrs.set, "set_"@, f.ident),
        },
        op,
        index: f.index,
        offset: f.offset,
        bits: f.attrs.bits,
        mask: field_mask(f.offset, f.attrs.bits),
        base_bits: f.base_bits,
        conversion: match op {
            Operation::Get => Some(f.from),
            Operation::Assign => Some(f.into),
            _ => None,
        },
    }
}

/// What the set of a field does: it raises a boolean that can also be
/// cleared, and assigns to any other field.
pub open spec fn set_operation(f: RegBitsView) -> Operation {
    if f.typ is Bool && f.attrs.access.clears() {
        Operation::Raise
    } else {
        Operation::Assign
    }
}

/// The accessors of a field: a get where the mode reads, then a set where it
/// writes, then a clear where it clears.
pub open spec fn accessors_of(f: RegBitsView) -> Seq<AccessorView> {
    let get = if f.attrs.access.reads() {
        seq![accessor_of(f, Operation::Get)]
    } else {
        Seq::empty()
    };
    let set = if f.attrs.access.writes() {
        seq![accessor_of(f, set_operation(f))]
    } else {
        Seq::empty()
    };
    let clear = if f.attrs.access.clears() {
        seq![accessor_of(f, Operation::Clear)]
    } else {
        Seq::empty()
    };
    get + set + clear
}

/// What a list of accessors holds.
pub open spec fn accessor_views(list: Seq<Accessor>) -> Seq<AccessorView> {
    Seq::new(list.len(), |k: int| list[k]@)
}

/// The accessors of the first `n` fields, one field after the other.
pub open spec fn accessors_upto(fields: Seq<RegBitsView>, n: int) -> Seq<AccessorView>
    decreases n,
{
    if n <= 0 {
        Seq::empty()
    } else {
        accessors_upto(fields, n - 1) + accessors_of(fields[n - 1])
    }
}

/// The name of an accessor.
fn pick_name(given: &Option<String>, prefix: &str, ident: &String) -> (name: String)
    ensures
        name@ == accessor_name(crate::attrs::name_view(*given), prefix@, ident@),
{
    match given {
        Some(name) => name.clone(),
        None => String::from_str(prefix).concat(ident.as_str()),
    }
}

impl RegBits {
    /// Makes the accessor of the field that does `op`.
    fn accessor(&self, op: Operation) -> (a: Accessor)
        requires
            self@.fits(),
        ensures
            a@ == accessor_of(self@, op),
            a@.wf(),
    {
        let name = match op {
            Operation::Get => pick_name(&self.attrs.get, "get_", &self.ident),
            Operation::Clear => pick_name(&self.attrs.clear, "clear_", &self.ident),
            _ => pick_name(&self.attrs.set, "set_", &self.ident),
        };
        let conversion = match op {
            Operation::Get => Some(self.from.duplicate()),
            Operation::Assign => Some(self.into.duplicate()),
            _ => None,
        };
        Accessor {
            name,
            op,
            index: self.index,
            offset: self.offset,
            bits: self.attrs.bits,
            mask: mask_of(self.offset, self.attrs.bits),
            base_bits: self.base_bits,
            conversion,
        }
    }

    /// The accessors of the field, as its access mode asks for them.
    ///
    /// A boolean field that can be written and cleared gets a set that takes
    /// no value and sets the bit.
    pub fn to_accessors(&self) -> (list: Vec<Accessor>)
        requires
            self@.fits(),
        ensures
            accessor_views(list@) == accessors_of(self@),
            forall|k: int| 0 <= k < list@.len() ==> (#[trigger] list@[k])@.wf(),
    {
        let mut list: Vec<Accessor> = Vec::new();
        if self.attrs.access.can_read() {
            list.push(self.accessor(Operation::Get));
        }
        if self.attrs.access.can_write() {
            let is_bool = match self.typ {
                ValueType::Bool => true,
                _ => false,
            };
            if is_bool && self.attrs.access.can_clear() {
                list.push(self.accessor(Operation::Raise));
            } else {
                list.push(self.accessor(Operation::Assign));
            }
        }
        if self.attrs.access.can_clear() {
            list.push(self.accessor(Operation::Clear));
        }
        assert(accessor_views(list@) =~= accessors_of(self@));
        list
    }
}

impl RegisterDescriptor {
    /// The accessors of the register: those of its fields, in their order.
    pub fn accessors(&self) -> (list: Vec<Accessor>)
        requires
            self@.wf(),
        ensures
            accessor_views(list@) == accessors_upto(self@.bits, self@.bits.len() as int),
            forall|k: int| 0 <= k < list@.len() ==> (#[trigger] list@[k])@.wf(),
    {
        let mut list: Vec<Accessor> = Vec::new();
        let mut i: usize = 0;
        while i < self.bits.len()
            invariant
                self@.wf(),
                i <= self.bits@.len(),
                accessor_views(list@) == accessors_upto(self@.bits, i as int),
                forall|k: int| 0 <= k < list@.len() ==> (#[trigger] list@[k])@.wf(),
            decreases self.bits.len() - i,
        {
            assert(self@.bits[i as int] == self.bits@[i as int]@);
            let mut more = self.bits[i].to_accessors();
            let ghost before = list@;
            let ghost added = more@;
            list.append(&mut more);
            assert(accessor_views(list@) =~= accessor_views(before) + accessor_views(added));
            i = i + 1;
        }
        list
    }
}

impl Accessor {
    /// The bits of the field: `(cell & mask) >> offset`.
    pub fn read(&self, cell: u32) -> (raw: u32)
        requires
            self@.wf(),
        ensures
            raw == self@.reading(cell),
    {
        (cell & self.mask) >> self.offset
    }

    /// The storage after the accessor has run: a set leaves `(cell & !mask) |
    /// (raw << offset)`, a set without a value `cell | mask`, a clear `cell &
    /// !mask`, and a get the storage as it was.
    pub fn apply(&self, cell: u32, raw: u32) -> (next: u32)
        requires
            self@.wf(),
        ensures
            next == self@.effect(cell, raw),
    {
        match self.op {
            Operation::Get => cell,
            Operation::Assign => {
                let base_bits = self.base_bits;
                let base_mask: u32 = u32::MAX >> (32 - base_bits);
                assert(0xffff_ffffu32 >> ((32 - base_bits) as u32) == low_ones(base_bits))
                    by (bit_vector)
                    requires
                        1 <= base_bits <= 32,
                ;
                (cell & !self.mask) | ((raw << self.offset) & base_mask)
            },
            Operation::Raise => cell | self.mask,
            Operation::Clear => cell & !self.mask,
        }
    }

    /// Reads the field as a value of `T`.
    pub fn get<T: RegisterField>(&self, cell: u32) -> (value: T)
        requires
            self@.wf(),
            T::decoded(self@.reading(cell)) is Some,
        ensures
            T::decoded(self@.reading(cell)) == Some(value),
    {
        T::from_bits(self.read(cell))
    }

    /// Runs the accessor with a value of `T`.
    pub fn set<T: RegisterField>(&self, cell: u32, value: T) -> (next: u32)
        requires
            self@.wf(),
        ensures
            next == self@.effect(cell, value.code()),
    {
        self.apply(cell, value.into_bits())
    }
}

/// Read after write: a field that is read and written has a get and a set
/// that takes a value; what the set has written the get reads back as the
/// same value, where the value comes back from its own code and the code
/// fits the field.
pub proof fn law_get_after_set<T: RegisterField>(f: RegBitsView, cell: u32, value: T)
    requires
        f.fits(),
        f.attrs.access.reads(),
        f.attrs.access.writes(),
        set_operation(f) is Assign,
        round_trips(value),
        value.code() <= low_ones(f.attrs.bits),
    ensures
        ({
            let get = accessor_of(f, Operation::Get);
            let set = accessor_of(f, Operation::Assign);
            &&& accessors_of(f).contains(get)
            &&& accessors_of(f).contains(set)
            &&& get.reading(set.effect(cell, value.code())) == value.code()
            &&& T::decoded(get.reading(set.effect(cell, value.code()))) == Some(value)
        }),
{
    let list = accessors_of(f);
    assert(list[0] == accessor_of(f, Operation::Get));
    assert(list[1] == accessor_of(f, Operation::Assign));
    law_read_after_write(cell, value.code(), f.offset, f.attrs.bits, f.base_bits);
}

/// Clear: a field that can be cleared has a clear; after it, whatever it is
/// handed, a get of the field reads zero, which is `false` for a boolean and
/// 0 for an unsigned integer.
pub proof fn law_get_after_clear(f: RegBitsView, cell: u32, raw: u32)
    requires
        f.fits(),
        f.attrs.access.clears(),
    ensures
        ({
            let get = accessor_of(f, Operation::Get);
            let clear = accessor_of(f, Operation::Clear);
            &&& accessors_of(f).contains(clear)
            &&& clear.effect(cell, raw) == cell & !clear.mask
            &&& get.reading(clear.effect(cell, raw)) == 0
            &&& bool::decoded(0) == Some(false)
            &&& u8::decoded(0) == Some(0u8)
            &&& u16::decoded(0) == Some(0u16)
            &&& u32::decoded(0) == Some(0u32)
        }),
{
    let list = accessors_of(f);
    assert(list[list.len() - 1] == accessor_of(f, Operation::Clear));
    law_read_after_clear(cell, f.offset, f.attrs.bits, f.base_bits);
    assert(0u32 & 0xff == 0) by (bit_vector);
    assert(0u32 & 0xffff == 0) by (bit_vector);
}

/// Set flag: a boolean field that can be written and cleared has a set that
/// takes no value. Whatever it is handed, it leaves every bit of the field
/// at one.
pub proof fn law_set_flag(f: RegBitsView, cell: u32, raw: u32)
    requires
        f.fits(),
        f.typ is Bool,
        f.attrs.access.writes(),
        f.attrs.access.clears(),
    ensures
        ({
            let set = accessor_of(f, Operation::Raise);
            &&& accessors_of(f).contains(set)
            &&& forall|k: int| 0 <= k < accessors_of(f).len() ==> !(accessors_of(f)[k].op is Assign)
            &&& set.effect(cell, raw) == cell | set.mask
            &&& set.reading(set.effect(cell, raw)) == low_ones(f.attrs.bits)
        }),
{
    let list = accessors_of(f);
    let set = accessor_of(f, Operation::Raise);
    law_read_after_raise(cell, f.offset, f.attrs.bits, f.base_bits);
    if f.attrs.access.reads() {
        assert(list[1] == set);
    } else {
        assert(list[0] == set);
    }
}

/// No accessor of one field changes what another field of the register
/// holds: not a clear, not a set without a value, and not a set of bits that
/// fit the field.
pub proof fn law_other_fields_keep(register: RegisterView, j: int, k: int, op: Operation, cell: u32, raw: u32)
    requires
        register.wf(),
        0 <= j < register.bits.len(),
        0 <= k < register.bits.len(),
        j != k,
        op is Assign ==> raw <= low_ones(register.bits[j].attrs.bits),
    ensures
        accessor_of(register.bits[k], Operation::Get).reading(
            accessor_of(register.bits[j], op).effect(cell, raw),
        ) == accessor_of(register.bits[k], Operation::Get).reading(cell),
{
    let f = register.bits[j];
    let g = register.bits[k];
    let next = accessor_of(f, op).effect(cell, raw);
    assert(f.fits() && g.fits());
    law_fields_share_no_bit(register, k, j);
    match op {
        Operation::Get => {},
        Operation::Assign => {
            law_write_keeps_rest(cell, raw, f.offset, f.attrs.bits, f.base_bits);
        },
        Operation::Raise => {
            law_raise_keeps_rest(cell, f.offset, f.attrs.bits);
        },
        Operation::Clear => {
            law_clear_keeps_rest(cell, f.offset, f.attrs.bits);
        },
    }
    law_read_ignores_rest(cell, next, g.offset, g.attrs.bits, f.offset, f.attrs.bits);
}

} // verus!
