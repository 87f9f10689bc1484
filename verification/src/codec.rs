//! The codec of an enumeration: a code for every variant, in the order of
//! declaration, and the way back from a code to its variant.

use vstd::prelude::*;
use crate::error::DeriveError;
use crate::token::{Token, TokenView};

verus! {

/// The expression that gives a variant its code.
#[derive(Debug, Clone, PartialEq, Eq)]
pub enum Expr {
    /// One literal.
    Lit(Token),
    /// Anything else.
    Other,
}

impl Expr {
    /// The code that the expression gives: the value of an integer literal.
    pub open spec fn code(self) -> Option<u32> {
        match self {
            Expr::Lit(token) => match token@ {
                TokenView::Literal { value, .. } => value,
                _ => None,
            },
            Expr::Other => None,
        }
    }

    /// The code that the expression gives, where it gives one.
    pub fn to_code(&self) -> (r: Option<u32>)
        ensures
            r == self.code(),
    {
        match self {
            Expr::Lit(Token::Literal { value, .. }) => *value,
            _ => None,
        }
    }
}

/// One variant as it is declared: its name and, where one is written, the
/// expression for its code.
#[derive(Debug, Clone, PartialEq, Eq)]
pub struct VariantDecl {
    pub ident: String,
    pub discriminant: Option<Expr>,
}

/// What kind of item a declaration is.
#[derive(Debug, Clone, PartialEq, Eq)]
pub enum Data {
    Enum(Vec<VariantDecl>),
    Struct,
    Union,
}

/// An item as it is declared.
#[derive(Debug, Clone, PartialEq, Eq)]
pub struct ItemDecl {
    pub ident: String,
    pub data: Data,
}

/// The code that follows the codes given so far: zero at the start, else one
/// more than the last.
pub open spec fn next_code(codes: Seq<u32>) -> int {
    if codes.len() == 0 {
        0
    } else {
        codes.last() + 1
    }
}

/// The codes of the first `n` variants. A variant with an expression gets the
/// value of that expression, which has to be an integer literal; one without
/// gets the next code. The first variant that cannot get a code is the error.
pub open spec fn codes_of(variants: Seq<VariantDecl>, n: int) -> Result<Seq<u32>, DeriveError>
    decreases n,
{
    if n <= 0 {
        Ok(Seq::empty())
    } else {
        match codes_of(variants, n - 1) {
            Err(e) => Err(e),
            Ok(codes) => match variants[n - 1].discriminant {
                Some(expr) => match expr.code() {
                    Some(code) => Ok(codes.push(code)),
                    None => Err(DeriveError::NotAnIntegerLiteral { variant: (n - 1) as usize }),
                },
                None => if next_code(codes) <= u32::MAX {
                    Ok(codes.push(next_code(codes) as u32))
                } else {
                    Err(DeriveError::CodeOverflow { variant: (n - 1) as usize })
                },
            },
        }
    }
}

/// The names of the variants.
pub open spec fn names_of(variants: Seq<VariantDecl>) -> Seq<Seq<char>> {
    Seq::new(variants.len(), |i: int| variants[i].ident@)
}

/// The first place from `from` on at which `codes` holds `value`.
pub open spec fn position_from(codes: Seq<u32>, value: u32, from: int) -> Option<int>
    decreases codes.len() - from,
{
    if from < 0 || from >= codes.len() {
        None
    } else if codes[from] == value {
        Some(from)
    } else {
        position_from(codes, value, from + 1)
    }
}

/// The variant that a code decodes to: the first one that has the code.
pub open spec fn decode(codes: Seq<u32>, value: u32) -> Option<int> {
    position_from(codes, value, 0)
}

/// One arm of the decoder: a variant and its code.
#[derive(Debug, Clone, PartialEq, Eq)]
pub struct MatchEntry {
    pub variant: String,
    pub discriminant: u32,
}

impl MatchEntry {
    /// The arm for `variant` with the code `discriminant`.
    pub fn new(variant: String, discriminant: u32) -> (entry: MatchEntry)
        ensures
            entry.variant == variant,
            entry.discriminant == discriminant,
    {
        MatchEntry { variant, discriminant }
    }
}

/// The codec of one enumeration: an entry for every variant, in the order of
/// declaration.
#[derive(Debug, Clone, PartialEq, Eq)]
pub struct Codec {
    pub ident: String,
    pub entries: Vec<MatchEntry>,
}

/// What a `Codec` holds.
pub struct CodecView {
    pub ident: Seq<char>,
    pub names: Seq<Seq<char>>,
    pub codes: Seq<u32>,
}

impl View for Codec {
    type V = CodecView;

    open spec fn view(&self) -> CodecView {
        CodecView {
            ident: self.ident@,
            names: Seq::new(self.entries@.len(), |i: int| self.entries@[i].variant@),
            codes: Seq::new(self.entries@.len(), |i: int| self.entries@[i].discriminant),
        }
    }
}

/// The codec of an item: that of its variants, where it is an enumeration.
pub open spec fn derive_spec(item: ItemDecl) -> Result<CodecView, DeriveError> {
    match item.data {
        Data::Struct => Err(DeriveError::Struct),
        Data::Union => Err(DeriveError::Union),
        Data::Enum(variants) => match codes_of(variants@, variants@.len() as int) {
            Ok(codes) => Ok(CodecView { ident: item.ident@, names: names_of(variants@), codes }),
            Err(e) => Err(e),
        },
    }
}

/// What the derivation gives, with the codec taken by what it holds.
pub open spec fn derived(r: Result<Codec, DeriveError>) -> Result<CodecView, DeriveError> {
    match r {
        Ok(codec) => Ok(codec@),
        Err(e) => Err(e),
    }
}

/// `codes_of` gives as many codes as it is asked for.
pub proof fn lemma_codes_len(variants: Seq<VariantDecl>, n: int)
    requires
        0 <= n,
    ensures
        codes_of(variants, n) matches Ok(codes) ==> codes.len() == n,
    decreases n,
{
    if n > 0 {
        lemma_codes_len(variants, n - 1);
    }
}

/// The codes of fewer variants are the first of the codes of more.
pub proof fn lemma_codes_prefix(variants: Seq<VariantDecl>, m: int, n: int)
    requires
        0 <= m <= n,
        codes_of(variants, n) is Ok,
    ensures
        codes_of(variants, m) matches Ok(codes) && codes =~= codes_of(variants, n)->Ok_0.subrange(0, m),
    decreases n - m,
{
    lemma_codes_len(variants, n);
    if m < n {
        lemma_codes_len(variants, n - 1);
        lemma_codes_prefix(variants, m, n - 1);
    }
}

/// Once a variant cannot get a code, more variants change nothing.
pub proof fn lemma_codes_error_stays(variants: Seq<VariantDecl>, m: int, n: int)
    requires
        0 <= m <= n,
        codes_of(variants, m) is Err,
    ensures
        codes_of(variants, n) == codes_of(variants, m),
    decreases n - m,
{
    if m < n {
        lemma_codes_error_stays(variants, m, n - 1);
    }
}

/// Derives the codec of an enumeration.
///
/// The codes run from zero in the order of declaration. A variant with an
/// integer literal gets the value of the literal, and the count goes on from
/// there.
pub fn derive_register_field(item: &ItemDecl) -> (r: Result<Codec, DeriveError>)
    ensures
        derived(r) == derive_spec(*item),
{
    let variants = match &item.data {
        Data::Enum(variants) => variants,
        Data::Struct => {
            return Err(DeriveError::Struct);
        },
        Data::Union => {
            return Err(DeriveError::Union);
        },
    };
    let mut entries: Vec<MatchEntry> = Vec::new();
    let mut last: Option<u32> = None;
    let ghost mut codes: Seq<u32> = Seq::empty();
    let mut i: usize = 0;
    while i < variants.len()
        invariant
            item.data == Data::Enum(*variants),
            i <= variants.len(),
            codes_of(variants@, i as int) == Ok::<Seq<u32>, DeriveError>(codes),
            codes.len() == i,
            entries@.len() == i,
            forall|j: int| 0 <= j < i ==> (#[trigger] entries@[j]).discriminant == codes[j],
            forall|j: int| 0 <= j < i ==> (#[trigger] entries@[j]).variant@ == variants@[j].ident@,
            last == if i == 0 { None::<u32> } else { Some(codes.last()) },
        decreases variants.len() - i,
    {
        let variant = &variants[i];
        let code: u32 = match &variant.discriminant {
            Some(expr) => match expr.to_code() {
                Some(code) => code,
                None => {
                    proof {
                        lemma_codes_error_stays(variants@, i + 1, variants@.len() as int);
                    }
                    return Err(DeriveError::NotAnIntegerLiteral { variant: i });
                },
            },
            None => match last {
                None => 0,
                Some(code) => if code < u32::MAX {
                    code + 1
                } else {
                    proof {
                        lemma_codes_error_stays(variants@, i + 1, variants@.len() as int);
                    }
                    return Err(DeriveError::CodeOverflow { variant: i });
                },
            },
        };
        entries.push(MatchEntry::new(variant.ident.clone(), code));
        last = Some(code);
        proof {
            codes = codes.push(code);
        }
        i = i + 1;
    }
    let codec = Codec { ident: item.ident.clone(), entries };
    assert(codec@.codes =~= codes);
    assert(codec@.names =~= names_of(variants@));
    Ok(codec)
}

impl Codec {
    /// Encodes the variant at `state`.
    pub fn into_bits(&self, state: usize) -> (bits: u32)
        requires
            state < self@.codes.len(),
        ensures
            bits == self@.codes[state as int],
    {
        self.entries[state].discriminant
    }

    /// The variant that `value` decodes to, where it is the code of one.
    pub fn find(&self, value: u32) -> (r: Option<usize>)
        ensures
            match r {
                Some(state) => decode(self@.codes, value) == Some(state as int),
                None => decode(self@.codes, value) is None,
            },
    {
        let mut i: usize = 0;
        while i < self.entries.len()
            invariant
                i <= self.entries@.len(),
                self@.codes.len() == self.entries@.len(),
                decode(self@.codes, value) == position_from(self@.codes, value, i as int),
            decreases self.entries.len() - i,
        {
            if self.entries[i].discriminant == value {
                return Some(i);
            }
            i = i + 1;
        }
        None
    }

    /// Decodes a declared code. An undeclared code has no variant: `find`
    /// tells the two apart.
    pub fn from_bits(&self, value: u32) -> (state: usize)
        requires
            decode(self@.codes, value) is Some,
        ensures
            decode(self@.codes, value) == Some(state as int),
    {
        match self.find(value) {
            Some(state) => state,
            None => 0,
        }
    }
}

/// `position_from` gives the first place at or after `from` that holds the
/// value, and `None` where no such place is.
pub proof fn lemma_position_is_first(codes: Seq<u32>, value: u32, from: int)
    requires
        0 <= from,
    ensures
        match position_from(codes, value, from) {
            Some(at) => from <= at < codes.len() && codes[at] == value && forall|j: int|
                from <= j < at ==> codes[j] != value,
            None => forall|j: int| from <= j < codes.len() ==> codes[j] != value,
        },
    decreases codes.len() - from,
{
    if from < codes.len() && codes[from] != value {
        lemma_position_is_first(codes, value, from + 1);
    }
}

/// Round trip: a variant's code decodes to that variant, unless an earlier
/// variant has the same code.
pub proof fn law_round_trip(codes: Seq<u32>, state: int)
    requires
        0 <= state < codes.len(),
        forall|j: int| 0 <= j < state ==> codes[j] != codes[state],
    ensures
        decode(codes, codes[state]) == Some(state),
{
    lemma_position_is_first(codes, codes[state], 0);
}

/// Decoding gives a variant that has the code, where any has it.
pub proof fn law_decode_is_inverse(codes: Seq<u32>, value: u32)
    ensures
        match decode(codes, value) {
            Some(state) => 0 <= state < codes.len() && codes[state] == value,
            None => !codes.contains(value),
        },
{
    lemma_position_is_first(codes, value, 0);
}

/// How one code comes about: from the variant's own expression, or from the
/// code before it.
pub proof fn lemma_code_step(variants: Seq<VariantDecl>, n: int, i: int)
    requires
        0 <= i < n,
        codes_of(variants, n) is Ok,
    ensures
        ({
            let codes = codes_of(variants, n)->Ok_0;
            &&& codes.len() == n
            &&& match variants[i].discriminant {
                Some(expr) => expr.code() == Some(codes[i]),
                None => codes[i] == if i == 0 { 0 } else { codes[i - 1] + 1 },
            }
        }),
{
    lemma_codes_len(variants, n);
    lemma_codes_prefix(variants, i + 1, n);
    lemma_codes_prefix(variants, i, n);
    lemma_codes_len(variants, i);
    lemma_codes_len(variants, i + 1);
    let all = codes_of(variants, n)->Ok_0;
    let before = codes_of(variants, i)->Ok_0;
    let upto = codes_of(variants, i + 1)->Ok_0;
    assert(upto[i] == all[i]);
    assert(codes_of(variants, i + 1 - 1) == Ok::<Seq<u32>, DeriveError>(before));
    if i > 0 {
        assert(before.last() == all[i - 1]);
    }
}

/// With no code written, the variants get 0, 1, 2 and so on.
pub proof fn lemma_sequential_codes(variants: Seq<VariantDecl>, n: int, i: int)
    requires
        0 <= i < n,
        codes_of(variants, n) is Ok,
        forall|j: int| 0 <= j <= i ==> (#[trigger] variants[j]).discriminant is None,
    ensures
        codes_of(variants, n)->Ok_0[i] == i,
    decreases i,
{
    lemma_code_step(variants, n, i);
    if i > 0 {
        lemma_sequential_codes(variants, n, i - 1);
    }
}

/// Injectivity: where no variant has a code written, two variants never
/// share a code.
pub proof fn law_sequential_codes_distinct(variants: Seq<VariantDecl>, a: int, b: int)
    requires
        codes_of(variants, variants.len() as int) is Ok,
        forall|j: int| 0 <= j < variants.len() ==> (#[trigger] variants[j]).discriminant is None,
        0 <= a < variants.len(),
        0 <= b < variants.len(),
        a != b,
    ensures
        codes_of(variants, variants.len() as int)->Ok_0[a] != codes_of(
            variants,
            variants.len() as int,
        )->Ok_0[b],
{
    lemma_sequential_codes(variants, variants.len() as int, a);
    lemma_sequential_codes(variants, variants.len() as int, b);
}

/// Round trip, where no variant has a code written: every variant comes
/// back from its code.
pub proof fn law_sequential_round_trip(variants: Seq<VariantDecl>, state: int)
    requires
        codes_of(variants, variants.len() as int) is Ok,
        forall|j: int| 0 <= j < variants.len() ==> (#[trigger] variants[j]).discriminant is None,
        0 <= state < variants.len(),
    ensures
        ({
            let codes = codes_of(variants, variants.len() as int)->Ok_0;
            decode(codes, codes[state]) == Some(state)
        }),
{
    let n = variants.len() as int;
    let codes = codes_of(variants, n)->Ok_0;
    lemma_codes_len(variants, n);
    assert forall|j: int| 0 <= j < state implies codes[j] != codes[state] by {
        law_sequential_codes_distinct(variants, j, state);
    }
    law_round_trip(codes, state);
}

/// Resumption: after a variant with the code `k` written, the variants
/// without one get `k + 1`, `k + 2` and so on, in their order.
pub proof fn law_explicit_code_resumes(variants: Seq<VariantDecl>, at: int, count: int)
    requires
        codes_of(variants, variants.len() as int) is Ok,
        0 <= at,
        0 <= count,
        at + count < variants.len(),
        variants[at].discriminant is Some,
        forall|j: int| at < j <= at + count ==> (#[trigger] variants[j]).discriminant is None,
    ensures
        Some(codes_of(variants, variants.len() as int)->Ok_0[at]) == variants[at].discriminant->Some_0.code(),
        codes_of(variants, variants.len() as int)->Ok_0[at + count] == codes_of(
            variants,
            variants.len() as int,
        )->Ok_0[at] + count,
    decreases count,
{
    lemma_code_step(variants, variants.len() as int, at + count);
    if count > 0 {
        law_explicit_code_resumes(variants, at, count - 1);
    } else {
        lemma_code_step(variants, variants.len() as int, at);
    }
}

} // verus!
