//! The language of a field's attribute: a width, an access mode, names for
//! the accessors and paths of conversion functions.

use vstd::prelude::*;
use crate::error::{AttrError, AttrErrorKind};
use crate::token::{
    accepted_as_path, copy_tokens, lemma_render_step, parses_as_path, render, same_text,
    token_views, PathRef, PathRefView, Token, TokenView,
};

verus! {

/// Which of get, set and clear a field offers.
#[derive(Debug, Clone, Copy, PartialEq, Eq, Structural)]
pub enum AccessMode {
    /// `r`
    Read,
    /// `w`
    Write,
    /// `rw`
    ReadWrite,
    /// `rwc`
    ReadWriteClear,
    /// `rc`
    ReadClear,
    /// `wc`
    WriteClear,
}

/// The access mode that a word names.
pub open spec fn access_mode_of(text: Seq<char>) -> Option<AccessMode> {
    if text == "r"@ {
        Some(AccessMode::Read)
    } else if text == "rw"@ {
        Some(AccessMode::ReadWrite)
    } else if text == "rwc"@ {
        Some(AccessMode::ReadWriteClear)
    } else if text == "rc"@ {
        Some(AccessMode::ReadClear)
    } else if text == "w"@ {
        Some(AccessMode::Write)
    } else if text == "wc"@ {
        Some(AccessMode::WriteClear)
    } else {
        None
    }
}

impl AccessMode {
    /// Whether the mode holds `r`.
    pub open spec fn reads(self) -> bool {
        self is Read || self is ReadWrite || self is ReadWriteClear || self is ReadClear
    }

    /// Whether the mode holds `w`.
    pub open spec fn writes(self) -> bool {
        self is Write || self is ReadWrite || self is ReadWriteClear || self is WriteClear
    }

    /// Whether the mode holds `c`.
    pub open spec fn clears(self) -> bool {
        self is ReadWriteClear || self is ReadClear || self is WriteClear
    }

    /// Whether a get accessor is made.
    pub fn can_read(&self) -> (r: bool)
        ensures
            r == self.reads(),
    {
        match self {
            AccessMode::Read | AccessMode::ReadWrite | AccessMode::ReadWriteClear | AccessMode::ReadClear => true,
            _ => false,
        }
    }

    /// Whether a set accessor is made.
    pub fn can_write(&self) -> (r: bool)
        ensures
            r == self.writes(),
    {
        match self {
            AccessMode::Write | AccessMode::ReadWrite | AccessMode::ReadWriteClear | AccessMode::WriteClear => true,
            _ => false,
        }
    }

    /// Whether a clear accessor is made.
    pub fn can_clear(&self) -> (r: bool)
        ensures
            r == self.clears(),
    {
        match self {
            AccessMode::ReadWriteClear | AccessMode::ReadClear | AccessMode::WriteClear => true,
            _ => false,
        }
    }

    /// Reads an access mode: one of `r`, `rw`, `rwc`, `rc`, `w`, `wc`.
    pub fn from_text(text: &str) -> (r: Option<AccessMode>)
        ensures
            r == access_mode_of(text@),
    {
        if same_text(text, "r") {
            Some(AccessMode::Read)
        } else if same_text(text, "rw") {
            Some(AccessMode::ReadWrite)
        } else if same_text(text, "rwc") {
            Some(AccessMode::ReadWriteClear)
        } else if same_text(text, "rc") {
            Some(AccessMode::ReadClear)
        } else if same_text(text, "w") {
            Some(AccessMode::Write)
        } else if same_text(text, "wc") {
            Some(AccessMode::WriteClear)
        } else {
            None
        }
    }
}

/// What a field's attribute says.
#[derive(Debug, Clone, PartialEq, Eq)]
pub struct RegBitsAttrs {
    /// The width of the field, in bits.
    pub bits: u32,
    /// Which accessors the field offers.
    pub access: AccessMode,
    /// The name of the get accessor, where the attribute gives one.
    pub get: Option<String>,
    /// The name of the set accessor, where the attribute gives one.
    pub set: Option<String>,
    /// The name of the clear accessor, where the attribute gives one.
    pub clear: Option<String>,
    /// The function that turns bits into a value, where the attribute gives one.
    pub from: Option<PathRef>,
    /// The function that turns a value into bits, where the attribute gives one.
    pub into: Option<PathRef>,
}

/// What a `RegBitsAttrs` holds.
pub struct RegBitsAttrsView {
    pub bits: u32,
    pub access: AccessMode,
    pub get: Option<Seq<char>>,
    pub set: Option<Seq<char>>,
    pub clear: Option<Seq<char>>,
    pub from: Option<PathRefView>,
    pub into: Option<PathRefView>,
}

/// The text of a name that may be missing.
pub open spec fn name_view(name: Option<String>) -> Option<Seq<char>> {
    match name {
        Some(s) => Some(s@),
        None => None,
    }
}

/// What a path that may be missing holds.
pub open spec fn path_view(path: Option<PathRef>) -> Option<PathRefView> {
    match path {
        Some(p) => Some(p@),
        None => None,
    }
}

impl View for RegBitsAttrs {
    type V = RegBitsAttrsView;

    open spec fn view(&self) -> RegBitsAttrsView {
        RegBitsAttrsView {
            bits: self.bits,
            access: self.access,
            get: name_view(self.get),
            set: name_view(self.set),
            clear: name_view(self.clear),
            from: path_view(self.from),
            into: path_view(self.into),
        }
    }
}

/// The keys that take a value.
#[derive(Debug, Clone, Copy, PartialEq, Eq, Structural)]
pub enum Key {
    /// `get`: the name of the get accessor.
    Getter,
    /// `set`: the name of the set accessor.
    Setter,
    /// `clear`: the name of the clear accessor.
    Clearer,
    /// `from`: the function that turns bits into a value.
    Decode,
    /// `into`: the function that turns a value into bits.
    Encode,
}

/// The key that a word names.
pub open spec fn key_of(text: Seq<char>) -> Option<Key> {
    if text == "get"@ {
        Some(Key::Getter)
    } else if text == "set"@ {
        Some(Key::Setter)
    } else if text == "clear"@ {
        Some(Key::Clearer)
    } else if text == "from"@ {
        Some(Key::Decode)
    } else if text == "into"@ {
        Some(Key::Encode)
    } else {
        None
    }
}

impl Key {
    /// Reads a key: one of `get`, `set`, `clear`, `from`, `into`.
    pub fn from_text(text: &str) -> (r: Option<Key>)
        ensures
            r == key_of(text@),
    {
        if same_text(text, "get") {
            Some(Key::Getter)
        } else if same_text(text, "set") {
            Some(Key::Setter)
        } else if same_text(text, "clear") {
            Some(Key::Clearer)
        } else if same_text(text, "from") {
            Some(Key::Decode)
        } else if same_text(text, "into") {
            Some(Key::Encode)
        } else {
            None
        }
    }

    /// Whether the value of the key is a path; else it is a name.
    pub open spec fn takes_path(self) -> bool {
        self is Decode || self is Encode
    }
}

impl RegBitsAttrsView {
    /// What holds of a field without an attribute: one bit, read and write.
    pub open spec fn initial() -> RegBitsAttrsView {
        RegBitsAttrsView {
            bits: 1,
            access: AccessMode::ReadWrite,
            get: None,
            set: None,
            clear: None,
            from: None,
            into: None,
        }
    }

    /// The same with another name for an accessor.
    pub open spec fn with_name(self, key: Key, name: Seq<char>) -> RegBitsAttrsView {
        match key {
            Key::Getter => RegBitsAttrsView { get: Some(name), ..self },
            Key::Setter => RegBitsAttrsView { set: Some(name), ..self },
            Key::Clearer => RegBitsAttrsView { clear: Some(name), ..self },
            _ => self,
        }
    }

    /// The same with another conversion function.
    pub open spec fn with_path(self, key: Key, path: PathRefView) -> RegBitsAttrsView {
        match key {
            Key::Decode => RegBitsAttrsView { from: Some(path), ..self },
            Key::Encode => RegBitsAttrsView { into: Some(path), ..self },
            _ => self,
        }
    }
}

/// The error of kind `kind` at the token `at`.
pub open spec fn fault(kind: AttrErrorKind, at: int) -> AttrError {
    AttrError { kind, at: at as usize }
}

/// How far the path reaches that starts at `pos`, looked for up to `end`: the
/// longest run of tokens from `pos` on that `syn` reads as one path.
pub open spec fn reach_upto(tokens: Seq<TokenView>, pos: int, end: int) -> Option<usize>
    decreases end - pos,
{
    if pos < 0 || end <= pos || end > tokens.len() {
        None
    } else if accepted_as_path(render(tokens.subrange(pos, end))) {
        Some(end as usize)
    } else {
        reach_upto(tokens, pos, end - 1)
    }
}

/// How far the path reaches that starts at each place.
pub open spec fn reaches_of(tokens: Seq<TokenView>) -> Seq<Option<usize>> {
    Seq::new(tokens.len(), |pos: int| reach_upto(tokens, pos, tokens.len() as int))
}

/// The payload of an attribute: its tokens and, for every place in them,
/// where the path ends that starts there, if one does.
///
/// `Payload::new` asks `syn` for the ends; the parser goes by what stands
/// here.
#[derive(Debug, Clone, PartialEq, Eq)]
pub struct Payload {
    pub tokens: Vec<Token>,
    pub reach: Vec<Option<usize>>,
}

/// What a `Payload` holds.
pub struct PayloadView {
    pub tokens: Seq<TokenView>,
    pub reach: Seq<Option<usize>>,
}

impl View for Payload {
    type V = PayloadView;

    open spec fn view(&self) -> PayloadView {
        PayloadView { tokens: token_views(self.tokens@), reach: self.reach@ }
    }
}

/// The name at `pos`: the text of a word that is no keyword.
pub open spec fn name_at(tokens: Seq<TokenView>, pos: int) -> Option<Seq<char>> {
    if 0 <= pos < tokens.len() {
        match tokens[pos] {
            TokenView::Ident { text, plain } => if plain { Some(text) } else { None },
            _ => None,
        }
    } else {
        None
    }
}

/// Whether the punctuation `ch` stands at `pos`.
pub open spec fn punct_at(tokens: Seq<TokenView>, pos: int, ch: char) -> bool {
    0 <= pos < tokens.len() && tokens[pos].is_punct(ch)
}

impl PayloadView {
    /// Where the path ends that starts at `pos`: behind at least one token,
    /// and within the payload.
    pub open spec fn path_end(self, pos: int) -> Option<int> {
        if 0 <= pos < self.reach.len() {
            match self.reach[pos] {
                Some(end) => if pos < end <= self.tokens.len() {
                    Some(end as int)
                } else {
                    None
                },
                None => None,
            }
        } else {
            None
        }
    }

    /// The path from `pos` up to `end`, as it is written.
    pub open spec fn path(self, pos: int, end: int) -> PathRefView {
        PathRefView { tokens: self.tokens.subrange(pos, end) }
    }
}

/// The parts of a payload from `pos` on, each led by a comma, applied in
/// their order to what the parts before them said.
pub open spec fn parse_items(p: PayloadView, pos: int, said: RegBitsAttrsView) -> Result<
    RegBitsAttrsView,
    AttrError,
>
    decreases p.tokens.len() - pos,
{
    if pos < 0 || pos >= p.tokens.len() {
        Ok(said)
    } else if !punct_at(p.tokens, pos, ',') {
        Err(fault(AttrErrorKind::ExpectedComma, pos))
    } else {
        match name_at(p.tokens, pos + 1) {
            None => Err(fault(AttrErrorKind::ExpectedIdent, pos + 1)),
            Some(word) => match access_mode_of(word) {
                Some(access) => parse_items(p, pos + 2, RegBitsAttrsView { access, ..said }),
                None => match key_of(word) {
                    None => if punct_at(p.tokens, pos + 2, '=') {
                        Err(fault(AttrErrorKind::UnknownKey, pos + 1))
                    } else {
                        Err(fault(AttrErrorKind::UnknownAccessMode, pos + 1))
                    },
                    Some(key) => if !punct_at(p.tokens, pos + 2, '=') {
                        Err(fault(AttrErrorKind::ExpectedEq, pos + 2))
                    } else if key.takes_path() {
                        match p.path_end(pos + 3) {
                            Some(end) => parse_items(
                                p,
                                end,
                                said.with_path(key, p.path(pos + 3, end)),
                            ),
                            None => Err(fault(AttrErrorKind::ExpectedPath, pos + 3)),
                        }
                    } else {
                        match name_at(p.tokens, pos + 3) {
                            Some(name) => parse_items(p, pos + 4, said.with_name(key, name)),
                            None => Err(fault(AttrErrorKind::ExpectedIdent, pos + 3)),
                        }
                    },
                },
            },
        }
    }
}

/// What a payload says: first the width, where the payload starts with a
/// literal, then its parts.
pub open spec fn parse_spec(p: PayloadView) -> Result<RegBitsAttrsView, AttrError> {
    if p.tokens.len() > 0 && p.tokens[0] is Literal {
        match p.tokens[0]->value {
            Some(bits) => parse_items(p, 1, RegBitsAttrsView { bits, ..RegBitsAttrsView::initial() }),
            None => Err(fault(AttrErrorKind::MalformedWidth, 0)),
        }
    } else {
        parse_items(p, 0, RegBitsAttrsView::initial())
    }
}

/// What a parser gives, with the attributes taken by what they hold.
pub open spec fn parsed(r: Result<RegBitsAttrs, AttrError>) -> Result<RegBitsAttrsView, AttrError> {
    match r {
        Ok(attrs) => Ok(attrs@),
        Err(e) => Err(e),
    }
}

/// Whether the punctuation `ch` stands at `pos`.
fn has_punct(tokens: &Vec<Token>, pos: usize, ch: char) -> (r: bool)
    ensures
        r == punct_at(token_views(tokens@), pos as int, ch),
{
    if pos < tokens.len() {
        match &tokens[pos] {
            Token::Punct { ch: c, .. } => *c == ch,
            _ => false,
        }
    } else {
        false
    }
}

/// The name at `pos`, where one stands there.
fn take_name(tokens: &Vec<Token>, pos: usize) -> (r: Option<String>)
    ensures
        name_view(r) == name_at(token_views(tokens@), pos as int),
{
    if pos < tokens.len() {
        match &tokens[pos] {
            Token::Ident { text, plain } => if *plain { Some(text.clone()) } else { None },
            _ => None,
        }
    } else {
        None
    }
}

/// Asks `syn` how far the path reaches that starts at `pos`.
fn find_reach(tokens: &Vec<Token>, pos: usize) -> (r: Option<usize>)
    requires
        pos < tokens@.len(),
    ensures
        r == reach_upto(token_views(tokens@), pos as int, tokens@.len() as int),
{
    let ghost views = token_views(tokens@);
    let mut best: Option<usize> = None;
    let mut text = String::new();
    let mut end: usize = pos;
    while end < tokens.len()
        invariant
            views == token_views(tokens@),
            pos <= end <= tokens@.len(),
            text@ == render(views.subrange(pos as int, end as int)),
            best == reach_upto(views, pos as int, end as int),
        decreases tokens.len() - end,
    {
        proof {
            lemma_render_step(views, pos as int, end as int);
        }
        tokens[end].write(&mut text);
        end = end + 1;
        if parses_as_path(text.as_str()) {
            best = Some(end);
        }
    }
    best
}

impl Payload {
    /// The payload of `tokens`, with the ends of its paths as `syn` reads
    /// them.
    pub fn new(tokens: Vec<Token>) -> (p: Payload)
        ensures
            p.tokens == tokens,
            p@.reach == reaches_of(p@.tokens),
    {
        let mut reach: Vec<Option<usize>> = Vec::new();
        let mut pos: usize = 0;
        while pos < tokens.len()
            invariant
                pos <= tokens@.len(),
                reach@.len() == pos,
                forall|i: int|
                    0 <= i < pos ==> reach@[i] == reach_upto(
                        token_views(tokens@),
                        i,
                        tokens@.len() as int,
                    ),
            decreases tokens.len() - pos,
        {
            reach.push(find_reach(&tokens, pos));
            pos = pos + 1;
        }
        assert(reach@ =~= reaches_of(token_views(tokens@)));
        Payload { tokens, reach }
    }

    /// Where the path ends that starts at `pos`.
    pub fn path_end(&self, pos: usize) -> (r: Option<usize>)
        ensures
            match r {
                Some(end) => self@.path_end(pos as int) == Some(end as int),
                None => self@.path_end(pos as int) is None,
            },
    {
        if pos < self.reach.len() {
            match self.reach[pos] {
                Some(end) => if pos < end && end <= self.tokens.len() {
                    Some(end)
                } else {
                    None
                },
                None => None,
            }
        } else {
            None
        }
    }
}

impl RegBitsAttrs {
    /// What holds of a field without an attribute: one bit, read and write.
    pub fn new() -> (attrs: RegBitsAttrs)
        ensures
            attrs@ == RegBitsAttrsView::initial(),
    {
        RegBitsAttrs {
            bits: 1,
            access: AccessMode::ReadWrite,
            get: None,
            set: None,
            clear: None,
            from: None,
            into: None,
        }
    }

    /// Reads a payload: a width or none, then, each after a comma and in any
    /// order, an access mode, `get`, `set` or `clear` with a name, `from` or
    /// `into` with a path. Where a part comes twice, the later one counts.
    pub fn parse(payload: &Payload) -> (r: Result<RegBitsAttrs, AttrError>)
        ensures
            parsed(r) == parse_spec(payload@),
    {
        let tokens = &payload.tokens;
        let mut attrs = RegBitsAttrs::new();
        let mut pos: usize = 0;
        if tokens.len() > 0 {
            match &tokens[0] {
                Token::Literal { value, .. } => {
                    match value {
                        Some(bits) => {
                            attrs.bits = *bits;
                            pos = 1;
                        },
                        None => {
                            return Err(AttrError { kind: AttrErrorKind::MalformedWidth, at: 0 });
                        },
                    }
                },
                _ => {},
            }
        }
        while pos < tokens.len()
            invariant
                tokens == &payload.tokens,
                pos <= tokens@.len(),
                parse_spec(payload@) == parse_items(payload@, pos as int, attrs@),
            decreases tokens.len() - pos,
        {
            if !has_punct(tokens, pos, ',') {
                return Err(AttrError { kind: AttrErrorKind::ExpectedComma, at: pos });
            }
            let word = match take_name(tokens, pos + 1) {
                Some(word) => word,
                None => {
                    return Err(AttrError { kind: AttrErrorKind::ExpectedIdent, at: pos + 1 });
                },
            };
            match AccessMode::from_text(word.as_str()) {
                Some(access) => {
                    attrs.access = access;
                    pos = pos + 2;
                },
                None => {
                    let assigned = has_punct(tokens, pos + 2, '=');
                    match Key::from_text(word.as_str()) {
                        None => {
                            let kind = if assigned {
                                AttrErrorKind::UnknownKey
                            } else {
                                AttrErrorKind::UnknownAccessMode
                            };
                            return Err(AttrError { kind, at: pos + 1 });
                        },
                        Some(key) => {
                            if !assigned {
                                return Err(AttrError { kind: AttrErrorKind::ExpectedEq, at: pos + 2 });
                            }
                            match key {
                                Key::Decode | Key::Encode => {
                                    let end = match payload.path_end(pos + 3) {
                                        Some(end) => end,
                                        None => {
                                            return Err(
                                                AttrError { kind: AttrErrorKind::ExpectedPath, at: pos + 3 },
                                            );
                                        },
                                    };
                                    let path = PathRef { tokens: copy_tokens(tokens, pos + 3, end) };
                                    assert(path@ == payload@.path(pos + 3, end as int)) by {
                                        assert(token_views(tokens@.subrange(pos + 3, end as int))
                                            =~= payload@.tokens.subrange(pos + 3, end as int));
                                    }
                                    match key {
                                        Key::Decode => {
                                            attrs.from = Some(path);
                                        },
                                        _ => {
                                            attrs.into = Some(path);
                                        },
                                    }
                                    pos = end;
                                },
                                _ => {
                                    match take_name(tokens, pos + 3) {
                                        Some(name) => {
                                            match key {
                                                Key::Getter => {
                                                    attrs.get = Some(name);
                                                },
                                                Key::Setter => {
                                                    attrs.set = Some(name);
                                                },
                                                _ => {
                                                    attrs.clear = Some(name);
                                                },
                                            }
                                            pos = pos + 4;
                                        },
                                        None => {
                                            return Err(
                                                AttrError { kind: AttrErrorKind::ExpectedIdent, at: pos + 3 },
                                            );
                                        },
                                    }
                                },
                            }
                        },
                    }
                },
            }
        }
        Ok(attrs)
    }
}

} // verus!
