//! The tokens that a field's attribute is written in, and the plain forms of
//! the paths and types that a register declaration names.

use vstd::prelude::*;
use vstd::string::*;

verus! {

/// The error that `syn` reports when a text does not parse.
#[verifier::external_type_specification]
#[verifier::external_body]
pub struct ExSynError(syn::Error);

/// The value that `syn` reads from a text as one integer literal, where the
/// text is one and the value fits 32 bits.
pub uninterp spec fn integer_literal_value(text: Seq<char>) -> Option<u32>;

/// Whether `syn` reads a text as one identifier; a keyword is none.
pub uninterp spec fn accepted_as_ident(text: Seq<char>) -> bool;

/// Whether `syn` reads a text as one path, generic arguments and all.
pub uninterp spec fn accepted_as_path(text: Seq<char>) -> bool;

/// Reads a text as an integer literal.
///
/// Trusted: `syn::parse_str::<syn::LitInt>` followed by
/// `syn::LitInt::base10_parse::<u32>`. The contract only gives the outcome its
/// name: the same text always has the same value, and the call fails exactly
/// where the text has none.
#[verifier::external_body]
fn parse_integer_literal(text: &str) -> (r: Result<u32, syn::Error>)
    ensures
        match r {
            Ok(v) => integer_literal_value(text@) == Some(v),
            Err(_) => integer_literal_value(text@) is None,
        },
{
    syn::parse_str::<syn::LitInt>(text)?.base10_parse::<u32>()
}

/// Asks whether a text is an identifier.
///
/// Trusted: `syn::parse_str::<syn::Ident>`, which refuses keywords and the
/// lone underscore. The contract only gives the answer its name.
#[verifier::external_body]
fn parses_as_ident(text: &str) -> (r: bool)
    ensures
        r == accepted_as_ident(text@),
{
    syn::parse_str::<syn::Ident>(text).is_ok()
}

/// Asks whether a text is a path.
///
/// Trusted: `syn::parse_str::<syn::Path>`, which wants the whole text to be
/// one path. The contract only gives the answer its name.
#[verifier::external_body]
pub(crate) fn parses_as_path(text: &str) -> (r: bool)
    ensures
        r == accepted_as_path(text@),
{
    syn::parse_str::<syn::Path>(text).is_ok()
}

/// Appends one character to a string.
///
/// Trusted: `String::push` of the standard library, which puts the character
/// at the end and leaves the rest as it was.
#[verifier::external_body]
fn push_char(out: &mut String, ch: char)
    ensures
        final(out)@ == old(out)@.push(ch),
{
    out.push(ch)
}

/// Whether two texts are the same.
pub fn same_text(a: &str, b: &str) -> (r: bool)
    ensures
        r == (a@ == b@),
{
    let x = String::from_str(a);
    let y = String::from_str(b);
    x == y
}

/// One token of an attribute's payload.
///
/// A word and a literal carry what `syn` makes of their text; `Token::ident`
/// and `Token::literal` ask it.
#[derive(Debug, Clone, PartialEq, Eq)]
pub enum Token {
    /// A word. `plain` says that it can name something (it is no keyword).
    Ident { text: String, plain: bool },
    /// A literal, with its value where it is an integer literal that fits 32
    /// bits.
    Literal { text: String, value: Option<u32> },
    /// One character of punctuation; `joint` says that the next token follows
    /// it without a gap.
    Punct { ch: char, joint: bool },
    /// A bracketed group, written out with its brackets.
    Group { text: String },
}

/// What a `Token` holds.
pub enum TokenView {
    Ident { text: Seq<char>, plain: bool },
    Literal { text: Seq<char>, value: Option<u32> },
    Punct { ch: char, joint: bool },
    Group { text: Seq<char> },
}

impl View for Token {
    type V = TokenView;

    open spec fn view(&self) -> TokenView {
        match self {
            Token::Ident { text, plain } => TokenView::Ident { text: text@, plain: *plain },
            Token::Literal { text, value } => TokenView::Literal { text: text@, value: *value },
            Token::Punct { ch, joint } => TokenView::Punct { ch: *ch, joint: *joint },
            Token::Group { text } => TokenView::Group { text: text@ },
        }
    }
}

/// What a list of tokens holds.
pub open spec fn token_views(tokens: Seq<Token>) -> Seq<TokenView> {
    Seq::new(tokens.len(), |i: int| tokens[i]@)
}

impl TokenView {
    /// Whether this is the punctuation `ch`.
    pub open spec fn is_punct(self, ch: char) -> bool {
        self matches TokenView::Punct { ch: c, .. } && c == ch
    }

    /// The token as it is written, with the gap behind it: none behind
    /// punctuation that is joined to the next token, else one space.
    pub open spec fn written(self) -> Seq<char> {
        match self {
            TokenView::Ident { text, .. } => text.push(' '),
            TokenView::Literal { text, .. } => text.push(' '),
            TokenView::Punct { ch, joint } => if joint {
                seq![ch]
            } else {
                seq![ch, ' ']
            },
            TokenView::Group { text } => text.push(' '),
        }
    }
}

/// A run of tokens as it is written: one token after the other.
pub open spec fn render(tokens: Seq<TokenView>) -> Seq<char>
    decreases tokens.len(),
{
    if tokens.len() == 0 {
        Seq::empty()
    } else {
        render(tokens.drop_last()) + tokens.last().written()
    }
}

impl Token {
    /// The token of a word.
    pub fn ident(text: &str) -> (t: Token)
        ensures
            t@ == (TokenView::Ident { text: text@, plain: accepted_as_ident(text@) }),
    {
        let plain = parses_as_ident(text);
        Token::Ident { text: String::from_str(text), plain }
    }

    /// The token of a literal.
    pub fn literal(text: &str) -> (t: Token)
        ensures
            t@ == (TokenView::Literal { text: text@, value: integer_literal_value(text@) }),
    {
        let value = match parse_integer_literal(text) {
            Ok(v) => Some(v),
            Err(_) => None,
        };
        Token::Literal { text: String::from_str(text), value }
    }

    /// The token of one character of punctuation.
    pub fn punct(ch: char, joint: bool) -> (t: Token)
        ensures
            t@ == (TokenView::Punct { ch, joint }),
    {
        Token::Punct { ch, joint }
    }

    /// The token of a bracketed group, given as it is written.
    pub fn group(text: &str) -> (t: Token)
        ensures
            t@ == (TokenView::Group { text: text@ }),
    {
        Token::Group { text: String::from_str(text) }
    }

    /// A copy of the token.
    pub fn duplicate(&self) -> (t: Token)
        ensures
            t@ == self@,
    {
        match self {
            Token::Ident { text, plain } => Token::Ident { text: text.clone(), plain: *plain },
            Token::Literal { text, value } => Token::Literal { text: text.clone(), value: *value },
            Token::Punct { ch, joint } => Token::Punct { ch: *ch, joint: *joint },
            Token::Group { text } => Token::Group { text: text.clone() },
        }
    }

    /// Writes the token at the end of `out`, with the gap behind it.
    pub fn write(&self, out: &mut String)
        ensures
            final(out)@ == old(out)@ + self@.written(),
    {
        let ghost before = out@;
        match self {
            Token::Ident { text, .. } => {
                out.append(text.as_str());
                push_char(out, ' ');
                assert(out@ =~= before + self@.written());
            },
            Token::Literal { text, .. } => {
                out.append(text.as_str());
                push_char(out, ' ');
                assert(out@ =~= before + self@.written());
            },
            Token::Punct { ch, joint } => {
                push_char(out, *ch);
                if !*joint {
                    push_char(out, ' ');
                }
                assert(out@ =~= before + self@.written());
            },
            Token::Group { text } => {
                out.append(text.as_str());
                push_char(out, ' ');
                assert(out@ =~= before + self@.written());
            },
        }
    }

}

/// A path as it is written: its tokens, generic arguments and all.
#[derive(Debug, Clone, PartialEq, Eq)]
pub struct PathRef {
    pub tokens: Vec<Token>,
}

/// What a `PathRef` holds.
pub struct PathRefView {
    pub tokens: Seq<TokenView>,
}

impl View for PathRef {
    type V = PathRefView;

    open spec fn view(&self) -> PathRefView {
        PathRefView { tokens: token_views(self.tokens@) }
    }
}

impl PathRefView {
    /// Whether the path is the one word `name`: no `::` before it, no
    /// arguments behind it.
    pub open spec fn is_ident(self, name: Seq<char>) -> bool {
        self.tokens.len() == 1 && (self.tokens[0] matches TokenView::Ident { text, .. } && text == name)
    }

    /// The path as it is written.
    pub open spec fn text(self) -> Seq<char> {
        render(self.tokens)
    }
}

/// Copies the tokens from `start` up to `end`.
pub(crate) fn copy_tokens(tokens: &Vec<Token>, start: usize, end: usize) -> (copy: Vec<Token>)
    requires
        start <= end <= tokens@.len(),
    ensures
        token_views(copy@) == token_views(tokens@.subrange(start as int, end as int)),
{
    let mut copy: Vec<Token> = Vec::new();
    let mut i: usize = start;
    while i < end
        invariant
            start <= i <= end <= tokens@.len(),
            copy@.len() == i - start,
            forall|j: int| 0 <= j < copy@.len() ==> (#[trigger] copy@[j])@ == tokens@[start + j]@,
        decreases end - i,
    {
        copy.push(tokens[i].duplicate());
        i = i + 1;
    }
    assert(token_views(copy@) =~= token_views(tokens@.subrange(start as int, end as int)));
    copy
}

impl PathRef {
    /// The path made of one word.
    pub fn ident(name: &str) -> (p: PathRef)
        ensures
            p@.tokens == seq![TokenView::Ident { text: name@, plain: accepted_as_ident(name@) }],
            p@.is_ident(name@),
    {
        let mut tokens: Vec<Token> = Vec::new();
        tokens.push(Token::ident(name));
        let p = PathRef { tokens };
        assert(p@.tokens =~= seq![TokenView::Ident { text: name@, plain: accepted_as_ident(name@) }]);
        p
    }

    /// A copy of the path.
    pub fn duplicate(&self) -> (p: PathRef)
        ensures
            p@ == self@,
    {
        let tokens = copy_tokens(&self.tokens, 0, self.tokens.len());
        assert(self.tokens@.subrange(0, self.tokens@.len() as int) =~= self.tokens@);
        PathRef { tokens }
    }

    /// Whether the path is the one word `name`: no `::` before it, no
    /// arguments behind it.
    pub fn is_ident(&self, name: &str) -> (r: bool)
        ensures
            r == self@.is_ident(name@),
    {
        if self.tokens.len() == 1 {
            match &self.tokens[0] {
                Token::Ident { text, .. } => same_text(text.as_str(), name),
                _ => false,
            }
        } else {
            false
        }
    }

    /// The path as it is written.
    pub fn text(&self) -> (out: String)
        ensures
            out@ == self@.text(),
    {
        let mut out = String::new();
        let mut i: usize = 0;
        while i < self.tokens.len()
            invariant
                i <= self.tokens@.len(),
                out@ == render(self@.tokens.subrange(0, i as int)),
            decreases self.tokens.len() - i,
        {
            proof {
                lemma_render_step(self@.tokens, 0, i as int);
            }
            self.tokens[i].write(&mut out);
            i = i + 1;
        }
        assert(self@.tokens.subrange(0, self@.tokens.len() as int) =~= self@.tokens);
        out
    }
}

/// One more token behind a run adds what that token writes.
pub proof fn lemma_render_step(tokens: Seq<TokenView>, start: int, end: int)
    requires
        0 <= start <= end < tokens.len(),
    ensures
        render(tokens.subrange(start, end + 1)) == render(tokens.subrange(start, end))
            + tokens[end].written(),
{
    let more = tokens.subrange(start, end + 1);
    assert(more.drop_last() =~= tokens.subrange(start, end));
    assert(more.last() == tokens[end]);
}

/// A type as a declaration names it.
#[derive(Debug, Clone, PartialEq, Eq)]
pub enum TypeRef {
    /// One word, such as `u8` or `State`.
    Ident(String),
    /// A longer path, or one with arguments.
    Path,
    /// A type that is no path: a reference, a tuple, an array and so on.
    Other,
}

impl TypeRef {
    /// Whether the type is the one word `name`.
    pub open spec fn names(self, name: Seq<char>) -> bool {
        self matches TypeRef::Ident(word) && word@ == name
    }

    /// Whether the type is the one word `name`.
    pub fn is_ident(&self, name: &str) -> (r: bool)
        ensures
            r == self.names(name@),
    {
        match self {
            TypeRef::Ident(word) => same_text(word.as_str(), name),
            _ => false,
        }
    }
}

} // verus!
