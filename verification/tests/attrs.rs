use proc_macro2::{Spacing, TokenStream, TokenTree};
use register::attrs::{AccessMode, Key, Payload, RegBitsAttrs};
use register::error::{AttrError, AttrErrorKind};
use register::token::{PathRef, Token, TypeRef};

fn lex(text: &str) -> Vec<Token> {
    let stream: TokenStream = text.parse().unwrap();
    stream
        .into_iter()
        .map(|tree| match tree {
            TokenTree::Ident(word) => Token::ident(&word.to_string()),
            TokenTree::Literal(lit) => Token::literal(&lit.to_string()),
            TokenTree::Punct(p) => Token::punct(p.as_char(), p.spacing() == Spacing::Joint),
            TokenTree::Group(g) => Token::group(&g.to_string()),
        })
        .collect()
}

fn parse(text: &str) -> Result<RegBitsAttrs, AttrError> {
    RegBitsAttrs::parse(&Payload::new(lex(text)))
}

fn fault(kind: AttrErrorKind, at: usize) -> Result<RegBitsAttrs, AttrError> {
    Err(AttrError { kind, at })
}

fn path(text: &str) -> PathRef {
    PathRef { tokens: lex(text) }
}

#[test]
fn defaults() {
    let attrs = RegBitsAttrs::new();
    assert_eq!(attrs.bits, 1);
    assert_eq!(attrs.access, AccessMode::ReadWrite);
    assert_eq!(attrs.get, None);
    assert_eq!(attrs.set, None);
    assert_eq!(attrs.clear, None);
    assert_eq!(attrs.from, None);
    assert_eq!(attrs.into, None);
    assert_eq!(parse(""), Ok(RegBitsAttrs::new()));
}

#[test]
fn width_only() {
    let attrs = parse("5").unwrap();
    assert_eq!(attrs.bits, 5);
    assert_eq!(attrs.access, AccessMode::ReadWrite);
    assert_eq!(parse("0x10").unwrap().bits, 16);
    assert_eq!(parse("0b101").unwrap().bits, 5);
    assert_eq!(parse("7u8").unwrap().bits, 7);
    assert_eq!(parse("0").unwrap().bits, 0);
}

#[test]
fn every_access_mode() {
    let modes = [
        ("r", AccessMode::Read),
        ("w", AccessMode::Write),
        ("rw", AccessMode::ReadWrite),
        ("rwc", AccessMode::ReadWriteClear),
        ("rc", AccessMode::ReadClear),
        ("wc", AccessMode::WriteClear),
    ];
    for (text, mode) in modes {
        assert_eq!(AccessMode::from_text(text), Some(mode));
        let attrs = parse(&format!("3, {}", text)).unwrap();
        assert_eq!(attrs.bits, 3);
        assert_eq!(attrs.access, mode);
    }
    assert_eq!(AccessMode::from_text("ro"), None);
    assert_eq!(AccessMode::from_text(""), None);
    assert_eq!(AccessMode::from_text("cr"), None);
}

#[test]
fn mode_letters() {
    let table = [
        (AccessMode::Read, true, false, false),
        (AccessMode::Write, false, true, false),
        (AccessMode::ReadWrite, true, true, false),
        (AccessMode::ReadWriteClear, true, true, true),
        (AccessMode::ReadClear, true, false, true),
        (AccessMode::WriteClear, false, true, true),
    ];
    for (mode, r, w, c) in table {
        assert_eq!(mode.can_read(), r);
        assert_eq!(mode.can_write(), w);
        assert_eq!(mode.can_clear(), c);
    }
}

#[test]
fn keys() {
    assert_eq!(Key::from_text("get"), Some(Key::Getter));
    assert_eq!(Key::from_text("set"), Some(Key::Setter));
    assert_eq!(Key::from_text("clear"), Some(Key::Clearer));
    assert_eq!(Key::from_text("from"), Some(Key::Decode));
    assert_eq!(Key::from_text("into"), Some(Key::Encode));
    assert_eq!(Key::from_text("rw"), None);
}

#[test]
fn names_and_paths() {
    let attrs = parse(
        "5, rwc, get = hsi_get_trimming_value, set = hsi_set_trimming_value, clear = hsi_clear_trimming_value",
    )
    .unwrap();
    assert_eq!(attrs.bits, 5);
    assert_eq!(attrs.access, AccessMode::ReadWriteClear);
    assert_eq!(attrs.get.as_deref(), Some("hsi_get_trimming_value"));
    assert_eq!(attrs.set.as_deref(), Some("hsi_set_trimming_value"));
    assert_eq!(attrs.clear.as_deref(), Some("hsi_clear_trimming_value"));

    let attrs = parse("2, from = State::from_bits, into = ::my::types::State::into_bits, w").unwrap();
    assert_eq!(attrs.bits, 2);
    assert_eq!(attrs.access, AccessMode::Write);
    assert_eq!(attrs.from, Some(path("State::from_bits")));
    assert_eq!(attrs.into, Some(path("::my::types::State::into_bits")));

    let attrs = parse("1, from = decode").unwrap();
    assert_eq!(attrs.from, Some(PathRef::ident("decode")));
    assert!(attrs.from.unwrap().is_ident("decode"));
    let attrs = parse("1, from = self::decode, into = crate::encode").unwrap();
    assert_eq!(attrs.from, Some(path("self::decode")));
    assert_eq!(attrs.into, Some(path("crate::encode")));
}

#[test]
fn order_is_free_and_the_last_counts() {
    let a = parse("4, get = a, rc, into = x::y").unwrap();
    let b = parse("4, into = x::y, get = a, rc").unwrap();
    assert_eq!(a, b);
    let attrs = parse("4, r, get = a, w, get = b").unwrap();
    assert_eq!(attrs.access, AccessMode::Write);
    assert_eq!(attrs.get.as_deref(), Some("b"));
}

#[test]
fn width_is_optional() {
    let attrs = parse(", rc").unwrap();
    assert_eq!(attrs.bits, 1);
    assert_eq!(attrs.access, AccessMode::ReadClear);
}

#[test]
fn malformed_width() {
    assert_eq!(parse("\"5\""), fault(AttrErrorKind::MalformedWidth, 0));
    assert_eq!(parse("1.5, rw"), fault(AttrErrorKind::MalformedWidth, 0));
    assert_eq!(parse("4294967296"), fault(AttrErrorKind::MalformedWidth, 0));
    assert_eq!(parse("'c'"), fault(AttrErrorKind::MalformedWidth, 0));
    assert_eq!(parse("4294967295").unwrap().bits, u32::MAX);
}

#[test]
fn width_that_is_no_literal() {
    assert_eq!(parse("rw"), fault(AttrErrorKind::ExpectedComma, 0));
    assert_eq!(parse("-1"), fault(AttrErrorKind::ExpectedComma, 0));
    assert_eq!(parse("true, rw"), fault(AttrErrorKind::ExpectedComma, 0));
    assert_eq!(parse("(1)"), fault(AttrErrorKind::ExpectedComma, 0));
}

#[test]
fn unknown_access_mode() {
    assert_eq!(parse("1, ro, get = hsi_is_ready"), fault(AttrErrorKind::UnknownAccessMode, 2));
    assert_eq!(parse("1, x"), fault(AttrErrorKind::UnknownAccessMode, 2));
    assert_eq!(parse(", RW"), fault(AttrErrorKind::UnknownAccessMode, 1));
}

#[test]
fn unknown_key() {
    assert_eq!(parse("1, rw, name = x"), fault(AttrErrorKind::UnknownKey, 4));
    assert_eq!(parse("1, rw, name = x::<y>"), fault(AttrErrorKind::UnknownKey, 4));
    assert_eq!(parse("1, ro = x"), fault(AttrErrorKind::UnknownKey, 2));
}

#[test]
fn missing_separators() {
    assert_eq!(parse("1 rw"), fault(AttrErrorKind::ExpectedComma, 1));
    assert_eq!(parse("1, rw get = a"), fault(AttrErrorKind::ExpectedComma, 3));
    assert_eq!(parse("1, rw = a"), fault(AttrErrorKind::ExpectedComma, 3));
    assert_eq!(parse("1, get a"), fault(AttrErrorKind::ExpectedEq, 3));
    assert_eq!(parse("1, get"), fault(AttrErrorKind::ExpectedEq, 3));
    assert_eq!(parse("1, from"), fault(AttrErrorKind::ExpectedEq, 3));
    assert_eq!(parse("1, 2"), fault(AttrErrorKind::ExpectedIdent, 2));
    assert_eq!(parse("1,"), fault(AttrErrorKind::ExpectedIdent, 2));
    assert_eq!(parse("1,,"), fault(AttrErrorKind::ExpectedIdent, 2));
}

#[test]
fn names_must_be_identifiers() {
    assert_eq!(parse("1, get = 5"), fault(AttrErrorKind::ExpectedIdent, 4));
    assert_eq!(parse("1, get ="), fault(AttrErrorKind::ExpectedIdent, 4));
    assert_eq!(parse("1, get = fn"), fault(AttrErrorKind::ExpectedIdent, 4));
    assert_eq!(parse("1, set = self"), fault(AttrErrorKind::ExpectedIdent, 4));
    assert_eq!(parse("1, clear = _"), fault(AttrErrorKind::ExpectedIdent, 4));
    assert_eq!(parse("1, type"), fault(AttrErrorKind::ExpectedIdent, 2));
    assert_eq!(parse("1, get = a::b"), fault(AttrErrorKind::ExpectedComma, 5));
    assert_eq!(parse("1, get = r#fn").unwrap().get.as_deref(), Some("r#fn"));
}

#[test]
fn paths_with_generic_arguments() {
    let attrs = parse(", from = conv::<u32>").unwrap();
    assert_eq!(attrs.from, Some(path("conv::<u32>")));
    assert_eq!(attrs.from.unwrap().text(), "conv ::< u32 > ");

    let attrs = parse("1, from = a<T>, get = x").unwrap();
    let mut before_comma = lex("a<T>,");
    before_comma.pop();
    assert_eq!(attrs.from.as_ref().unwrap().text(), "a < T >");
    assert_eq!(attrs.from, Some(PathRef { tokens: before_comma }));
    assert_eq!(attrs.get.as_deref(), Some("x"));

    let attrs = parse("1, from = a::<T>::b").unwrap();
    assert_eq!(attrs.from, Some(path("a::<T>::b")));

    let attrs = parse("4, into = Codec::<u8, 4>::encode, rc, from = Vec::<(u8, u16)>::len").unwrap();
    assert_eq!(attrs.into, Some(path("Codec::<u8, 4>::encode")));
    assert_eq!(attrs.from, Some(path("Vec::<(u8, u16)>::len")));
    assert_eq!(attrs.access, AccessMode::ReadClear);
    assert_eq!(attrs.bits, 4);

    let attrs = parse("1, from = a<b, get = c>").unwrap();
    assert_eq!(attrs.from, Some(path("a<b, get = c>")));
    assert_eq!(attrs.get, None);
}

#[test]
fn paths_must_be_paths() {
    assert_eq!(parse("1, from ="), fault(AttrErrorKind::ExpectedPath, 4));
    assert_eq!(parse("1, from = 5"), fault(AttrErrorKind::ExpectedPath, 4));
    assert_eq!(parse("1, from = ::"), fault(AttrErrorKind::ExpectedPath, 4));
    assert_eq!(parse("1, from = fn"), fault(AttrErrorKind::ExpectedPath, 4));
    assert_eq!(parse("1, from = (a)"), fault(AttrErrorKind::ExpectedPath, 4));
    assert_eq!(parse("1, from = , rw"), fault(AttrErrorKind::ExpectedPath, 4));
    assert_eq!(parse("1, from = a::"), fault(AttrErrorKind::ExpectedComma, 5));
    assert_eq!(parse("1, from = a::fn"), fault(AttrErrorKind::ExpectedComma, 5));
    assert_eq!(parse("1, from = a<T"), fault(AttrErrorKind::ExpectedComma, 5));
    assert_eq!(parse("1, from = a : : b"), fault(AttrErrorKind::ExpectedComma, 5));
    assert_eq!(parse("1, from = a:b"), fault(AttrErrorKind::ExpectedComma, 5));
    assert_eq!(parse("1, from = a b"), fault(AttrErrorKind::ExpectedComma, 5));
    assert_eq!(parse("1, from = a(b)"), fault(AttrErrorKind::ExpectedComma, 5));
}

#[test]
fn where_paths_end() {
    let payload = Payload::new(lex("x, a::b::c, y"));
    assert_eq!(payload.tokens.len(), 11);
    assert_eq!(
        payload.reach,
        vec![Some(1), None, Some(9), Some(9), None, Some(9), Some(9), None, Some(9), None, Some(11)]
    );
    assert_eq!(payload.path_end(2), Some(9));
    assert_eq!(payload.path_end(1), None);
    assert_eq!(payload.path_end(10), Some(11));
    assert_eq!(payload.path_end(11), None);

    let payload = Payload::new(lex("a::<b, c>::d, e"));
    assert_eq!(payload.reach[0], Some(11));
    assert_eq!(payload.reach[4], Some(5));
    assert_eq!(payload.reach[12], Some(13));
    assert_eq!(Payload::new(vec![]).reach, vec![]);
}

#[test]
fn path_ends_are_taken_as_given() {
    let tokens = lex("2, into = a, b");
    let plain = |reach: Vec<Option<usize>>| RegBitsAttrs::parse(&Payload { tokens: tokens.clone(), reach });
    let none = vec![None; 7];
    assert_eq!(plain(none.clone()), fault(AttrErrorKind::ExpectedPath, 4));
    assert_eq!(plain(vec![]), fault(AttrErrorKind::ExpectedPath, 4));
    let mut whole = none.clone();
    whole[4] = Some(7);
    assert_eq!(plain(whole).unwrap().into, Some(path("a, b")));
    let mut one = none.clone();
    one[4] = Some(5);
    assert_eq!(plain(one), fault(AttrErrorKind::UnknownAccessMode, 6));
    for end in [0, 4, 8] {
        let mut outside = none.clone();
        outside[4] = Some(end);
        assert_eq!(plain(outside), fault(AttrErrorKind::ExpectedPath, 4));
    }
}

#[test]
fn tokens_know_what_they_are() {
    assert_eq!(Token::ident("width"), Token::Ident { text: "width".to_string(), plain: true });
    assert_eq!(Token::ident("super"), Token::Ident { text: "super".to_string(), plain: false });
    assert_eq!(Token::ident("fn"), Token::Ident { text: "fn".to_string(), plain: false });
    assert_eq!(Token::ident("a b"), Token::Ident { text: "a b".to_string(), plain: false });
    assert_eq!(Token::literal("0x20"), Token::Literal { text: "0x20".to_string(), value: Some(32) });
    assert_eq!(Token::literal("12"), Token::Literal { text: "12".to_string(), value: Some(12) });
    assert_eq!(Token::literal("1e3"), Token::Literal { text: "1e3".to_string(), value: None });
    assert_eq!(Token::literal("-1"), Token::Literal { text: "-1".to_string(), value: None });
    assert_eq!(Token::literal(""), Token::Literal { text: "".to_string(), value: None });
    assert_eq!(Token::punct(':', true), Token::Punct { ch: ':', joint: true });
    assert_eq!(Token::group("(a, b)"), Token::Group { text: "(a, b)".to_string() });
    assert!(matches!(&lex("f(a, b)")[1], Token::Group { text } if text.starts_with('(') && text.ends_with(')')));
}

#[test]
fn tokens_as_written() {
    let mut out = String::from("<");
    Token::ident("a").write(&mut out);
    Token::punct(':', true).write(&mut out);
    Token::punct(':', false).write(&mut out);
    Token::literal("0x1f").write(&mut out);
    Token::group("[x]").write(&mut out);
    assert_eq!(out, "<a :: 0x1f [x] ");
    assert_eq!(path("a::b").text(), "a :: b ");
    assert_eq!(path("::a").text(), ":: a ");
    assert_eq!(PathRef { tokens: vec![] }.text(), "");
    for t in lex("a :: < 'x' , \"s\" > (y) 1.5") {
        assert_eq!(t.duplicate(), t);
    }
}

#[test]
fn tokens_by_hand() {
    let tokens = vec![
        Token::Literal { text: "2".to_string(), value: Some(2) },
        Token::Punct { ch: ',', joint: false },
        Token::Ident { text: "into".to_string(), plain: true },
        Token::Punct { ch: '=', joint: false },
        Token::Punct { ch: ':', joint: true },
        Token::Punct { ch: ':', joint: false },
        Token::Ident { text: "crate".to_string(), plain: false },
        Token::Punct { ch: ':', joint: true },
        Token::Punct { ch: ':', joint: false },
        Token::Ident { text: "f".to_string(), plain: true },
    ];
    let attrs = RegBitsAttrs::parse(&Payload::new(tokens)).unwrap();
    assert_eq!(attrs.bits, 2);
    assert_eq!(attrs.into, Some(path("::crate::f")));
}

#[test]
fn type_names() {
    assert!(TypeRef::Ident("u8".to_string()).is_ident("u8"));
    assert!(!TypeRef::Ident("u8".to_string()).is_ident("u16"));
    assert!(!TypeRef::Path.is_ident("u8"));
    assert!(!TypeRef::Other.is_ident("u8"));
    assert!(path("bits").is_ident("bits"));
    assert!(!path("::bits").is_ident("bits"));
    assert!(!path("a::bits").is_ident("bits"));
    assert!(!path("bits<T>").is_ident("bits"));
    assert!(!path("bit").is_ident("bits"));
    assert!(!PathRef { tokens: vec![Token::literal("bits")] }.is_ident("bits"));
    assert_eq!(path("::a::b").duplicate(), path("::a::b"));
}
