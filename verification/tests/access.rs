use proc_macro2::{Spacing, TokenStream, TokenTree};
use register::access::{Accessor, Operation};
use register::attrs::Payload;
use register::codec::{derive_register_field, Codec, Data, Expr, ItemDecl, VariantDecl};
use register::field::RegisterField;
use register::layout::{
    register, Conversion, FieldAttr, FieldDecl, Fields, RegBits, RegisterAttrs, RegisterDescriptor,
    StructDecl, ValueType,
};
use register::token::{PathRef, Token, TypeRef};

#[derive(Debug, PartialEq, Eq, Clone, Copy)]
pub enum State {
    OFF,
    ON,
}

fn derived_codec() -> Codec {
    let variant = |name: &str, code: &str| VariantDecl {
        ident: name.to_string(),
        discriminant: Some(Expr::Lit(Token::literal(code))),
    };
    let item = ItemDecl {
        ident: "State".to_string(),
        data: Data::Enum(vec![variant("OFF", "0b0000"), variant("ON", "0b0001")]),
    };
    derive_register_field(&item).unwrap()
}

impl RegisterField for State {
    fn from_bits(val: u32) -> State {
        if val == 0 {
            State::OFF
        } else {
            State::ON
        }
    }

    fn into_bits(self) -> u32 {
        match self {
            State::OFF => 0,
            State::ON => 1,
        }
    }
}

fn lex(text: &str) -> Vec<Token> {
    let stream: TokenStream = text.parse().unwrap();
    stream
        .into_iter()
        .map(|tree| match tree {
            TokenTree::Ident(word) => Token::ident(&word.to_string()),
            TokenTree::Literal(lit) => Token::literal(&lit.to_string()),
            TokenTree::Punct(p) => Token::punct(p.as_char(), p.spacing() == Spacing::Joint),
            TokenTree::Group(g) => Token::group(&g.to_string()),
        })
        .collect()
}

fn field(name: &str, ty: &str, bits: &str) -> FieldDecl {
    FieldDecl {
        ident: name.to_string(),
        ty: TypeRef::Ident(ty.to_string()),
        attrs: vec![FieldAttr { path: PathRef::ident("bits"), payload: Payload::new(lex(bits)) }],
    }
}

fn compile(base: &str, name: &str, fields: Vec<FieldDecl>) -> RegisterDescriptor {
    let attrs = RegisterAttrs { typ: TypeRef::Ident(base.to_string()) };
    let input = StructDecl { ident: name.to_string(), fields: Fields::Named(fields) };
    register(&attrs, &input).unwrap()
}

fn clock_control_register() -> RegisterDescriptor {
    compile(
        "u32",
        "ClockControlRegister",
        vec![
            field("HSION", "State", "1, rw, get = hsi_get_state, set = hsi_set"),
            field("HSIRDY", "bool", "1, r, get = hsi_is_ready"),
            field("__", "u8", "1"),
            field(
                "HSITRIM",
                "u8",
                "5, rwc, get = hsi_get_trimming_value, set = hsi_set_trimming_value, clear = hsi_clear_trimming_value",
            ),
            field(
                "HSICAL",
                "u8",
                "8, r, get = hsi_get_calibration_value, set = hsi_set_trimming_value, clear = hsi_clear_trimming_value",
            ),
            field("HSEON", "State", "1, rw, get = hse_get_state, set = hse_set"),
            field("HSERDY", "bool", "1, r, get = hse_is_ready"),
            field("HSEBYP", "State", "1, rw, get = hse_bypass_get_state, set = hse_bypass_set"),
            field("CSSON", "State", "1, rw, get = css_get_state, set = css_set"),
            field("__", "u8", "4"),
            field("PLLON", "State", "1, rw, get = pll_get_state, set = pll_set"),
            field("PLLRDY", "bool", "1, r, get = pll_is_ready"),
            field("PLLI2SON", "State", "1, rw, get = pll_i2s_get_state, set = pll_i2s_set"),
            field("PLLI2SRDY", "bool", "1, r, get = pll_i2s_is_ready"),
            field("PLLSAION", "State", "1, rw, get = pll_sai_get_state, set = pll_sai_set"),
            field("PLLSAIRDY", "bool", "1, r, get = pll_sai_is_ready"),
            field("__", "u8", "2"),
        ],
    )
}

fn find<'a>(list: &'a [Accessor], name: &str) -> &'a Accessor {
    let mut found = list.iter().filter(|a| a.name == name);
    let first = found.next().unwrap();
    assert!(found.next().is_none());
    first
}

fn names(list: &[Accessor]) -> Vec<&str> {
    list.iter().map(|a| a.name.as_str()).collect()
}

fn ops(list: &[Accessor]) -> Vec<Operation> {
    list.iter().map(|a| a.op).collect()
}

#[test]
fn it_works() {
    let accessors = clock_control_register().accessors();
    let mut r: u32 = 0b00000000_00000010_00000000_00000000;

    assert_eq!(find(&accessors, "hse_get_state").get::<State>(r), State::OFF);
    assert_eq!(find(&accessors, "hse_is_ready").get::<bool>(r), true);

    r = find(&accessors, "hse_set").set(r, State::ON);
    r = find(&accessors, "hsi_set_trimming_value").set(r, 11u8);

    assert_eq!(find(&accessors, "hse_get_state").get::<State>(r), State::ON);
}

#[test]
fn test_it_works() {
    let accessors = clock_control_register().accessors();
    let mut r: u32 = 0b00000000_00000010_00000000_00000000;

    assert_eq!(find(&accessors, "hse_get_state").get::<State>(r), State::OFF);
    assert_eq!(find(&accessors, "hse_is_ready").get::<bool>(r), true);

    r = find(&accessors, "hse_set").set(r, State::ON);
    r = find(&accessors, "hsi_set_trimming_value").set(r, 11u8);

    assert_eq!(find(&accessors, "hse_get_state").get::<State>(r), State::ON);
    assert_eq!(find(&accessors, "hsi_is_ready").get::<bool>(r), false);
    assert_eq!(find(&accessors, "hsi_get_trimming_value").get::<u8>(r), 11);
    assert_eq!(r, 0b00000000_00000011_00000000_01011000);

    let codec = derived_codec();
    let states = [State::OFF, State::ON];
    assert_eq!(codec.into_bits(State::OFF as usize), 0u32);
    assert_eq!(states[codec.from_bits(1u32)], State::ON);
    assert_eq!(State::OFF.into_bits(), 0u32);
    assert_eq!(State::from_bits(1u32), State::ON);
}

#[test]
fn clock_control_accessors() {
    let accessors = clock_control_register().accessors();
    assert_eq!(
        names(&accessors),
        vec![
            "hsi_get_state",
            "hsi_set",
            "hsi_is_ready",
            "hsi_get_trimming_value",
            "hsi_set_trimming_value",
            "hsi_clear_trimming_value",
            "hsi_get_calibration_value",
            "hse_get_state",
            "hse_set",
            "hse_is_ready",
            "hse_bypass_get_state",
            "hse_bypass_set",
            "css_get_state",
            "css_set",
            "pll_get_state",
            "pll_set",
            "pll_is_ready",
            "pll_i2s_get_state",
            "pll_i2s_set",
            "pll_i2s_is_ready",
            "pll_sai_get_state",
            "pll_sai_set",
            "pll_sai_is_ready",
        ]
    );
    let cal = find(&accessors, "hsi_get_calibration_value");
    assert_eq!((cal.offset, cal.bits, cal.mask, cal.index), (8, 8, 0xff00, 4));
    let sai = find(&accessors, "pll_sai_is_ready");
    assert_eq!((sai.offset, sai.bits, sai.mask, sai.index), (29, 1, 1 << 29, 15));
    let clear = find(&accessors, "hsi_clear_trimming_value");
    assert_eq!(clear.op, Operation::Clear);
    assert_eq!(clear.apply(0xffff_ffff, 0), 0xffff_ff07);
}

fn scenario() -> Vec<Accessor> {
    compile(
        "u32",
        "Scenario",
        vec![
            field("A", "State", "1, rw"),
            field("B", "bool", "1, r"),
            field("__", "u8", "1"),
            field("C", "u8", "5, rwc"),
            field("D", "u8", "8, r"),
        ],
    )
    .accessors()
}

#[test]
fn concrete_scenario() {
    let accessors = scenario();
    assert_eq!(
        names(&accessors),
        vec!["get_A", "set_A", "get_B", "get_C", "set_C", "clear_C", "get_D"]
    );
    assert_eq!(
        ops(&accessors),
        vec![
            Operation::Get,
            Operation::Assign,
            Operation::Get,
            Operation::Get,
            Operation::Assign,
            Operation::Clear,
            Operation::Get
        ]
    );
    let initial: u32 = 0b0000_0000_0000_0010_0000_0000_0000_0000;
    assert_eq!(find(&accessors, "get_A").get::<State>(initial), State::OFF);
    assert_eq!(find(&accessors, "get_B").get::<bool>(initial), false);
    assert_eq!(find(&accessors, "get_B").get::<bool>(initial | 0b10), true);
    assert_eq!(find(&accessors, "get_B").mask, 0b10);

    let after_a = find(&accessors, "set_A").set(initial, State::ON);
    assert_eq!(after_a & 1, 1);
    assert_eq!(after_a & !1, initial & !1);
    assert_eq!(after_a, 0b0000_0000_0000_0010_0000_0000_0000_0001);

    let after_c = find(&accessors, "set_C").set(after_a, 11u8);
    assert_eq!((after_c >> 3) & 0b1_1111, 11);
    assert_eq!(after_c & !0b1111_1000, after_a & !0b1111_1000);
    assert_eq!(after_c, 0b0000_0000_0000_0010_0000_0000_0101_1001);
    assert_eq!(find(&accessors, "get_C").get::<u8>(after_c), 11);
    assert_eq!(find(&accessors, "get_D").get::<u8>(after_c), 0);
    assert_eq!(find(&accessors, "get_D").get::<u8>(0x0000_a500), 0xa5);
}

#[test]
fn read_after_write() {
    let accessors = scenario();
    let get = find(&accessors, "get_C");
    let set = find(&accessors, "set_C");
    for cell in [0u32, 0xffff_ffff, 0x1234_5678, 0b0101_0101] {
        for v in 0u8..32 {
            let next = set.set(cell, v);
            assert_eq!(get.get::<u8>(next), v);
            assert_eq!(get.read(next), v as u32);
            assert_eq!(next & !get.mask, cell & !get.mask);
        }
    }
}

#[test]
fn a_value_too_wide_spills() {
    let accessors = scenario();
    let set = find(&accessors, "set_C");
    assert_eq!(set.apply(0, 32), 0x100);
    assert_eq!(find(&accessors, "get_C").read(set.apply(0, 32)), 0);
    assert_eq!(find(&accessors, "get_D").read(set.apply(0, 32)), 1);
}

#[test]
fn clear_zeroes_the_field_only() {
    let accessors = scenario();
    let clear = find(&accessors, "clear_C");
    for cell in [0u32, 0xffff_ffff, 0x1234_5678, 0b1111_1000] {
        let next = clear.apply(cell, 0xdead);
        assert_eq!(next, cell & !0b1111_1000);
        assert_eq!(find(&accessors, "get_C").get::<u8>(next), 0);
        for other in ["get_A", "get_B", "get_D"] {
            let get = find(&accessors, other);
            assert_eq!(get.read(next), get.read(cell));
        }
    }
}

#[test]
fn get_leaves_the_storage() {
    let accessors = scenario();
    let get = find(&accessors, "get_D");
    assert_eq!(get.apply(0x1234_5678, 0xff), 0x1234_5678);
    assert_eq!(get.read(0x1234_5678), 0x56);
}

fn flags(mode: &str, ty: &str) -> Vec<Accessor> {
    compile(
        "u8",
        "Flags",
        vec![field("__", "u8", "2"), field("ready", ty, &format!("1, {}", mode)), field("rest", "u8", "5")],
    )
    .accessors()
}

#[test]
fn set_flag() {
    for mode in ["rwc", "wc"] {
        let accessors = flags(mode, "bool");
        let set = find(&accessors, "set_ready");
        assert_eq!(set.op, Operation::Raise);
        assert_eq!(set.conversion, None);
        assert_eq!(set.apply(0, 0), 0b100);
        assert_eq!(set.apply(0, 1), 0b100);
        assert_eq!(set.apply(0b1010_0001, 0), 0b1010_0101);
        assert_eq!(set.set(0b1111_1000, false), 0b1111_1100);
        let clear = find(&accessors, "clear_ready");
        assert_eq!(clear.apply(0b1111_1111, 1), 0b1111_1011);
    }
    let accessors = flags("rwc", "bool");
    assert_eq!(ops(&accessors)[..3], [Operation::Get, Operation::Raise, Operation::Clear]);
    assert_eq!(find(&accessors, "get_ready").get::<bool>(find(&accessors, "set_ready").apply(0, 0)), true);
    let accessors = flags("wc", "bool");
    assert_eq!(ops(&accessors)[..2], [Operation::Raise, Operation::Clear]);
}

#[test]
fn set_takes_a_value_otherwise() {
    let accessors = flags("rw", "bool");
    let set = find(&accessors, "set_ready");
    assert_eq!(set.op, Operation::Assign);
    assert_eq!(set.conversion, Some(Conversion::Bool));
    assert_eq!(set.set(0b1111_1111, false), 0b1111_1011);
    assert_eq!(set.set(0, true), 0b100);
    let accessors = flags("w", "bool");
    assert_eq!(ops(&accessors)[..1], [Operation::Assign]);
    let accessors = flags("rwc", "u8");
    assert_eq!(ops(&accessors)[..3], [Operation::Get, Operation::Assign, Operation::Clear]);
    let accessors = flags("wc", "Flag");
    assert_eq!(ops(&accessors)[..2], [Operation::Assign, Operation::Clear]);
}

#[test]
fn accessors_by_mode() {
    let table: [(&str, &[Operation]); 6] = [
        ("r", &[Operation::Get]),
        ("w", &[Operation::Assign]),
        ("rw", &[Operation::Get, Operation::Assign]),
        ("rwc", &[Operation::Get, Operation::Assign, Operation::Clear]),
        ("rc", &[Operation::Get, Operation::Clear]),
        ("wc", &[Operation::Assign, Operation::Clear]),
    ];
    for (mode, expected) in table {
        let reg = compile("u16", "R", vec![field("x", "u8", &format!("3, {}", mode))]);
        let list = reg.bits[0].to_accessors();
        assert_eq!(ops(&list), expected.to_vec());
        assert_eq!(list, reg.accessors());
    }
}

#[test]
fn names_and_conversions() {
    let reg = compile(
        "u16",
        "R",
        vec![
            field("a", "u16", "4, rwc, get = read_a, from = conv::decode"),
            field("b", "Mode", "2, rwc, set = write_b, clear = wipe_b, into = encode"),
            field("c", "bool", ""),
        ],
    );
    let list = reg.accessors();
    assert_eq!(
        names(&list),
        vec!["read_a", "set_a", "clear_a", "get_b", "write_b", "wipe_b", "get_c", "set_c"]
    );
    let decode = PathRef { tokens: lex("conv::decode") };
    assert_eq!(list[0].conversion, Some(Conversion::Custom(decode)));
    assert_eq!(list[1].conversion, Some(Conversion::Unsigned));
    assert_eq!(list[2].conversion, None);
    assert_eq!(list[3].conversion, Some(Conversion::Codec));
    assert_eq!(list[4].conversion, Some(Conversion::Custom(PathRef::ident("encode"))));
    assert_eq!(list[5].conversion, None);
    assert_eq!(list[6].conversion, Some(Conversion::Bool));
    assert_eq!(list[7].conversion, Some(Conversion::Bool));
    assert_eq!(list[7].op, Operation::Assign);
    assert_eq!((list[3].offset, list[3].bits, list[3].mask, list[3].base_bits, list[3].index), (4, 2, 0x30, 16, 1));
    assert_eq!(reg.bits[1].typ, ValueType::Symbolic);
}

#[test]
fn masks_of_every_width() {
    let reg = compile("u32", "Whole", vec![field("all", "u32", "32")]);
    let list = reg.accessors();
    assert_eq!(list[0].mask, 0xffff_ffff);
    assert_eq!(list[0].read(0xdead_beef), 0xdead_beef);
    assert_eq!(list[1].apply(0x1234_5678, 0xdead_beef), 0xdead_beef);

    let reg = compile("u8", "Byte", vec![field("lo", "u8", "3"), field("hi", "u8", "5")]);
    let list = reg.accessors();
    assert_eq!(list[0].mask, 0b0000_0111);
    assert_eq!(list[2].mask, 0b1111_1000);
    assert_eq!(list[3].apply(0, 0b1_1111), 0b1111_1000);
    assert_eq!(list[3].apply(0, 0xff), 0b1111_1000);
    assert_eq!(list[3].apply(0b101, 0b10001), 0b1000_1101);

    let reg = compile("u16", "Half", vec![field("pad", "u8", "7"), field("top", "u16", "9")]);
    let list = reg.accessors();
    assert_eq!(list[2].mask, 0xff80);
    assert_eq!(list[3].apply(0, 0xffff_ffff), 0xff80);
    assert_eq!(list[2].read(0xffff), 0x1ff);
}

#[test]
fn a_field_alone() {
    let decl = field("x", "u8", "3, rw");
    let bits = RegBits::new(7, 4, &decl, 8).unwrap();
    assert_eq!((bits.index, bits.offset, bits.base_bits, bits.attrs.bits), (7, 4, 8, 3));
    let list = bits.to_accessors();
    assert_eq!(names(&list), vec!["get_x", "set_x"]);
    assert_eq!(list[0].mask, 0b0111_0000);
    assert_eq!(list[0].index, 7);
}
