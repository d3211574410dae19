use hgclient_conf::read::{ReadError, SKIP_DEPTH};
use hgclient_conf::schema::{field_table, inner_kind, StructKind};
use hgclient_conf::token::Token;
use hgclient_conf::ttype::TType;
use hgclient_conf::types::{ClientConfig, Condition, Hotfix, TimeShard};

fn s(x: &str) -> String {
    x.to_string()
}

fn shard(start: &str, end: &str) -> TimeShard {
    TimeShard { start: s(start), end: s(end) }
}

fn written_shard(t: &TimeShard) -> Vec<Token> {
    let mut out = Vec::new();
    t.write(&mut out);
    out
}

fn written_condition(c: &Condition) -> Vec<Token> {
    let mut out = Vec::new();
    c.write(&mut out);
    out
}

fn written_hotfix(h: &Hotfix) -> Vec<Token> {
    let mut out = Vec::new();
    h.write(&mut out);
    out
}

fn written_config(c: &ClientConfig) -> Vec<Token> {
    let mut out = Vec::new();
    c.write(&mut out);
    out
}

fn fb(name: &str, ty: TType, id: i16) -> Token {
    Token::FieldBegin(s(name), ty, id)
}

#[test]
fn time_shard_writes_both_fields() {
    let toks = written_shard(&shard("2020-01-01", "2020-02-01"));
    assert_eq!(
        toks,
        vec![
            Token::StructBegin(s("TimeShard")),
            fb("start", TType::String, 1),
            Token::Str(s("2020-01-01")),
            Token::FieldEnd,
            fb("end", TType::String, 2),
            Token::Str(s("2020-02-01")),
            Token::FieldEnd,
            Token::FieldStop,
            Token::StructEnd,
        ]
    );
}

#[test]
fn time_shard_read_after_write() {
    let t = shard("a", "b");
    let toks = written_shard(&t);
    assert_eq!(TimeShard::read(&toks, 0), Ok((t, 9)));
}

#[test]
fn time_shard_read_at_offset_with_trailing_tokens() {
    let t = shard("x", "");
    let mut toks = vec![Token::I32(7)];
    t.write(&mut toks);
    toks.push(Token::Bool(true));
    assert_eq!(TimeShard::read(&toks, 1), Ok((t, 10)));
}

#[test]
fn time_shard_absent_fields_keep_defaults() {
    let toks = vec![Token::StructBegin(s("TimeShard")), Token::FieldStop, Token::StructEnd];
    assert_eq!(TimeShard::read(&toks, 0), Ok((TimeShard::default(), 3)));
    let toks = vec![
        Token::StructBegin(s("")),
        fb("", TType::String, 2),
        Token::Str(s("late")),
        Token::FieldEnd,
        Token::FieldStop,
        Token::StructEnd,
    ];
    assert_eq!(TimeShard::read(&toks, 0), Ok((shard("", "late"), 6)));
}

#[test]
fn time_shard_last_duplicate_field_wins() {
    let toks = vec![
        Token::StructBegin(s("")),
        fb("", TType::String, 1),
        Token::Str(s("first")),
        Token::FieldEnd,
        fb("", TType::String, 1),
        Token::Str(s("second")),
        Token::FieldEnd,
        Token::FieldStop,
        Token::StructEnd,
    ];
    assert_eq!(TimeShard::read(&toks, 0), Ok((shard("second", ""), 9)));
}

#[test]
fn time_shard_field_of_other_type_is_skipped() {
    let toks = vec![
        Token::StructBegin(s("")),
        fb("", TType::I32, 1),
        Token::I32(5),
        Token::FieldEnd,
        Token::FieldStop,
        Token::StructEnd,
    ];
    assert_eq!(TimeShard::read(&toks, 0), Ok((TimeShard::default(), 6)));
}

#[test]
fn unknown_fields_of_every_shape_are_skipped() {
    let toks = vec![
        Token::StructBegin(s("")),
        fb("", TType::Struct, 40),
        Token::StructBegin(s("")),
        fb("", TType::Double, 1),
        Token::Double(0),
        Token::FieldEnd,
        Token::FieldStop,
        Token::StructEnd,
        Token::FieldEnd,
        fb("", TType::List, 41),
        Token::ListBegin(TType::I64, 2),
        Token::ListValueBegin,
        Token::I64(1),
        Token::ListValueBegin,
        Token::I64(2),
        Token::ListEnd,
        Token::FieldEnd,
        fb("", TType::SetOf, 42),
        Token::SetBegin(TType::Byte, 1),
        Token::SetValueBegin,
        Token::Byte(3),
        Token::SetEnd,
        Token::FieldEnd,
        fb("", TType::MapOf, 43),
        Token::MapBegin(TType::String, TType::Bool, 1),
        Token::MapKeyBegin,
        Token::Bin(vec![0xff, 0xfe]),
        Token::MapValueBegin,
        Token::Bool(false),
        Token::MapEnd,
        Token::FieldEnd,
        fb("", TType::Void, 44),
        Token::FieldEnd,
        fb("", TType::String, 1),
        Token::Str(s("kept")),
        Token::FieldEnd,
        Token::FieldStop,
        Token::StructEnd,
    ];
    assert_eq!(TimeShard::read(&toks, 0), Ok((shard("kept", ""), toks.len())));
}

#[test]
fn read_errors_end_of_input() {
    assert_eq!(TimeShard::read(&[], 0), Err(ReadError::EndOfInput));
    let toks = vec![Token::StructBegin(s("")), fb("", TType::String, 1)];
    assert_eq!(TimeShard::read(&toks, 0), Err(ReadError::EndOfInput));
}

#[test]
fn read_errors_unexpected_token() {
    let toks = vec![Token::StructEnd];
    assert_eq!(TimeShard::read(&toks, 0), Err(ReadError::UnexpectedToken));
    let toks = vec![
        Token::StructBegin(s("")),
        fb("", TType::String, 1),
        Token::Bin(vec![0xff]),
        Token::FieldEnd,
        Token::FieldStop,
        Token::StructEnd,
    ];
    assert_eq!(TimeShard::read(&toks, 0), Err(ReadError::UnexpectedToken));
}

#[test]
fn read_errors_from_skipping() {
    let toks = vec![Token::StructBegin(s("")), fb("", TType::Stream, 9), Token::FieldEnd];
    assert_eq!(TimeShard::read(&toks, 0), Err(ReadError::StreamUnsupported));
    let toks = vec![
        Token::StructBegin(s("")),
        fb("", TType::List, 9),
        Token::ListBegin(TType::Stop, 1),
        Token::ListValueBegin,
    ];
    assert_eq!(TimeShard::read(&toks, 0), Err(ReadError::UnexpectedStopInSkip));
}

#[test]
fn skipping_stops_at_its_depth() {
    assert_eq!(SKIP_DEPTH, 64);
    let mut deep = vec![Token::StructBegin(s(""))];
    for _ in 0..65 {
        deep.push(fb("", TType::Struct, 9));
        deep.push(Token::StructBegin(s("")));
    }
    assert_eq!(TimeShard::read(&deep, 0), Err(ReadError::SkipDepthExceeded));
    let mut shallow = vec![Token::StructBegin(s(""))];
    for _ in 0..64 {
        shallow.push(fb("", TType::Struct, 9));
        shallow.push(Token::StructBegin(s("")));
    }
    for _ in 0..64 {
        shallow.push(Token::FieldStop);
        shallow.push(Token::StructEnd);
        shallow.push(Token::FieldEnd);
    }
    shallow.push(Token::FieldStop);
    shallow.push(Token::StructEnd);
    assert_eq!(TimeShard::read(&shallow, 0), Ok((TimeShard::default(), shallow.len())));
}

#[test]
fn condition_alternatives_read_after_write() {
    let all = vec![
        Condition::not_condition(Box::new(Condition::shard(3))),
        Condition::and_condition(vec![Condition::group(s("g")), Condition::user_shard(-4)]),
        Condition::or_condition(vec![]),
        Condition::repos(vec![s("fbsource"), s("www")]),
        Condition::platforms(vec![s("linux")]),
        Condition::domains(vec![]),
        Condition::tiers(vec![s("t")]),
        Condition::hosts(vec![s("h1"), s("h2"), s("h3")]),
        Condition::group(s("devs")),
        Condition::shard(42),
        Condition::user_shard(i32::MIN),
        Condition::time_shard(shard("s", "e")),
        Condition::host_prefixes(vec![s("dev")]),
        Condition::UnknownField(-1),
    ];
    for c in all {
        let toks = written_condition(&c);
        assert_eq!(Condition::read(&toks, 0), Ok((c.clone(), toks.len())));
    }
}

#[test]
fn condition_writes_one_field() {
    let toks = written_condition(&Condition::shard(10));
    assert_eq!(
        toks,
        vec![
            Token::StructBegin(s("Condition")),
            fb("shard", TType::I32, 10),
            Token::I32(10),
            Token::FieldEnd,
            Token::FieldStop,
            Token::StructEnd,
        ]
    );
    let toks = written_condition(&Condition::repos(vec![s("r")]));
    assert_eq!(
        toks,
        vec![
            Token::StructBegin(s("Condition")),
            fb("repos", TType::List, 4),
            Token::ListBegin(TType::String, 1),
            Token::ListValueBegin,
            Token::Str(s("r")),
            Token::ListEnd,
            Token::FieldEnd,
            Token::FieldStop,
            Token::StructEnd,
        ]
    );
}

#[test]
fn condition_unknown_field_reads_as_default() {
    let c = Condition::and_condition(vec![Condition::UnknownField(7)]);
    let toks = written_condition(&c);
    assert_eq!(
        Condition::read(&toks, 0),
        Ok((Condition::and_condition(vec![Condition::UnknownField(-1)]), toks.len()))
    );
    let empty = vec![Token::StructBegin(s("Condition")), Token::FieldStop, Token::StructEnd];
    assert_eq!(written_condition(&Condition::UnknownField(12)), empty);
    assert_eq!(Condition::read(&empty, 0), Ok((Condition::default(), 3)));
}

#[test]
fn condition_refuses_a_second_field() {
    let toks = vec![
        Token::StructBegin(s("")),
        fb("", TType::String, 9),
        Token::Str(s("g")),
        Token::FieldEnd,
        fb("", TType::I32, 10),
        Token::I32(1),
        Token::FieldEnd,
        Token::FieldStop,
        Token::StructEnd,
    ];
    assert_eq!(Condition::read(&toks, 0), Err(ReadError::ExtraUnionField(TType::I32, 10)));
    let toks = vec![
        Token::StructBegin(s("")),
        fb("", TType::I32, 10),
        Token::I32(1),
        Token::FieldEnd,
        fb("", TType::Bool, 99),
        Token::Bool(true),
        Token::FieldEnd,
        Token::FieldStop,
        Token::StructEnd,
    ];
    assert_eq!(Condition::read(&toks, 0), Err(ReadError::ExtraUnionField(TType::Bool, 99)));
}

#[test]
fn condition_skips_unknown_fields_before_its_alternative() {
    let toks = vec![
        Token::StructBegin(s("")),
        fb("", TType::I64, 77),
        Token::I64(-1),
        Token::FieldEnd,
        fb("", TType::String, 10),
        Token::Str(s("not a shard")),
        Token::FieldEnd,
        fb("", TType::I32, 11),
        Token::I32(5),
        Token::FieldEnd,
        Token::FieldStop,
        Token::StructEnd,
    ];
    assert_eq!(Condition::read(&toks, 0), Ok((Condition::user_shard(5), 12)));
}

#[test]
fn condition_nested_read_after_write() {
    let c = Condition::not_condition(Box::new(Condition::or_condition(vec![
        Condition::and_condition(vec![
            Condition::time_shard(shard("1", "2")),
            Condition::not_condition(Box::new(Condition::hosts(vec![s("a")]))),
        ]),
        Condition::tiers(vec![]),
    ])));
    let toks = written_condition(&c);
    assert_eq!(Condition::read(&toks, 0), Ok((c, toks.len())));
}

#[test]
fn condition_list_shorter_than_announced_fails() {
    let toks = vec![
        Token::StructBegin(s("")),
        fb("", TType::List, 4),
        Token::ListBegin(TType::String, 2),
        Token::ListValueBegin,
        Token::Str(s("only")),
        Token::ListEnd,
        Token::FieldEnd,
        Token::FieldStop,
        Token::StructEnd,
    ];
    assert_eq!(Condition::read(&toks, 0), Err(ReadError::UnexpectedToken));
}

#[test]
fn hotfix_read_after_write() {
    let h = Hotfix { config: s("[ui]\nfoo=bar"), condition: Condition::repos(vec![s("x")]) };
    let toks = written_hotfix(&h);
    assert_eq!(toks.len(), 17);
    assert_eq!(Hotfix::read(&toks, 0), Ok((h, 17)));
}

#[test]
fn hotfix_absent_fields_keep_defaults() {
    let toks = vec![Token::StructBegin(s("Hotfix")), Token::FieldStop, Token::StructEnd];
    assert_eq!(Hotfix::read(&toks, 0), Ok((Hotfix::default(), 3)));
    assert_eq!(
        Hotfix::default(),
        Hotfix { config: String::new(), condition: Condition::UnknownField(-1) }
    );
}

#[test]
fn client_config_read_after_write() {
    let c = ClientConfig {
        hotfixes: vec![
            Hotfix { config: s("a"), condition: Condition::shard(1) },
            Hotfix { config: s("b"), condition: Condition::UnknownField(-1) },
        ],
    };
    let toks = written_config(&c);
    assert_eq!(ClientConfig::read(&toks, 0), Ok((c, toks.len())));
}

#[test]
fn client_config_empty() {
    let c = ClientConfig::default();
    assert!(c.hotfixes.is_empty());
    let toks = written_config(&c);
    assert_eq!(
        toks,
        vec![
            Token::StructBegin(s("ClientConfig")),
            fb("hotfixes", TType::List, 1),
            Token::ListBegin(TType::Struct, 0),
            Token::ListEnd,
            Token::FieldEnd,
            Token::FieldStop,
            Token::StructEnd,
        ]
    );
    let bare = vec![Token::StructBegin(s("")), Token::FieldStop, Token::StructEnd];
    assert_eq!(ClientConfig::read(&bare, 0), Ok((c, 3)));
}

#[test]
fn client_config_rewrite_is_stable() {
    let c = ClientConfig {
        hotfixes: vec![Hotfix {
            config: s("c"),
            condition: Condition::or_condition(vec![Condition::UnknownField(3)]),
        }],
    };
    let toks = written_config(&c);
    let (back, _) = ClientConfig::read(&toks, 0).unwrap();
    assert_eq!(written_config(&back), toks);
}

#[test]
fn defaults() {
    assert_eq!(TimeShard::default(), shard("", ""));
    assert_eq!(Condition::default(), Condition::UnknownField(-1));
}

#[test]
fn condition_clone_is_equal() {
    let c = Condition::and_condition(vec![
        Condition::group(s("g")),
        Condition::not_condition(Box::new(Condition::domains(vec![s("d")]))),
    ]);
    assert_eq!(c.clone(), c);
}

#[test]
fn condition_of_unknown_fields_only_reads_as_default() {
    let toks = vec![
        Token::StructBegin(s("Condition")),
        fb("", TType::I64, 40),
        Token::I64(3),
        Token::FieldEnd,
        fb("", TType::String, 10),
        Token::Str(s("wrong type for a shard")),
        Token::FieldEnd,
        Token::FieldStop,
        Token::StructEnd,
        Token::I32(0),
    ];
    assert_eq!(Condition::read(&toks, 0), Ok((Condition::UnknownField(-1), 9)));
}

#[test]
fn condition_refuses_a_field_after_unknown_and_known_ones() {
    let toks = vec![
        Token::StructBegin(s("Condition")),
        fb("", TType::Bool, 50),
        Token::Bool(false),
        Token::FieldEnd,
        fb("group", TType::String, 9),
        Token::Str(s("dev")),
        Token::FieldEnd,
        fb("", TType::Byte, 51),
        Token::Byte(1),
        Token::FieldEnd,
        Token::FieldStop,
        Token::StructEnd,
    ];
    assert_eq!(Condition::read(&toks, 0), Err(ReadError::ExtraUnionField(TType::Byte, 51)));
}

#[test]
fn condition_passes_on_the_error_of_a_field() {
    let known_bad = vec![
        Token::StructBegin(s("Condition")),
        fb("", TType::Double, 60),
        Token::Double(0),
        Token::FieldEnd,
        fb("shard", TType::I32, 10),
        Token::Str(s("ten")),
        Token::FieldEnd,
        Token::FieldStop,
        Token::StructEnd,
    ];
    assert_eq!(Condition::read(&known_bad, 0), Err(ReadError::UnexpectedToken));
    let unknown_bad = vec![
        Token::StructBegin(s("Condition")),
        fb("", TType::Stream, 61),
        Token::FieldEnd,
        Token::FieldStop,
        Token::StructEnd,
    ];
    assert_eq!(Condition::read(&unknown_bad, 0), Err(ReadError::StreamUnsupported));
    let nested_bad = vec![
        Token::StructBegin(s("Condition")),
        fb("not_condition", TType::Struct, 1),
        Token::StructBegin(s("Condition")),
        fb("shard", TType::I32, 10),
        Token::I32(1),
        Token::FieldEnd,
    ];
    assert_eq!(Condition::read(&nested_bad, 0), Err(ReadError::EndOfInput));
}

#[test]
fn condition_writes_exactly_one_field_header() {
    let alternatives = vec![
        (Condition::not_condition(Box::new(Condition::shard(1))), "not_condition", TType::Struct, 1),
        (Condition::and_condition(vec![]), "and_condition", TType::List, 2),
        (Condition::or_condition(vec![]), "or_condition", TType::List, 3),
        (Condition::repos(vec![]), "repos", TType::List, 4),
        (Condition::platforms(vec![]), "platforms", TType::List, 5),
        (Condition::domains(vec![]), "domains", TType::List, 6),
        (Condition::tiers(vec![]), "tiers", TType::List, 7),
        (Condition::hosts(vec![]), "hosts", TType::List, 8),
        (Condition::group(s("g")), "group", TType::String, 9),
        (Condition::shard(2), "shard", TType::I32, 10),
        (Condition::user_shard(3), "user_shard", TType::I32, 11),
        (Condition::time_shard(shard("a", "b")), "time_shard", TType::Struct, 12),
        (Condition::host_prefixes(vec![]), "host_prefixes", TType::List, 13),
    ];
    for (c, name, ty, id) in alternatives {
        let toks = written_condition(&c);
        assert_eq!(toks[0], Token::StructBegin(s("Condition")));
        assert_eq!(toks[1], fb(name, ty, id));
        let n = toks.len();
        assert_eq!(&toks[n - 3..], &[Token::FieldEnd, Token::FieldStop, Token::StructEnd]);
        let headers = toks.iter().filter(|t| matches!(t, Token::FieldBegin(..))).count();
        let nested = match &c {
            Condition::not_condition(_) => 1,
            Condition::time_shard(_) => 2,
            _ => 0,
        };
        assert_eq!(headers, 1 + nested);
    }
}

#[test]
fn one_bad_hotfix_fails_the_whole_config() {
    let good = Hotfix { config: s("a"), condition: Condition::shard(1) };
    let mut toks = vec![
        Token::StructBegin(s("ClientConfig")),
        fb("hotfixes", TType::List, 1),
        Token::ListBegin(TType::Struct, 2),
        Token::ListValueBegin,
    ];
    toks.extend(written_hotfix(&good));
    toks.extend(vec![
        Token::ListValueBegin,
        Token::StructBegin(s("Hotfix")),
        fb("condition", TType::Struct, 2),
        Token::StructBegin(s("Condition")),
        fb("shard", TType::I32, 10),
        Token::I32(1),
        Token::FieldEnd,
        fb("user_shard", TType::I32, 11),
        Token::I32(2),
        Token::FieldEnd,
        Token::FieldStop,
        Token::StructEnd,
        Token::FieldEnd,
        Token::FieldStop,
        Token::StructEnd,
        Token::ListEnd,
        Token::FieldEnd,
        Token::FieldStop,
        Token::StructEnd,
    ]);
    assert_eq!(ClientConfig::read(&toks, 0), Err(ReadError::ExtraUnionField(TType::I32, 11)));
}

#[test]
fn truncated_time_shard_is_end_of_input() {
    let toks = written_shard(&shard("2021-01-01", "2021-06-01"));
    assert_eq!(toks.len(), 9);
    for k in 0..toks.len() {
        assert_eq!(TimeShard::read(&toks[..k], 0), Err(ReadError::EndOfInput));
    }
}

#[test]
fn time_shard_passes_on_the_error_of_a_field() {
    let toks = vec![
        Token::StructBegin(s("TimeShard")),
        fb("start", TType::String, 1),
        Token::Str(s("2021")),
        Token::FieldEnd,
        fb("", TType::I16, 30),
        Token::I16(4),
        Token::FieldEnd,
        fb("end", TType::String, 2),
        Token::I32(2022),
        Token::FieldEnd,
        Token::FieldStop,
        Token::StructEnd,
    ];
    assert_eq!(TimeShard::read(&toks, 0), Err(ReadError::UnexpectedToken));
}

#[test]
fn field_tables_list_the_fields_read() {
    let names = |k: StructKind| -> Vec<(String, TType, i16)> {
        field_table(k).into_iter().map(|d| (d.name, d.ty, d.id)).collect()
    };
    assert_eq!(
        names(StructKind::TimeShard),
        vec![(s("end"), TType::String, 2), (s("start"), TType::String, 1)]
    );
    assert_eq!(
        names(StructKind::Hotfix),
        vec![(s("condition"), TType::Struct, 2), (s("config"), TType::String, 1)]
    );
    assert_eq!(names(StructKind::ClientConfig), vec![(s("hotfixes"), TType::List, 1)]);
    let c = names(StructKind::Condition);
    assert_eq!(c.len(), 13);
    assert!(c.windows(2).all(|w| w[0].0 < w[1].0));
    assert!(c.contains(&(s("user_shard"), TType::I32, 11)));
    assert_eq!(inner_kind(StructKind::Condition, TType::Struct, 12), Some(StructKind::TimeShard));
    assert_eq!(inner_kind(StructKind::Condition, TType::List, 3), Some(StructKind::Condition));
    assert_eq!(inner_kind(StructKind::ClientConfig, TType::List, 1), Some(StructKind::Hotfix));
    assert_eq!(inner_kind(StructKind::Hotfix, TType::String, 1), None);
}

#[test]
fn reading_ignores_names() {
    let c = ClientConfig {
        hotfixes: vec![Hotfix {
            config: s("x"),
            condition: Condition::not_condition(Box::new(Condition::time_shard(shard("1", "2")))),
        }],
    };
    let toks = written_config(&c);
    let bare: Vec<Token> = toks
        .iter()
        .map(|t| match t {
            Token::StructBegin(_) => Token::StructBegin(String::new()),
            Token::FieldBegin(_, ty, id) => Token::FieldBegin(String::new(), *ty, *id),
            other => other.clone(),
        })
        .collect();
    assert_ne!(bare, toks);
    assert_eq!(ClientConfig::read(&bare, 0), Ok((c, toks.len())));
}
