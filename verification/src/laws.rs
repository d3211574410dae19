use vstd::prelude::*;

use crate::locality::{
    agree_from, lemma_local_client_config_fields, lemma_local_condition_fields,
    lemma_local_hotfix_fields, lemma_local_time_shard_fields, reading_ignores_names, shift_read,
    without_names,
};
use crate::read::{
    client_config_field_spec, client_config_fields_spec, client_config_spec,
    condition_field_spec, condition_fields_spec, condition_items_spec, condition_list_spec,
    condition_spec, hotfix_field_spec, hotfix_fields_spec, hotfix_items_spec, hotfix_list_spec,
    hotfix_spec, skip_spec, string_items_spec, string_list_spec, time_shard_field_spec,
    time_shard_fields_spec, time_shard_spec, ReadError, SKIP_DEPTH,
};
use crate::token::TokenV;
use crate::ttype::TType;
use crate::types::{
    conditions_view, default_condition, default_hotfix, default_time_shard, hotfixes_view,
    strings_view, ClientConfig, ClientConfigV, Condition, ConditionV, Hotfix, HotfixV, TimeShard,
    TimeShardV,
};
use crate::write::{
    client_config_tokens, condition_field_tokens, condition_items, condition_list_tokens,
    condition_tokens, field_tokens, hotfix_items, hotfix_tokens, string_items,
    string_list_tokens, time_shard_tokens,
};

verus! {

/// The tokens `toks` stand in `ts` from position `p` on.
pub(crate) open spec fn tokens_at(ts: Seq<TokenV>, p: int, toks: Seq<TokenV>) -> bool {
    &&& 0 <= p
    &&& p + toks.len() <= ts.len()
    &&& forall|i: int| 0 <= i < toks.len() ==> ts[p + i] == #[trigger] toks[i]
}

pub(crate) proof fn lemma_at_concat(ts: Seq<TokenV>, p: int, a: Seq<TokenV>, b: Seq<TokenV>)
    requires
        tokens_at(ts, p, a + b),
    ensures
        tokens_at(ts, p, a),
        tokens_at(ts, p + a.len(), b),
{
    assert forall|i: int| 0 <= i < a.len() implies ts[p + i] == #[trigger] a[i] by {
        assert((a + b)[i] == a[i]);
    }
    assert forall|i: int| 0 <= i < b.len() implies ts[p + a.len() + i] == #[trigger] b[i] by {
        assert((a + b)[a.len() + i] == b[i]);
    }
}

pub(crate) proof fn lemma_at_first(ts: Seq<TokenV>, p: int, toks: Seq<TokenV>)
    requires
        tokens_at(ts, p, toks),
        toks.len() > 0,
    ensures
        ts[p] == toks[0],
        tokens_at(ts, p + 1, toks.drop_first()),
{
    assert(ts[p + 0] == toks[0]);
    assert forall|i: int| 0 <= i < toks.drop_first().len() implies ts[p + 1 + i]
        == #[trigger] toks.drop_first()[i] by {
        assert(toks[1 + i] == toks.drop_first()[i]);
    }
}

pub(crate) proof fn lemma_at_cons(ts: Seq<TokenV>, p: int, t: TokenV, rest: Seq<TokenV>)
    requires
        tokens_at(ts, p, seq![t] + rest),
    ensures
        p < ts.len(),
        ts[p] == t,
        tokens_at(ts, p + 1, rest),
{
    lemma_at_concat(ts, p, seq![t], rest);
    assert(seq![t][0] == t);
    assert(ts[p + 0] == seq![t][0]);
}

proof fn lemma_string_items_read(ts: Seq<TokenV>, p: int, v: Seq<Seq<char>>, i: int)
    requires
        0 <= i <= v.len(),
        tokens_at(ts, p, string_items(v, i) + seq![TokenV::ListEnd]),
    ensures
        string_items_spec(ts, p, v.len() - i, v.take(i)) == Ok::<(Seq<Seq<char>>, int), ReadError>(
            (v, p + string_items(v, i).len() + 1),
        ),
    decreases v.len() - i,
{
    let toks = string_items(v, i) + seq![TokenV::ListEnd];
    if i == v.len() {
        assert(string_items(v, i) =~= seq![]);
        lemma_at_first(ts, p, toks);
        assert(v.take(i) =~= v);
    } else {
        let rest = string_items(v, i + 1) + seq![TokenV::ListEnd];
        assert(toks =~= seq![TokenV::ListValueBegin, TokenV::Str(v[i])] + rest);
        lemma_at_concat(ts, p, seq![TokenV::ListValueBegin, TokenV::Str(v[i])], rest);
        assert(ts[p + 0] == TokenV::ListValueBegin);
        assert(ts[p + 1] == TokenV::Str(v[i]));
        lemma_string_items_read(ts, p + 2, v, i + 1);
        assert(v.take(i).push(v[i]) =~= v.take(i + 1));
    }
}

proof fn lemma_string_list_read(ts: Seq<TokenV>, p: int, v: Seq<Seq<char>>)
    requires
        v.len() <= usize::MAX,
        tokens_at(ts, p, string_list_tokens(v)),
    ensures
        string_list_spec(ts, p) == Ok::<(Seq<Seq<char>>, int), ReadError>(
            (v, p + string_list_tokens(v).len()),
        ),
{
    let toks = string_list_tokens(v);
    let rest = string_items(v, 0) + seq![TokenV::ListEnd];
    assert(toks =~= seq![TokenV::ListBegin(TType::String, v.len() as usize)] + rest);
    lemma_at_cons(ts, p, TokenV::ListBegin(TType::String, v.len() as usize), rest);
    lemma_string_items_read(ts, p + 1, v, 0);
    assert(v.take(0) =~= seq![]);
}

/// The tokens of `toks` are those of `ts` from `p` on, index by index.
pub(crate) proof fn lemma_at_index(ts: Seq<TokenV>, p: int, toks: Seq<TokenV>, i: int)
    requires
        tokens_at(ts, p, toks),
        0 <= i < toks.len(),
    ensures
        ts[p + i] == toks[i],
{
}

proof fn lemma_time_shard_read(ts: Seq<TokenV>, p: int, t: TimeShardV)
    requires
        tokens_at(ts, p, time_shard_tokens(t)),
    ensures
        time_shard_tokens(t).len() == 9,
        time_shard_spec(ts, p) == Ok::<(TimeShardV, int), ReadError>((t, p + 9)),
{
    let toks = time_shard_tokens(t);
    assert(toks =~= seq![
        TokenV::StructBegin("TimeShard"@),
        TokenV::FieldBegin("start"@, TType::String, 1),
        TokenV::Str(t.start),
        TokenV::FieldEnd,
        TokenV::FieldBegin("end"@, TType::String, 2),
        TokenV::Str(t.end),
        TokenV::FieldEnd,
        TokenV::FieldStop,
        TokenV::StructEnd,
    ]);
    lemma_at_index(ts, p, toks, 0);
    lemma_at_index(ts, p, toks, 1);
    lemma_at_index(ts, p, toks, 2);
    lemma_at_index(ts, p, toks, 3);
    lemma_at_index(ts, p, toks, 4);
    lemma_at_index(ts, p, toks, 5);
    lemma_at_index(ts, p, toks, 6);
    lemma_at_index(ts, p, toks, 7);
    lemma_at_index(ts, p, toks, 8);
    let half = TimeShardV { start: t.start, end: default_time_shard().end };
    assert(time_shard_fields_spec(ts, p + 7, t) == Ok::<(TimeShardV, int), ReadError>((t, p + 9)));
    assert(time_shard_field_spec(ts, p + 5, TType::String, 2, half) == Ok::<(TimeShardV, int), ReadError>((t, p + 6)));
    assert(time_shard_fields_spec(ts, p + 4, half) == Ok::<(TimeShardV, int), ReadError>((t, p + 9)));
    assert(time_shard_fields_spec(ts, p + 1, default_time_shard()) == Ok::<(TimeShardV, int), ReadError>((t, p + 9)));
}

/// The condition with every `UnknownField` alternative, at any depth,
/// replaced by the default `UnknownField(-1)`: what reading gives back of a
/// written condition, since an `UnknownField` writes no field.
pub open spec fn normalized(c: ConditionV) -> ConditionV
    decreases c,
{
    match c {
        ConditionV::not_condition(b) => ConditionV::not_condition(Box::new(normalized(*b))),
        ConditionV::and_condition(v) => ConditionV::and_condition(normalized_all(v)),
        ConditionV::or_condition(v) => ConditionV::or_condition(normalized_all(v)),
        ConditionV::UnknownField(_) => default_condition(),
        _ => c,
    }
}

/// `normalized`, element by element.
pub open spec fn normalized_all(v: Seq<ConditionV>) -> Seq<ConditionV>
    decreases v,
{
    Seq::new(
        v.len(),
        |j: int|
            if 0 <= j < v.len() {
                normalized(v[j])
            } else {
                default_condition()
            },
    )
}

pub(crate) proof fn lemma_field_parts(
    ts: Seq<TokenV>,
    p: int,
    name: Seq<char>,
    ty: TType,
    id: i16,
    val: Seq<TokenV>,
)
    requires
        tokens_at(ts, p, field_tokens(name, ty, id, val)),
    ensures
        ts[p] == TokenV::FieldBegin(name, ty, id),
        tokens_at(ts, p + 1, val),
        ts[p + 1 + val.len()] == TokenV::FieldEnd,
        field_tokens(name, ty, id, val).len() == val.len() + 2,
{
    let toks = field_tokens(name, ty, id, val);
    assert(toks =~= seq![TokenV::FieldBegin(name, ty, id)] + (val + seq![TokenV::FieldEnd]));
    lemma_at_cons(ts, p, TokenV::FieldBegin(name, ty, id), val + seq![TokenV::FieldEnd]);
    lemma_at_concat(ts, p + 1, val, seq![TokenV::FieldEnd]);
    lemma_at_index(ts, p + 1 + val.len(), seq![TokenV::FieldEnd], 0);
}

proof fn lemma_alt_step(
    ts: Seq<TokenV>,
    p: int,
    name: Seq<char>,
    ty: TType,
    id: i16,
    val: Seq<TokenV>,
    x: ConditionV,
)
    requires
        ty != TType::Stop,
        tokens_at(ts, p, field_tokens(name, ty, id, val)),
        condition_field_spec(ts, p + 1, ty, id) == Ok::<(Option<ConditionV>, int), ReadError>(
            (Some(x), p + 1 + val.len()),
        ),
    ensures
        condition_fields_spec(ts, p, None) == condition_fields_spec(ts, p + val.len() + 2, Some(x)),
        p + val.len() + 2 <= ts.len(),
        field_tokens(name, ty, id, val).len() == val.len() + 2,
{
    lemma_field_parts(ts, p, name, ty, id, val);
}

/// Reading the field of an alternative takes a condition's fields from
/// having no alternative to having that one, `normalized`.
#[verifier::spinoff_prover]
#[verifier::rlimit(60)]
proof fn lemma_alternative_read(ts: Seq<TokenV>, p: int, c: Condition)
    requires
        !(c@ is UnknownField),
        tokens_at(ts, p, condition_field_tokens(c@)),
    ensures
        condition_fields_spec(ts, p, None) == condition_fields_spec(
            ts,
            p + condition_field_tokens(c@).len(),
            Some(normalized(c@)),
        ),
        p + condition_field_tokens(c@).len() <= ts.len(),
    decreases c, 0int,
{
    match c {
        Condition::UnknownField(_) => {
            assert(c@ is UnknownField);
        },
        Condition::not_condition(b) => {
            let val = condition_tokens(b@);
            lemma_field_parts(ts, p, "not_condition"@, TType::Struct, 1, val);
            lemma_condition_read(ts, p + 1, *b);
            lemma_alt_step(ts, p, "not_condition"@, TType::Struct, 1, val, normalized(c@));
        },
        Condition::and_condition(v) => {
            let val = condition_list_tokens(conditions_view(v));
            lemma_field_parts(ts, p, "and_condition"@, TType::List, 2, val);
            lemma_condition_list_read(ts, p + 1, v);
            lemma_alt_step(ts, p, "and_condition"@, TType::List, 2, val, normalized(c@));
        },
        Condition::or_condition(v) => {
            let val = condition_list_tokens(conditions_view(v));
            lemma_field_parts(ts, p, "or_condition"@, TType::List, 3, val);
            lemma_condition_list_read(ts, p + 1, v);
            lemma_alt_step(ts, p, "or_condition"@, TType::List, 3, val, normalized(c@));
        },
        Condition::repos(v) => {
            let val = string_list_tokens(strings_view(v@));
            lemma_field_parts(ts, p, "repos"@, TType::List, 4, val);
            assert(v.len() == v@.len());
            lemma_string_list_read(ts, p + 1, strings_view(v@));
            lemma_alt_step(ts, p, "repos"@, TType::List, 4, val, normalized(c@));
        },
        Condition::platforms(v) => {
            let val = string_list_tokens(strings_view(v@));
            lemma_field_parts(ts, p, "platforms"@, TType::List, 5, val);
            assert(v.len() == v@.len());
            lemma_string_list_read(ts, p + 1, strings_view(v@));
            lemma_alt_step(ts, p, "platforms"@, TType::List, 5, val, normalized(c@));
        },
        Condition::domains(v) => {
            let val = string_list_tokens(strings_view(v@));
            lemma_field_parts(ts, p, "domains"@, TType::List, 6, val);
            assert(v.len() == v@.len());
            lemma_string_list_read(ts, p + 1, strings_view(v@));
            lemma_alt_step(ts, p, "domains"@, TType::List, 6, val, normalized(c@));
        },
        Condition::tiers(v) => {
            let val = string_list_tokens(strings_view(v@));
            lemma_field_parts(ts, p, "tiers"@, TType::List, 7, val);
            assert(v.len() == v@.len());
            lemma_string_list_read(ts, p + 1, strings_view(v@));
            lemma_alt_step(ts, p, "tiers"@, TType::List, 7, val, normalized(c@));
        },
        Condition::hosts(v) => {
            let val = string_list_tokens(strings_view(v@));
            lemma_field_parts(ts, p, "hosts"@, TType::List, 8, val);
            assert(v.len() == v@.len());
            lemma_string_list_read(ts, p + 1, strings_view(v@));
            lemma_alt_step(ts, p, "hosts"@, TType::List, 8, val, normalized(c@));
        },
        Condition::group(s) => {
            let val = seq![TokenV::Str(s@)];
            lemma_field_parts(ts, p, "group"@, TType::String, 9, val);
            lemma_at_index(ts, p + 1, val, 0);
            lemma_alt_step(ts, p, "group"@, TType::String, 9, val, normalized(c@));
        },
        Condition::shard(i) => {
            let val = seq![TokenV::I32(i)];
            lemma_field_parts(ts, p, "shard"@, TType::I32, 10, val);
            lemma_at_index(ts, p + 1, val, 0);
            lemma_alt_step(ts, p, "shard"@, TType::I32, 10, val, normalized(c@));
        },
        Condition::user_shard(i) => {
            let val = seq![TokenV::I32(i)];
            lemma_field_parts(ts, p, "user_shard"@, TType::I32, 11, val);
            lemma_at_index(ts, p + 1, val, 0);
            lemma_alt_step(ts, p, "user_shard"@, TType::I32, 11, val, normalized(c@));
        },
        Condition::time_shard(t) => {
            let val = time_shard_tokens(t@);
            lemma_field_parts(ts, p, "time_shard"@, TType::Struct, 12, val);
            lemma_time_shard_read(ts, p + 1, t@);
            lemma_alt_step(ts, p, "time_shard"@, TType::Struct, 12, val, normalized(c@));
        },
        Condition::host_prefixes(v) => {
            let val = string_list_tokens(strings_view(v@));
            lemma_field_parts(ts, p, "host_prefixes"@, TType::List, 13, val);
            assert(v.len() == v@.len());
            lemma_string_list_read(ts, p + 1, strings_view(v@));
            lemma_alt_step(ts, p, "host_prefixes"@, TType::List, 13, val, normalized(c@));
        },
    }
}

proof fn lemma_condition_read(ts: Seq<TokenV>, p: int, c: Condition)
    requires
        tokens_at(ts, p, condition_tokens(c@)),
    ensures
        condition_spec(ts, p) == Ok::<(ConditionV, int), ReadError>(
            (normalized(c@), p + condition_tokens(c@).len()),
        ),
    decreases c, 1int,
{
    let f = condition_field_tokens(c@);
    let n: int = f.len() as int;
    let toks = condition_tokens(c@);
    let tail = seq![TokenV::FieldStop, TokenV::StructEnd];
    assert(toks =~= seq![TokenV::StructBegin("Condition"@)] + (f + tail));
    lemma_at_cons(ts, p, TokenV::StructBegin("Condition"@), f + tail);
    lemma_at_concat(ts, p + 1, f, tail);
    lemma_at_index(ts, p + 1 + n, tail, 0);
    lemma_at_index(ts, p + 1 + n, tail, 1);
    let x = normalized(c@);
    if c@ is UnknownField {
        assert(f =~= seq![]);
        assert(condition_fields_spec(ts, p + 1, None) == Ok::<(ConditionV, int), ReadError>(
            (x, p + 3),
        ));
    } else {
        lemma_alternative_read(ts, p + 1, c);
        assert(condition_fields_spec(ts, p + 1 + n, Some(x)) == Ok::<(ConditionV, int), ReadError>(
            (x, p + n + 3),
        ));
    }
}

proof fn lemma_condition_list_read(ts: Seq<TokenV>, p: int, v: Vec<Condition>)
    requires
        tokens_at(ts, p, condition_list_tokens(conditions_view(v))),
    ensures
        condition_list_spec(ts, p) == Ok::<(Seq<ConditionV>, int), ReadError>(
            (normalized_all(conditions_view(v)), p + condition_list_tokens(conditions_view(v)).len()),
        ),
    decreases v, v@.len() + 2,
{
    let cv = conditions_view(v);
    let toks = condition_list_tokens(cv);
    let rest = condition_items(cv, 0) + seq![TokenV::ListEnd];
    assert(v.len() == v@.len());
    assert(toks =~= seq![TokenV::ListBegin(TType::Struct, cv.len() as usize)] + rest);
    lemma_at_cons(ts, p, TokenV::ListBegin(TType::Struct, cv.len() as usize), rest);
    lemma_condition_items_read(ts, p + 1, v, 0);
    assert(normalized_all(cv).take(0) =~= seq![]);
}

proof fn lemma_condition_items_read(ts: Seq<TokenV>, p: int, v: Vec<Condition>, i: int)
    requires
        0 <= i <= v@.len(),
        tokens_at(ts, p, condition_items(conditions_view(v), i) + seq![TokenV::ListEnd]),
    ensures
        condition_items_spec(
            ts,
            p,
            conditions_view(v).len() - i,
            normalized_all(conditions_view(v)).take(i),
        ) == Ok::<(Seq<ConditionV>, int), ReadError>(
            (
                normalized_all(conditions_view(v)),
                p + condition_items(conditions_view(v), i).len() + 1,
            ),
        ),
    decreases v, v@.len() - i,
{
    let cv = conditions_view(v);
    let nv = normalized_all(cv);
    let toks = condition_items(cv, i) + seq![TokenV::ListEnd];
    if i == v@.len() {
        assert(condition_items(cv, i) =~= seq![]);
        lemma_at_first(ts, p, toks);
        assert(nv.take(i) =~= nv);
    } else {
        let elem = condition_tokens(cv[i]);
        let rest = condition_items(cv, i + 1) + seq![TokenV::ListEnd];
        assert(toks =~= seq![TokenV::ListValueBegin] + (elem + rest));
        lemma_at_cons(ts, p, TokenV::ListValueBegin, elem + rest);
        lemma_at_concat(ts, p + 1, elem, rest);
        assert(decreases_to!(v => v@));
        assert(decreases_to!(v@ => v@[i]));
        assert(cv[i] == v@[i]@);
        lemma_condition_read(ts, p + 1, v@[i]);
        lemma_condition_items_read(ts, p + 1 + elem.len(), v, i + 1);
        assert(nv.take(i).push(nv[i]) =~= nv.take(i + 1));
    }
}

/// A hotfix with its condition `normalized`.
pub open spec fn normalized_hotfix(h: HotfixV) -> HotfixV {
    HotfixV { config: h.config, condition: normalized(h.condition) }
}

/// A configuration with the condition of each hotfix `normalized`.
pub open spec fn normalized_config(c: ClientConfigV) -> ClientConfigV {
    ClientConfigV { hotfixes: c.hotfixes.map_values(|h: HotfixV| normalized_hotfix(h)) }
}

pub(crate) proof fn lemma_hotfix_read(ts: Seq<TokenV>, p: int, h: Hotfix)
    requires
        tokens_at(ts, p, hotfix_tokens(h@)),
    ensures
        hotfix_spec(ts, p) == Ok::<(HotfixV, int), ReadError>(
            (normalized_hotfix(h@), p + hotfix_tokens(h@).len()),
        ),
{
    let hv = h@;
    let ct = condition_tokens(hv.condition);
    let n: int = ct.len() as int;
    let toks = hotfix_tokens(hv);
    let head = seq![
        TokenV::StructBegin("Hotfix"@),
        TokenV::FieldBegin("config"@, TType::String, 1),
        TokenV::Str(hv.config),
        TokenV::FieldEnd,
        TokenV::FieldBegin("condition"@, TType::Struct, 2),
    ];
    let tail = seq![TokenV::FieldEnd, TokenV::FieldStop, TokenV::StructEnd];
    assert(toks =~= head + (ct + tail));
    lemma_at_concat(ts, p, head, ct + tail);
    lemma_at_concat(ts, p + 5, ct, tail);
    lemma_at_index(ts, p, head, 0);
    lemma_at_index(ts, p, head, 1);
    lemma_at_index(ts, p, head, 2);
    lemma_at_index(ts, p, head, 3);
    lemma_at_index(ts, p, head, 4);
    lemma_at_index(ts, p + 5 + n, tail, 0);
    lemma_at_index(ts, p + 5 + n, tail, 1);
    lemma_at_index(ts, p + 5 + n, tail, 2);
    lemma_condition_read(ts, p + 5, h.condition);
    let half = HotfixV { config: hv.config, condition: default_hotfix().condition };
    let full = normalized_hotfix(hv);
    assert(hotfix_fields_spec(ts, p + n + 6, full) == Ok::<(HotfixV, int), ReadError>(
        (full, p + n + 8),
    ));
    assert(hotfix_field_spec(ts, p + 5, TType::Struct, 2, half) == Ok::<(HotfixV, int), ReadError>(
        (full, p + 5 + n),
    ));
    assert(hotfix_fields_spec(ts, p + 4, half) == Ok::<(HotfixV, int), ReadError>(
        (full, p + n + 8),
    ));
    assert(hotfix_field_spec(ts, p + 2, TType::String, 1, default_hotfix()) == Ok::<
        (HotfixV, int),
        ReadError,
    >((half, p + 3)));
    assert(hotfix_fields_spec(ts, p + 1, default_hotfix()) == Ok::<(HotfixV, int), ReadError>(
        (full, p + n + 8),
    ));
    assert(toks.len() == n + 8);
}

proof fn lemma_hotfix_items_read(ts: Seq<TokenV>, p: int, v: Vec<Hotfix>, i: int)
    requires
        0 <= i <= v@.len(),
        tokens_at(ts, p, hotfix_items(hotfixes_view(v@), i) + seq![TokenV::ListEnd]),
    ensures
        hotfix_items_spec(
            ts,
            p,
            v@.len() - i,
            hotfixes_view(v@).map_values(|h: HotfixV| normalized_hotfix(h)).take(i),
        ) == Ok::<(Seq<HotfixV>, int), ReadError>(
            (
                hotfixes_view(v@).map_values(|h: HotfixV| normalized_hotfix(h)),
                p + hotfix_items(hotfixes_view(v@), i).len() + 1,
            ),
        ),
    decreases v@.len() - i,
{
    let hv = hotfixes_view(v@);
    let nv = hv.map_values(|h: HotfixV| normalized_hotfix(h));
    let toks = hotfix_items(hv, i) + seq![TokenV::ListEnd];
    if i == v@.len() {
        assert(hotfix_items(hv, i) =~= seq![]);
        lemma_at_first(ts, p, toks);
        assert(nv.take(i) =~= nv);
    } else {
        let elem = hotfix_tokens(hv[i]);
        let rest = hotfix_items(hv, i + 1) + seq![TokenV::ListEnd];
        assert(toks =~= seq![TokenV::ListValueBegin] + (elem + rest));
        lemma_at_cons(ts, p, TokenV::ListValueBegin, elem + rest);
        lemma_at_concat(ts, p + 1, elem, rest);
        assert(hv[i] == v@[i]@);
        lemma_hotfix_read(ts, p + 1, v@[i]);
        lemma_hotfix_items_read(ts, p + 1 + elem.len(), v, i + 1);
        assert(nv.take(i).push(nv[i]) =~= nv.take(i + 1));
    }
}

proof fn lemma_client_config_read(ts: Seq<TokenV>, p: int, c: ClientConfig)
    requires
        tokens_at(ts, p, client_config_tokens(c@)),
    ensures
        client_config_spec(ts, p) == Ok::<(ClientConfigV, int), ReadError>(
            (normalized_config(c@), p + client_config_tokens(c@).len()),
        ),
{
    let v = c.hotfixes;
    let hv = hotfixes_view(v@);
    let nv = hv.map_values(|h: HotfixV| normalized_hotfix(h));
    let items = hotfix_items(hv, 0) + seq![TokenV::ListEnd];
    let n: int = items.len() as int;
    let toks = client_config_tokens(c@);
    let head = seq![
        TokenV::StructBegin("ClientConfig"@),
        TokenV::FieldBegin("hotfixes"@, TType::List, 1),
        TokenV::ListBegin(TType::Struct, hv.len() as usize),
    ];
    let tail = seq![TokenV::FieldEnd, TokenV::FieldStop, TokenV::StructEnd];
    assert(toks =~= head + (items + tail));
    lemma_at_concat(ts, p, head, items + tail);
    lemma_at_concat(ts, p + 3, items, tail);
    lemma_at_index(ts, p, head, 0);
    lemma_at_index(ts, p, head, 1);
    lemma_at_index(ts, p, head, 2);
    lemma_at_index(ts, p + 3 + n, tail, 0);
    lemma_at_index(ts, p + 3 + n, tail, 1);
    lemma_at_index(ts, p + 3 + n, tail, 2);
    assert(v.len() == v@.len());
    lemma_hotfix_items_read(ts, p + 3, v, 0);
    assert(nv.take(0) =~= seq![]);
    let full = normalized_config(c@);
    assert(hotfix_list_spec(ts, p + 2) == Ok::<(Seq<HotfixV>, int), ReadError>((nv, p + 3 + n)));
    assert(client_config_fields_spec(ts, p + n + 4, full) == Ok::<(ClientConfigV, int), ReadError>(
        (full, p + n + 6),
    ));
    assert(client_config_field_spec(ts, p + 2, TType::List, 1, ClientConfigV { hotfixes: seq![] })
        == Ok::<(ClientConfigV, int), ReadError>((full, p + 3 + n)));
    assert(client_config_fields_spec(ts, p + 1, ClientConfigV { hotfixes: seq![] }) == Ok::<
        (ClientConfigV, int),
        ReadError,
    >((full, p + n + 6)));
    assert(toks.len() == n + 6);
}

pub(crate) proof fn lemma_at_middle(pre: Seq<TokenV>, toks: Seq<TokenV>, rest: Seq<TokenV>)
    ensures
        tokens_at(pre + toks + rest, pre.len() as int, toks),
{
    assert forall|i: int| 0 <= i < toks.len() implies (pre + toks + rest)[pre.len() + i]
        == #[trigger] toks[i] by {
        assert((pre + toks)[pre.len() + i] == toks[i]);
    }
}

/// Reading a time shard from the tokens that it writes gives the same time
/// shard, and stops right after those tokens, whatever stands before and
/// after them.
pub proof fn time_shard_read_after_write(t: TimeShard, pre: Seq<TokenV>, rest: Seq<TokenV>)
    ensures
        time_shard_spec(pre + time_shard_tokens(t@) + rest, pre.len() as int) == Ok::<
            (TimeShardV, int),
            ReadError,
        >((t@, (pre.len() + time_shard_tokens(t@).len()) as int)),
{
    lemma_at_middle(pre, time_shard_tokens(t@), rest);
    lemma_time_shard_read(pre + time_shard_tokens(t@) + rest, pre.len() as int, t@);
}

/// Reading a condition from the tokens that it writes gives the same
/// condition, except that an `UnknownField` alternative (which writes no
/// field) reads as the default `UnknownField(-1)`; the reading stops right
/// after those tokens, whatever stands before and after them.
pub proof fn condition_read_after_write(c: Condition, pre: Seq<TokenV>, rest: Seq<TokenV>)
    ensures
        condition_spec(pre + condition_tokens(c@) + rest, pre.len() as int) == Ok::<
            (ConditionV, int),
            ReadError,
        >((normalized(c@), (pre.len() + condition_tokens(c@).len()) as int)),
{
    lemma_at_middle(pre, condition_tokens(c@), rest);
    lemma_condition_read(pre + condition_tokens(c@) + rest, pre.len() as int, c);
}

/// Reading a hotfix from the tokens that it writes gives the same hotfix,
/// its condition `normalized`; the reading stops right after those tokens,
/// whatever stands before and after them.
pub proof fn hotfix_read_after_write(h: Hotfix, pre: Seq<TokenV>, rest: Seq<TokenV>)
    ensures
        hotfix_spec(pre + hotfix_tokens(h@) + rest, pre.len() as int) == Ok::<
            (HotfixV, int),
            ReadError,
        >((normalized_hotfix(h@), (pre.len() + hotfix_tokens(h@).len()) as int)),
{
    lemma_at_middle(pre, hotfix_tokens(h@), rest);
    lemma_hotfix_read(pre + hotfix_tokens(h@) + rest, pre.len() as int, h);
}

/// Reading a client configuration from the tokens that it writes gives the
/// same configuration, the condition of each hotfix `normalized`; the
/// reading stops right after those tokens, whatever stands before and
/// after them.
pub proof fn client_config_read_after_write(c: ClientConfig, pre: Seq<TokenV>, rest: Seq<TokenV>)
    ensures
        client_config_spec(pre + client_config_tokens(c@) + rest, pre.len() as int) == Ok::<
            (ClientConfigV, int),
            ReadError,
        >((normalized_config(c@), (pre.len() + client_config_tokens(c@).len()) as int)),
{
    lemma_at_middle(pre, client_config_tokens(c@), rest);
    lemma_client_config_read(pre + client_config_tokens(c@) + rest, pre.len() as int, c);
}

/// What is written reads back the same from a stream without names (as a
/// protocol that carries no names hands it out): a time shard.
pub proof fn time_shard_read_after_write_without_names(t: TimeShard, pre: Seq<TokenV>, rest: Seq<TokenV>)
    ensures
        time_shard_spec(without_names(pre + time_shard_tokens(t@) + rest), pre.len() as int) == Ok::<
            (TimeShardV, int),
            ReadError,
        >((t@, (pre.len() + time_shard_tokens(t@).len()) as int)),
{
    time_shard_read_after_write(t, pre, rest);
    reading_ignores_names(pre + time_shard_tokens(t@) + rest, pre.len() as int);
}

/// What is written reads back the same from a stream without names: a
/// condition, `normalized`.
pub proof fn condition_read_after_write_without_names(c: Condition, pre: Seq<TokenV>, rest: Seq<TokenV>)
    ensures
        condition_spec(without_names(pre + condition_tokens(c@) + rest), pre.len() as int) == Ok::<
            (ConditionV, int),
            ReadError,
        >((normalized(c@), (pre.len() + condition_tokens(c@).len()) as int)),
{
    condition_read_after_write(c, pre, rest);
    reading_ignores_names(pre + condition_tokens(c@) + rest, pre.len() as int);
}

/// What is written reads back the same from a stream without names: a
/// hotfix, its condition `normalized`.
pub proof fn hotfix_read_after_write_without_names(h: Hotfix, pre: Seq<TokenV>, rest: Seq<TokenV>)
    ensures
        hotfix_spec(without_names(pre + hotfix_tokens(h@) + rest), pre.len() as int) == Ok::<
            (HotfixV, int),
            ReadError,
        >((normalized_hotfix(h@), (pre.len() + hotfix_tokens(h@).len()) as int)),
{
    hotfix_read_after_write(h, pre, rest);
    reading_ignores_names(pre + hotfix_tokens(h@) + rest, pre.len() as int);
}

/// What is written reads back the same from a stream without names: a
/// client configuration, the condition of each hotfix `normalized`.
pub proof fn client_config_read_after_write_without_names(
    c: ClientConfig,
    pre: Seq<TokenV>,
    rest: Seq<TokenV>,
)
    ensures
        client_config_spec(without_names(pre + client_config_tokens(c@) + rest), pre.len() as int)
            == Ok::<(ClientConfigV, int), ReadError>(
            (normalized_config(c@), (pre.len() + client_config_tokens(c@).len()) as int),
        ),
{
    client_config_read_after_write(c, pre, rest);
    reading_ignores_names(pre + client_config_tokens(c@) + rest, pre.len() as int);
}

/// A condition and its `normalized` form write the same tokens: writing
/// again what was read back from a written condition gives the same
/// tokens.
pub proof fn condition_write_after_read(c: ConditionV)
    ensures
        condition_tokens(normalized(c)) == condition_tokens(c),
    decreases c, 0int,
{
    match c {
        ConditionV::not_condition(b) => {
            condition_write_after_read(*b);
        },
        ConditionV::and_condition(v) => {
            lemma_list_write_after_read(v);
        },
        ConditionV::or_condition(v) => {
            lemma_list_write_after_read(v);
        },
        _ => {},
    }
}

proof fn lemma_list_write_after_read(v: Seq<ConditionV>)
    ensures
        condition_list_tokens(normalized_all(v)) == condition_list_tokens(v),
    decreases v, v.len() + 1,
{
    lemma_items_write_after_read(v, 0);
    assert(normalized_all(v).len() == v.len());
}

proof fn lemma_items_write_after_read(v: Seq<ConditionV>, i: int)
    requires
        0 <= i <= v.len(),
    ensures
        condition_items(normalized_all(v), i) == condition_items(v, i),
    decreases v, v.len() - i,
{
    if i < v.len() {
        condition_write_after_read(v[i]);
        lemma_items_write_after_read(v, i + 1);
        assert(normalized_all(v)[i] == normalized(v[i]));
    }
}

/// A hotfix and its `normalized_hotfix` form write the same tokens.
pub proof fn hotfix_write_after_read(h: HotfixV)
    ensures
        hotfix_tokens(normalized_hotfix(h)) == hotfix_tokens(h),
{
    condition_write_after_read(h.condition);
}

proof fn lemma_hotfix_items_write_after_read(v: Seq<HotfixV>, i: int)
    requires
        0 <= i <= v.len(),
    ensures
        hotfix_items(v.map_values(|h: HotfixV| normalized_hotfix(h)), i) == hotfix_items(v, i),
    decreases v.len() - i,
{
    if i < v.len() {
        hotfix_write_after_read(v[i]);
        lemma_hotfix_items_write_after_read(v, i + 1);
    }
}

/// A configuration and its `normalized_config` form write the same
/// tokens: writing again what was read back from a written configuration
/// gives the same tokens.
pub proof fn client_config_write_after_read(c: ClientConfigV)
    ensures
        client_config_tokens(normalized_config(c)) == client_config_tokens(c),
{
    lemma_hotfix_items_write_after_read(c.hotfixes, 0);
    assert(normalized_config(c).hotfixes.len() == c.hotfixes.len());
}

/// After one alternative has been read, a condition refuses any further
/// field: the header of a second field makes reading fail with
/// `ExtraUnionField`, whatever follows it.
pub proof fn condition_refuses_second_field(
    c: Condition,
    sname: Seq<char>,
    name: Seq<char>,
    ty: TType,
    id: i16,
    rest: Seq<TokenV>,
)
    requires
        !(c@ is UnknownField),
        ty != TType::Stop,
    ensures
        condition_spec(
            seq![TokenV::StructBegin(sname)] + condition_field_tokens(c@) + seq![
                TokenV::FieldBegin(name, ty, id),
            ] + rest,
            0,
        ) == Err::<(ConditionV, int), ReadError>(ReadError::ExtraUnionField(ty, id)),
{
    let f = condition_field_tokens(c@);
    let ts = seq![TokenV::StructBegin(sname)] + f + seq![TokenV::FieldBegin(name, ty, id)] + rest;
    let n: int = f.len() as int;
    assert(ts =~= seq![TokenV::StructBegin(sname)] + (f + (seq![TokenV::FieldBegin(name, ty, id)]
        + rest)));
    lemma_at_middle(seq![], ts, seq![]);
    assert(seq![] + ts + seq![] =~= ts);
    lemma_at_cons(ts, 0, TokenV::StructBegin(sname), f + (seq![TokenV::FieldBegin(name, ty, id)] + rest));
    lemma_at_concat(ts, 1, f, seq![TokenV::FieldBegin(name, ty, id)] + rest);
    lemma_at_cons(ts, 1 + n, TokenV::FieldBegin(name, ty, id), rest);
    lemma_alternative_read(ts, 1, c);
}

/// The stream of a struct named `sname` whose first field has the header
/// `name`, `ty`, `id` and the value `val`, before the tokens `body`.
pub open spec fn struct_with_first_field(
    sname: Seq<char>,
    name: Seq<char>,
    ty: TType,
    id: i16,
    val: Seq<TokenV>,
    body: Seq<TokenV>,
) -> Seq<TokenV> {
    seq![TokenV::StructBegin(sname)] + field_tokens(name, ty, id, val) + body
}

/// The fields that a `TimeShard` reads, by type tag and id.
pub open spec fn time_shard_knows(ty: TType, id: i16) -> bool {
    ty == TType::String && (id == 1 || id == 2)
}

/// The fields that a `Condition` reads, by type tag and id.
pub open spec fn condition_knows(ty: TType, id: i16) -> bool {
    ||| ty == TType::Struct && (id == 1 || id == 12)
    ||| ty == TType::List && (2 <= id <= 8 || id == 13)
    ||| ty == TType::String && id == 9
    ||| ty == TType::I32 && (id == 10 || id == 11)
}

/// The fields that a `Hotfix` reads, by type tag and id.
pub open spec fn hotfix_knows(ty: TType, id: i16) -> bool {
    (ty == TType::String && id == 1) || (ty == TType::Struct && id == 2)
}

/// The fields that a `ClientConfig` reads, by type tag and id.
pub open spec fn client_config_knows(ty: TType, id: i16) -> bool {
    ty == TType::List && id == 1
}

/// The facts about a struct stream with a first field that the proofs of
/// skipping need: where its parts stand, and that the rest of it agrees
/// with the stream without that field.
proof fn lemma_first_field_layout(
    sname: Seq<char>,
    name: Seq<char>,
    ty: TType,
    id: i16,
    val: Seq<TokenV>,
    body: Seq<TokenV>,
)
    ensures
        ({
            let ts1 = struct_with_first_field(sname, name, ty, id, val, body);
            let ts2 = seq![TokenV::StructBegin(sname)] + body;
            &&& ts1[0] == TokenV::StructBegin(sname)
            &&& ts1[1] == TokenV::FieldBegin(name, ty, id)
            &&& ts1[2 + val.len() as int] == TokenV::FieldEnd
            &&& ts1.len() == val.len() + 3 + body.len()
            &&& ts2[0] == TokenV::StructBegin(sname)
            &&& agree_from(ts1, ts2, val.len() + 2int, 1)
        }),
{
    let ts1 = struct_with_first_field(sname, name, ty, id, val, body);
    let ts2 = seq![TokenV::StructBegin(sname)] + body;
    let f = field_tokens(name, ty, id, val);
    assert(ts1 =~= seq![TokenV::StructBegin(sname)] + (f + body));
    lemma_at_middle(seq![], ts1, seq![]);
    assert(seq![] + ts1 + seq![] =~= ts1);
    lemma_at_cons(ts1, 0, TokenV::StructBegin(sname), f + body);
    lemma_at_concat(ts1, 1, f, body);
    lemma_field_parts(ts1, 1, name, ty, id, val);
    assert forall|i: int| 1 <= i < ts2.len() implies ts1[i + (val.len() + 2int)] == #[trigger] ts2[i] by {
        lemma_at_index(ts1, 1 + f.len() as int, body, i - 1);
    }
}

/// A field that a time shard does not know, standing first in the struct,
/// is skipped: reading gives what it gives without that field, ending as
/// many tokens later as the field takes.
pub proof fn time_shard_skips_unknown_field(
    sname: Seq<char>,
    name: Seq<char>,
    ty: TType,
    id: i16,
    val: Seq<TokenV>,
    body: Seq<TokenV>,
)
    requires
        ty != TType::Stop,
        !time_shard_knows(ty, id),
        skip_spec(struct_with_first_field(sname, name, ty, id, val, body), 2, ty, SKIP_DEPTH as int)
            == Ok::<int, ReadError>(2 + val.len() as int),
    ensures
        time_shard_spec(struct_with_first_field(sname, name, ty, id, val, body), 0) == shift_read(
            time_shard_spec(seq![TokenV::StructBegin(sname)] + body, 0),
            val.len() + 2int,
        ),
{
    let ts1 = struct_with_first_field(sname, name, ty, id, val, body);
    let ts2 = seq![TokenV::StructBegin(sname)] + body;
    let d = val.len() + 2int;
    lemma_first_field_layout(sname, name, ty, id, val, body);
    lemma_local_time_shard_fields(ts1, ts2, d, 1, default_time_shard());
    assert(time_shard_field_spec(ts1, 2, ty, id, default_time_shard()) == Ok::<
        (TimeShardV, int),
        ReadError,
    >((default_time_shard(), 2 + val.len() as int)));
    assert(time_shard_fields_spec(ts1, 1, default_time_shard()) == time_shard_fields_spec(
        ts1,
        1 + d,
        default_time_shard(),
    ));
}

/// A field that a condition does not know, standing first in the struct,
/// is skipped: reading gives what it gives without that field, ending as
/// many tokens later as the field takes.
pub proof fn condition_skips_unknown_field(
    sname: Seq<char>,
    name: Seq<char>,
    ty: TType,
    id: i16,
    val: Seq<TokenV>,
    body: Seq<TokenV>,
)
    requires
        ty != TType::Stop,
        !condition_knows(ty, id),
        skip_spec(struct_with_first_field(sname, name, ty, id, val, body), 2, ty, SKIP_DEPTH as int)
            == Ok::<int, ReadError>(2 + val.len() as int),
    ensures
        condition_spec(struct_with_first_field(sname, name, ty, id, val, body), 0) == shift_read(
            condition_spec(seq![TokenV::StructBegin(sname)] + body, 0),
            val.len() + 2int,
        ),
{
    let ts1 = struct_with_first_field(sname, name, ty, id, val, body);
    let ts2 = seq![TokenV::StructBegin(sname)] + body;
    let d = val.len() + 2int;
    lemma_first_field_layout(sname, name, ty, id, val, body);
    lemma_local_condition_fields(ts1, ts2, d, 1, None);
    assert(condition_field_spec(ts1, 2, ty, id) == Ok::<(Option<ConditionV>, int), ReadError>(
        (None, 2 + val.len() as int),
    ));
    assert(condition_fields_spec(ts1, 1, None) == condition_fields_spec(ts1, 1 + d, None));
}

/// A field that a hotfix does not know, standing first in the struct, is
/// skipped: reading gives what it gives without that field, ending as many
/// tokens later as the field takes.
pub proof fn hotfix_skips_unknown_field(
    sname: Seq<char>,
    name: Seq<char>,
    ty: TType,
    id: i16,
    val: Seq<TokenV>,
    body: Seq<TokenV>,
)
    requires
        ty != TType::Stop,
        !hotfix_knows(ty, id),
        skip_spec(struct_with_first_field(sname, name, ty, id, val, body), 2, ty, SKIP_DEPTH as int)
            == Ok::<int, ReadError>(2 + val.len() as int),
    ensures
        hotfix_spec(struct_with_first_field(sname, name, ty, id, val, body), 0) == shift_read(
            hotfix_spec(seq![TokenV::StructBegin(sname)] + body, 0),
            val.len() + 2int,
        ),
{
    let ts1 = struct_with_first_field(sname, name, ty, id, val, body);
    let ts2 = seq![TokenV::StructBegin(sname)] + body;
    let d = val.len() + 2int;
    lemma_first_field_layout(sname, name, ty, id, val, body);
    lemma_local_hotfix_fields(ts1, ts2, d, 1, default_hotfix());
    assert(hotfix_field_spec(ts1, 2, ty, id, default_hotfix()) == Ok::<(HotfixV, int), ReadError>(
        (default_hotfix(), 2 + val.len() as int),
    ));
    assert(hotfix_fields_spec(ts1, 1, default_hotfix()) == hotfix_fields_spec(
        ts1,
        1 + d,
        default_hotfix(),
    ));
}

/// A field that a client configuration does not know, standing first in
/// the struct, is skipped: reading gives what it gives without that field,
/// ending as many tokens later as the field takes.
pub proof fn client_config_skips_unknown_field(
    sname: Seq<char>,
    name: Seq<char>,
    ty: TType,
    id: i16,
    val: Seq<TokenV>,
    body: Seq<TokenV>,
)
    requires
        ty != TType::Stop,
        !client_config_knows(ty, id),
        skip_spec(struct_with_first_field(sname, name, ty, id, val, body), 2, ty, SKIP_DEPTH as int)
            == Ok::<int, ReadError>(2 + val.len() as int),
    ensures
        client_config_spec(struct_with_first_field(sname, name, ty, id, val, body), 0)
            == shift_read(
            client_config_spec(seq![TokenV::StructBegin(sname)] + body, 0),
            val.len() + 2int,
        ),
{
    let ts1 = struct_with_first_field(sname, name, ty, id, val, body);
    let ts2 = seq![TokenV::StructBegin(sname)] + body;
    let d = val.len() + 2int;
    let empty = ClientConfigV { hotfixes: seq![] };
    lemma_first_field_layout(sname, name, ty, id, val, body);
    lemma_local_client_config_fields(ts1, ts2, d, 1, empty);
    assert(client_config_field_spec(ts1, 2, ty, id, empty) == Ok::<(ClientConfigV, int), ReadError>(
        (empty, 2 + val.len() as int),
    ));
    assert(client_config_fields_spec(ts1, 1, empty) == client_config_fields_spec(ts1, 1 + d, empty));
}

} // verus!
