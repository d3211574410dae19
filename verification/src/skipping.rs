use vstd::prelude::*;

use crate::failures::lemma_time_shard_layout;
use crate::laws::{
    client_config_knows, condition_knows, hotfix_knows, lemma_at_concat, lemma_at_cons, lemma_at_first,
    lemma_at_middle, lemma_field_parts, time_shard_knows, tokens_at,
};
use crate::locality::{
    agree_from, lemma_local_client_config_fields, lemma_local_condition_fields,
    lemma_local_hotfix_fields, lemma_local_time_shard_fields, shift_read,
};
use crate::read::{
    client_config_fields_spec, condition_fields_spec, hotfix_fields_spec, skip_elems_spec,
    skip_fields_spec, skip_spec, time_shard_fields_spec, Marker, ReadError, SKIP_DEPTH,
};
use crate::token::TokenV;
use crate::ttype::TType;
use crate::types::{
    conditions_view, hotfixes_view, strings_view, ClientConfig, ClientConfigV, Condition, ConditionV, Hotfix,
    HotfixV, TimeShard, TimeShardV,
};
use crate::union::{
    alternative_id, alternative_name, alternative_type, alternative_value, condition_writes_one_field,
    lemma_unknown_field_read,
};
use crate::write::{
    client_config_tokens, condition_items, condition_list_tokens, condition_tokens, field_tokens,
    hotfix_items, hotfix_list_tokens, hotfix_tokens, string_items, string_list_tokens, time_shard_tokens,
};

verus! {

/// Where the parts of a field that stands between `pre` and `post` are,
/// and that the stream without it agrees with the rest of the stream
/// with it.
proof fn lemma_field_between(
    pre: Seq<TokenV>,
    name: Seq<char>,
    ty: TType,
    id: i16,
    val: Seq<TokenV>,
    post: Seq<TokenV>,
)
    ensures
        ({
            let ts1 = pre + field_tokens(name, ty, id, val) + post;
            let p = pre.len() as int;
            &&& ts1[p] == TokenV::FieldBegin(name, ty, id)
            &&& ts1[p + 1 + val.len()] == TokenV::FieldEnd
            &&& ts1.len() == pre.len() + val.len() + 2 + post.len()
            &&& agree_from(ts1, pre + post, val.len() + 2int, p)
        }),
{
    let f = field_tokens(name, ty, id, val);
    let ts1 = pre + f + post;
    let ts2 = pre + post;
    let p = pre.len() as int;
    lemma_at_middle(pre, f, post);
    lemma_field_parts(ts1, p, name, ty, id, val);
    assert forall|i: int| p <= i < ts2.len() implies ts1[i + (val.len() + 2int)] == #[trigger] ts2[i] by {
        assert(ts2[i] == post[i - p]);
        assert(ts1[i + (val.len() + 2int)] == post[i - p]);
    }
}

/// A field that a time shard does not know is skipped wherever it stands
/// among the fields, after any others: reading the fields from there, with
/// whatever time shard was read so far, gives what reading them from the
/// same place of the stream without that field gives, ending as many
/// tokens later as the field takes. The time shard read so far is kept.
pub proof fn time_shard_skips_unknown_field_anywhere(
    pre: Seq<TokenV>,
    name: Seq<char>,
    ty: TType,
    id: i16,
    val: Seq<TokenV>,
    post: Seq<TokenV>,
    acc: TimeShardV,
)
    requires
        ty != TType::Stop,
        !time_shard_knows(ty, id),
        skip_spec(pre + field_tokens(name, ty, id, val) + post, pre.len() + 1int, ty, SKIP_DEPTH as int)
            == Ok::<int, ReadError>(pre.len() + 1int + val.len()),
    ensures
        time_shard_fields_spec(pre + field_tokens(name, ty, id, val) + post, pre.len() as int, acc)
            == shift_read(time_shard_fields_spec(pre + post, pre.len() as int, acc), val.len() + 2int),
{
    let ts1 = pre + field_tokens(name, ty, id, val) + post;
    let p = pre.len() as int;
    lemma_field_between(pre, name, ty, id, val, post);
    lemma_local_time_shard_fields(ts1, pre + post, val.len() + 2int, p, acc);
    assert(time_shard_fields_spec(ts1, p, acc) == time_shard_fields_spec(ts1, p + val.len() + 2, acc));
}

/// A field that a hotfix does not know is skipped wherever it stands among
/// the fields, after the config and the condition too: reading the fields
/// from there, with whatever hotfix was read so far, gives what reading
/// them from the same place of the stream without that field gives,
/// ending as many tokens later as the field takes. The hotfix read so far
/// is kept.
pub proof fn hotfix_skips_unknown_field_anywhere(
    pre: Seq<TokenV>,
    name: Seq<char>,
    ty: TType,
    id: i16,
    val: Seq<TokenV>,
    post: Seq<TokenV>,
    acc: HotfixV,
)
    requires
        ty != TType::Stop,
        !hotfix_knows(ty, id),
        skip_spec(pre + field_tokens(name, ty, id, val) + post, pre.len() + 1int, ty, SKIP_DEPTH as int)
            == Ok::<int, ReadError>(pre.len() + 1int + val.len()),
    ensures
        hotfix_fields_spec(pre + field_tokens(name, ty, id, val) + post, pre.len() as int, acc)
            == shift_read(hotfix_fields_spec(pre + post, pre.len() as int, acc), val.len() + 2int),
{
    let ts1 = pre + field_tokens(name, ty, id, val) + post;
    let p = pre.len() as int;
    lemma_field_between(pre, name, ty, id, val, post);
    lemma_local_hotfix_fields(ts1, pre + post, val.len() + 2int, p, acc);
    assert(hotfix_fields_spec(ts1, p, acc) == hotfix_fields_spec(ts1, p + val.len() + 2, acc));
}

/// A field that a client configuration does not know is skipped wherever
/// it stands among the fields, after the hotfixes too: reading the fields
/// from there, with whatever configuration was read so far, gives what
/// reading them from the same place of the stream without that field
/// gives, ending as many tokens later as the field takes. The hotfixes
/// read so far are kept.
pub proof fn client_config_skips_unknown_field_anywhere(
    pre: Seq<TokenV>,
    name: Seq<char>,
    ty: TType,
    id: i16,
    val: Seq<TokenV>,
    post: Seq<TokenV>,
    acc: ClientConfigV,
)
    requires
        ty != TType::Stop,
        !client_config_knows(ty, id),
        skip_spec(pre + field_tokens(name, ty, id, val) + post, pre.len() + 1int, ty, SKIP_DEPTH as int)
            == Ok::<int, ReadError>(pre.len() + 1int + val.len()),
    ensures
        client_config_fields_spec(pre + field_tokens(name, ty, id, val) + post, pre.len() as int, acc)
            == shift_read(client_config_fields_spec(pre + post, pre.len() as int, acc), val.len() + 2int),
{
    let ts1 = pre + field_tokens(name, ty, id, val) + post;
    let p = pre.len() as int;
    lemma_field_between(pre, name, ty, id, val, post);
    lemma_local_client_config_fields(ts1, pre + post, val.len() + 2int, p, acc);
    assert(client_config_fields_spec(ts1, p, acc) == client_config_fields_spec(ts1, p + val.len() + 2, acc));
}

/// A field that a condition does not know is skipped wherever it stands
/// among the fields before its alternative: reading the fields from
/// there, with no alternative read yet, gives what reading them from the
/// same place of the stream without that field gives, ending as many
/// tokens later as the field takes.
pub proof fn condition_skips_unknown_field_anywhere(
    pre: Seq<TokenV>,
    name: Seq<char>,
    ty: TType,
    id: i16,
    val: Seq<TokenV>,
    post: Seq<TokenV>,
)
    requires
        ty != TType::Stop,
        !condition_knows(ty, id),
        skip_spec(pre + field_tokens(name, ty, id, val) + post, pre.len() + 1int, ty, SKIP_DEPTH as int)
            == Ok::<int, ReadError>(pre.len() + 1int + val.len()),
    ensures
        condition_fields_spec(pre + field_tokens(name, ty, id, val) + post, pre.len() as int, None)
            == shift_read(condition_fields_spec(pre + post, pre.len() as int, None), val.len() + 2int),
{
    let ts1 = pre + field_tokens(name, ty, id, val) + post;
    let p = pre.len() as int;
    lemma_field_between(pre, name, ty, id, val, post);
    lemma_local_condition_fields(ts1, pre + post, val.len() + 2int, p, None);
    lemma_unknown_field_read(ts1, p + 1, ty, id);
    assert(condition_fields_spec(ts1, p, None) == condition_fields_spec(ts1, p + val.len() + 2, None));
}

/// How deeply a condition nests other conditions: one level for each
/// negation and each list of conditions on the way down.
pub open spec fn nesting(c: ConditionV) -> nat
    decreases c, 0int,
{
    match c {
        ConditionV::not_condition(b) => 1 + nesting(*b),
        ConditionV::and_condition(v) => 1 + nesting_from(v, 0),
        ConditionV::or_condition(v) => 1 + nesting_from(v, 0),
        _ => 0,
    }
}

/// The deepest nesting among the conditions of `v` from index `i` on.
pub open spec fn nesting_from(v: Seq<ConditionV>, i: int) -> nat
    decreases v, v.len() - i,
{
    if i < 0 || i >= v.len() {
        0
    } else {
        let a = nesting(v[i]);
        let b = nesting_from(v, i + 1);
        if a >= b {
            a
        } else {
            b
        }
    }
}

proof fn lemma_skip_string_items(ts: Seq<TokenV>, p: int, v: Seq<Seq<char>>, i: int, d: int)
    requires
        0 <= i <= v.len(),
        d >= 2,
        tokens_at(ts, p, string_items(v, i) + seq![TokenV::ListEnd]),
    ensures
        skip_elems_spec(ts, p, TType::String, v.len() - i, d, Marker::ListValueBegin, Marker::ListEnd)
            == Ok::<int, ReadError>(p + string_items(v, i).len() + 1),
    decreases v.len() - i,
{
    let toks = string_items(v, i) + seq![TokenV::ListEnd];
    if i == v.len() {
        assert(string_items(v, i) =~= seq![]);
        lemma_at_first(ts, p, toks);
    } else {
        let rest = string_items(v, i + 1) + seq![TokenV::ListEnd];
        assert(toks =~= seq![TokenV::ListValueBegin, TokenV::Str(v[i])] + rest);
        lemma_at_concat(ts, p, seq![TokenV::ListValueBegin, TokenV::Str(v[i])], rest);
        assert(ts[p + 0] == TokenV::ListValueBegin);
        assert(ts[p + 1] == TokenV::Str(v[i]));
        assert(skip_spec(ts, p + 1, TType::String, d - 1) == Ok::<int, ReadError>(p + 2));
        lemma_skip_string_items(ts, p + 2, v, i + 1, d);
    }
}

proof fn lemma_skip_string_list(ts: Seq<TokenV>, p: int, v: Seq<Seq<char>>, d: int)
    requires
        v.len() <= usize::MAX,
        d >= 2,
        tokens_at(ts, p, string_list_tokens(v)),
    ensures
        skip_spec(ts, p, TType::List, d) == Ok::<int, ReadError>(p + string_list_tokens(v).len()),
{
    let rest = string_items(v, 0) + seq![TokenV::ListEnd];
    assert(string_list_tokens(v) =~= seq![TokenV::ListBegin(TType::String, v.len() as usize)] + rest);
    lemma_at_cons(ts, p, TokenV::ListBegin(TType::String, v.len() as usize), rest);
    lemma_skip_string_items(ts, p + 1, v, 0, d);
}

proof fn lemma_skip_time_shard(ts: Seq<TokenV>, p: int, t: TimeShardV, d: int)
    requires
        d >= 2,
        tokens_at(ts, p, time_shard_tokens(t)),
    ensures
        skip_spec(ts, p, TType::Struct, d) == Ok::<int, ReadError>(p + time_shard_tokens(t).len()),
{
    lemma_time_shard_layout(t);
    let toks = time_shard_tokens(t);
    assert(forall|i: int| 0 <= i < 9 ==> ts[p + i] == #[trigger] toks[i]);
    assert(ts[p + 7] == TokenV::FieldStop);
    assert(skip_fields_spec(ts, p + 7, d) == Ok::<int, ReadError>(p + 9));
    assert(ts[p + 4] == TokenV::FieldBegin("end"@, TType::String, 2));
    assert(ts[p + 5] == TokenV::Str(t.end));
    assert(skip_spec(ts, p + 5, TType::String, d - 1) == Ok::<int, ReadError>(p + 6));
    assert(skip_fields_spec(ts, p + 4, d) == Ok::<int, ReadError>(p + 9));
    assert(ts[p + 1] == TokenV::FieldBegin("start"@, TType::String, 1));
    assert(ts[p + 2] == TokenV::Str(t.start));
    assert(skip_spec(ts, p + 2, TType::String, d - 1) == Ok::<int, ReadError>(p + 3));
    assert(skip_fields_spec(ts, p + 1, d) == Ok::<int, ReadError>(p + 9));
}

/// A written condition is skipped, as a struct, over exactly its tokens.
#[verifier::spinoff_prover]
proof fn lemma_skip_condition(ts: Seq<TokenV>, p: int, c: Condition, d: int)
    requires
        d >= 3 + 2 * nesting(c@),
        tokens_at(ts, p, condition_tokens(c@)),
    ensures
        skip_spec(ts, p, TType::Struct, d) == Ok::<int, ReadError>(p + condition_tokens(c@).len()),
    decreases c, 1int,
{
    let toks = condition_tokens(c@);
    condition_writes_one_field(c@);
    if c@ is UnknownField {
        assert(ts[p + 0] == toks[0]);
        assert(ts[p + 1] == toks[1]);
        assert(ts[p + 2] == toks[2]);
        assert(skip_fields_spec(ts, p + 1, d) == Ok::<int, ReadError>(p + 3));
    } else {
        let id = alternative_id(c@);
        let ty = alternative_type(id);
        let val = alternative_value(c@);
        let n = val.len() as int;
        let head = seq![TokenV::StructBegin("Condition"@), TokenV::FieldBegin(alternative_name(id), ty, id)];
        let tail = seq![TokenV::FieldEnd, TokenV::FieldStop, TokenV::StructEnd];
        assert(toks =~= head + (val + tail));
        lemma_at_concat(ts, p, head, val + tail);
        lemma_at_concat(ts, p + 2, val, tail);
        assert(ts[p + 0] == head[0]);
        assert(ts[p + 1] == head[1]);
        assert(ts[p + 2 + n + 0] == tail[0]);
        assert(ts[p + 2 + n + 1] == tail[1]);
        assert(ts[p + 2 + n + 2] == tail[2]);
        lemma_skip_value(ts, p + 2, c, d - 1);
        assert(skip_fields_spec(ts, p + 3 + n, d) == Ok::<int, ReadError>(p + n + 5));
        assert(skip_fields_spec(ts, p + 1, d) == Ok::<int, ReadError>(p + n + 5));
    }
}

/// The value of a written condition's alternative is skipped, under the
/// alternative's type tag, over exactly its tokens.
#[verifier::spinoff_prover]
#[verifier::rlimit(40)]
proof fn lemma_skip_value(ts: Seq<TokenV>, p: int, c: Condition, d: int)
    requires
        !(c@ is UnknownField),
        d >= 2 + 2 * nesting(c@),
        tokens_at(ts, p, alternative_value(c@)),
    ensures
        skip_spec(ts, p, alternative_type(alternative_id(c@)), d) == Ok::<int, ReadError>(
            p + alternative_value(c@).len(),
        ),
    decreases c, 0int,
{
    match c {
        Condition::UnknownField(_) => {
            assert(c@ is UnknownField);
        },
        Condition::not_condition(b) => {
            lemma_skip_condition(ts, p, *b, d);
        },
        Condition::and_condition(v) => {
            lemma_skip_condition_list(ts, p, v, d);
        },
        Condition::or_condition(v) => {
            lemma_skip_condition_list(ts, p, v, d);
        },
        Condition::repos(v) => {
            assert(v.len() == v@.len());
            lemma_skip_string_list(ts, p, strings_view(v@), d);
        },
        Condition::platforms(v) => {
            assert(v.len() == v@.len());
            lemma_skip_string_list(ts, p, strings_view(v@), d);
        },
        Condition::domains(v) => {
            assert(v.len() == v@.len());
            lemma_skip_string_list(ts, p, strings_view(v@), d);
        },
        Condition::tiers(v) => {
            assert(v.len() == v@.len());
            lemma_skip_string_list(ts, p, strings_view(v@), d);
        },
        Condition::hosts(v) => {
            assert(v.len() == v@.len());
            lemma_skip_string_list(ts, p, strings_view(v@), d);
        },
        Condition::host_prefixes(v) => {
            assert(v.len() == v@.len());
            lemma_skip_string_list(ts, p, strings_view(v@), d);
        },
        Condition::group(s) => {
            assert(alternative_value(c@) =~= seq![TokenV::Str(s@)]);
            assert(ts[p + 0] == alternative_value(c@)[0]);
        },
        Condition::shard(i) => {
            assert(alternative_value(c@) =~= seq![TokenV::I32(i)]);
            assert(ts[p + 0] == alternative_value(c@)[0]);
        },
        Condition::user_shard(i) => {
            assert(alternative_value(c@) =~= seq![TokenV::I32(i)]);
            assert(ts[p + 0] == alternative_value(c@)[0]);
        },
        Condition::time_shard(t) => {
            lemma_skip_time_shard(ts, p, t@, d);
        },
    }
}

/// A written list of conditions is skipped, as a list, over exactly its
/// tokens.
proof fn lemma_skip_condition_list(ts: Seq<TokenV>, p: int, v: Vec<Condition>, d: int)
    requires
        d >= 4 + 2 * nesting_from(conditions_view(v), 0),
        tokens_at(ts, p, condition_list_tokens(conditions_view(v))),
    ensures
        skip_spec(ts, p, TType::List, d) == Ok::<int, ReadError>(
            p + condition_list_tokens(conditions_view(v)).len(),
        ),
    decreases v, v@.len() + 2,
{
    let cv = conditions_view(v);
    let rest = condition_items(cv, 0) + seq![TokenV::ListEnd];
    assert(v.len() == v@.len());
    assert(condition_list_tokens(cv) =~= seq![TokenV::ListBegin(TType::Struct, cv.len() as usize)] + rest);
    lemma_at_cons(ts, p, TokenV::ListBegin(TType::Struct, cv.len() as usize), rest);
    lemma_skip_condition_items(ts, p + 1, v, 0, d);
}

proof fn lemma_skip_condition_items(ts: Seq<TokenV>, p: int, v: Vec<Condition>, i: int, d: int)
    requires
        0 <= i <= v@.len(),
        d >= 4 + 2 * nesting_from(conditions_view(v), i),
        tokens_at(ts, p, condition_items(conditions_view(v), i) + seq![TokenV::ListEnd]),
    ensures
        skip_elems_spec(
            ts,
            p,
            TType::Struct,
            conditions_view(v).len() - i,
            d,
            Marker::ListValueBegin,
            Marker::ListEnd,
        ) == Ok::<int, ReadError>(p + condition_items(conditions_view(v), i).len() + 1),
    decreases v, v@.len() - i,
{
    let cv = conditions_view(v);
    let toks = condition_items(cv, i) + seq![TokenV::ListEnd];
    if i == v@.len() {
        assert(condition_items(cv, i) =~= seq![]);
        lemma_at_first(ts, p, toks);
    } else {
        let elem = condition_tokens(cv[i]);
        let rest = condition_items(cv, i + 1) + seq![TokenV::ListEnd];
        assert(toks =~= seq![TokenV::ListValueBegin] + (elem + rest));
        lemma_at_cons(ts, p, TokenV::ListValueBegin, elem + rest);
        lemma_at_concat(ts, p + 1, elem, rest);
        assert(decreases_to!(v => v@));
        assert(decreases_to!(v@ => v@[i]));
        assert(cv[i] == v@[i]@);
        assert(nesting_from(cv, i) >= nesting(cv[i]));
        assert(nesting_from(cv, i) >= nesting_from(cv, i + 1));
        lemma_skip_condition(ts, p + 1, v@[i], d - 1);
        lemma_skip_condition_items(ts, p + 1 + elem.len(), v, i + 1, d);
    }
}

/// A reader that does not know a field skips exactly what the writer
/// wrote there: a written condition, nested no deeper than the depth
/// allows, is skipped as a struct over exactly its tokens, whatever stands
/// around it.
pub proof fn condition_skips_as_written(c: Condition, pre: Seq<TokenV>, rest: Seq<TokenV>, d: int)
    requires
        d >= 3 + 2 * nesting(c@),
    ensures
        skip_spec(pre + condition_tokens(c@) + rest, pre.len() as int, TType::Struct, d) == Ok::<
            int,
            ReadError,
        >(pre.len() + condition_tokens(c@).len() as int),
{
    lemma_at_middle(pre, condition_tokens(c@), rest);
    lemma_skip_condition(pre + condition_tokens(c@) + rest, pre.len() as int, c, d);
}

/// The list of conditions that an `and_condition` or `or_condition` field
/// holds is announced as what it is, a list of as many structs as it
/// holds: a reader that does not know the field skips it, as a list, over
/// exactly its tokens, whatever stands around it.
pub proof fn condition_list_skips_as_written(v: Vec<Condition>, pre: Seq<TokenV>, rest: Seq<TokenV>, d: int)
    requires
        d >= 4 + 2 * nesting_from(conditions_view(v), 0),
    ensures
        skip_spec(pre + condition_list_tokens(conditions_view(v)) + rest, pre.len() as int, TType::List, d)
            == Ok::<int, ReadError>(pre.len() + condition_list_tokens(conditions_view(v)).len() as int),
{
    lemma_at_middle(pre, condition_list_tokens(conditions_view(v)), rest);
    lemma_skip_condition_list(pre + condition_list_tokens(conditions_view(v)) + rest, pre.len() as int, v, d);
}

/// A written time shard is skipped, as a struct, over exactly its tokens,
/// whatever stands around it.
pub proof fn time_shard_skips_as_written(t: TimeShard, pre: Seq<TokenV>, rest: Seq<TokenV>, d: int)
    requires
        d >= 2,
    ensures
        skip_spec(pre + time_shard_tokens(t@) + rest, pre.len() as int, TType::Struct, d) == Ok::<
            int,
            ReadError,
        >(pre.len() + time_shard_tokens(t@).len() as int),
{
    lemma_at_middle(pre, time_shard_tokens(t@), rest);
    lemma_skip_time_shard(pre + time_shard_tokens(t@) + rest, pre.len() as int, t@, d);
}

/// The deepest nesting among the conditions of the hotfixes of `v` from
/// index `i` on.
pub open spec fn hotfixes_nesting(v: Seq<HotfixV>, i: int) -> nat
    decreases v.len() - i,
{
    if i < 0 || i >= v.len() {
        0
    } else {
        let a = nesting(v[i].condition);
        let b = hotfixes_nesting(v, i + 1);
        if a >= b {
            a
        } else {
            b
        }
    }
}

#[verifier::spinoff_prover]
proof fn lemma_skip_hotfix(ts: Seq<TokenV>, p: int, h: Hotfix, d: int)
    requires
        d >= 4 + 2 * nesting(h@.condition),
        tokens_at(ts, p, hotfix_tokens(h@)),
    ensures
        skip_spec(ts, p, TType::Struct, d) == Ok::<int, ReadError>(p + hotfix_tokens(h@).len()),
{
    let ctoks = condition_tokens(h@.condition);
    let n = ctoks.len() as int;
    let head = seq![
        TokenV::StructBegin("Hotfix"@),
        TokenV::FieldBegin("config"@, TType::String, 1),
        TokenV::Str(h@.config),
        TokenV::FieldEnd,
        TokenV::FieldBegin("condition"@, TType::Struct, 2),
    ];
    let tail = seq![TokenV::FieldEnd, TokenV::FieldStop, TokenV::StructEnd];
    assert(hotfix_tokens(h@) =~= head + (ctoks + tail));
    lemma_at_concat(ts, p, head, ctoks + tail);
    lemma_at_concat(ts, p + 5, ctoks, tail);
    assert(forall|i: int| 0 <= i < 5 ==> ts[p + i] == #[trigger] head[i]);
    assert(forall|i: int| 0 <= i < 3 ==> ts[p + 5 + n + i] == #[trigger] tail[i]);
    assert(ts[p + 5 + n] == TokenV::FieldEnd);
    assert(ts[p + 6 + n] == TokenV::FieldStop);
    assert(ts[p + 7 + n] == TokenV::StructEnd);
    lemma_skip_condition(ts, p + 5, h.condition, d - 1);
    assert(skip_fields_spec(ts, p + 6 + n, d) == Ok::<int, ReadError>(p + 8 + n));
    assert(skip_fields_spec(ts, p + 4, d) == Ok::<int, ReadError>(p + 8 + n));
    assert(ts[p + 2] == TokenV::Str(h@.config));
    assert(skip_spec(ts, p + 2, TType::String, d - 1) == Ok::<int, ReadError>(p + 3));
    assert(skip_fields_spec(ts, p + 1, d) == Ok::<int, ReadError>(p + 8 + n));
}

proof fn lemma_skip_hotfix_items(ts: Seq<TokenV>, p: int, v: Vec<Hotfix>, i: int, d: int)
    requires
        0 <= i <= v@.len(),
        d >= 5 + 2 * hotfixes_nesting(hotfixes_view(v@), i),
        tokens_at(ts, p, hotfix_items(hotfixes_view(v@), i) + seq![TokenV::ListEnd]),
    ensures
        skip_elems_spec(
            ts,
            p,
            TType::Struct,
            v@.len() - i,
            d,
            Marker::ListValueBegin,
            Marker::ListEnd,
        ) == Ok::<int, ReadError>(p + hotfix_items(hotfixes_view(v@), i).len() + 1),
    decreases v@.len() - i,
{
    let hv = hotfixes_view(v@);
    let toks = hotfix_items(hv, i) + seq![TokenV::ListEnd];
    if i == v@.len() {
        assert(hotfix_items(hv, i) =~= seq![]);
        lemma_at_first(ts, p, toks);
    } else {
        let elem = hotfix_tokens(hv[i]);
        let rest = hotfix_items(hv, i + 1) + seq![TokenV::ListEnd];
        assert(toks =~= seq![TokenV::ListValueBegin] + (elem + rest));
        lemma_at_cons(ts, p, TokenV::ListValueBegin, elem + rest);
        lemma_at_concat(ts, p + 1, elem, rest);
        assert(hv[i] == v@[i]@);
        assert(hotfixes_nesting(hv, i) >= nesting(hv[i].condition));
        assert(hotfixes_nesting(hv, i) >= hotfixes_nesting(hv, i + 1));
        lemma_skip_hotfix(ts, p + 1, v@[i], d - 1);
        lemma_skip_hotfix_items(ts, p + 1 + elem.len(), v, i + 1, d);
    }
}

proof fn lemma_skip_hotfix_list(ts: Seq<TokenV>, p: int, v: Vec<Hotfix>, d: int)
    requires
        d >= 5 + 2 * hotfixes_nesting(hotfixes_view(v@), 0),
        tokens_at(ts, p, hotfix_list_tokens(hotfixes_view(v@))),
    ensures
        skip_spec(ts, p, TType::List, d) == Ok::<int, ReadError>(
            p + hotfix_list_tokens(hotfixes_view(v@)).len(),
        ),
{
    let hv = hotfixes_view(v@);
    let rest = hotfix_items(hv, 0) + seq![TokenV::ListEnd];
    assert(v.len() == v@.len());
    assert(hotfix_list_tokens(hv) =~= seq![TokenV::ListBegin(TType::Struct, hv.len() as usize)] + rest);
    lemma_at_cons(ts, p, TokenV::ListBegin(TType::Struct, hv.len() as usize), rest);
    lemma_skip_hotfix_items(ts, p + 1, v, 0, d);
}

/// A written hotfix is skipped, as a struct, over exactly its tokens,
/// whatever stands around it, when its condition nests no deeper than the
/// depth allows.
pub proof fn hotfix_skips_as_written(h: Hotfix, pre: Seq<TokenV>, rest: Seq<TokenV>, d: int)
    requires
        d >= 4 + 2 * nesting(h@.condition),
    ensures
        skip_spec(pre + hotfix_tokens(h@) + rest, pre.len() as int, TType::Struct, d) == Ok::<
            int,
            ReadError,
        >(pre.len() + hotfix_tokens(h@).len() as int),
{
    lemma_at_middle(pre, hotfix_tokens(h@), rest);
    lemma_skip_hotfix(pre + hotfix_tokens(h@) + rest, pre.len() as int, h, d);
}

/// A written client configuration is skipped, as a struct, over exactly
/// its tokens, whatever stands around it: its list of hotfixes is
/// announced as a list of as many structs as it holds.
#[verifier::spinoff_prover]
pub proof fn client_config_skips_as_written(c: ClientConfig, pre: Seq<TokenV>, rest: Seq<TokenV>, d: int)
    requires
        d >= 6 + 2 * hotfixes_nesting(hotfixes_view(c.hotfixes@), 0),
    ensures
        skip_spec(pre + client_config_tokens(c@) + rest, pre.len() as int, TType::Struct, d) == Ok::<
            int,
            ReadError,
        >(pre.len() + client_config_tokens(c@).len() as int),
{
    let ts = pre + client_config_tokens(c@) + rest;
    let p = pre.len() as int;
    lemma_at_middle(pre, client_config_tokens(c@), rest);
    let hv = hotfixes_view(c.hotfixes@);
    let ltoks = hotfix_list_tokens(hv);
    let n = ltoks.len() as int;
    let head = seq![TokenV::StructBegin("ClientConfig"@), TokenV::FieldBegin("hotfixes"@, TType::List, 1)];
    let tail = seq![TokenV::FieldEnd, TokenV::FieldStop, TokenV::StructEnd];
    assert(client_config_tokens(c@) =~= head + (ltoks + tail));
    lemma_at_concat(ts, p, head, ltoks + tail);
    lemma_at_concat(ts, p + 2, ltoks, tail);
    assert(ts[p + 0] == head[0]);
    assert(ts[p + 1] == head[1]);
    assert(ts[p + 2 + n + 0] == tail[0]);
    assert(ts[p + 2 + n + 1] == tail[1]);
    assert(ts[p + 2 + n + 2] == tail[2]);
    lemma_skip_hotfix_list(ts, p + 2, c.hotfixes, d - 1);
    assert(skip_fields_spec(ts, p + 3 + n, d) == Ok::<int, ReadError>(p + n + 5));
    assert(skip_fields_spec(ts, p + 1, d) == Ok::<int, ReadError>(p + n + 5));
}

} // verus!
