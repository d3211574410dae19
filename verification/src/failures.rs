use vstd::prelude::*;

use crate::laws::{lemma_at_concat, lemma_at_cons, lemma_at_index, lemma_at_middle, lemma_hotfix_read, normalized_hotfix, tokens_at};
use crate::read::{
    client_config_field_spec, client_config_fields_spec, client_config_spec, hotfix_items_spec,
    hotfix_list_spec, hotfix_spec, time_shard_field_spec, time_shard_fields_spec, time_shard_spec,
    condition_field_spec, condition_fields_spec, condition_spec, expect_spec, field_begin_spec, Marker,
    ReadError,
};
use crate::union::{fields_stream, lemma_field_at, struct_stream, value_pos, FieldV};
use crate::token::TokenV;
use crate::ttype::TType;
use crate::types::{ConditionV, default_time_shard, hotfixes_view, ClientConfigV, Hotfix, HotfixV, TimeShardV};
use crate::write::{hotfix_items, hotfix_tokens, time_shard_tokens};

verus! {

/// A client configuration's stream that begins with the fields `fs` and
/// then holds a list of hotfixes (said to hold `n` elements of type `ety`)
/// that begins with the written hotfixes `good`, and whose next element
/// begins with the tokens `bad`.
pub open spec fn config_with_element(
    sname: Seq<char>,
    fs: Seq<FieldV>,
    name: Seq<char>,
    ety: TType,
    n: usize,
    good: Seq<HotfixV>,
    bad: Seq<TokenV>,
) -> Seq<TokenV> {
    struct_stream(
        sname,
        fs,
        seq![TokenV::FieldBegin(name, TType::List, 1), TokenV::ListBegin(ety, n)] + hotfix_items(good, 0)
            + seq![TokenV::ListValueBegin] + bad,
    )
}

/// The client configuration read from the first `i` fields of `fs`, where
/// they stand in `ts`, starting from an empty one; an empty one again
/// where one of them cannot be read.
pub open spec fn config_after(ts: Seq<TokenV>, fs: Seq<FieldV>, i: int) -> ClientConfigV
    decreases i,
{
    if i <= 0 {
        ClientConfigV { hotfixes: seq![] }
    } else {
        let prev = config_after(ts, fs, i - 1);
        match client_config_field_spec(ts, value_pos(fs, i - 1), fs[i - 1].ty, fs[i - 1].id, prev) {
            Ok((c, _)) => c,
            Err(_) => ClientConfigV { hotfixes: seq![] },
        }
    }
}

/// Every field of `fs` is read where it stands in `ts` (a list of hotfixes,
/// or a skipped field), taking exactly its tokens.
pub open spec fn config_fields_read(ts: Seq<TokenV>, fs: Seq<FieldV>) -> bool {
    forall|i: int|
        #![trigger fs[i]]
        0 <= i < fs.len() ==> {
            &&& fs[i].ty != TType::Stop
            &&& client_config_field_spec(ts, value_pos(fs, i), fs[i].ty, fs[i].id, config_after(ts, fs, i))
                == Ok::<(ClientConfigV, int), ReadError>(
                (config_after(ts, fs, i + 1), value_pos(fs, i) + fs[i].val.len()),
            )
        }
}

proof fn lemma_config_field_at(ts: Seq<TokenV>, fs: Seq<FieldV>, i: int)
    requires
        config_fields_read(ts, fs),
        0 <= i < fs.len(),
    ensures
        fs[i].ty != TType::Stop,
        client_config_field_spec(ts, value_pos(fs, i), fs[i].ty, fs[i].id, config_after(ts, fs, i))
            == Ok::<(ClientConfigV, int), ReadError>(
            (config_after(ts, fs, i + 1), value_pos(fs, i) + fs[i].val.len()),
        ),
{
}

proof fn lemma_config_step(
    ts: Seq<TokenV>,
    p: int,
    name: Seq<char>,
    ty: TType,
    id: i16,
    r: int,
    acc: ClientConfigV,
    acc2: ClientConfigV,
)
    requires
        0 <= p < r < ts.len(),
        ts[p] == TokenV::FieldBegin(name, ty, id),
        ty != TType::Stop,
        client_config_field_spec(ts, p + 1, ty, id, acc) == Ok::<(ClientConfigV, int), ReadError>((acc2, r)),
        ts[r] == TokenV::FieldEnd,
    ensures
        client_config_fields_spec(ts, p, acc) == client_config_fields_spec(ts, r + 1, acc2),
{
}

#[verifier::spinoff_prover]
proof fn lemma_config_fields(sname: Seq<char>, fs: Seq<FieldV>, tail: Seq<TokenV>, i: int)
    requires
        0 <= i <= fs.len(),
        config_fields_read(struct_stream(sname, fs, tail), fs),
    ensures
        client_config_fields_spec(struct_stream(sname, fs, tail), value_pos(fs, i) - 1, config_after(
            struct_stream(sname, fs, tail),
            fs,
            i,
        )) == client_config_fields_spec(
            struct_stream(sname, fs, tail),
            value_pos(fs, fs.len() as int) - 1,
            config_after(struct_stream(sname, fs, tail), fs, fs.len() as int),
        ),
    decreases fs.len() - i,
{
    let ts = struct_stream(sname, fs, tail);
    if i < fs.len() {
        let f = fs[i];
        let p = value_pos(fs, i) - 1;
        let r = p + 1 + f.val.len();
        lemma_field_at(sname, fs, tail, i);
        lemma_config_field_at(ts, fs, i);
        lemma_config_step(ts, p, f.name, f.ty, f.id, r, config_after(ts, fs, i), config_after(ts, fs, i + 1));
        assert(value_pos(fs, i + 1) - 1 == r + 1);
        lemma_config_fields(sname, fs, tail, i + 1);
    } else {
        assert(fs.take(i) =~= fs.take(fs.len() as int));
    }
}

/// Reading a client configuration reads its fields one after the other:
/// after the fields `fs` that read well, it goes on from right after them
/// with the configuration read from them so far.
pub proof fn client_config_reads_fields_in_order(sname: Seq<char>, fs: Seq<FieldV>, tail: Seq<TokenV>)
    requires
        config_fields_read(struct_stream(sname, fs, tail), fs),
    ensures
        client_config_spec(struct_stream(sname, fs, tail), 0) == client_config_fields_spec(
            struct_stream(sname, fs, tail),
            fields_stream(fs).len() + 1int,
            config_after(struct_stream(sname, fs, tail), fs, fs.len() as int),
        ),
{
    let ts = struct_stream(sname, fs, tail);
    lemma_config_fields(sname, fs, tail, 0);
    assert(fs.take(0) =~= Seq::<FieldV>::empty());
    assert(fs.take(fs.len() as int) =~= fs);
    assert(ts[0] == TokenV::StructBegin(sname));
}

/// Reading the written hotfixes `v` from the `i`-th on, with `extra`
/// elements of the list still to come after them, leaves the reading at
/// the first of those, with all of `v` read.
proof fn lemma_good_items(ts: Seq<TokenV>, p: int, v: Vec<Hotfix>, i: int, extra: int, acc: Seq<HotfixV>)
    requires
        0 <= i <= v@.len(),
        extra > 0,
        tokens_at(ts, p, hotfix_items(hotfixes_view(v@), i)),
        acc == hotfixes_view(v@).map_values(|h: HotfixV| normalized_hotfix(h)).take(i),
    ensures
        hotfix_items_spec(ts, p, v@.len() - i + extra, acc) == hotfix_items_spec(
            ts,
            p + hotfix_items(hotfixes_view(v@), i).len(),
            extra,
            hotfixes_view(v@).map_values(|h: HotfixV| normalized_hotfix(h)),
        ),
    decreases v@.len() - i,
{
    let hv = hotfixes_view(v@);
    let nv = hv.map_values(|h: HotfixV| normalized_hotfix(h));
    if i == v@.len() {
        assert(hotfix_items(hv, i) =~= seq![]);
        assert(acc =~= nv);
    } else {
        let elem = hotfix_tokens(hv[i]);
        let rest = hotfix_items(hv, i + 1);
        assert(hotfix_items(hv, i) =~= seq![TokenV::ListValueBegin] + (elem + rest));
        lemma_at_cons(ts, p, TokenV::ListValueBegin, elem + rest);
        lemma_at_concat(ts, p + 1, elem, rest);
        assert(hv[i] == v@[i]@);
        lemma_hotfix_read(ts, p + 1, v@[i]);
        assert(acc.push(nv[i]) =~= nv.take(i + 1));
        lemma_good_items(ts, p + 1 + elem.len(), v, i + 1, extra, acc.push(nv[i]));
    }
}

/// One hotfix that cannot be read fails the whole configuration: wherever
/// the list of hotfixes stands among the configuration's fields, when the
/// fields before it and the hotfixes before the bad one read well and
/// reading the bad one fails with `e`, reading the configuration fails with
/// that same `e`, and keeps none of the hotfixes.
#[verifier::spinoff_prover]
pub proof fn client_config_fails_on_bad_hotfix(
    sname: Seq<char>,
    fs: Seq<FieldV>,
    name: Seq<char>,
    ety: TType,
    n: usize,
    good: Vec<Hotfix>,
    bad: Seq<TokenV>,
    e: ReadError,
)
    requires
        config_fields_read(config_with_element(sname, fs, name, ety, n, hotfixes_view(good@), bad), fs),
        good@.len() < n,
        hotfix_spec(
            config_with_element(sname, fs, name, ety, n, hotfixes_view(good@), bad),
            fields_stream(fs).len() + hotfix_items(hotfixes_view(good@), 0).len() + 4int,
        ) == Err::<(HotfixV, int), ReadError>(e),
    ensures
        client_config_spec(config_with_element(sname, fs, name, ety, n, hotfixes_view(good@), bad), 0)
            == Err::<(ClientConfigV, int), ReadError>(e),
{
    let hv = hotfixes_view(good@);
    let items = hotfix_items(hv, 0);
    let ts = config_with_element(sname, fs, name, ety, n, hv, bad);
    let q = fields_stream(fs).len() + 1int;
    let tail = seq![TokenV::FieldBegin(name, TType::List, 1), TokenV::ListBegin(ety, n)] + items + seq![
        TokenV::ListValueBegin,
    ] + bad;
    let pre = seq![TokenV::StructBegin(sname)] + fields_stream(fs);
    client_config_reads_fields_in_order(sname, fs, tail);
    let acc = config_after(ts, fs, fs.len() as int);
    assert(pre + tail + seq![] =~= ts);
    lemma_at_middle(pre, tail, seq![]);
    lemma_list_layout(ts, q, name, ety, n, items, bad);
    lemma_list_with_bad_hotfix(ts, q, name, ety, n, good, e, acc);
}

/// Where the parts of a list field with a bad element stand.
proof fn lemma_list_layout(
    ts: Seq<TokenV>,
    q: int,
    name: Seq<char>,
    ety: TType,
    n: usize,
    items: Seq<TokenV>,
    bad: Seq<TokenV>,
)
    requires
        tokens_at(
            ts,
            q,
            seq![TokenV::FieldBegin(name, TType::List, 1), TokenV::ListBegin(ety, n)] + items + seq![
                TokenV::ListValueBegin,
            ] + bad,
        ),
    ensures
        0 <= q,
        q + 2 + items.len() < ts.len(),
        ts[q] == TokenV::FieldBegin(name, TType::List, 1),
        ts[q + 1] == TokenV::ListBegin(ety, n),
        tokens_at(ts, q + 2, items),
        ts[q + 2 + items.len()] == TokenV::ListValueBegin,
{
    let fb = TokenV::FieldBegin(name, TType::List, 1);
    let lb = TokenV::ListBegin(ety, n);
    let tail = seq![fb, lb] + items + seq![TokenV::ListValueBegin] + bad;
    assert(tail =~= seq![fb] + (seq![lb] + (items + (seq![TokenV::ListValueBegin] + bad))));
    lemma_at_cons(ts, q, fb, seq![lb] + (items + (seq![TokenV::ListValueBegin] + bad)));
    lemma_at_cons(ts, q + 1, lb, items + (seq![TokenV::ListValueBegin] + bad));
    lemma_at_concat(ts, q + 2, items, seq![TokenV::ListValueBegin] + bad);
    lemma_at_cons(ts, q + 2 + items.len(), TokenV::ListValueBegin, bad);
}

/// A list of hotfixes as a configuration's field at `q`, whose elements
/// after the written `good` ones begin with one that fails with `e`,
/// fails the configuration's fields with `e`.
#[verifier::spinoff_prover]
proof fn lemma_list_with_bad_hotfix(
    ts: Seq<TokenV>,
    q: int,
    name: Seq<char>,
    ety: TType,
    n: usize,
    good: Vec<Hotfix>,
    e: ReadError,
    acc: ClientConfigV,
)
    requires
        0 <= q,
        q + 2 + hotfix_items(hotfixes_view(good@), 0).len() < ts.len(),
        ts[q] == TokenV::FieldBegin(name, TType::List, 1),
        ts[q + 1] == TokenV::ListBegin(ety, n),
        tokens_at(ts, q + 2, hotfix_items(hotfixes_view(good@), 0)),
        ts[q + 2 + hotfix_items(hotfixes_view(good@), 0).len()] == TokenV::ListValueBegin,
        good@.len() < n,
        hotfix_spec(ts, q + 3 + hotfix_items(hotfixes_view(good@), 0).len()) == Err::<(HotfixV, int), ReadError>(e),
    ensures
        client_config_fields_spec(ts, q, acc) == Err::<(ClientConfigV, int), ReadError>(e),
{
    let hv = hotfixes_view(good@);
    let items = hotfix_items(hv, 0);
    let extra: int = n - good@.len();
    let nv = hv.map_values(|h: HotfixV| normalized_hotfix(h));
    assert(nv.take(0) =~= seq![]);
    lemma_good_items(ts, q + 2, good, 0, extra, seq![]);
    assert(hotfix_items_spec(ts, q + 2 + items.len(), extra, nv) == Err::<(Seq<HotfixV>, int), ReadError>(e));
    assert(hotfix_items_spec(ts, q + 2, n as int, seq![]) == Err::<(Seq<HotfixV>, int), ReadError>(e));
    assert(hotfix_list_spec(ts, q + 1) == Err::<(Seq<HotfixV>, int), ReadError>(e));
    assert(client_config_field_spec(ts, q + 1, TType::List, 1, acc) == Err::<(ClientConfigV, int), ReadError>(e));
}

/// The tokens of a time shard, one by one.
pub(crate) proof fn lemma_time_shard_layout(t: TimeShardV)
    ensures
        time_shard_tokens(t) == seq![
            TokenV::StructBegin("TimeShard"@),
            TokenV::FieldBegin("start"@, TType::String, 1),
            TokenV::Str(t.start),
            TokenV::FieldEnd,
            TokenV::FieldBegin("end"@, TType::String, 2),
            TokenV::Str(t.end),
            TokenV::FieldEnd,
            TokenV::FieldStop,
            TokenV::StructEnd,
        ],
{
    assert(time_shard_tokens(t) =~= seq![
        TokenV::StructBegin("TimeShard"@),
        TokenV::FieldBegin("start"@, TType::String, 1),
        TokenV::Str(t.start),
        TokenV::FieldEnd,
        TokenV::FieldBegin("end"@, TType::String, 2),
        TokenV::Str(t.end),
        TokenV::FieldEnd,
        TokenV::FieldStop,
        TokenV::StructEnd,
    ]);
}

/// A time shard's stream cut short anywhere reads as the end of the input:
/// no time shard, not even one with a field left at its default, is read
/// from part of a written one.
#[verifier::spinoff_prover]
pub proof fn time_shard_truncated(t: TimeShardV, k: int)
    requires
        0 <= k < time_shard_tokens(t).len(),
    ensures
        time_shard_spec(time_shard_tokens(t).take(k), 0) == Err::<(TimeShardV, int), ReadError>(
            ReadError::EndOfInput,
        ),
{
    lemma_time_shard_layout(t);
    let toks = time_shard_tokens(t);
    let ts = toks.take(k);
    assert(ts.len() == k);
    assert(forall|i: int| 0 <= i < k ==> ts[i] == toks[i]);
    let d = default_time_shard();
    let a1 = TimeShardV { start: t.start, end: d.end };
    let a2 = TimeShardV { start: t.start, end: t.end };
    let eoi = Err::<(TimeShardV, int), ReadError>(ReadError::EndOfInput);
    if k >= 7 {
        if k == 8 {
            assert(ts[7] == TokenV::FieldStop);
        }
        assert(time_shard_fields_spec(ts, 7, a2) == eoi);
    }
    if k >= 4 {
        if k >= 5 {
            assert(ts[4] == TokenV::FieldBegin("end"@, TType::String, 2));
        }
        assert(time_shard_fields_spec(ts, 4, a1) == eoi);
    }
    if k >= 1 {
        if k >= 2 {
            assert(ts[1] == TokenV::FieldBegin("start"@, TType::String, 1));
        }
        assert(time_shard_fields_spec(ts, 1, d) == eoi);
    }
}

/// The time shard read from the first `i` fields of `fs`, where they stand
/// in `ts`, starting from the default; the default again where one of them
/// cannot be read.
pub open spec fn shard_after(ts: Seq<TokenV>, fs: Seq<FieldV>, i: int) -> TimeShardV
    decreases i,
{
    if i <= 0 {
        default_time_shard()
    } else {
        let prev = shard_after(ts, fs, i - 1);
        match time_shard_field_spec(ts, value_pos(fs, i - 1), fs[i - 1].ty, fs[i - 1].id, prev) {
            Ok((t, _)) => t,
            Err(_) => default_time_shard(),
        }
    }
}

/// Every field of `fs` is read where it stands in `ts` (a value of a field
/// that a time shard knows, or a skipped one), taking exactly its tokens.
pub open spec fn shard_fields_read(ts: Seq<TokenV>, fs: Seq<FieldV>) -> bool {
    forall|i: int|
        #![trigger fs[i]]
        0 <= i < fs.len() ==> {
            &&& fs[i].ty != TType::Stop
            &&& time_shard_field_spec(ts, value_pos(fs, i), fs[i].ty, fs[i].id, shard_after(ts, fs, i))
                == Ok::<(TimeShardV, int), ReadError>(
                (shard_after(ts, fs, i + 1), value_pos(fs, i) + fs[i].val.len()),
            )
        }
}

proof fn lemma_shard_field_at(ts: Seq<TokenV>, fs: Seq<FieldV>, i: int)
    requires
        shard_fields_read(ts, fs),
        0 <= i < fs.len(),
    ensures
        fs[i].ty != TType::Stop,
        time_shard_field_spec(ts, value_pos(fs, i), fs[i].ty, fs[i].id, shard_after(ts, fs, i)) == Ok::<
            (TimeShardV, int),
            ReadError,
        >((shard_after(ts, fs, i + 1), value_pos(fs, i) + fs[i].val.len())),
{
}

/// One step of reading a time shard's fields: a field whose value reads
/// into `acc2` and ends where its end marker stands.
proof fn lemma_shard_step(
    ts: Seq<TokenV>,
    p: int,
    name: Seq<char>,
    ty: TType,
    id: i16,
    r: int,
    acc: TimeShardV,
    acc2: TimeShardV,
)
    requires
        0 <= p < r < ts.len(),
        ts[p] == TokenV::FieldBegin(name, ty, id),
        ty != TType::Stop,
        time_shard_field_spec(ts, p + 1, ty, id, acc) == Ok::<(TimeShardV, int), ReadError>((acc2, r)),
        ts[r] == TokenV::FieldEnd,
    ensures
        time_shard_fields_spec(ts, p, acc) == time_shard_fields_spec(ts, r + 1, acc2),
{
}

#[verifier::spinoff_prover]
proof fn lemma_shard_fields(sname: Seq<char>, fs: Seq<FieldV>, tail: Seq<TokenV>, i: int)
    requires
        0 <= i <= fs.len(),
        shard_fields_read(struct_stream(sname, fs, tail), fs),
    ensures
        time_shard_fields_spec(struct_stream(sname, fs, tail), value_pos(fs, i) - 1, shard_after(
            struct_stream(sname, fs, tail),
            fs,
            i,
        )) == time_shard_fields_spec(
            struct_stream(sname, fs, tail),
            value_pos(fs, fs.len() as int) - 1,
            shard_after(struct_stream(sname, fs, tail), fs, fs.len() as int),
        ),
    decreases fs.len() - i,
{
    let ts = struct_stream(sname, fs, tail);
    if i < fs.len() {
        let f = fs[i];
        let p = value_pos(fs, i) - 1;
        let r = p + 1 + f.val.len();
        lemma_field_at(sname, fs, tail, i);
        lemma_shard_field_at(ts, fs, i);
        lemma_shard_step(ts, p, f.name, f.ty, f.id, r, shard_after(ts, fs, i), shard_after(ts, fs, i + 1));
        assert(value_pos(fs, i + 1) - 1 == r + 1);
        lemma_shard_fields(sname, fs, tail, i + 1);
    } else {
        assert(fs.take(i) =~= fs.take(fs.len() as int));
    }
}

/// Reading a time shard reads its fields one after the other: after the
/// fields `fs` that read well, it goes on from right after them with the
/// time shard read from them so far.
pub proof fn time_shard_reads_fields_in_order(sname: Seq<char>, fs: Seq<FieldV>, tail: Seq<TokenV>)
    requires
        shard_fields_read(struct_stream(sname, fs, tail), fs),
    ensures
        time_shard_spec(struct_stream(sname, fs, tail), 0) == time_shard_fields_spec(
            struct_stream(sname, fs, tail),
            fields_stream(fs).len() + 1int,
            shard_after(struct_stream(sname, fs, tail), fs, fs.len() as int),
        ),
{
    let ts = struct_stream(sname, fs, tail);
    lemma_shard_fields(sname, fs, tail, 0);
    assert(fs.take(0) =~= Seq::<FieldV>::empty());
    assert(fs.take(fs.len() as int) =~= fs);
    assert(ts[0] == TokenV::StructBegin(sname));
}

/// An error in reading a field's value is the time shard's error: after
/// the fields `fs` that read well, a field whose value cannot be read, or
/// skipped, with the error `e` makes reading the time shard fail with that
/// same `e`, and no time shard is read.
pub proof fn time_shard_passes_field_error(
    sname: Seq<char>,
    fs: Seq<FieldV>,
    name: Seq<char>,
    ty: TType,
    id: i16,
    rest: Seq<TokenV>,
    e: ReadError,
)
    requires
        shard_fields_read(struct_stream(sname, fs, seq![TokenV::FieldBegin(name, ty, id)] + rest), fs),
        ty != TType::Stop,
        time_shard_field_spec(
            struct_stream(sname, fs, seq![TokenV::FieldBegin(name, ty, id)] + rest),
            fields_stream(fs).len() + 2int,
            ty,
            id,
            shard_after(struct_stream(sname, fs, seq![TokenV::FieldBegin(name, ty, id)] + rest), fs, fs.len() as int),
        ) == Err::<(TimeShardV, int), ReadError>(e),
    ensures
        time_shard_spec(struct_stream(sname, fs, seq![TokenV::FieldBegin(name, ty, id)] + rest), 0)
            == Err::<(TimeShardV, int), ReadError>(e),
{
    let tail = seq![TokenV::FieldBegin(name, ty, id)] + rest;
    let ts = struct_stream(sname, fs, tail);
    let q = fields_stream(fs).len() + 1int;
    time_shard_reads_fields_in_order(sname, fs, tail);
    assert(ts[q] == TokenV::FieldBegin(name, ty, id));
}

/// Every error of a reader call that reading a condition makes is the
/// error of the whole reading, unchanged: the struct's begin; at any
/// position of its fields, with any alternative read so far, a field
/// header; after the stop marker, the struct's end; and, while no
/// alternative is read, a field's value (read or skipped) and the field's
/// end. With `condition_reads_fields_in_order` and the union rule, this
/// covers every call.
pub proof fn condition_passes_reader_errors(ts: Seq<TokenV>, p: int, alt: Option<ConditionV>, e: ReadError)
    ensures
        expect_spec(ts, p, Marker::StructBegin) == Err::<int, ReadError>(e) ==> condition_spec(ts, p)
            == Err::<(ConditionV, int), ReadError>(e),
        field_begin_spec(ts, p) == Err::<(TType, i16, int), ReadError>(e) ==> condition_fields_spec(
            ts,
            p,
            alt,
        ) == Err::<(ConditionV, int), ReadError>(e),
        (field_begin_spec(ts, p) matches Ok((ty, _id, q)) && ty == TType::Stop && expect_spec(
            ts,
            q,
            Marker::StructEnd,
        ) == Err::<int, ReadError>(e)) ==> condition_fields_spec(ts, p, alt) == Err::<
            (ConditionV, int),
            ReadError,
        >(e),
        (field_begin_spec(ts, p) matches Ok((ty, id, q)) && ty != TType::Stop && alt is None
            && condition_field_spec(ts, q, ty, id) == Err::<(Option<ConditionV>, int), ReadError>(e))
            ==> condition_fields_spec(ts, p, alt) == Err::<(ConditionV, int), ReadError>(e),
        (field_begin_spec(ts, p) matches Ok((ty, id, q)) && ty != TType::Stop && alt is None
            && (condition_field_spec(ts, q, ty, id) matches Ok((_a, r)) && expect_spec(
            ts,
            r,
            Marker::FieldEnd,
        ) == Err::<int, ReadError>(e))) ==> condition_fields_spec(ts, p, alt) == Err::<
            (ConditionV, int),
            ReadError,
        >(e),
{
}

/// Every error of a reader call that reading a time shard makes is the
/// error of the whole reading, unchanged: the struct's begin; at any
/// position of its fields, with the time shard read so far, a field
/// header, a field's value (read or skipped) and the field's end; and,
/// after the stop marker, the struct's end. With
/// `time_shard_reads_fields_in_order`, this covers every call.
pub proof fn time_shard_passes_reader_errors(ts: Seq<TokenV>, p: int, acc: TimeShardV, e: ReadError)
    ensures
        expect_spec(ts, p, Marker::StructBegin) == Err::<int, ReadError>(e) ==> time_shard_spec(ts, p)
            == Err::<(TimeShardV, int), ReadError>(e),
        field_begin_spec(ts, p) == Err::<(TType, i16, int), ReadError>(e) ==> time_shard_fields_spec(
            ts,
            p,
            acc,
        ) == Err::<(TimeShardV, int), ReadError>(e),
        (field_begin_spec(ts, p) matches Ok((ty, _id, q)) && ty == TType::Stop && expect_spec(
            ts,
            q,
            Marker::StructEnd,
        ) == Err::<int, ReadError>(e)) ==> time_shard_fields_spec(ts, p, acc) == Err::<
            (TimeShardV, int),
            ReadError,
        >(e),
        (field_begin_spec(ts, p) matches Ok((ty, id, q)) && ty != TType::Stop && time_shard_field_spec(
            ts,
            q,
            ty,
            id,
            acc,
        ) == Err::<(TimeShardV, int), ReadError>(e)) ==> time_shard_fields_spec(ts, p, acc) == Err::<
            (TimeShardV, int),
            ReadError,
        >(e),
        (field_begin_spec(ts, p) matches Ok((ty, id, q)) && ty != TType::Stop && (time_shard_field_spec(
            ts,
            q,
            ty,
            id,
            acc,
        ) matches Ok((_a, r)) && expect_spec(ts, r, Marker::FieldEnd) == Err::<int, ReadError>(e)))
            ==> time_shard_fields_spec(ts, p, acc) == Err::<(TimeShardV, int), ReadError>(e),
{
}

} // verus!
