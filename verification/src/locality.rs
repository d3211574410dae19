//! Reading looks only forward, and not at names: what a reader gives at a
//! position depends only on the tokens from that position on, and not on
//! the names that struct and field headers carry. Two streams that agree
//! from some point on, but for those names, are read alike there,
//! positions shifted by the offset between them.

use vstd::prelude::*;

use crate::read::{
    client_config_field_spec, client_config_fields_spec, client_config_spec,
    condition_field_spec, condition_fields_spec, condition_items_spec, condition_list_spec,
    condition_spec, expect_spec, field_begin_spec, hotfix_field_spec, hotfix_fields_spec,
    hotfix_items_spec, hotfix_list_spec, hotfix_spec, i32_spec, list_begin_spec, mismatch,
    skip_elems_spec, skip_entries_spec, skip_fields_spec, skip_spec, string_items_spec,
    string_list_spec, string_spec, time_shard_field_spec, time_shard_fields_spec,
    time_shard_spec, token_at, Marker, ReadError,
};
use crate::token::TokenV;
use crate::ttype::TType;
use crate::types::{ClientConfigV, ConditionV, HotfixV, TimeShardV};

verus! {

/// Two tokens are the same but for the names that a struct's or a field's
/// header may carry.
pub open spec fn same_but_names(t1: TokenV, t2: TokenV) -> bool {
    match t2 {
        TokenV::StructBegin(_) => t1 is StructBegin,
        TokenV::FieldBegin(_, ty, id) => t1 matches TokenV::FieldBegin(_, ty1, id1) && ty1 == ty && id1
            == id,
        _ => t1 == t2,
    }
}

/// `ts1` holds, from position `p + d` on, what `ts2` holds from position
/// `p` on, but for the names in struct and field headers.
pub open spec fn agree_from(ts1: Seq<TokenV>, ts2: Seq<TokenV>, d: int, p: int) -> bool {
    &&& 0 <= p <= ts2.len()
    &&& 0 <= p + d
    &&& ts1.len() == ts2.len() + d
    &&& forall|i: int| p <= i < ts2.len() ==> same_but_names(ts1[i + d], #[trigger] ts2[i])
}

/// A position result moved by `d`.
pub open spec fn shift_pos(r: Result<int, ReadError>, d: int) -> Result<int, ReadError> {
    match r {
        Ok(q) => Ok(q + d),
        Err(e) => Err(e),
    }
}

/// A reading result with its end position moved by `d`.
pub open spec fn shift_read<V>(r: Result<(V, int), ReadError>, d: int) -> Result<(V, int), ReadError> {
    match r {
        Ok((v, q)) => Ok((v, q + d)),
        Err(e) => Err(e),
    }
}

/// A position result, if any, lies between `p` and `n`.
pub open spec fn within_pos(r: Result<int, ReadError>, p: int, n: int) -> bool {
    r matches Ok(q) ==> p <= q <= n
}

/// The end position of a reading result, if any, lies between `p` and `n`.
pub open spec fn within_read<V>(r: Result<(V, int), ReadError>, p: int, n: int) -> bool {
    r matches Ok((_, q)) ==> p <= q <= n
}

pub(crate) proof fn lemma_agree_later(ts1: Seq<TokenV>, ts2: Seq<TokenV>, d: int, p: int, q: int)
    requires
        agree_from(ts1, ts2, d, p),
        p <= q <= ts2.len(),
    ensures
        agree_from(ts1, ts2, d, q),
{
}

proof fn lemma_local_token(ts1: Seq<TokenV>, ts2: Seq<TokenV>, d: int, p: int)
    requires
        agree_from(ts1, ts2, d, p),
    ensures
        token_at(ts1, p + d) is Some <==> token_at(ts2, p) is Some,
        p < ts2.len() ==> same_but_names(ts1[p + d], ts2[p]),
        mismatch(ts1, p + d) == mismatch(ts2, p),
{
    if p < ts2.len() {
        assert(same_but_names(ts1[p + d], ts2[p]));
    }
}

proof fn lemma_local_expect(ts1: Seq<TokenV>, ts2: Seq<TokenV>, d: int, p: int, m: Marker)
    requires
        agree_from(ts1, ts2, d, p),
    ensures
        expect_spec(ts1, p + d, m) == shift_pos(expect_spec(ts2, p, m), d),
        within_pos(expect_spec(ts2, p, m), p, ts2.len() as int),
{
    lemma_local_token(ts1, ts2, d, p);
}

proof fn lemma_local_field_begin(ts1: Seq<TokenV>, ts2: Seq<TokenV>, d: int, p: int)
    requires
        agree_from(ts1, ts2, d, p),
    ensures
        match field_begin_spec(ts2, p) {
            Ok((ty, id, q)) => field_begin_spec(ts1, p + d) == Ok::<(TType, i16, int), ReadError>(
                (ty, id, q + d),
            ) && q == p + 1 && q <= ts2.len(),
            Err(e) => field_begin_spec(ts1, p + d) == Err::<(TType, i16, int), ReadError>(e),
        },
{
    lemma_local_token(ts1, ts2, d, p);
}

proof fn lemma_local_string(ts1: Seq<TokenV>, ts2: Seq<TokenV>, d: int, p: int)
    requires
        agree_from(ts1, ts2, d, p),
    ensures
        string_spec(ts1, p + d) == shift_read(string_spec(ts2, p), d),
        within_read(string_spec(ts2, p), p, ts2.len() as int),
{
    lemma_local_token(ts1, ts2, d, p);
}

proof fn lemma_local_i32(ts1: Seq<TokenV>, ts2: Seq<TokenV>, d: int, p: int)
    requires
        agree_from(ts1, ts2, d, p),
    ensures
        i32_spec(ts1, p + d) == shift_read(i32_spec(ts2, p), d),
        within_read(i32_spec(ts2, p), p, ts2.len() as int),
{
    lemma_local_token(ts1, ts2, d, p);
}

proof fn lemma_local_list_begin(ts1: Seq<TokenV>, ts2: Seq<TokenV>, d: int, p: int)
    requires
        agree_from(ts1, ts2, d, p),
    ensures
        list_begin_spec(ts1, p + d) == shift_read(list_begin_spec(ts2, p), d),
        within_read(list_begin_spec(ts2, p), p, ts2.len() as int),
{
    lemma_local_token(ts1, ts2, d, p);
}

proof fn lemma_local_skip(ts1: Seq<TokenV>, ts2: Seq<TokenV>, d: int, p: int, ty: TType, depth: int)
    requires
        agree_from(ts1, ts2, d, p),
    ensures
        skip_spec(ts1, p + d, ty, depth) == shift_pos(skip_spec(ts2, p, ty, depth), d),
        within_pos(skip_spec(ts2, p, ty, depth), p, ts2.len() as int),
    decreases ts2.len() - p, 1int,
{
    lemma_local_token(ts1, ts2, d, p);
    if depth > 0 && p < ts2.len() {
        lemma_agree_later(ts1, ts2, d, p, p + 1);
        match ts2[p] {
            TokenV::StructBegin(_) => {
                lemma_local_skip_fields(ts1, ts2, d, p + 1, depth);
            },
            TokenV::ListBegin(et, n) => {
                lemma_local_skip_elems(
                    ts1,
                    ts2,
                    d,
                    p + 1,
                    et,
                    n as int,
                    depth,
                    Marker::ListValueBegin,
                    Marker::ListEnd,
                );
            },
            TokenV::SetBegin(et, n) => {
                lemma_local_skip_elems(
                    ts1,
                    ts2,
                    d,
                    p + 1,
                    et,
                    n as int,
                    depth,
                    Marker::SetValueBegin,
                    Marker::SetEnd,
                );
            },
            TokenV::MapBegin(kt, vt, n) => {
                lemma_local_skip_entries(ts1, ts2, d, p + 1, kt, vt, n as int, depth);
            },
            _ => {},
        }
    }
}

proof fn lemma_local_skip_fields(ts1: Seq<TokenV>, ts2: Seq<TokenV>, d: int, p: int, depth: int)
    requires
        agree_from(ts1, ts2, d, p),
    ensures
        skip_fields_spec(ts1, p + d, depth) == shift_pos(skip_fields_spec(ts2, p, depth), d),
        within_pos(skip_fields_spec(ts2, p, depth), p, ts2.len() as int),
    decreases ts2.len() - p, 0int,
{
    lemma_local_field_begin(ts1, ts2, d, p);
    match field_begin_spec(ts2, p) {
        Err(_) => {},
        Ok((ty, _id, q)) => {
            lemma_agree_later(ts1, ts2, d, p, q);
            if ty == TType::Stop {
                lemma_local_expect(ts1, ts2, d, q, Marker::StructEnd);
            } else {
                lemma_local_skip(ts1, ts2, d, q, ty, depth - 1);
                match skip_spec(ts2, q, ty, depth - 1) {
                    Err(_) => {},
                    Ok(r) => {
                        lemma_agree_later(ts1, ts2, d, q, r);
                        lemma_local_expect(ts1, ts2, d, r, Marker::FieldEnd);
                        match expect_spec(ts2, r, Marker::FieldEnd) {
                            Err(_) => {},
                            Ok(r2) => {
                                if p < r2 <= ts2.len() {
                                    lemma_agree_later(ts1, ts2, d, r, r2);
                                    lemma_local_skip_fields(ts1, ts2, d, r2, depth);
                                }
                            },
                        }
                    },
                }
            }
        },
    }
}

proof fn lemma_local_skip_elems(
    ts1: Seq<TokenV>,
    ts2: Seq<TokenV>,
    d: int,
    p: int,
    et: TType,
    n: int,
    depth: int,
    each: Marker,
    end: Marker,
)
    requires
        agree_from(ts1, ts2, d, p),
    ensures
        skip_elems_spec(ts1, p + d, et, n, depth, each, end) == shift_pos(
            skip_elems_spec(ts2, p, et, n, depth, each, end),
            d,
        ),
        within_pos(skip_elems_spec(ts2, p, et, n, depth, each, end), p, ts2.len() as int),
    decreases ts2.len() - p, 0int,
{
    if n <= 0 {
        lemma_local_expect(ts1, ts2, d, p, end);
    } else {
        lemma_local_expect(ts1, ts2, d, p, each);
        match expect_spec(ts2, p, each) {
            Err(_) => {},
            Ok(q) => {
                lemma_agree_later(ts1, ts2, d, p, q);
                lemma_local_skip(ts1, ts2, d, q, et, depth - 1);
                match skip_spec(ts2, q, et, depth - 1) {
                    Err(_) => {},
                    Ok(r) => {
                        if p < r <= ts2.len() {
                            lemma_agree_later(ts1, ts2, d, q, r);
                            lemma_local_skip_elems(ts1, ts2, d, r, et, n - 1, depth, each, end);
                        }
                    },
                }
            },
        }
    }
}

proof fn lemma_local_skip_entries(
    ts1: Seq<TokenV>,
    ts2: Seq<TokenV>,
    d: int,
    p: int,
    kt: TType,
    vt: TType,
    n: int,
    depth: int,
)
    requires
        agree_from(ts1, ts2, d, p),
    ensures
        skip_entries_spec(ts1, p + d, kt, vt, n, depth) == shift_pos(
            skip_entries_spec(ts2, p, kt, vt, n, depth),
            d,
        ),
        within_pos(skip_entries_spec(ts2, p, kt, vt, n, depth), p, ts2.len() as int),
    decreases ts2.len() - p, 0int,
{
    if n <= 0 {
        lemma_local_expect(ts1, ts2, d, p, Marker::MapEnd);
    } else {
        lemma_local_expect(ts1, ts2, d, p, Marker::MapKeyBegin);
        match expect_spec(ts2, p, Marker::MapKeyBegin) {
            Err(_) => {},
            Ok(q) => {
                lemma_agree_later(ts1, ts2, d, p, q);
                lemma_local_skip(ts1, ts2, d, q, kt, depth - 1);
                match skip_spec(ts2, q, kt, depth - 1) {
                    Err(_) => {},
                    Ok(r) => {
                        lemma_agree_later(ts1, ts2, d, q, r);
                        lemma_local_expect(ts1, ts2, d, r, Marker::MapValueBegin);
                        match expect_spec(ts2, r, Marker::MapValueBegin) {
                            Err(_) => {},
                            Ok(r1) => {
                                if p < r1 <= ts2.len() {
                                    lemma_agree_later(ts1, ts2, d, r, r1);
                                    lemma_local_skip(ts1, ts2, d, r1, vt, depth);
                                    match skip_spec(ts2, r1, vt, depth) {
                                        Err(_) => {},
                                        Ok(r2) => {
                                            if p < r2 <= ts2.len() {
                                                lemma_agree_later(ts1, ts2, d, r1, r2);
                                                lemma_local_skip_entries(
                                                    ts1,
                                                    ts2,
                                                    d,
                                                    r2,
                                                    kt,
                                                    vt,
                                                    n - 1,
                                                    depth,
                                                );
                                            }
                                        },
                                    }
                                }
                            },
                        }
                    },
                }
            },
        }
    }
}

proof fn lemma_local_string_items(
    ts1: Seq<TokenV>,
    ts2: Seq<TokenV>,
    d: int,
    p: int,
    n: int,
    acc: Seq<Seq<char>>,
)
    requires
        agree_from(ts1, ts2, d, p),
    ensures
        string_items_spec(ts1, p + d, n, acc) == shift_read(string_items_spec(ts2, p, n, acc), d),
        within_read(string_items_spec(ts2, p, n, acc), p, ts2.len() as int),
    decreases ts2.len() - p,
{
    if n <= 0 {
        lemma_local_expect(ts1, ts2, d, p, Marker::ListEnd);
    } else {
        lemma_local_expect(ts1, ts2, d, p, Marker::ListValueBegin);
        match expect_spec(ts2, p, Marker::ListValueBegin) {
            Err(_) => {},
            Ok(q) => {
                lemma_agree_later(ts1, ts2, d, p, q);
                lemma_local_string(ts1, ts2, d, q);
                match string_spec(ts2, q) {
                    Err(_) => {},
                    Ok((x, r)) => {
                        if p < r <= ts2.len() {
                            lemma_agree_later(ts1, ts2, d, q, r);
                            lemma_local_string_items(ts1, ts2, d, r, n - 1, acc.push(x));
                        }
                    },
                }
            },
        }
    }
}

proof fn lemma_local_string_list(ts1: Seq<TokenV>, ts2: Seq<TokenV>, d: int, p: int)
    requires
        agree_from(ts1, ts2, d, p),
    ensures
        string_list_spec(ts1, p + d) == shift_read(string_list_spec(ts2, p), d),
        within_read(string_list_spec(ts2, p), p, ts2.len() as int),
{
    lemma_local_list_begin(ts1, ts2, d, p);
    match list_begin_spec(ts2, p) {
        Err(_) => {},
        Ok((n, q)) => {
            lemma_agree_later(ts1, ts2, d, p, q);
            lemma_local_string_items(ts1, ts2, d, q, n, seq![]);
        },
    }
}

proof fn lemma_local_time_shard_field(
    ts1: Seq<TokenV>,
    ts2: Seq<TokenV>,
    d: int,
    p: int,
    ty: TType,
    id: i16,
    acc: TimeShardV,
)
    requires
        agree_from(ts1, ts2, d, p),
    ensures
        time_shard_field_spec(ts1, p + d, ty, id, acc) == shift_read(
            time_shard_field_spec(ts2, p, ty, id, acc),
            d,
        ),
        within_read(time_shard_field_spec(ts2, p, ty, id, acc), p, ts2.len() as int),
{
    lemma_local_string(ts1, ts2, d, p);
    lemma_local_skip(ts1, ts2, d, p, ty, crate::read::SKIP_DEPTH as int);
}

pub(crate) proof fn lemma_local_time_shard_fields(
    ts1: Seq<TokenV>,
    ts2: Seq<TokenV>,
    d: int,
    p: int,
    acc: TimeShardV,
)
    requires
        agree_from(ts1, ts2, d, p),
    ensures
        time_shard_fields_spec(ts1, p + d, acc) == shift_read(time_shard_fields_spec(ts2, p, acc), d),
        within_read(time_shard_fields_spec(ts2, p, acc), p, ts2.len() as int),
    decreases ts2.len() - p,
{
    lemma_local_field_begin(ts1, ts2, d, p);
    match field_begin_spec(ts2, p) {
        Err(_) => {},
        Ok((ty, id, q)) => {
            lemma_agree_later(ts1, ts2, d, p, q);
            if ty == TType::Stop {
                lemma_local_expect(ts1, ts2, d, q, Marker::StructEnd);
            } else {
                lemma_local_time_shard_field(ts1, ts2, d, q, ty, id, acc);
                match time_shard_field_spec(ts2, q, ty, id, acc) {
                    Err(_) => {},
                    Ok((acc2, r)) => {
                        lemma_agree_later(ts1, ts2, d, q, r);
                        lemma_local_expect(ts1, ts2, d, r, Marker::FieldEnd);
                        match expect_spec(ts2, r, Marker::FieldEnd) {
                            Err(_) => {},
                            Ok(r2) => {
                                if p < r2 <= ts2.len() {
                                    lemma_agree_later(ts1, ts2, d, r, r2);
                                    lemma_local_time_shard_fields(ts1, ts2, d, r2, acc2);
                                }
                            },
                        }
                    },
                }
            }
        },
    }
}

/// Reading a time shard looks only forward, and not at names: two
/// streams that agree from a position on, but for names, give the same
/// time shard there, ending at the same offset.
pub proof fn time_shard_read_local(ts1: Seq<TokenV>, ts2: Seq<TokenV>, d: int, p: int)
    requires
        agree_from(ts1, ts2, d, p),
    ensures
        time_shard_spec(ts1, p + d) == shift_read(time_shard_spec(ts2, p), d),
        within_read(time_shard_spec(ts2, p), p, ts2.len() as int),
{
    lemma_local_expect(ts1, ts2, d, p, Marker::StructBegin);
    match expect_spec(ts2, p, Marker::StructBegin) {
        Err(_) => {},
        Ok(q) => {
            lemma_agree_later(ts1, ts2, d, p, q);
            lemma_local_time_shard_fields(ts1, ts2, d, q, crate::types::default_time_shard());
        },
    }
}

/// Reading a condition looks only forward, and not at names: two
/// streams that agree from a position on, but for names, give the same
/// condition there, ending at the same offset.
pub proof fn condition_read_local(ts1: Seq<TokenV>, ts2: Seq<TokenV>, d: int, p: int)
    requires
        agree_from(ts1, ts2, d, p),
    ensures
        condition_spec(ts1, p + d) == shift_read(condition_spec(ts2, p), d),
        within_read(condition_spec(ts2, p), p, ts2.len() as int),
    decreases ts2.len() - p, 0int,
{
    lemma_local_expect(ts1, ts2, d, p, Marker::StructBegin);
    match expect_spec(ts2, p, Marker::StructBegin) {
        Err(_) => {},
        Ok(q) => {
            lemma_agree_later(ts1, ts2, d, p, q);
            lemma_local_condition_fields(ts1, ts2, d, q, None);
        },
    }
}

pub(crate) proof fn lemma_local_condition_fields(
    ts1: Seq<TokenV>,
    ts2: Seq<TokenV>,
    d: int,
    p: int,
    alt: Option<ConditionV>,
)
    requires
        agree_from(ts1, ts2, d, p),
    ensures
        condition_fields_spec(ts1, p + d, alt) == shift_read(condition_fields_spec(ts2, p, alt), d),
        within_read(condition_fields_spec(ts2, p, alt), p, ts2.len() as int),
    decreases ts2.len() - p, 0int,
{
    lemma_local_field_begin(ts1, ts2, d, p);
    match field_begin_spec(ts2, p) {
        Err(_) => {},
        Ok((ty, id, q)) => {
            lemma_agree_later(ts1, ts2, d, p, q);
            if ty == TType::Stop {
                lemma_local_expect(ts1, ts2, d, q, Marker::StructEnd);
            } else if alt is None {
                lemma_local_condition_field(ts1, ts2, d, q, ty, id);
                match condition_field_spec(ts2, q, ty, id) {
                    Err(_) => {},
                    Ok((alt2, r)) => {
                        lemma_agree_later(ts1, ts2, d, q, r);
                        lemma_local_expect(ts1, ts2, d, r, Marker::FieldEnd);
                        match expect_spec(ts2, r, Marker::FieldEnd) {
                            Err(_) => {},
                            Ok(r2) => {
                                if p < r2 <= ts2.len() {
                                    lemma_agree_later(ts1, ts2, d, r, r2);
                                    lemma_local_condition_fields(ts1, ts2, d, r2, alt2);
                                }
                            },
                        }
                    },
                }
            }
        },
    }
}

proof fn lemma_local_condition_field(
    ts1: Seq<TokenV>,
    ts2: Seq<TokenV>,
    d: int,
    p: int,
    ty: TType,
    id: i16,
)
    requires
        agree_from(ts1, ts2, d, p),
    ensures
        condition_field_spec(ts1, p + d, ty, id) == shift_read(condition_field_spec(ts2, p, ty, id), d),
        within_read(condition_field_spec(ts2, p, ty, id), p, ts2.len() as int),
    decreases ts2.len() - p, 1int,
{
    condition_read_local(ts1, ts2, d, p);
    lemma_local_condition_list(ts1, ts2, d, p);
    lemma_local_string_list(ts1, ts2, d, p);
    lemma_local_string(ts1, ts2, d, p);
    lemma_local_i32(ts1, ts2, d, p);
    time_shard_read_local(ts1, ts2, d, p);
    lemma_local_skip(ts1, ts2, d, p, ty, crate::read::SKIP_DEPTH as int);
}

proof fn lemma_local_condition_list(ts1: Seq<TokenV>, ts2: Seq<TokenV>, d: int, p: int)
    requires
        agree_from(ts1, ts2, d, p),
    ensures
        condition_list_spec(ts1, p + d) == shift_read(condition_list_spec(ts2, p), d),
        within_read(condition_list_spec(ts2, p), p, ts2.len() as int),
    decreases ts2.len() - p, 0int,
{
    lemma_local_list_begin(ts1, ts2, d, p);
    match list_begin_spec(ts2, p) {
        Err(_) => {},
        Ok((n, q)) => {
            lemma_agree_later(ts1, ts2, d, p, q);
            lemma_local_condition_items(ts1, ts2, d, q, n, seq![]);
        },
    }
}

proof fn lemma_local_condition_items(
    ts1: Seq<TokenV>,
    ts2: Seq<TokenV>,
    d: int,
    p: int,
    n: int,
    acc: Seq<ConditionV>,
)
    requires
        agree_from(ts1, ts2, d, p),
    ensures
        condition_items_spec(ts1, p + d, n, acc) == shift_read(condition_items_spec(ts2, p, n, acc), d),
        within_read(condition_items_spec(ts2, p, n, acc), p, ts2.len() as int),
    decreases ts2.len() - p, 0int,
{
    if n <= 0 {
        lemma_local_expect(ts1, ts2, d, p, Marker::ListEnd);
    } else {
        lemma_local_expect(ts1, ts2, d, p, Marker::ListValueBegin);
        match expect_spec(ts2, p, Marker::ListValueBegin) {
            Err(_) => {},
            Ok(q) => {
                lemma_agree_later(ts1, ts2, d, p, q);
                condition_read_local(ts1, ts2, d, q);
                match condition_spec(ts2, q) {
                    Err(_) => {},
                    Ok((c, r)) => {
                        if p < r <= ts2.len() {
                            lemma_agree_later(ts1, ts2, d, q, r);
                            lemma_local_condition_items(ts1, ts2, d, r, n - 1, acc.push(c));
                        }
                    },
                }
            },
        }
    }
}

proof fn lemma_local_hotfix_field(
    ts1: Seq<TokenV>,
    ts2: Seq<TokenV>,
    d: int,
    p: int,
    ty: TType,
    id: i16,
    acc: HotfixV,
)
    requires
        agree_from(ts1, ts2, d, p),
    ensures
        hotfix_field_spec(ts1, p + d, ty, id, acc) == shift_read(
            hotfix_field_spec(ts2, p, ty, id, acc),
            d,
        ),
        within_read(hotfix_field_spec(ts2, p, ty, id, acc), p, ts2.len() as int),
{
    lemma_local_string(ts1, ts2, d, p);
    condition_read_local(ts1, ts2, d, p);
    lemma_local_skip(ts1, ts2, d, p, ty, crate::read::SKIP_DEPTH as int);
}

pub(crate) proof fn lemma_local_hotfix_fields(
    ts1: Seq<TokenV>,
    ts2: Seq<TokenV>,
    d: int,
    p: int,
    acc: HotfixV,
)
    requires
        agree_from(ts1, ts2, d, p),
    ensures
        hotfix_fields_spec(ts1, p + d, acc) == shift_read(hotfix_fields_spec(ts2, p, acc), d),
        within_read(hotfix_fields_spec(ts2, p, acc), p, ts2.len() as int),
    decreases ts2.len() - p,
{
    lemma_local_field_begin(ts1, ts2, d, p);
    match field_begin_spec(ts2, p) {
        Err(_) => {},
        Ok((ty, id, q)) => {
            lemma_agree_later(ts1, ts2, d, p, q);
            if ty == TType::Stop {
                lemma_local_expect(ts1, ts2, d, q, Marker::StructEnd);
            } else {
                lemma_local_hotfix_field(ts1, ts2, d, q, ty, id, acc);
                match hotfix_field_spec(ts2, q, ty, id, acc) {
                    Err(_) => {},
                    Ok((acc2, r)) => {
                        lemma_agree_later(ts1, ts2, d, q, r);
                        lemma_local_expect(ts1, ts2, d, r, Marker::FieldEnd);
                        match expect_spec(ts2, r, Marker::FieldEnd) {
                            Err(_) => {},
                            Ok(r2) => {
                                if p < r2 <= ts2.len() {
                                    lemma_agree_later(ts1, ts2, d, r, r2);
                                    lemma_local_hotfix_fields(ts1, ts2, d, r2, acc2);
                                }
                            },
                        }
                    },
                }
            }
        },
    }
}

/// Reading a hotfix looks only forward, and not at names: two
/// streams that agree from a position on, but for names, give the same
/// hotfix there, ending at the same offset.
pub proof fn hotfix_read_local(ts1: Seq<TokenV>, ts2: Seq<TokenV>, d: int, p: int)
    requires
        agree_from(ts1, ts2, d, p),
    ensures
        hotfix_spec(ts1, p + d) == shift_read(hotfix_spec(ts2, p), d),
        within_read(hotfix_spec(ts2, p), p, ts2.len() as int),
{
    lemma_local_expect(ts1, ts2, d, p, Marker::StructBegin);
    match expect_spec(ts2, p, Marker::StructBegin) {
        Err(_) => {},
        Ok(q) => {
            lemma_agree_later(ts1, ts2, d, p, q);
            lemma_local_hotfix_fields(ts1, ts2, d, q, crate::types::default_hotfix());
        },
    }
}

proof fn lemma_local_hotfix_items(
    ts1: Seq<TokenV>,
    ts2: Seq<TokenV>,
    d: int,
    p: int,
    n: int,
    acc: Seq<HotfixV>,
)
    requires
        agree_from(ts1, ts2, d, p),
    ensures
        hotfix_items_spec(ts1, p + d, n, acc) == shift_read(hotfix_items_spec(ts2, p, n, acc), d),
        within_read(hotfix_items_spec(ts2, p, n, acc), p, ts2.len() as int),
    decreases ts2.len() - p,
{
    if n <= 0 {
        lemma_local_expect(ts1, ts2, d, p, Marker::ListEnd);
    } else {
        lemma_local_expect(ts1, ts2, d, p, Marker::ListValueBegin);
        match expect_spec(ts2, p, Marker::ListValueBegin) {
            Err(_) => {},
            Ok(q) => {
                lemma_agree_later(ts1, ts2, d, p, q);
                hotfix_read_local(ts1, ts2, d, q);
                match hotfix_spec(ts2, q) {
                    Err(_) => {},
                    Ok((h, r)) => {
                        if p < r <= ts2.len() {
                            lemma_agree_later(ts1, ts2, d, q, r);
                            lemma_local_hotfix_items(ts1, ts2, d, r, n - 1, acc.push(h));
                        }
                    },
                }
            },
        }
    }
}

proof fn lemma_local_hotfix_list(ts1: Seq<TokenV>, ts2: Seq<TokenV>, d: int, p: int)
    requires
        agree_from(ts1, ts2, d, p),
    ensures
        hotfix_list_spec(ts1, p + d) == shift_read(hotfix_list_spec(ts2, p), d),
        within_read(hotfix_list_spec(ts2, p), p, ts2.len() as int),
{
    lemma_local_list_begin(ts1, ts2, d, p);
    match list_begin_spec(ts2, p) {
        Err(_) => {},
        Ok((n, q)) => {
            lemma_agree_later(ts1, ts2, d, p, q);
            lemma_local_hotfix_items(ts1, ts2, d, q, n, seq![]);
        },
    }
}

proof fn lemma_local_client_config_field(
    ts1: Seq<TokenV>,
    ts2: Seq<TokenV>,
    d: int,
    p: int,
    ty: TType,
    id: i16,
    acc: ClientConfigV,
)
    requires
        agree_from(ts1, ts2, d, p),
    ensures
        client_config_field_spec(ts1, p + d, ty, id, acc) == shift_read(
            client_config_field_spec(ts2, p, ty, id, acc),
            d,
        ),
        within_read(client_config_field_spec(ts2, p, ty, id, acc), p, ts2.len() as int),
{
    lemma_local_hotfix_list(ts1, ts2, d, p);
    lemma_local_skip(ts1, ts2, d, p, ty, crate::read::SKIP_DEPTH as int);
}

pub(crate) proof fn lemma_local_client_config_fields(
    ts1: Seq<TokenV>,
    ts2: Seq<TokenV>,
    d: int,
    p: int,
    acc: ClientConfigV,
)
    requires
        agree_from(ts1, ts2, d, p),
    ensures
        client_config_fields_spec(ts1, p + d, acc) == shift_read(
            client_config_fields_spec(ts2, p, acc),
            d,
        ),
        within_read(client_config_fields_spec(ts2, p, acc), p, ts2.len() as int),
    decreases ts2.len() - p,
{
    lemma_local_field_begin(ts1, ts2, d, p);
    match field_begin_spec(ts2, p) {
        Err(_) => {},
        Ok((ty, id, q)) => {
            lemma_agree_later(ts1, ts2, d, p, q);
            if ty == TType::Stop {
                lemma_local_expect(ts1, ts2, d, q, Marker::StructEnd);
            } else {
                lemma_local_client_config_field(ts1, ts2, d, q, ty, id, acc);
                match client_config_field_spec(ts2, q, ty, id, acc) {
                    Err(_) => {},
                    Ok((acc2, r)) => {
                        lemma_agree_later(ts1, ts2, d, q, r);
                        lemma_local_expect(ts1, ts2, d, r, Marker::FieldEnd);
                        match expect_spec(ts2, r, Marker::FieldEnd) {
                            Err(_) => {},
                            Ok(r2) => {
                                if p < r2 <= ts2.len() {
                                    lemma_agree_later(ts1, ts2, d, r, r2);
                                    lemma_local_client_config_fields(ts1, ts2, d, r2, acc2);
                                }
                            },
                        }
                    },
                }
            }
        },
    }
}

/// Reading a client configuration looks only forward, and not at names: two
/// streams that agree from a position on, but for names, give the same
/// client configuration there, ending at the same offset.
pub proof fn client_config_read_local(ts1: Seq<TokenV>, ts2: Seq<TokenV>, d: int, p: int)
    requires
        agree_from(ts1, ts2, d, p),
    ensures
        client_config_spec(ts1, p + d) == shift_read(client_config_spec(ts2, p), d),
        within_read(client_config_spec(ts2, p), p, ts2.len() as int),
{
    lemma_local_expect(ts1, ts2, d, p, Marker::StructBegin);
    match expect_spec(ts2, p, Marker::StructBegin) {
        Err(_) => {},
        Ok(q) => {
            lemma_agree_later(ts1, ts2, d, p, q);
            lemma_local_client_config_fields(ts1, ts2, d, q, ClientConfigV { hotfixes: seq![] });
        },
    }
}

/// A token with the name of its struct or field header dropped.
pub open spec fn without_name(t: TokenV) -> TokenV {
    match t {
        TokenV::StructBegin(_) => TokenV::StructBegin(seq![]),
        TokenV::FieldBegin(_, ty, id) => TokenV::FieldBegin(seq![], ty, id),
        _ => t,
    }
}

/// A stream with every struct and field name dropped, as a protocol that
/// does not carry names (Thrift's binary protocol) hands it out.
pub open spec fn without_names(ts: Seq<TokenV>) -> Seq<TokenV> {
    ts.map_values(|t: TokenV| without_name(t))
}

/// Reading does not depend on the names that struct and field headers
/// carry: reading each of the four types from a stream gives, at every
/// position, what reading it from the stream with all names dropped gives.
pub proof fn reading_ignores_names(ts: Seq<TokenV>, p: int)
    ensures
        time_shard_spec(without_names(ts), p) == time_shard_spec(ts, p),
        condition_spec(without_names(ts), p) == condition_spec(ts, p),
        hotfix_spec(without_names(ts), p) == hotfix_spec(ts, p),
        client_config_spec(without_names(ts), p) == client_config_spec(ts, p),
{
    let e = without_names(ts);
    if 0 <= p <= ts.len() {
        assert forall|i: int| p <= i < ts.len() implies same_but_names(e[i + 0], #[trigger] ts[i]) by {
            assert(e[i] == without_name(ts[i]));
        }
        assert(agree_from(e, ts, 0, p));
        time_shard_read_local(e, ts, 0, p);
        condition_read_local(e, ts, 0, p);
        hotfix_read_local(e, ts, 0, p);
        client_config_read_local(e, ts, 0, p);
        assert(shift_read(time_shard_spec(ts, p), 0) == time_shard_spec(ts, p));
        assert(shift_read(condition_spec(ts, p), 0) == condition_spec(ts, p));
        assert(shift_read(hotfix_spec(ts, p), 0) == hotfix_spec(ts, p));
        assert(shift_read(client_config_spec(ts, p), 0) == client_config_spec(ts, p));
    }
}

} // verus!
