use vstd::prelude::*;

use crate::laws::{condition_knows, lemma_at_index, lemma_at_middle, lemma_field_parts, tokens_at};
use crate::read::{
    condition_field_spec, condition_fields_spec, condition_spec, expect_spec, field_begin_spec, skip_spec,
    Marker, ReadError, SKIP_DEPTH,
};
use crate::token::TokenV;
use crate::ttype::TType;
use crate::types::{default_condition, ConditionV};
use crate::write::{
    condition_field_tokens, condition_list_tokens, condition_tokens, field_tokens, string_list_tokens,
    time_shard_tokens,
};

verus! {

/// One field of a struct stream: its header (name, type tag, id) and the
/// tokens of its value.
pub struct FieldV {
    pub name: Seq<char>,
    pub ty: TType,
    pub id: i16,
    pub val: Seq<TokenV>,
}

/// The tokens of one field: header, value, end.
pub open spec fn field_stream(f: FieldV) -> Seq<TokenV> {
    field_tokens(f.name, f.ty, f.id, f.val)
}

/// The tokens of several fields, one after the other.
pub open spec fn fields_stream(fs: Seq<FieldV>) -> Seq<TokenV>
    decreases fs.len(),
{
    if fs.len() == 0 {
        seq![]
    } else {
        fields_stream(fs.drop_last()) + field_stream(fs.last())
    }
}

/// A struct named `sname` that begins with the fields `fs`, followed by
/// the tokens `tail`.
pub open spec fn struct_stream(sname: Seq<char>, fs: Seq<FieldV>, tail: Seq<TokenV>) -> Seq<TokenV> {
    seq![TokenV::StructBegin(sname)] + fields_stream(fs) + tail
}

/// Where the value of the field `i` of `fs` stands in a `struct_stream`
/// of those fields.
pub open spec fn value_pos(fs: Seq<FieldV>, i: int) -> int {
    fields_stream(fs.take(i)).len() + 2int
}

/// Every field of `fs` is one that a condition does not know, and
/// skipping its value where it stands in `ts` takes exactly its tokens.
pub open spec fn unknown_fields_skip(ts: Seq<TokenV>, fs: Seq<FieldV>) -> bool {
    forall|i: int|
        #![trigger fs[i]]
        0 <= i < fs.len() ==> {
            &&& fs[i].ty != TType::Stop
            &&& !condition_knows(fs[i].ty, fs[i].id)
            &&& skip_spec(ts, value_pos(fs, i), fs[i].ty, SKIP_DEPTH as int) == Ok::<int, ReadError>(
                value_pos(fs, i) + fs[i].val.len(),
            )
        }
}

proof fn lemma_fields_split(fs: Seq<FieldV>, i: int)
    requires
        0 <= i <= fs.len(),
    ensures
        fields_stream(fs) == fields_stream(fs.take(i)) + fields_stream(fs.skip(i)),
    decreases fs.len(),
{
    if i == fs.len() {
        assert(fs.take(i) =~= fs);
        assert(fs.skip(i) =~= Seq::<FieldV>::empty());
        assert(fields_stream(fs) =~= fields_stream(fs.take(i)) + fields_stream(fs.skip(i)));
    } else {
        let d = fs.drop_last();
        lemma_fields_split(d, i);
        assert(d.take(i) =~= fs.take(i));
        assert(fs.skip(i).drop_last() =~= d.skip(i));
        assert(fs.skip(i).last() == fs.last());
        assert(fields_stream(fs) =~= fields_stream(fs.take(i)) + fields_stream(fs.skip(i)));
    }
}

/// The field `i` of `fs` stands whole in a struct stream of `fs`, right
/// before its value position.
#[verifier::spinoff_prover]
pub(crate) proof fn lemma_field_at(sname: Seq<char>, fs: Seq<FieldV>, tail: Seq<TokenV>, i: int)
    requires
        0 <= i < fs.len(),
    ensures
        tokens_at(struct_stream(sname, fs, tail), value_pos(fs, i) - 1, field_stream(fs[i])),
        fields_stream(fs.take(i + 1)).len() == fields_stream(fs.take(i)).len() + fs[i].val.len() + 2,
        struct_stream(sname, fs, tail)[value_pos(fs, i) - 1] == TokenV::FieldBegin(fs[i].name, fs[i].ty, fs[i].id),
        struct_stream(sname, fs, tail)[value_pos(fs, i) + fs[i].val.len()] == TokenV::FieldEnd,
        value_pos(fs, i) + fs[i].val.len() < struct_stream(sname, fs, tail).len(),
{
    let ts = struct_stream(sname, fs, tail);
    let head = fs.take(i + 1);
    lemma_fields_split(fs, i + 1);
    assert(head.drop_last() =~= fs.take(i));
    assert(head.last() == fs[i]);
    assert(fields_stream(head) == fields_stream(fs.take(i)) + field_stream(fs[i]));
    let pre = seq![TokenV::StructBegin(sname)] + fields_stream(fs.take(i));
    let after = fields_stream(fs.skip(i + 1)) + tail;
    assert(ts =~= pre + field_stream(fs[i]) + after);
    lemma_at_middle(pre, field_stream(fs[i]), after);
    lemma_field_parts(ts, value_pos(fs, i) - 1, fs[i].name, fs[i].ty, fs[i].id, fs[i].val);
}

/// A field that a condition does not know is skipped, and sets no
/// alternative.
pub(crate) proof fn lemma_unknown_field_read(ts: Seq<TokenV>, p: int, ty: TType, id: i16)
    requires
        !condition_knows(ty, id),
    ensures
        condition_field_spec(ts, p, ty, id) == match skip_spec(ts, p, ty, SKIP_DEPTH as int) {
            Ok(r) => Ok::<(Option<ConditionV>, int), ReadError>((None, r)),
            Err(e) => Err(e),
        },
{
}

proof fn lemma_unknown_at(ts: Seq<TokenV>, fs: Seq<FieldV>, i: int)
    requires
        unknown_fields_skip(ts, fs),
        0 <= i < fs.len(),
    ensures
        fs[i].ty != TType::Stop,
        !condition_knows(fs[i].ty, fs[i].id),
        skip_spec(ts, value_pos(fs, i), fs[i].ty, SKIP_DEPTH as int) == Ok::<int, ReadError>(
            value_pos(fs, i) + fs[i].val.len(),
        ),
{
}

/// One step of reading a condition's fields, from having no alternative:
/// a field whose value reads as `alt` and ends where its end marker stands.
proof fn lemma_field_step(
    ts: Seq<TokenV>,
    p: int,
    name: Seq<char>,
    ty: TType,
    id: i16,
    r: int,
    alt: Option<ConditionV>,
)
    requires
        0 <= p < r < ts.len(),
        ts[p] == TokenV::FieldBegin(name, ty, id),
        ty != TType::Stop,
        condition_field_spec(ts, p + 1, ty, id) == Ok::<(Option<ConditionV>, int), ReadError>((alt, r)),
        ts[r] == TokenV::FieldEnd,
    ensures
        condition_fields_spec(ts, p, None) == condition_fields_spec(ts, r + 1, alt),
{
}

/// Reading the fields of a condition goes over the unknown fields `fs`
/// from the `i`-th on without a trace: it goes on as it would right after
/// them.
#[verifier::spinoff_prover]
proof fn lemma_skip_unknown_fields(sname: Seq<char>, fs: Seq<FieldV>, tail: Seq<TokenV>, i: int)
    requires
        0 <= i <= fs.len(),
        unknown_fields_skip(struct_stream(sname, fs, tail), fs),
    ensures
        condition_fields_spec(struct_stream(sname, fs, tail), value_pos(fs, i) - 1, None)
            == condition_fields_spec(struct_stream(sname, fs, tail), value_pos(fs, fs.len() as int) - 1, None),
    decreases fs.len() - i,
{
    let ts = struct_stream(sname, fs, tail);
    if i < fs.len() {
        let f = fs[i];
        let p = value_pos(fs, i) - 1;
        let r = p + 1 + f.val.len();
        lemma_field_at(sname, fs, tail, i);
        lemma_unknown_at(ts, fs, i);
        lemma_unknown_field_read(ts, p + 1, f.ty, f.id);
        lemma_field_step(ts, p, f.name, f.ty, f.id, r, None);
        assert(value_pos(fs, i + 1) - 1 == r + 1);
        lemma_skip_unknown_fields(sname, fs, tail, i + 1);
    } else {
        assert(fs.take(i) =~= fs.take(fs.len() as int));
    }
}

/// The end of a condition's fields: the alternative read so far, or the
/// default when there is none.
proof fn lemma_fields_end(ts: Seq<TokenV>, p: int, alt: Option<ConditionV>)
    requires
        0 <= p,
        p + 1 < ts.len(),
        ts[p] == TokenV::FieldStop,
        ts[p + 1] == TokenV::StructEnd,
    ensures
        condition_fields_spec(ts, p, alt) == Ok::<(ConditionV, int), ReadError>(
            (
                match alt {
                    Some(c) => c,
                    None => default_condition(),
                },
                p + 2,
            ),
        ),
{
}

/// Reading a condition goes over all the unknown fields `fs` at its start
/// without a trace: it goes on from right after them with no alternative
/// read yet.
pub proof fn condition_reads_fields_in_order(sname: Seq<char>, fs: Seq<FieldV>, tail: Seq<TokenV>)
    requires
        unknown_fields_skip(struct_stream(sname, fs, tail), fs),
    ensures
        condition_spec(struct_stream(sname, fs, tail), 0) == condition_fields_spec(
            struct_stream(sname, fs, tail),
            fields_stream(fs).len() + 1int,
            None,
        ),
{
    let ts = struct_stream(sname, fs, tail);
    lemma_skip_unknown_fields(sname, fs, tail, 0);
    assert(fs.take(0) =~= Seq::<FieldV>::empty());
    assert(fs.take(fs.len() as int) =~= fs);
    assert(ts[0] == TokenV::StructBegin(sname));
}

/// The union rule, when no field is known: a condition whose fields are all
/// unknown (each skipped over exactly) reads as the default, `UnknownField`
/// with id -1, and the reading ends right after the struct's end.
pub proof fn condition_without_known_field(sname: Seq<char>, fs: Seq<FieldV>, rest: Seq<TokenV>)
    requires
        unknown_fields_skip(
            struct_stream(sname, fs, seq![TokenV::FieldStop, TokenV::StructEnd] + rest),
            fs,
        ),
    ensures
        condition_spec(struct_stream(sname, fs, seq![TokenV::FieldStop, TokenV::StructEnd] + rest), 0)
            == Ok::<(ConditionV, int), ReadError>((default_condition(), fields_stream(fs).len() + 3int)),
{
    let tail = seq![TokenV::FieldStop, TokenV::StructEnd] + rest;
    let ts = struct_stream(sname, fs, tail);
    let q = fields_stream(fs).len() + 1int;
    condition_reads_fields_in_order(sname, fs, tail);
    assert(ts[q] == TokenV::FieldStop);
    assert(ts[q + 1] == TokenV::StructEnd);
}

/// The union rule, when the first known field is the last field: after the
/// unknown fields `fs` are skipped, the alternative `x` that the known
/// field `k` holds is the condition read.
#[verifier::spinoff_prover]
pub proof fn condition_reads_first_known_field(
    sname: Seq<char>,
    fs: Seq<FieldV>,
    k: FieldV,
    x: ConditionV,
    rest: Seq<TokenV>,
)
    requires
        unknown_fields_skip(
            struct_stream(sname, fs, field_stream(k) + seq![TokenV::FieldStop, TokenV::StructEnd] + rest),
            fs,
        ),
        condition_knows(k.ty, k.id),
        condition_field_spec(
            struct_stream(sname, fs, field_stream(k) + seq![TokenV::FieldStop, TokenV::StructEnd] + rest),
            fields_stream(fs).len() + 2int,
            k.ty,
            k.id,
        ) == Ok::<(Option<ConditionV>, int), ReadError>((Some(x), fields_stream(fs).len() + 2int + k.val.len())),
    ensures
        condition_spec(
            struct_stream(sname, fs, field_stream(k) + seq![TokenV::FieldStop, TokenV::StructEnd] + rest),
            0,
        ) == Ok::<(ConditionV, int), ReadError>((x, fields_stream(fs).len() + k.val.len() + 5int)),
{
    let tail = field_stream(k) + seq![TokenV::FieldStop, TokenV::StructEnd] + rest;
    let ts = struct_stream(sname, fs, tail);
    let q = fields_stream(fs).len() + 1int;
    condition_reads_fields_in_order(sname, fs, tail);
    let pre = seq![TokenV::StructBegin(sname)] + fields_stream(fs);
    let after = seq![TokenV::FieldStop, TokenV::StructEnd] + rest;
    assert(ts =~= pre + field_stream(k) + after);
    lemma_at_middle(pre, field_stream(k), after);
    lemma_field_parts(ts, q, k.name, k.ty, k.id, k.val);
    lemma_field_step(ts, q, k.name, k.ty, k.id, q + 1 + k.val.len(), Some(x));
    let head = pre + field_stream(k);
    assert(ts[q + k.val.len() + 2] == TokenV::FieldStop && ts[q + k.val.len() + 3] == TokenV::StructEnd)
        by {
        assert(ts =~= head + after + seq![]);
        lemma_at_middle(head, after, seq![]);
        lemma_at_index(ts, head.len() as int, after, 0);
        lemma_at_index(ts, head.len() as int, after, 1);
    }
    lemma_fields_end(ts, q + k.val.len() + 2, Some(x));
}

/// The union rule, when a field follows the first known one: after the
/// unknown fields `fs` and the known field `k`, the header of any further
/// field makes reading fail with `ExtraUnionField`, with that field's type
/// tag and id.
#[verifier::spinoff_prover]
pub proof fn condition_refuses_field_after_known(
    sname: Seq<char>,
    fs: Seq<FieldV>,
    k: FieldV,
    x: ConditionV,
    name: Seq<char>,
    ty: TType,
    id: i16,
    rest: Seq<TokenV>,
)
    requires
        unknown_fields_skip(
            struct_stream(sname, fs, field_stream(k) + seq![TokenV::FieldBegin(name, ty, id)] + rest),
            fs,
        ),
        condition_knows(k.ty, k.id),
        condition_field_spec(
            struct_stream(sname, fs, field_stream(k) + seq![TokenV::FieldBegin(name, ty, id)] + rest),
            fields_stream(fs).len() + 2int,
            k.ty,
            k.id,
        ) == Ok::<(Option<ConditionV>, int), ReadError>((Some(x), fields_stream(fs).len() + 2int + k.val.len())),
        ty != TType::Stop,
    ensures
        condition_spec(
            struct_stream(sname, fs, field_stream(k) + seq![TokenV::FieldBegin(name, ty, id)] + rest),
            0,
        ) == Err::<(ConditionV, int), ReadError>(ReadError::ExtraUnionField(ty, id)),
{
    let tail = field_stream(k) + seq![TokenV::FieldBegin(name, ty, id)] + rest;
    let ts = struct_stream(sname, fs, tail);
    let q = fields_stream(fs).len() + 1int;
    condition_reads_fields_in_order(sname, fs, tail);
    let pre = seq![TokenV::StructBegin(sname)] + fields_stream(fs);
    let after = seq![TokenV::FieldBegin(name, ty, id)] + rest;
    assert(ts =~= pre + field_stream(k) + after);
    lemma_at_middle(pre, field_stream(k), after);
    lemma_field_parts(ts, q, k.name, k.ty, k.id, k.val);
    lemma_field_step(ts, q, k.name, k.ty, k.id, q + 1 + k.val.len(), Some(x));
    assert(ts[q + k.val.len() + 2] == TokenV::FieldBegin(name, ty, id));
    assert(condition_fields_spec(ts, q + k.val.len() + 2, Some(x)) == Err::<(ConditionV, int), ReadError>(
        ReadError::ExtraUnionField(ty, id),
    ));
}

/// An error in reading a field's value is the condition's error: after the
/// unknown fields `fs`, a field (known or not) whose value cannot be read,
/// or skipped, with the error `e` makes reading the condition fail with
/// that same `e`.
pub proof fn condition_passes_field_error(
    sname: Seq<char>,
    fs: Seq<FieldV>,
    name: Seq<char>,
    ty: TType,
    id: i16,
    rest: Seq<TokenV>,
    e: ReadError,
)
    requires
        unknown_fields_skip(struct_stream(sname, fs, seq![TokenV::FieldBegin(name, ty, id)] + rest), fs),
        ty != TType::Stop,
        condition_field_spec(
            struct_stream(sname, fs, seq![TokenV::FieldBegin(name, ty, id)] + rest),
            fields_stream(fs).len() + 2int,
            ty,
            id,
        ) == Err::<(Option<ConditionV>, int), ReadError>(e),
    ensures
        condition_spec(struct_stream(sname, fs, seq![TokenV::FieldBegin(name, ty, id)] + rest), 0)
            == Err::<(ConditionV, int), ReadError>(e),
{
    let tail = seq![TokenV::FieldBegin(name, ty, id)] + rest;
    let ts = struct_stream(sname, fs, tail);
    let q = fields_stream(fs).len() + 1int;
    condition_reads_fields_in_order(sname, fs, tail);
    assert(ts[q] == TokenV::FieldBegin(name, ty, id));
}

/// The id of the field that holds a condition's alternative: its place in
/// the declaration order, from 1 for `not_condition` to 13 for
/// `host_prefixes`; 0 for `UnknownField`, which has no field.
pub open spec fn alternative_id(c: ConditionV) -> i16 {
    match c {
        ConditionV::not_condition(_) => 1,
        ConditionV::and_condition(_) => 2,
        ConditionV::or_condition(_) => 3,
        ConditionV::repos(_) => 4,
        ConditionV::platforms(_) => 5,
        ConditionV::domains(_) => 6,
        ConditionV::tiers(_) => 7,
        ConditionV::hosts(_) => 8,
        ConditionV::group(_) => 9,
        ConditionV::shard(_) => 10,
        ConditionV::user_shard(_) => 11,
        ConditionV::time_shard(_) => 12,
        ConditionV::host_prefixes(_) => 13,
        ConditionV::UnknownField(_) => 0,
    }
}

/// The type tag of the alternative field with the given id: a struct for
/// the negated condition and the time shard, a string for the group, a
/// 32-bit integer for the two shards, a list for the rest.
pub open spec fn alternative_type(id: i16) -> TType {
    if id == 1 || id == 12 {
        TType::Struct
    } else if id == 9 {
        TType::String
    } else if id == 10 || id == 11 {
        TType::I32
    } else {
        TType::List
    }
}

/// The name of the alternative field with the given id.
pub open spec fn alternative_name(id: i16) -> Seq<char> {
    if id == 1 {
        "not_condition"@
    } else if id == 2 {
        "and_condition"@
    } else if id == 3 {
        "or_condition"@
    } else if id == 4 {
        "repos"@
    } else if id == 5 {
        "platforms"@
    } else if id == 6 {
        "domains"@
    } else if id == 7 {
        "tiers"@
    } else if id == 8 {
        "hosts"@
    } else if id == 9 {
        "group"@
    } else if id == 10 {
        "shard"@
    } else if id == 11 {
        "user_shard"@
    } else if id == 12 {
        "time_shard"@
    } else {
        "host_prefixes"@
    }
}

/// The tokens of the value that a condition's alternative holds.
pub open spec fn alternative_value(c: ConditionV) -> Seq<TokenV> {
    match c {
        ConditionV::not_condition(b) => condition_tokens(*b),
        ConditionV::and_condition(v) => condition_list_tokens(v),
        ConditionV::or_condition(v) => condition_list_tokens(v),
        ConditionV::repos(v) => string_list_tokens(v),
        ConditionV::platforms(v) => string_list_tokens(v),
        ConditionV::domains(v) => string_list_tokens(v),
        ConditionV::tiers(v) => string_list_tokens(v),
        ConditionV::hosts(v) => string_list_tokens(v),
        ConditionV::group(s) => seq![TokenV::Str(s)],
        ConditionV::shard(i) => seq![TokenV::I32(i)],
        ConditionV::user_shard(i) => seq![TokenV::I32(i)],
        ConditionV::time_shard(t) => time_shard_tokens(t),
        ConditionV::host_prefixes(v) => string_list_tokens(v),
        ConditionV::UnknownField(_) => seq![],
    }
}

/// A condition writes exactly one field, the one of its alternative: the
/// struct's begin, that field's header (named after the alternative, with
/// its type tag and its place in the declaration order as id), the value,
/// the field's end, the stop marker and the struct's end. That field is
/// one that a condition reads. `UnknownField` writes no field at all.
pub proof fn condition_writes_one_field(c: ConditionV)
    ensures
        c is UnknownField ==> condition_tokens(c) == seq![
            TokenV::StructBegin("Condition"@),
            TokenV::FieldStop,
            TokenV::StructEnd,
        ],
        !(c is UnknownField) ==> {
            let id = alternative_id(c);
            &&& condition_tokens(c) == seq![TokenV::StructBegin("Condition"@)] + seq![
                TokenV::FieldBegin(alternative_name(id), alternative_type(id), id),
            ] + alternative_value(c) + seq![
                TokenV::FieldEnd,
                TokenV::FieldStop,
                TokenV::StructEnd,
            ]
            &&& condition_knows(alternative_type(id), id)
        },
{
    let id = alternative_id(c);
    if c is UnknownField {
        assert(condition_tokens(c) =~= seq![
            TokenV::StructBegin("Condition"@),
            TokenV::FieldStop,
            TokenV::StructEnd,
        ]);
    } else {
        assert(condition_field_tokens(c) == field_tokens(
            alternative_name(id),
            alternative_type(id),
            id,
            alternative_value(c),
        ));
        assert(condition_tokens(c) =~= seq![TokenV::StructBegin("Condition"@)] + seq![
            TokenV::FieldBegin(alternative_name(id), alternative_type(id), id),
        ] + alternative_value(c) + seq![TokenV::FieldEnd, TokenV::FieldStop, TokenV::StructEnd]);
    }
}

/// How many field headers reading a condition's fields from `p` (with the
/// alternative `alt` read so far) reads at this level of nesting: one for
/// each step of the reading, the last one included.
pub open spec fn condition_headers_read(ts: Seq<TokenV>, p: int, alt: Option<ConditionV>) -> nat
    decreases ts.len() - p,
{
    match field_begin_spec(ts, p) {
        Err(_) => 1,
        Ok((ty, id, q)) => if ty == TType::Stop || alt is Some {
            1
        } else {
            match condition_field_spec(ts, q, ty, id) {
                Err(_) => 1,
                Ok((alt2, r)) => match expect_spec(ts, r, Marker::FieldEnd) {
                    Err(_) => 1,
                    Ok(r2) => if p < r2 <= ts.len() {
                        1 + condition_headers_read(ts, r2, alt2)
                    } else {
                        1
                    },
                },
            }
        },
    }
}

/// How many field headers the stream holds from `p` on.
pub open spec fn headers_from(ts: Seq<TokenV>, p: int) -> nat
    decreases ts.len() - p,
{
    if p < 0 || p >= ts.len() {
        0
    } else {
        (if ts[p] is FieldBegin {
            1nat
        } else {
            0nat
        }) + headers_from(ts, p + 1)
    }
}

proof fn lemma_headers_from_shrinks(ts: Seq<TokenV>, p: int, q: int)
    requires
        0 <= p <= q,
    ensures
        headers_from(ts, q) <= headers_from(ts, p),
    decreases q - p,
{
    if p < q {
        lemma_headers_from_shrinks(ts, p + 1, q);
    }
}

/// Reading a condition's fields reads at most one field header more than
/// the stream holds from where it starts: each header read but the last
/// is one that the reading has passed.
pub proof fn condition_reads_headers_at_most(ts: Seq<TokenV>, p: int, alt: Option<ConditionV>)
    requires
        0 <= p,
    ensures
        condition_headers_read(ts, p, alt) <= headers_from(ts, p) + 1,
    decreases ts.len() - p,
{
    match field_begin_spec(ts, p) {
        Err(_) => {},
        Ok((ty, id, q)) => if ty == TType::Stop || alt is Some {
        } else {
            match condition_field_spec(ts, q, ty, id) {
                Err(_) => {},
                Ok((alt2, r)) => match expect_spec(ts, r, Marker::FieldEnd) {
                    Err(_) => {},
                    Ok(r2) => if p < r2 <= ts.len() {
                        assert(ts[p] is FieldBegin);
                        condition_reads_headers_at_most(ts, r2, alt2);
                        lemma_headers_from_shrinks(ts, p + 1, r2);
                    },
                },
            }
        },
    }
}

#[verifier::spinoff_prover]
proof fn lemma_headers_of_unknown_fields(sname: Seq<char>, fs: Seq<FieldV>, tail: Seq<TokenV>, i: int)
    requires
        0 <= i <= fs.len(),
        unknown_fields_skip(struct_stream(sname, fs, tail), fs),
    ensures
        condition_headers_read(struct_stream(sname, fs, tail), value_pos(fs, i) - 1, None) == (fs.len()
            - i) + condition_headers_read(struct_stream(sname, fs, tail), value_pos(fs, fs.len() as int) - 1, None),
    decreases fs.len() - i,
{
    let ts = struct_stream(sname, fs, tail);
    if i < fs.len() {
        let f = fs[i];
        let p = value_pos(fs, i) - 1;
        let r = p + 1 + f.val.len();
        lemma_field_at(sname, fs, tail, i);
        lemma_unknown_at(ts, fs, i);
        lemma_unknown_field_read(ts, p + 1, f.ty, f.id);
        assert(condition_headers_read(ts, p, None) == 1 + condition_headers_read(ts, r + 1, None));
        assert(value_pos(fs, i + 1) - 1 == r + 1);
        lemma_headers_of_unknown_fields(sname, fs, tail, i + 1);
    } else {
        assert(fs.take(i) =~= fs.take(fs.len() as int));
    }
}

/// Reading a condition's fields reads each field header at its level once:
/// over the unknown fields `fs` at its start it reads one header each, and
/// when the stop marker follows them, `fs.len() + 1` headers in all.
pub proof fn condition_reads_each_header_once(sname: Seq<char>, fs: Seq<FieldV>, tail: Seq<TokenV>)
    requires
        unknown_fields_skip(struct_stream(sname, fs, tail), fs),
    ensures
        condition_headers_read(struct_stream(sname, fs, tail), 1, None) == fs.len()
            + condition_headers_read(struct_stream(sname, fs, tail), fields_stream(fs).len() + 1int, None),
        tail.len() > 0 && tail[0] == TokenV::FieldStop ==> condition_headers_read(
            struct_stream(sname, fs, tail),
            1,
            None,
        ) == fs.len() + 1,
{
    let ts = struct_stream(sname, fs, tail);
    lemma_headers_of_unknown_fields(sname, fs, tail, 0);
    assert(fs.take(0) =~= Seq::<FieldV>::empty());
    assert(fs.take(fs.len() as int) =~= fs);
    if tail.len() > 0 && tail[0] == TokenV::FieldStop {
        let q = fields_stream(fs).len() + 1int;
        assert(ts[q] == TokenV::FieldStop) by {
            let pre = seq![TokenV::StructBegin(sname)] + fields_stream(fs);
            assert(pre + tail + seq![] =~= ts);
            lemma_at_middle(pre, tail, seq![]);
            lemma_at_index(ts, q, tail, 0);
        }
    }
}

} // verus!
