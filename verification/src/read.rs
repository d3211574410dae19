use vstd::prelude::*;

use crate::token::{tokens_view, Token, TokenV};
use crate::ttype::TType;
use crate::types::{
    default_condition, default_hotfix, default_time_shard, conditions_view, hotfixes_view, strings_view,
    ClientConfig, ClientConfigV, Condition, ConditionV, Hotfix, HotfixV, TimeShard, TimeShardV,
};

verus! {

/// Why a token stream could not be read.
#[derive(Clone, Copy, PartialEq, Eq, Debug, Structural)]
pub enum ReadError {
    /// The stream ended where a token was expected.
    EndOfInput,
    /// The token at the reading position is not one that the reader may
    /// take there.
    UnexpectedToken,
    /// Skipping an unknown field went deeper than `SKIP_DEPTH` levels.
    SkipDepthExceeded,
    /// An unknown field of stream type was to be skipped.
    StreamUnsupported,
    /// An unknown field of type `Stop` was to be skipped.
    UnexpectedStopInSkip,
    /// A union held a second field (its type tag and id) after one of its
    /// alternatives had been read.
    ExtraUnionField(TType, i16),
}

/// How many nested levels the skipping of an unknown field may descend.
pub const SKIP_DEPTH: i32 = 64;

/// The structural markers of a token stream that carry no data.
#[derive(Clone, Copy, PartialEq, Eq, Debug, Structural)]
pub enum Marker {
    StructBegin,
    StructEnd,
    FieldEnd,
    ListValueBegin,
    ListEnd,
    SetValueBegin,
    SetEnd,
    MapKeyBegin,
    MapValueBegin,
    MapEnd,
}

// ---------------------------------------------------------------------
// Single tokens
// ---------------------------------------------------------------------

/// The token at position `p`, if there is one.
pub open spec fn token_at(ts: Seq<TokenV>, p: int) -> Option<TokenV> {
    if 0 <= p < ts.len() {
        Some(ts[p])
    } else {
        None
    }
}

/// The error for a token at `p` that does not fit: the end of the stream if
/// there is no token there.
pub open spec fn mismatch(ts: Seq<TokenV>, p: int) -> ReadError {
    if 0 <= p < ts.len() {
        ReadError::UnexpectedToken
    } else {
        ReadError::EndOfInput
    }
}

/// Whether a token is the given marker (a struct's begin of any name counts).
pub open spec fn is_marker(t: TokenV, m: Marker) -> bool {
    match m {
        Marker::StructBegin => t is StructBegin,
        Marker::StructEnd => t is StructEnd,
        Marker::FieldEnd => t is FieldEnd,
        Marker::ListValueBegin => t is ListValueBegin,
        Marker::ListEnd => t is ListEnd,
        Marker::SetValueBegin => t is SetValueBegin,
        Marker::SetEnd => t is SetEnd,
        Marker::MapKeyBegin => t is MapKeyBegin,
        Marker::MapValueBegin => t is MapValueBegin,
        Marker::MapEnd => t is MapEnd,
    }
}

/// Takes the marker `m` at `p`.
pub open spec fn expect_spec(ts: Seq<TokenV>, p: int, m: Marker) -> Result<int, ReadError> {
    match token_at(ts, p) {
        Some(t) => if is_marker(t, m) {
            Ok(p + 1)
        } else {
            Err(ReadError::UnexpectedToken)
        },
        None => Err(ReadError::EndOfInput),
    }
}

/// Takes a field header at `p`: its type tag and id; a stop marker reads as
/// type `Stop` with id 0.
pub open spec fn field_begin_spec(ts: Seq<TokenV>, p: int) -> Result<(TType, i16, int), ReadError> {
    match token_at(ts, p) {
        Some(TokenV::FieldBegin(_, ty, id)) => Ok((ty, id, p + 1)),
        Some(TokenV::FieldStop) => Ok((TType::Stop, 0, p + 1)),
        _ => Err(mismatch(ts, p)),
    }
}

/// Takes a string at `p`.
pub open spec fn string_spec(ts: Seq<TokenV>, p: int) -> Result<(Seq<char>, int), ReadError> {
    match token_at(ts, p) {
        Some(TokenV::Str(s)) => Ok((s, p + 1)),
        _ => Err(mismatch(ts, p)),
    }
}

/// Takes a 32-bit integer at `p`.
pub open spec fn i32_spec(ts: Seq<TokenV>, p: int) -> Result<(i32, int), ReadError> {
    match token_at(ts, p) {
        Some(TokenV::I32(v)) => Ok((v, p + 1)),
        _ => Err(mismatch(ts, p)),
    }
}

/// Takes a list header at `p`: its length.
pub open spec fn list_begin_spec(ts: Seq<TokenV>, p: int) -> Result<(int, int), ReadError> {
    match token_at(ts, p) {
        Some(TokenV::ListBegin(_, n)) => Ok((n as int, p + 1)),
        _ => Err(mismatch(ts, p)),
    }
}

/// Whether the token at `p` is a single-token value of type `ty`.
pub open spec fn is_scalar_of(t: TokenV, ty: TType) -> bool {
    match ty {
        TType::Bool => t is Bool,
        TType::Byte => t is Byte,
        TType::I16 => t is I16,
        TType::I32 => t is I32,
        TType::I64 => t is I64,
        TType::Double => t is Double,
        TType::Float => t is Float,
        TType::String => t is Str || t is Bin,
        TType::UTF8 => t is Str,
        TType::UTF16 => t is Str,
        _ => false,
    }
}

// ---------------------------------------------------------------------
// Skipping a value of a type the reader does not know
// ---------------------------------------------------------------------

/// Skips one value of type `ty` at `p`, descending at most `depth` levels;
/// the position after it.
pub open spec fn skip_spec(ts: Seq<TokenV>, p: int, ty: TType, depth: int) -> Result<int, ReadError>
    decreases ts.len() - p, 1int,
{
    if depth <= 0 {
        Err(ReadError::SkipDepthExceeded)
    } else {
        match ty {
            TType::Void => Ok(p),
            TType::Stream => Err(ReadError::StreamUnsupported),
            TType::Stop => Err(ReadError::UnexpectedStopInSkip),
            TType::Struct => match token_at(ts, p) {
                Some(TokenV::StructBegin(_)) => skip_fields_spec(ts, p + 1, depth),
                _ => Err(mismatch(ts, p)),
            },
            TType::List => match token_at(ts, p) {
                Some(TokenV::ListBegin(et, n)) => skip_elems_spec(
                    ts,
                    p + 1,
                    et,
                    n as int,
                    depth,
                    Marker::ListValueBegin,
                    Marker::ListEnd,
                ),
                _ => Err(mismatch(ts, p)),
            },
            TType::SetOf => match token_at(ts, p) {
                Some(TokenV::SetBegin(et, n)) => skip_elems_spec(
                    ts,
                    p + 1,
                    et,
                    n as int,
                    depth,
                    Marker::SetValueBegin,
                    Marker::SetEnd,
                ),
                _ => Err(mismatch(ts, p)),
            },
            TType::MapOf => match token_at(ts, p) {
                Some(TokenV::MapBegin(kt, vt, n)) => skip_entries_spec(
                    ts,
                    p + 1,
                    kt,
                    vt,
                    n as int,
                    depth,
                ),
                _ => Err(mismatch(ts, p)),
            },
            _ => match token_at(ts, p) {
                Some(t) => if is_scalar_of(t, ty) {
                    Ok(p + 1)
                } else {
                    Err(ReadError::UnexpectedToken)
                },
                None => Err(ReadError::EndOfInput),
            },
        }
    }
}

/// Skips the fields of a struct from `p` through its end.
pub open spec fn skip_fields_spec(ts: Seq<TokenV>, p: int, depth: int) -> Result<int, ReadError>
    decreases ts.len() - p, 0int,
{
    match field_begin_spec(ts, p) {
        Err(e) => Err(e),
        Ok((ty, _id, q)) => if ty == TType::Stop {
            expect_spec(ts, q, Marker::StructEnd)
        } else {
            match skip_spec(ts, q, ty, depth - 1) {
                Err(e) => Err(e),
                Ok(r) => match expect_spec(ts, r, Marker::FieldEnd) {
                    Err(e) => Err(e),
                    Ok(r2) => if p < r2 <= ts.len() {
                        skip_fields_spec(ts, r2, depth)
                    } else {
                        Err(ReadError::UnexpectedToken)
                    },
                },
            }
        },
    }
}

/// Skips `n` more elements of a list or set, each after the element marker
/// `each`, and then the closing marker `end`.
pub open spec fn skip_elems_spec(
    ts: Seq<TokenV>,
    p: int,
    et: TType,
    n: int,
    depth: int,
    each: Marker,
    end: Marker,
) -> Result<int, ReadError>
    decreases ts.len() - p, 0int,
{
    if n <= 0 {
        expect_spec(ts, p, end)
    } else {
        match expect_spec(ts, p, each) {
            Err(e) => Err(e),
            Ok(q) => match skip_spec(ts, q, et, depth - 1) {
                Err(e) => Err(e),
                Ok(r) => if p < r <= ts.len() {
                    skip_elems_spec(ts, r, et, n - 1, depth, each, end)
                } else {
                    Err(ReadError::UnexpectedToken)
                },
            },
        }
    }
}

/// Skips `n` more entries of a map (the key one level down, the value at
/// the map's own level) and then the map's end.
pub open spec fn skip_entries_spec(
    ts: Seq<TokenV>,
    p: int,
    kt: TType,
    vt: TType,
    n: int,
    depth: int,
) -> Result<int, ReadError>
    decreases ts.len() - p, 0int,
{
    if n <= 0 {
        expect_spec(ts, p, Marker::MapEnd)
    } else {
        match expect_spec(ts, p, Marker::MapKeyBegin) {
            Err(e) => Err(e),
            Ok(q) => match skip_spec(ts, q, kt, depth - 1) {
                Err(e) => Err(e),
                Ok(r) => match expect_spec(ts, r, Marker::MapValueBegin) {
                    Err(e) => Err(e),
                    Ok(r1) => if p < r1 <= ts.len() {
                        match skip_spec(ts, r1, vt, depth) {
                            Err(e) => Err(e),
                            Ok(r2) => if p < r2 <= ts.len() {
                                skip_entries_spec(ts, r2, kt, vt, n - 1, depth)
                            } else {
                                Err(ReadError::UnexpectedToken)
                            },
                        }
                    } else {
                        Err(ReadError::UnexpectedToken)
                    },
                },
            },
        }
    }
}

// ---------------------------------------------------------------------
// Reading the configuration types
// ---------------------------------------------------------------------

/// Reads `n` more strings of a list, each after its element marker, and
/// then the list's end; `acc` holds those read so far.
pub open spec fn string_items_spec(ts: Seq<TokenV>, p: int, n: int, acc: Seq<Seq<char>>) -> Result<
    (Seq<Seq<char>>, int),
    ReadError,
>
    decreases ts.len() - p,
{
    if n <= 0 {
        match expect_spec(ts, p, Marker::ListEnd) {
            Ok(r) => Ok((acc, r)),
            Err(e) => Err(e),
        }
    } else {
        match expect_spec(ts, p, Marker::ListValueBegin) {
            Err(e) => Err(e),
            Ok(q) => match string_spec(ts, q) {
                Err(e) => Err(e),
                Ok((s, r)) => if p < r <= ts.len() {
                    string_items_spec(ts, r, n - 1, acc.push(s))
                } else {
                    Err(ReadError::UnexpectedToken)
                },
            },
        }
    }
}

/// Reads a list of strings at `p`.
pub open spec fn string_list_spec(ts: Seq<TokenV>, p: int) -> Result<(Seq<Seq<char>>, int), ReadError> {
    match list_begin_spec(ts, p) {
        Err(e) => Err(e),
        Ok((n, q)) => string_items_spec(ts, q, n, seq![]),
    }
}

/// Reads the value of one `TimeShard` field of type `ty` and id `id` at
/// `p` into `acc`; a field it does not know is skipped.
pub open spec fn time_shard_field_spec(
    ts: Seq<TokenV>,
    p: int,
    ty: TType,
    id: i16,
    acc: TimeShardV,
) -> Result<(TimeShardV, int), ReadError> {
    if ty == TType::String && id == 1 {
        match string_spec(ts, p) {
            Ok((s, r)) => Ok((TimeShardV { start: s, end: acc.end }, r)),
            Err(e) => Err(e),
        }
    } else if ty == TType::String && id == 2 {
        match string_spec(ts, p) {
            Ok((s, r)) => Ok((TimeShardV { start: acc.start, end: s }, r)),
            Err(e) => Err(e),
        }
    } else {
        match skip_spec(ts, p, ty, SKIP_DEPTH as int) {
            Ok(r) => Ok((acc, r)),
            Err(e) => Err(e),
        }
    }
}

/// Reads the fields of a `TimeShard` from `p` through its end.
pub open spec fn time_shard_fields_spec(ts: Seq<TokenV>, p: int, acc: TimeShardV) -> Result<
    (TimeShardV, int),
    ReadError,
>
    decreases ts.len() - p,
{
    match field_begin_spec(ts, p) {
        Err(e) => Err(e),
        Ok((ty, id, q)) => if ty == TType::Stop {
            match expect_spec(ts, q, Marker::StructEnd) {
                Ok(r) => Ok((acc, r)),
                Err(e) => Err(e),
            }
        } else {
            match time_shard_field_spec(ts, q, ty, id, acc) {
                Err(e) => Err(e),
                Ok((acc2, r)) => match expect_spec(ts, r, Marker::FieldEnd) {
                    Err(e) => Err(e),
                    Ok(r2) => if p < r2 <= ts.len() {
                        time_shard_fields_spec(ts, r2, acc2)
                    } else {
                        Err(ReadError::UnexpectedToken)
                    },
                },
            }
        },
    }
}

/// Reads a `TimeShard` at `p`: a field that is absent keeps its default.
pub open spec fn time_shard_spec(ts: Seq<TokenV>, p: int) -> Result<(TimeShardV, int), ReadError> {
    match expect_spec(ts, p, Marker::StructBegin) {
        Err(e) => Err(e),
        Ok(q) => time_shard_fields_spec(ts, q, default_time_shard()),
    }
}

/// Reads a `Condition` at `p`: the alternative of its one known field, or
/// the default when it has none.
pub open spec fn condition_spec(ts: Seq<TokenV>, p: int) -> Result<(ConditionV, int), ReadError>
    decreases ts.len() - p, 0int,
{
    match expect_spec(ts, p, Marker::StructBegin) {
        Err(e) => Err(e),
        Ok(q) => condition_fields_spec(ts, q, None),
    }
}

/// Reads the fields of a `Condition` from `p` through its end; `alt` is
/// the alternative read so far, if any.
pub open spec fn condition_fields_spec(ts: Seq<TokenV>, p: int, alt: Option<ConditionV>) -> Result<
    (ConditionV, int),
    ReadError,
>
    decreases ts.len() - p, 0int,
{
    match field_begin_spec(ts, p) {
        Err(e) => Err(e),
        Ok((ty, id, q)) => if ty == TType::Stop {
            match expect_spec(ts, q, Marker::StructEnd) {
                Ok(r) => Ok(
                    (
                        match alt {
                            Some(c) => c,
                            None => default_condition(),
                        },
                        r,
                    ),
                ),
                Err(e) => Err(e),
            }
        } else if alt is Some {
            Err(ReadError::ExtraUnionField(ty, id))
        } else {
            match condition_field_spec(ts, q, ty, id) {
                Err(e) => Err(e),
                Ok((alt2, r)) => match expect_spec(ts, r, Marker::FieldEnd) {
                    Err(e) => Err(e),
                    Ok(r2) => if p < r2 <= ts.len() {
                        condition_fields_spec(ts, r2, alt2)
                    } else {
                        Err(ReadError::UnexpectedToken)
                    },
                },
            }
        },
    }
}

/// Wraps a read list of strings into an alternative.
pub open spec fn strings_alt(
    r: Result<(Seq<Seq<char>>, int), ReadError>,
    f: spec_fn(Seq<Seq<char>>) -> ConditionV,
) -> Result<(Option<ConditionV>, int), ReadError> {
    match r {
        Ok((v, q)) => Ok((Some(f(v)), q)),
        Err(e) => Err(e),
    }
}

/// Reads the value of one `Condition` field of type `ty` and id `id` at
/// `p`: the alternative it sets, or `None` for a field that is skipped.
pub open spec fn condition_field_spec(ts: Seq<TokenV>, p: int, ty: TType, id: i16) -> Result<
    (Option<ConditionV>, int),
    ReadError,
>
    decreases ts.len() - p, 1int,
{
    if ty == TType::Struct && id == 1 {
        match condition_spec(ts, p) {
            Ok((c, r)) => Ok((Some(ConditionV::not_condition(Box::new(c))), r)),
            Err(e) => Err(e),
        }
    } else if ty == TType::List && id == 2 {
        match condition_list_spec(ts, p) {
            Ok((v, r)) => Ok((Some(ConditionV::and_condition(v)), r)),
            Err(e) => Err(e),
        }
    } else if ty == TType::List && id == 3 {
        match condition_list_spec(ts, p) {
            Ok((v, r)) => Ok((Some(ConditionV::or_condition(v)), r)),
            Err(e) => Err(e),
        }
    } else if ty == TType::List && id == 4 {
        strings_alt(string_list_spec(ts, p), |v| ConditionV::repos(v))
    } else if ty == TType::List && id == 5 {
        strings_alt(string_list_spec(ts, p), |v| ConditionV::platforms(v))
    } else if ty == TType::List && id == 6 {
        strings_alt(string_list_spec(ts, p), |v| ConditionV::domains(v))
    } else if ty == TType::List && id == 7 {
        strings_alt(string_list_spec(ts, p), |v| ConditionV::tiers(v))
    } else if ty == TType::List && id == 8 {
        strings_alt(string_list_spec(ts, p), |v| ConditionV::hosts(v))
    } else if ty == TType::String && id == 9 {
        match string_spec(ts, p) {
            Ok((s, r)) => Ok((Some(ConditionV::group(s)), r)),
            Err(e) => Err(e),
        }
    } else if ty == TType::I32 && id == 10 {
        match i32_spec(ts, p) {
            Ok((v, r)) => Ok((Some(ConditionV::shard(v)), r)),
            Err(e) => Err(e),
        }
    } else if ty == TType::I32 && id == 11 {
        match i32_spec(ts, p) {
            Ok((v, r)) => Ok((Some(ConditionV::user_shard(v)), r)),
            Err(e) => Err(e),
        }
    } else if ty == TType::Struct && id == 12 {
        match time_shard_spec(ts, p) {
            Ok((t, r)) => Ok((Some(ConditionV::time_shard(t)), r)),
            Err(e) => Err(e),
        }
    } else if ty == TType::List && id == 13 {
        strings_alt(string_list_spec(ts, p), |v| ConditionV::host_prefixes(v))
    } else {
        match skip_spec(ts, p, ty, SKIP_DEPTH as int) {
            Ok(r) => Ok((None, r)),
            Err(e) => Err(e),
        }
    }
}

/// Reads a list of conditions at `p`.
pub open spec fn condition_list_spec(ts: Seq<TokenV>, p: int) -> Result<(Seq<ConditionV>, int), ReadError>
    decreases ts.len() - p, 0int,
{
    match list_begin_spec(ts, p) {
        Err(e) => Err(e),
        Ok((n, q)) => condition_items_spec(ts, q, n, seq![]),
    }
}

/// Reads `n` more conditions of a list, each after its element marker,
/// and then the list's end; `acc` holds those read so far.
pub open spec fn condition_items_spec(
    ts: Seq<TokenV>,
    p: int,
    n: int,
    acc: Seq<ConditionV>,
) -> Result<(Seq<ConditionV>, int), ReadError>
    decreases ts.len() - p, 0int,
{
    if n <= 0 {
        match expect_spec(ts, p, Marker::ListEnd) {
            Ok(r) => Ok((acc, r)),
            Err(e) => Err(e),
        }
    } else {
        match expect_spec(ts, p, Marker::ListValueBegin) {
            Err(e) => Err(e),
            Ok(q) => match condition_spec(ts, q) {
                Err(e) => Err(e),
                Ok((c, r)) => if p < r <= ts.len() {
                    condition_items_spec(ts, r, n - 1, acc.push(c))
                } else {
                    Err(ReadError::UnexpectedToken)
                },
            },
        }
    }
}

/// Reads the value of one `Hotfix` field of type `ty` and id `id` at `p`
/// into `acc`; a field it does not know is skipped.
pub open spec fn hotfix_field_spec(ts: Seq<TokenV>, p: int, ty: TType, id: i16, acc: HotfixV) -> Result<
    (HotfixV, int),
    ReadError,
> {
    if ty == TType::String && id == 1 {
        match string_spec(ts, p) {
            Ok((s, r)) => Ok((HotfixV { config: s, condition: acc.condition }, r)),
            Err(e) => Err(e),
        }
    } else if ty == TType::Struct && id == 2 {
        match condition_spec(ts, p) {
            Ok((c, r)) => Ok((HotfixV { config: acc.config, condition: c }, r)),
            Err(e) => Err(e),
        }
    } else {
        match skip_spec(ts, p, ty, SKIP_DEPTH as int) {
            Ok(r) => Ok((acc, r)),
            Err(e) => Err(e),
        }
    }
}

/// Reads the fields of a `Hotfix` from `p` through its end.
pub open spec fn hotfix_fields_spec(ts: Seq<TokenV>, p: int, acc: HotfixV) -> Result<(HotfixV, int), ReadError>
    decreases ts.len() - p,
{
    match field_begin_spec(ts, p) {
        Err(e) => Err(e),
        Ok((ty, id, q)) => if ty == TType::Stop {
            match expect_spec(ts, q, Marker::StructEnd) {
                Ok(r) => Ok((acc, r)),
                Err(e) => Err(e),
            }
        } else {
            match hotfix_field_spec(ts, q, ty, id, acc) {
                Err(e) => Err(e),
                Ok((acc2, r)) => match expect_spec(ts, r, Marker::FieldEnd) {
                    Err(e) => Err(e),
                    Ok(r2) => if p < r2 <= ts.len() {
                        hotfix_fields_spec(ts, r2, acc2)
                    } else {
                        Err(ReadError::UnexpectedToken)
                    },
                },
            }
        },
    }
}

/// Reads a `Hotfix` at `p`: a field that is absent keeps its default.
pub open spec fn hotfix_spec(ts: Seq<TokenV>, p: int) -> Result<(HotfixV, int), ReadError> {
    match expect_spec(ts, p, Marker::StructBegin) {
        Err(e) => Err(e),
        Ok(q) => hotfix_fields_spec(ts, q, default_hotfix()),
    }
}

/// Reads `n` more hotfixes of a list, each after its element marker, and
/// then the list's end; `acc` holds those read so far.
pub open spec fn hotfix_items_spec(ts: Seq<TokenV>, p: int, n: int, acc: Seq<HotfixV>) -> Result<
    (Seq<HotfixV>, int),
    ReadError,
>
    decreases ts.len() - p,
{
    if n <= 0 {
        match expect_spec(ts, p, Marker::ListEnd) {
            Ok(r) => Ok((acc, r)),
            Err(e) => Err(e),
        }
    } else {
        match expect_spec(ts, p, Marker::ListValueBegin) {
            Err(e) => Err(e),
            Ok(q) => match hotfix_spec(ts, q) {
                Err(e) => Err(e),
                Ok((h, r)) => if p < r <= ts.len() {
                    hotfix_items_spec(ts, r, n - 1, acc.push(h))
                } else {
                    Err(ReadError::UnexpectedToken)
                },
            },
        }
    }
}

/// Reads a list of hotfixes at `p`.
pub open spec fn hotfix_list_spec(ts: Seq<TokenV>, p: int) -> Result<(Seq<HotfixV>, int), ReadError> {
    match list_begin_spec(ts, p) {
        Err(e) => Err(e),
        Ok((n, q)) => hotfix_items_spec(ts, q, n, seq![]),
    }
}

/// Reads the value of one `ClientConfig` field of type `ty` and id `id`
/// at `p` into `acc`; a field it does not know is skipped.
pub open spec fn client_config_field_spec(
    ts: Seq<TokenV>,
    p: int,
    ty: TType,
    id: i16,
    acc: ClientConfigV,
) -> Result<(ClientConfigV, int), ReadError> {
    if ty == TType::List && id == 1 {
        match hotfix_list_spec(ts, p) {
            Ok((v, r)) => Ok((ClientConfigV { hotfixes: v }, r)),
            Err(e) => Err(e),
        }
    } else {
        match skip_spec(ts, p, ty, SKIP_DEPTH as int) {
            Ok(r) => Ok((acc, r)),
            Err(e) => Err(e),
        }
    }
}

/// Reads the fields of a `ClientConfig` from `p` through its end.
pub open spec fn client_config_fields_spec(ts: Seq<TokenV>, p: int, acc: ClientConfigV) -> Result<
    (ClientConfigV, int),
    ReadError,
>
    decreases ts.len() - p,
{
    match field_begin_spec(ts, p) {
        Err(e) => Err(e),
        Ok((ty, id, q)) => if ty == TType::Stop {
            match expect_spec(ts, q, Marker::StructEnd) {
                Ok(r) => Ok((acc, r)),
                Err(e) => Err(e),
            }
        } else {
            match client_config_field_spec(ts, q, ty, id, acc) {
                Err(e) => Err(e),
                Ok((acc2, r)) => match expect_spec(ts, r, Marker::FieldEnd) {
                    Err(e) => Err(e),
                    Ok(r2) => if p < r2 <= ts.len() {
                        client_config_fields_spec(ts, r2, acc2)
                    } else {
                        Err(ReadError::UnexpectedToken)
                    },
                },
            }
        },
    }
}

/// Reads a `ClientConfig` at `p`: an absent list of hotfixes reads as
/// empty.
pub open spec fn client_config_spec(ts: Seq<TokenV>, p: int) -> Result<(ClientConfigV, int), ReadError> {
    match expect_spec(ts, p, Marker::StructBegin) {
        Err(e) => Err(e),
        Ok(q) => client_config_fields_spec(ts, q, ClientConfigV { hotfixes: seq![] }),
    }
}

// ---------------------------------------------------------------------
// The readers
// ---------------------------------------------------------------------

/// Whether an executable reading result is the specified one: the same
/// error, or the same value (by its view) and the same position.
pub open spec fn same_read<T: View>(res: Result<(T, usize), ReadError>, s: Result<(T::V, int), ReadError>) -> bool {
    match res {
        Ok((v, r)) => s == Ok::<(T::V, int), ReadError>((v@, r as int)),
        Err(e) => s == Err::<(T::V, int), ReadError>(e),
    }
}

/// Whether an executable position result is the specified one.
pub open spec fn same_pos(res: Result<usize, ReadError>, s: Result<int, ReadError>) -> bool {
    match res {
        Ok(r) => s == Ok::<int, ReadError>(r as int),
        Err(e) => s == Err::<int, ReadError>(e),
    }
}

/// Takes the marker `m` at `pos`.
pub fn expect(tokens: &[Token], pos: usize, m: Marker) -> (res: Result<usize, ReadError>)
    ensures
        same_pos(res, expect_spec(tokens_view(tokens@), pos as int, m)),
        res matches Ok(r) ==> pos < r <= tokens@.len(),
{
    if pos >= tokens.len() {
        return Err(ReadError::EndOfInput);
    }
    let t = &tokens[pos];
    assert(tokens_view(tokens@)[pos as int] == t@);
    let ok = match m {
        Marker::StructBegin => matches!(t, Token::StructBegin(_)),
        Marker::StructEnd => matches!(t, Token::StructEnd),
        Marker::FieldEnd => matches!(t, Token::FieldEnd),
        Marker::ListValueBegin => matches!(t, Token::ListValueBegin),
        Marker::ListEnd => matches!(t, Token::ListEnd),
        Marker::SetValueBegin => matches!(t, Token::SetValueBegin),
        Marker::SetEnd => matches!(t, Token::SetEnd),
        Marker::MapKeyBegin => matches!(t, Token::MapKeyBegin),
        Marker::MapValueBegin => matches!(t, Token::MapValueBegin),
        Marker::MapEnd => matches!(t, Token::MapEnd),
    };
    if ok {
        Ok(pos + 1)
    } else {
        Err(ReadError::UnexpectedToken)
    }
}

/// Takes a field header at `pos`: its type tag, its id and the position
/// after it; a stop marker reads as type `Stop` with id 0.
pub fn field_begin(tokens: &[Token], pos: usize) -> (res: Result<(TType, i16, usize), ReadError>)
    ensures
        match res {
            Ok((ty, id, r)) => field_begin_spec(tokens_view(tokens@), pos as int) == Ok::<
                (TType, i16, int),
                ReadError,
            >((ty, id, r as int)),
            Err(e) => field_begin_spec(tokens_view(tokens@), pos as int) == Err::<
                (TType, i16, int),
                ReadError,
            >(e),
        },
        res matches Ok((_, _, r)) ==> r == pos + 1 && pos < tokens@.len(),
{
    if pos >= tokens.len() {
        return Err(ReadError::EndOfInput);
    }
    assert(tokens_view(tokens@)[pos as int] == tokens@[pos as int]@);
    match &tokens[pos] {
        Token::FieldBegin(_, ty, id) => Ok((*ty, *id, pos + 1)),
        Token::FieldStop => Ok((TType::Stop, 0, pos + 1)),
        _ => Err(ReadError::UnexpectedToken),
    }
}

/// Takes a string at `pos`.
pub fn read_string(tokens: &[Token], pos: usize) -> (res: Result<(String, usize), ReadError>)
    ensures
        same_read(res, string_spec(tokens_view(tokens@), pos as int)),
        res matches Ok((_, r)) ==> r == pos + 1 && pos < tokens@.len(),
{
    if pos >= tokens.len() {
        return Err(ReadError::EndOfInput);
    }
    assert(tokens_view(tokens@)[pos as int] == tokens@[pos as int]@);
    match &tokens[pos] {
        Token::Str(s) => Ok((s.clone(), pos + 1)),
        _ => Err(ReadError::UnexpectedToken),
    }
}

/// Takes a 32-bit integer at `pos`.
pub fn read_i32(tokens: &[Token], pos: usize) -> (res: Result<(i32, usize), ReadError>)
    ensures
        match res {
            Ok((v, r)) => i32_spec(tokens_view(tokens@), pos as int) == Ok::<(i32, int), ReadError>(
                (v, r as int),
            ),
            Err(e) => i32_spec(tokens_view(tokens@), pos as int) == Err::<(i32, int), ReadError>(e),
        },
        res matches Ok((_, r)) ==> r == pos + 1 && pos < tokens@.len(),
{
    if pos >= tokens.len() {
        return Err(ReadError::EndOfInput);
    }
    assert(tokens_view(tokens@)[pos as int] == tokens@[pos as int]@);
    match &tokens[pos] {
        Token::I32(v) => Ok((*v, pos + 1)),
        _ => Err(ReadError::UnexpectedToken),
    }
}

/// Takes a list header at `pos`: the list's length and the position after
/// the header.
pub fn list_begin(tokens: &[Token], pos: usize) -> (res: Result<(usize, usize), ReadError>)
    ensures
        match res {
            Ok((n, r)) => list_begin_spec(tokens_view(tokens@), pos as int) == Ok::<
                (int, int),
                ReadError,
            >((n as int, r as int)),
            Err(e) => list_begin_spec(tokens_view(tokens@), pos as int) == Err::<
                (int, int),
                ReadError,
            >(e),
        },
        res matches Ok((_, r)) ==> r == pos + 1 && pos < tokens@.len(),
{
    if pos >= tokens.len() {
        return Err(ReadError::EndOfInput);
    }
    assert(tokens_view(tokens@)[pos as int] == tokens@[pos as int]@);
    match &tokens[pos] {
        Token::ListBegin(_, n) => Ok((*n, pos + 1)),
        _ => Err(ReadError::UnexpectedToken),
    }
}

/// Whether `t` is a single-token value of type `ty`.
fn scalar_fits(t: &Token, ty: TType) -> (b: bool)
    ensures
        b == is_scalar_of(t@, ty),
{
    match ty {
        TType::Bool => matches!(t, Token::Bool(_)),
        TType::Byte => matches!(t, Token::Byte(_)),
        TType::I16 => matches!(t, Token::I16(_)),
        TType::I32 => matches!(t, Token::I32(_)),
        TType::I64 => matches!(t, Token::I64(_)),
        TType::Double => matches!(t, Token::Double(_)),
        TType::Float => matches!(t, Token::Float(_)),
        TType::String => matches!(t, Token::Str(_)) || matches!(t, Token::Bin(_)),
        TType::UTF8 => matches!(t, Token::Str(_)),
        TType::UTF16 => matches!(t, Token::Str(_)),
        _ => false,
    }
}

/// Skips one value of type `ty` at `pos`, descending at most `depth`
/// levels, as a protocol reader skips a field it does not know; the
/// position after the value.
pub fn skip(tokens: &[Token], pos: usize, ty: TType, depth: i32) -> (res: Result<usize, ReadError>)
    requires
        pos <= tokens@.len(),
    ensures
        same_pos(res, skip_spec(tokens_view(tokens@), pos as int, ty, depth as int)),
        res matches Ok(r) ==> pos <= r <= tokens@.len(),
    decreases tokens@.len() - pos, 1int,
{
    if depth <= 0 {
        return Err(ReadError::SkipDepthExceeded);
    }
    match ty {
        TType::Void => Ok(pos),
        TType::Stream => Err(ReadError::StreamUnsupported),
        TType::Stop => Err(ReadError::UnexpectedStopInSkip),
        _ => {
            if pos >= tokens.len() {
                return Err(ReadError::EndOfInput);
            }
            assert(tokens_view(tokens@)[pos as int] == tokens@[pos as int]@);
            let t = &tokens[pos];
            match ty {
                TType::Struct => match t {
                    Token::StructBegin(_) => skip_fields(tokens, pos + 1, depth),
                    _ => Err(ReadError::UnexpectedToken),
                },
                TType::List => match t {
                    Token::ListBegin(et, n) => skip_elems(
                        tokens,
                        pos + 1,
                        *et,
                        *n,
                        depth,
                        Marker::ListValueBegin,
                        Marker::ListEnd,
                    ),
                    _ => Err(ReadError::UnexpectedToken),
                },
                TType::SetOf => match t {
                    Token::SetBegin(et, n) => skip_elems(
                        tokens,
                        pos + 1,
                        *et,
                        *n,
                        depth,
                        Marker::SetValueBegin,
                        Marker::SetEnd,
                    ),
                    _ => Err(ReadError::UnexpectedToken),
                },
                TType::MapOf => match t {
                    Token::MapBegin(kt, vt, n) => skip_entries(tokens, pos + 1, *kt, *vt, *n, depth),
                    _ => Err(ReadError::UnexpectedToken),
                },
                _ => {
                    if scalar_fits(t, ty) {
                        Ok(pos + 1)
                    } else {
                        Err(ReadError::UnexpectedToken)
                    }
                },
            }
        },
    }
}

/// Skips the fields of a struct from `pos` through its end.
fn skip_fields(tokens: &[Token], pos: usize, depth: i32) -> (res: Result<usize, ReadError>)
    requires
        depth >= 1,
        pos <= tokens@.len(),
    ensures
        same_pos(res, skip_fields_spec(tokens_view(tokens@), pos as int, depth as int)),
        res matches Ok(r) ==> pos < r <= tokens@.len(),
    decreases tokens@.len() - pos, 0int,
{
    let ghost ts = tokens_view(tokens@);
    let mut p = pos;
    loop
        invariant
            ts == tokens_view(tokens@),
            depth >= 1,
            pos <= p <= tokens@.len(),
            skip_fields_spec(ts, p as int, depth as int) == skip_fields_spec(ts, pos as int, depth as int),
        decreases tokens@.len() - p,
    {
        let (ty, _id, q) = match field_begin(tokens, p) {
            Ok(h) => h,
            Err(e) => return Err(e),
        };
        if ty == TType::Stop {
            return expect(tokens, q, Marker::StructEnd);
        }
        let r = match skip(tokens, q, ty, depth - 1) {
            Ok(r) => r,
            Err(e) => return Err(e),
        };
        let r2 = match expect(tokens, r, Marker::FieldEnd) {
            Ok(r2) => r2,
            Err(e) => return Err(e),
        };
        p = r2;
    }
}

/// Skips `n` elements of a list or set at `pos`, each after the element
/// marker `each`, and then the closing marker `end`.
fn skip_elems(
    tokens: &[Token],
    pos: usize,
    et: TType,
    n: usize,
    depth: i32,
    each: Marker,
    end: Marker,
) -> (res: Result<usize, ReadError>)
    requires
        depth >= 1,
        pos <= tokens@.len(),
    ensures
        same_pos(
            res,
            skip_elems_spec(tokens_view(tokens@), pos as int, et, n as int, depth as int, each, end),
        ),
        res matches Ok(r) ==> pos < r <= tokens@.len(),
    decreases tokens@.len() - pos, 0int,
{
    let ghost ts = tokens_view(tokens@);
    let mut p = pos;
    let mut k = n;
    loop
        invariant
            ts == tokens_view(tokens@),
            depth >= 1,
            pos <= p <= tokens@.len(),
            skip_elems_spec(ts, p as int, et, k as int, depth as int, each, end) == skip_elems_spec(
                ts,
                pos as int,
                et,
                n as int,
                depth as int,
                each,
                end,
            ),
        decreases tokens@.len() - p,
    {
        if k == 0 {
            return expect(tokens, p, end);
        }
        let q = match expect(tokens, p, each) {
            Ok(q) => q,
            Err(e) => return Err(e),
        };
        let r = match skip(tokens, q, et, depth - 1) {
            Ok(r) => r,
            Err(e) => return Err(e),
        };
        p = r;
        k = k - 1;
    }
}

/// Skips `n` entries of a map at `pos` and then the map's end.
fn skip_entries(
    tokens: &[Token],
    pos: usize,
    kt: TType,
    vt: TType,
    n: usize,
    depth: i32,
) -> (res: Result<usize, ReadError>)
    requires
        depth >= 1,
        pos <= tokens@.len(),
    ensures
        same_pos(res, skip_entries_spec(tokens_view(tokens@), pos as int, kt, vt, n as int, depth as int)),
        res matches Ok(r) ==> pos < r <= tokens@.len(),
    decreases tokens@.len() - pos, 0int,
{
    let ghost ts = tokens_view(tokens@);
    let mut p = pos;
    let mut k = n;
    loop
        invariant
            ts == tokens_view(tokens@),
            depth >= 1,
            pos <= p <= tokens@.len(),
            skip_entries_spec(ts, p as int, kt, vt, k as int, depth as int) == skip_entries_spec(
                ts,
                pos as int,
                kt,
                vt,
                n as int,
                depth as int,
            ),
        decreases tokens@.len() - p,
    {
        if k == 0 {
            return expect(tokens, p, Marker::MapEnd);
        }
        let q = match expect(tokens, p, Marker::MapKeyBegin) {
            Ok(q) => q,
            Err(e) => return Err(e),
        };
        let r = match skip(tokens, q, kt, depth - 1) {
            Ok(r) => r,
            Err(e) => return Err(e),
        };
        let r1 = match expect(tokens, r, Marker::MapValueBegin) {
            Ok(r1) => r1,
            Err(e) => return Err(e),
        };
        let r2 = match skip(tokens, r1, vt, depth) {
            Ok(r2) => r2,
            Err(e) => return Err(e),
        };
        p = r2;
        k = k - 1;
    }
}

/// Reads a list of strings at `pos`.
fn read_string_list(tokens: &[Token], pos: usize) -> (res: Result<(Vec<String>, usize), ReadError>)
    ensures
        match res {
            Ok((v, r)) => string_list_spec(tokens_view(tokens@), pos as int) == Ok::<
                (Seq<Seq<char>>, int),
                ReadError,
            >((strings_view(v@), r as int)),
            Err(e) => string_list_spec(tokens_view(tokens@), pos as int) == Err::<
                (Seq<Seq<char>>, int),
                ReadError,
            >(e),
        },
        res matches Ok((_, r)) ==> pos < r <= tokens@.len(),
{
    let ghost ts = tokens_view(tokens@);
    let (n, q) = match list_begin(tokens, pos) {
        Ok(h) => h,
        Err(e) => return Err(e),
    };
    let mut acc: Vec<String> = Vec::new();
    assert(strings_view(acc@) =~= seq![]);
    let mut p = q;
    let mut k = n;
    loop
        invariant
            ts == tokens_view(tokens@),
            pos < p <= tokens@.len(),
            string_items_spec(ts, p as int, k as int, strings_view(acc@)) == string_list_spec(
                ts,
                pos as int,
            ),
        decreases tokens@.len() - p,
    {
        if k == 0 {
            let r = match expect(tokens, p, Marker::ListEnd) {
                Ok(r) => r,
                Err(e) => return Err(e),
            };
            return Ok((acc, r));
        }
        let q2 = match expect(tokens, p, Marker::ListValueBegin) {
            Ok(q2) => q2,
            Err(e) => return Err(e),
        };
        let (s, r) = match read_string(tokens, q2) {
            Ok(v) => v,
            Err(e) => return Err(e),
        };
        let ghost before = strings_view(acc@);
        let ghost sv = s@;
        acc.push(s);
        assert(strings_view(acc@) =~= before.push(sv));
        p = r;
        k = k - 1;
    }
}

impl TimeShard {
    /// Reads a time shard at `pos`: fields it knows set their value, a
    /// field it does not know is skipped, an absent field keeps its
    /// default; the position after the struct.
    pub fn read(tokens: &[Token], pos: usize) -> (res: Result<(TimeShard, usize), ReadError>)
        ensures
            same_read(res, time_shard_spec(tokens_view(tokens@), pos as int)),
            res matches Ok((_, r)) ==> pos < r <= tokens@.len(),
    {
        let ghost ts = tokens_view(tokens@);
        let q = match expect(tokens, pos, Marker::StructBegin) {
            Ok(q) => q,
            Err(e) => return Err(e),
        };
        let mut acc = TimeShard { start: String::new(), end: String::new() };
        let mut p = q;
        loop
            invariant
                ts == tokens_view(tokens@),
                pos < p <= tokens@.len(),
                time_shard_fields_spec(ts, p as int, acc@) == time_shard_spec(ts, pos as int),
            decreases tokens@.len() - p,
        {
            let (ty, id, q2) = match field_begin(tokens, p) {
                Ok(h) => h,
                Err(e) => return Err(e),
            };
            if ty == TType::Stop {
                let r = match expect(tokens, q2, Marker::StructEnd) {
                    Ok(r) => r,
                    Err(e) => return Err(e),
                };
                return Ok((acc, r));
            }
            let r = if ty == TType::String && id == 1 {
                match read_string(tokens, q2) {
                    Ok((s, r)) => {
                        acc.start = s;
                        r
                    },
                    Err(e) => return Err(e),
                }
            } else if ty == TType::String && id == 2 {
                match read_string(tokens, q2) {
                    Ok((s, r)) => {
                        acc.end = s;
                        r
                    },
                    Err(e) => return Err(e),
                }
            } else {
                match skip(tokens, q2, ty, SKIP_DEPTH) {
                    Ok(r) => r,
                    Err(e) => return Err(e),
                }
            };
            let r2 = match expect(tokens, r, Marker::FieldEnd) {
                Ok(r2) => r2,
                Err(e) => return Err(e),
            };
            p = r2;
        }
    }
}

/// The mathematical form of an optional condition.
pub open spec fn opt_condition_view(o: Option<Condition>) -> Option<ConditionV> {
    match o {
        Some(c) => Some(c@),
        None => None,
    }
}

impl Condition {
    /// Reads a condition at `pos`: the alternative of the one field it
    /// knows, after skipping fields it does not know; a second field after
    /// an alternative is an error; with no alternative it is the default;
    /// the position after the struct.
    pub fn read(tokens: &[Token], pos: usize) -> (res: Result<(Condition, usize), ReadError>)
        ensures
            same_read(res, condition_spec(tokens_view(tokens@), pos as int)),
            res matches Ok((_, r)) ==> pos < r <= tokens@.len(),
        decreases tokens@.len() - pos, 0int,
    {
        let ghost ts = tokens_view(tokens@);
        let q = match expect(tokens, pos, Marker::StructBegin) {
            Ok(q) => q,
            Err(e) => return Err(e),
        };
        let mut alt: Option<Condition> = None;
        let mut p = q;
        loop
            invariant
                ts == tokens_view(tokens@),
                pos < p <= tokens@.len(),
                condition_fields_spec(ts, p as int, opt_condition_view(alt)) == condition_spec(
                    ts,
                    pos as int,
                ),
            decreases tokens@.len() - p,
        {
            let (ty, id, q2) = match field_begin(tokens, p) {
                Ok(h) => h,
                Err(e) => return Err(e),
            };
            if ty == TType::Stop {
                let r = match expect(tokens, q2, Marker::StructEnd) {
                    Ok(r) => r,
                    Err(e) => return Err(e),
                };
                let c = match alt {
                    Some(c) => c,
                    None => Condition::UnknownField(-1),
                };
                return Ok((c, r));
            }
            if alt.is_some() {
                return Err(ReadError::ExtraUnionField(ty, id));
            }
            let (alt2, r) = match read_condition_field(tokens, q2, ty, id) {
                Ok(v) => v,
                Err(e) => return Err(e),
            };
            let r2 = match expect(tokens, r, Marker::FieldEnd) {
                Ok(r2) => r2,
                Err(e) => return Err(e),
            };
            alt = alt2;
            p = r2;
        }
    }
}

/// Reads the value of one condition field of type `ty` and id `id` at
/// `pos`: the alternative it sets, or `None` for a field that is skipped.
fn read_condition_field(tokens: &[Token], pos: usize, ty: TType, id: i16) -> (res: Result<
    (Option<Condition>, usize),
    ReadError,
>)
    requires
        pos <= tokens@.len(),
    ensures
        match res {
            Ok((o, r)) => condition_field_spec(tokens_view(tokens@), pos as int, ty, id) == Ok::<
                (Option<ConditionV>, int),
                ReadError,
            >((opt_condition_view(o), r as int)),
            Err(e) => condition_field_spec(tokens_view(tokens@), pos as int, ty, id) == Err::<
                (Option<ConditionV>, int),
                ReadError,
            >(e),
        },
        res matches Ok((_, r)) ==> pos <= r <= tokens@.len(),
    decreases tokens@.len() - pos, 1int,
{
    if ty == TType::Struct && id == 1 {
        match Condition::read(tokens, pos) {
            Ok((c, r)) => Ok((Some(Condition::not_condition(Box::new(c))), r)),
            Err(e) => Err(e),
        }
    } else if ty == TType::List && id == 2 {
        match read_condition_list(tokens, pos) {
            Ok((v, r)) => Ok((Some(Condition::and_condition(v)), r)),
            Err(e) => Err(e),
        }
    } else if ty == TType::List && id == 3 {
        match read_condition_list(tokens, pos) {
            Ok((v, r)) => Ok((Some(Condition::or_condition(v)), r)),
            Err(e) => Err(e),
        }
    } else if ty == TType::List && id == 4 {
        match read_string_list(tokens, pos) {
            Ok((v, r)) => Ok((Some(Condition::repos(v)), r)),
            Err(e) => Err(e),
        }
    } else if ty == TType::List && id == 5 {
        match read_string_list(tokens, pos) {
            Ok((v, r)) => Ok((Some(Condition::platforms(v)), r)),
            Err(e) => Err(e),
        }
    } else if ty == TType::List && id == 6 {
        match read_string_list(tokens, pos) {
            Ok((v, r)) => Ok((Some(Condition::domains(v)), r)),
            Err(e) => Err(e),
        }
    } else if ty == TType::List && id == 7 {
        match read_string_list(tokens, pos) {
            Ok((v, r)) => Ok((Some(Condition::tiers(v)), r)),
            Err(e) => Err(e),
        }
    } else if ty == TType::List && id == 8 {
        match read_string_list(tokens, pos) {
            Ok((v, r)) => Ok((Some(Condition::hosts(v)), r)),
            Err(e) => Err(e),
        }
    } else if ty == TType::String && id == 9 {
        match read_string(tokens, pos) {
            Ok((s, r)) => Ok((Some(Condition::group(s)), r)),
            Err(e) => Err(e),
        }
    } else if ty == TType::I32 && id == 10 {
        match read_i32(tokens, pos) {
            Ok((v, r)) => Ok((Some(Condition::shard(v)), r)),
            Err(e) => Err(e),
        }
    } else if ty == TType::I32 && id == 11 {
        match read_i32(tokens, pos) {
            Ok((v, r)) => Ok((Some(Condition::user_shard(v)), r)),
            Err(e) => Err(e),
        }
    } else if ty == TType::Struct && id == 12 {
        match TimeShard::read(tokens, pos) {
            Ok((t, r)) => Ok((Some(Condition::time_shard(t)), r)),
            Err(e) => Err(e),
        }
    } else if ty == TType::List && id == 13 {
        match read_string_list(tokens, pos) {
            Ok((v, r)) => Ok((Some(Condition::host_prefixes(v)), r)),
            Err(e) => Err(e),
        }
    } else {
        match skip(tokens, pos, ty, SKIP_DEPTH) {
            Ok(r) => Ok((None, r)),
            Err(e) => Err(e),
        }
    }
}

/// Reads a list of conditions at `pos`.
fn read_condition_list(tokens: &[Token], pos: usize) -> (res: Result<(Vec<Condition>, usize), ReadError>)
    ensures
        match res {
            Ok((v, r)) => condition_list_spec(tokens_view(tokens@), pos as int) == Ok::<
                (Seq<ConditionV>, int),
                ReadError,
            >((conditions_view(v), r as int)),
            Err(e) => condition_list_spec(tokens_view(tokens@), pos as int) == Err::<
                (Seq<ConditionV>, int),
                ReadError,
            >(e),
        },
        res matches Ok((_, r)) ==> pos < r <= tokens@.len(),
    decreases tokens@.len() - pos, 0int,
{
    let ghost ts = tokens_view(tokens@);
    let (n, q) = match list_begin(tokens, pos) {
        Ok(h) => h,
        Err(e) => return Err(e),
    };
    let mut acc: Vec<Condition> = Vec::new();
    assert(conditions_view(acc) =~= seq![]);
    let mut p = q;
    let mut k = n;
    loop
        invariant
            ts == tokens_view(tokens@),
            pos < p <= tokens@.len(),
            condition_items_spec(ts, p as int, k as int, conditions_view(acc)) == condition_list_spec(
                ts,
                pos as int,
            ),
        decreases tokens@.len() - p,
    {
        if k == 0 {
            let r = match expect(tokens, p, Marker::ListEnd) {
                Ok(r) => r,
                Err(e) => return Err(e),
            };
            return Ok((acc, r));
        }
        let q2 = match expect(tokens, p, Marker::ListValueBegin) {
            Ok(q2) => q2,
            Err(e) => return Err(e),
        };
        let (c, r) = match Condition::read(tokens, q2) {
            Ok(v) => v,
            Err(e) => return Err(e),
        };
        let ghost before = conditions_view(acc);
        let ghost cv = c@;
        acc.push(c);
        assert(conditions_view(acc) =~= before.push(cv));
        p = r;
        k = k - 1;
    }
}

impl Hotfix {
    /// Reads a hotfix at `pos`: fields it knows set their value, a field
    /// it does not know is skipped, an absent field keeps its default; the
    /// position after the struct.
    pub fn read(tokens: &[Token], pos: usize) -> (res: Result<(Hotfix, usize), ReadError>)
        ensures
            same_read(res, hotfix_spec(tokens_view(tokens@), pos as int)),
            res matches Ok((_, r)) ==> pos < r <= tokens@.len(),
    {
        let ghost ts = tokens_view(tokens@);
        let q = match expect(tokens, pos, Marker::StructBegin) {
            Ok(q) => q,
            Err(e) => return Err(e),
        };
        let mut acc = Hotfix { config: String::new(), condition: Condition::UnknownField(-1) };
        let mut p = q;
        loop
            invariant
                ts == tokens_view(tokens@),
                pos < p <= tokens@.len(),
                hotfix_fields_spec(ts, p as int, acc@) == hotfix_spec(ts, pos as int),
            decreases tokens@.len() - p,
        {
            let (ty, id, q2) = match field_begin(tokens, p) {
                Ok(h) => h,
                Err(e) => return Err(e),
            };
            if ty == TType::Stop {
                let r = match expect(tokens, q2, Marker::StructEnd) {
                    Ok(r) => r,
                    Err(e) => return Err(e),
                };
                return Ok((acc, r));
            }
            let r = if ty == TType::String && id == 1 {
                match read_string(tokens, q2) {
                    Ok((s, r)) => {
                        acc.config = s;
                        r
                    },
                    Err(e) => return Err(e),
                }
            } else if ty == TType::Struct && id == 2 {
                match Condition::read(tokens, q2) {
                    Ok((c, r)) => {
                        acc.condition = c;
                        r
                    },
                    Err(e) => return Err(e),
                }
            } else {
                match skip(tokens, q2, ty, SKIP_DEPTH) {
                    Ok(r) => r,
                    Err(e) => return Err(e),
                }
            };
            let r2 = match expect(tokens, r, Marker::FieldEnd) {
                Ok(r2) => r2,
                Err(e) => return Err(e),
            };
            p = r2;
        }
    }
}

/// Reads a list of hotfixes at `pos`.
fn read_hotfix_list(tokens: &[Token], pos: usize) -> (res: Result<(Vec<Hotfix>, usize), ReadError>)
    ensures
        match res {
            Ok((v, r)) => hotfix_list_spec(tokens_view(tokens@), pos as int) == Ok::<
                (Seq<HotfixV>, int),
                ReadError,
            >((hotfixes_view(v@), r as int)),
            Err(e) => hotfix_list_spec(tokens_view(tokens@), pos as int) == Err::<
                (Seq<HotfixV>, int),
                ReadError,
            >(e),
        },
        res matches Ok((_, r)) ==> pos < r <= tokens@.len(),
{
    let ghost ts = tokens_view(tokens@);
    let (n, q) = match list_begin(tokens, pos) {
        Ok(h) => h,
        Err(e) => return Err(e),
    };
    let mut acc: Vec<Hotfix> = Vec::new();
    assert(hotfixes_view(acc@) =~= seq![]);
    let mut p = q;
    let mut k = n;
    loop
        invariant
            ts == tokens_view(tokens@),
            pos < p <= tokens@.len(),
            hotfix_items_spec(ts, p as int, k as int, hotfixes_view(acc@)) == hotfix_list_spec(
                ts,
                pos as int,
            ),
        decreases tokens@.len() - p,
    {
        if k == 0 {
            let r = match expect(tokens, p, Marker::ListEnd) {
                Ok(r) => r,
                Err(e) => return Err(e),
            };
            return Ok((acc, r));
        }
        let q2 = match expect(tokens, p, Marker::ListValueBegin) {
            Ok(q2) => q2,
            Err(e) => return Err(e),
        };
        let (h, r) = match Hotfix::read(tokens, q2) {
            Ok(v) => v,
            Err(e) => return Err(e),
        };
        let ghost before = hotfixes_view(acc@);
        let ghost hv = h@;
        acc.push(h);
        assert(hotfixes_view(acc@) =~= before.push(hv));
        p = r;
        k = k - 1;
    }
}

impl ClientConfig {
    /// Reads a client configuration at `pos`: its list of hotfixes if the
    /// field is there (empty if not), after skipping fields it does not
    /// know; the position after the struct.
    pub fn read(tokens: &[Token], pos: usize) -> (res: Result<(ClientConfig, usize), ReadError>)
        ensures
            same_read(res, client_config_spec(tokens_view(tokens@), pos as int)),
            res matches Ok((_, r)) ==> pos < r <= tokens@.len(),
    {
        let ghost ts = tokens_view(tokens@);
        let q = match expect(tokens, pos, Marker::StructBegin) {
            Ok(q) => q,
            Err(e) => return Err(e),
        };
        let mut acc = ClientConfig { hotfixes: Vec::new() };
        assert(acc@.hotfixes =~= seq![]);
        let mut p = q;
        loop
            invariant
                ts == tokens_view(tokens@),
                pos < p <= tokens@.len(),
                client_config_fields_spec(ts, p as int, acc@) == client_config_spec(ts, pos as int),
            decreases tokens@.len() - p,
        {
            let (ty, id, q2) = match field_begin(tokens, p) {
                Ok(h) => h,
                Err(e) => return Err(e),
            };
            if ty == TType::Stop {
                let r = match expect(tokens, q2, Marker::StructEnd) {
                    Ok(r) => r,
                    Err(e) => return Err(e),
                };
                return Ok((acc, r));
            }
            let r = if ty == TType::List && id == 1 {
                match read_hotfix_list(tokens, q2) {
                    Ok((v, r)) => {
                        acc.hotfixes = v;
                        r
                    },
                    Err(e) => return Err(e),
                }
            } else {
                match skip(tokens, q2, ty, SKIP_DEPTH) {
                    Ok(r) => r,
                    Err(e) => return Err(e),
                }
            };
            let r2 = match expect(tokens, r, Marker::FieldEnd) {
                Ok(r2) => r2,
                Err(e) => return Err(e),
            };
            p = r2;
        }
    }
}

} // verus!
