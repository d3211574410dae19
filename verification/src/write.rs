use vstd::prelude::*;

use crate::token::{tokens_view, Token, TokenV};
use crate::ttype::TType;
use crate::types::{
    conditions_view, hotfixes_view, strings_view, ClientConfig, ClientConfigV, Condition, ConditionV, Hotfix, HotfixV, TimeShard,
    TimeShardV,
};

verus! {

// ---------------------------------------------------------------------
// The token streams that the writers emit
// ---------------------------------------------------------------------

/// A struct: its name, its fields, the stop marker and the end.
pub open spec fn struct_tokens(name: Seq<char>, fields: Seq<TokenV>) -> Seq<TokenV> {
    seq![TokenV::StructBegin(name)] + fields + seq![TokenV::FieldStop, TokenV::StructEnd]
}

/// One field: its header (name, type tag, id), its value and its end.
pub open spec fn field_tokens(name: Seq<char>, ty: TType, id: i16, value: Seq<TokenV>) -> Seq<TokenV> {
    seq![TokenV::FieldBegin(name, ty, id)] + value + seq![TokenV::FieldEnd]
}

/// The elements of a list of strings from index `i` on, each preceded by
/// its element marker.
pub open spec fn string_items(v: Seq<Seq<char>>, i: int) -> Seq<TokenV>
    decreases v.len() - i,
{
    if i < 0 || i >= v.len() {
        seq![]
    } else {
        seq![TokenV::ListValueBegin, TokenV::Str(v[i])] + string_items(v, i + 1)
    }
}

/// A list of strings.
pub open spec fn string_list_tokens(v: Seq<Seq<char>>) -> Seq<TokenV> {
    seq![TokenV::ListBegin(TType::String, v.len() as usize)] + string_items(v, 0) + seq![
        TokenV::ListEnd,
    ]
}

/// A `TimeShard`.
pub open spec fn time_shard_tokens(t: TimeShardV) -> Seq<TokenV> {
    struct_tokens(
        "TimeShard"@,
        field_tokens("start"@, TType::String, 1, seq![TokenV::Str(t.start)]) + field_tokens(
            "end"@,
            TType::String,
            2,
            seq![TokenV::Str(t.end)],
        ),
    )
}

/// The one field that a `Condition` writes for the alternative it holds;
/// none for `UnknownField`.
pub open spec fn condition_field_tokens(c: ConditionV) -> Seq<TokenV>
    decreases c, 1int,
{
    match c {
        ConditionV::not_condition(b) => field_tokens(
            "not_condition"@,
            TType::Struct,
            1,
            condition_tokens(*b),
        ),
        ConditionV::and_condition(v) => field_tokens(
            "and_condition"@,
            TType::List,
            2,
            condition_list_tokens(v),
        ),
        ConditionV::or_condition(v) => field_tokens(
            "or_condition"@,
            TType::List,
            3,
            condition_list_tokens(v),
        ),
        ConditionV::repos(v) => field_tokens("repos"@, TType::List, 4, string_list_tokens(v)),
        ConditionV::platforms(v) => field_tokens(
            "platforms"@,
            TType::List,
            5,
            string_list_tokens(v),
        ),
        ConditionV::domains(v) => field_tokens("domains"@, TType::List, 6, string_list_tokens(v)),
        ConditionV::tiers(v) => field_tokens("tiers"@, TType::List, 7, string_list_tokens(v)),
        ConditionV::hosts(v) => field_tokens("hosts"@, TType::List, 8, string_list_tokens(v)),
        ConditionV::group(s) => field_tokens("group"@, TType::String, 9, seq![TokenV::Str(s)]),
        ConditionV::shard(i) => field_tokens("shard"@, TType::I32, 10, seq![TokenV::I32(i)]),
        ConditionV::user_shard(i) => field_tokens(
            "user_shard"@,
            TType::I32,
            11,
            seq![TokenV::I32(i)],
        ),
        ConditionV::time_shard(t) => field_tokens(
            "time_shard"@,
            TType::Struct,
            12,
            time_shard_tokens(t),
        ),
        ConditionV::host_prefixes(v) => field_tokens(
            "host_prefixes"@,
            TType::List,
            13,
            string_list_tokens(v),
        ),
        ConditionV::UnknownField(_) => seq![],
    }
}

/// A `Condition`.
pub open spec fn condition_tokens(c: ConditionV) -> Seq<TokenV>
    decreases c, 2int,
{
    struct_tokens("Condition"@, condition_field_tokens(c))
}

/// The elements of a list of conditions from index `i` on.
pub open spec fn condition_items(v: Seq<ConditionV>, i: int) -> Seq<TokenV>
    decreases v, v.len() - i,
{
    if i < 0 || i >= v.len() {
        seq![]
    } else {
        seq![TokenV::ListValueBegin] + condition_tokens(v[i]) + condition_items(v, i + 1)
    }
}

/// A list of conditions.
pub open spec fn condition_list_tokens(v: Seq<ConditionV>) -> Seq<TokenV>
    decreases v, v.len() + 1,
{
    seq![TokenV::ListBegin(TType::Struct, v.len() as usize)] + condition_items(v, 0) + seq![
        TokenV::ListEnd,
    ]
}

/// A `Hotfix`.
pub open spec fn hotfix_tokens(h: HotfixV) -> Seq<TokenV> {
    struct_tokens(
        "Hotfix"@,
        field_tokens("config"@, TType::String, 1, seq![TokenV::Str(h.config)]) + field_tokens(
            "condition"@,
            TType::Struct,
            2,
            condition_tokens(h.condition),
        ),
    )
}

/// The elements of a list of hotfixes from index `i` on.
pub open spec fn hotfix_items(v: Seq<HotfixV>, i: int) -> Seq<TokenV>
    decreases v.len() - i,
{
    if i < 0 || i >= v.len() {
        seq![]
    } else {
        seq![TokenV::ListValueBegin] + hotfix_tokens(v[i]) + hotfix_items(v, i + 1)
    }
}

/// A list of hotfixes.
pub open spec fn hotfix_list_tokens(v: Seq<HotfixV>) -> Seq<TokenV> {
    seq![TokenV::ListBegin(TType::Struct, v.len() as usize)] + hotfix_items(v, 0) + seq![
        TokenV::ListEnd,
    ]
}

/// A `ClientConfig`.
pub open spec fn client_config_tokens(c: ClientConfigV) -> Seq<TokenV> {
    struct_tokens(
        "ClientConfig"@,
        field_tokens("hotfixes"@, TType::List, 1, hotfix_list_tokens(c.hotfixes)),
    )
}

// ---------------------------------------------------------------------
// The writers
// ---------------------------------------------------------------------

/// Appends one token.
fn emit(out: &mut Vec<Token>, t: Token)
    ensures
        tokens_view(final(out)@) == tokens_view(old(out)@).push(t@),
{
    let ghost t_view = t@;
    out.push(t);
    assert(tokens_view(out@) =~= tokens_view(old(out)@).push(t_view));
}

/// Appends a field header.
fn emit_field_begin(out: &mut Vec<Token>, name: &str, ty: TType, id: i16)
    ensures
        tokens_view(final(out)@) == tokens_view(old(out)@).push(TokenV::FieldBegin(name@, ty, id)),
{
    emit(out, Token::FieldBegin(name.to_owned(), ty, id));
}

/// Appends a list of strings.
fn write_string_list(v: &Vec<String>, out: &mut Vec<Token>)
    ensures
        tokens_view(final(out)@) == tokens_view(old(out)@) + string_list_tokens(strings_view(v@)),
{
    let ghost sv = strings_view(v@);
    let ghost target = tokens_view(old(out)@) + string_list_tokens(sv);
    emit(out, Token::ListBegin(TType::String, v.len()));
    let mut i: usize = 0;
    while i < v.len()
        invariant
            i <= v.len(),
            sv == strings_view(v@),
            target == tokens_view(out@) + string_items(sv, i as int) + seq![TokenV::ListEnd],
        decreases v.len() - i,
    {
        let ghost before = tokens_view(out@);
        emit(out, Token::ListValueBegin);
        emit(out, Token::Str(v[i].clone()));
        assert(string_items(sv, i as int) == seq![TokenV::ListValueBegin, TokenV::Str(sv[i as int])]
            + string_items(sv, i + 1));
        assert(tokens_view(out@) =~= before + seq![TokenV::ListValueBegin, TokenV::Str(sv[i as int])]);
        i = i + 1;
    }
    emit(out, Token::ListEnd);
    assert(tokens_view(out@) =~= target);
}

impl TimeShard {
    /// Writes the time shard: both fields, always.
    pub fn write(&self, out: &mut Vec<Token>)
        ensures
            tokens_view(final(out)@) == tokens_view(old(out)@) + time_shard_tokens(self@),
    {
        emit(out, Token::StructBegin("TimeShard".to_owned()));
        emit_field_begin(out, "start", TType::String, 1);
        emit(out, Token::Str(self.start.clone()));
        emit(out, Token::FieldEnd);
        emit_field_begin(out, "end", TType::String, 2);
        emit(out, Token::Str(self.end.clone()));
        emit(out, Token::FieldEnd);
        emit(out, Token::FieldStop);
        emit(out, Token::StructEnd);
        assert(tokens_view(out@) =~= tokens_view(old(out)@) + time_shard_tokens(self@));
    }
}

/// Appends a list of conditions.
fn write_condition_list(v: &Vec<Condition>, out: &mut Vec<Token>)
    ensures
        tokens_view(final(out)@) == tokens_view(old(out)@) + condition_list_tokens(
            conditions_view(*v),
        ),
    decreases v, 0int,
{
    let ghost cv = conditions_view(*v);
    let ghost target = tokens_view(old(out)@) + condition_list_tokens(cv);
    emit(out, Token::ListBegin(TType::Struct, v.len()));
    let mut i: usize = 0;
    while i < v.len()
        invariant
            i <= v.len(),
            cv == conditions_view(*v),
            cv.len() == v.len(),
            target == tokens_view(out@) + condition_items(cv, i as int) + seq![TokenV::ListEnd],
        decreases v.len() - i,
    {
        let ghost before = tokens_view(out@);
        proof {
            assert(decreases_to!(v => v@));
            assert(decreases_to!(v@ => v@[i as int]));
        }
        emit(out, Token::ListValueBegin);
        v[i].write(out);
        assert(cv[i as int] == v@[i as int]@);
        assert(condition_items(cv, i as int) == seq![TokenV::ListValueBegin] + condition_tokens(
            cv[i as int],
        ) + condition_items(cv, i + 1));
        assert(tokens_view(out@) =~= before + seq![TokenV::ListValueBegin] + condition_tokens(
            cv[i as int],
        ));
        i = i + 1;
    }
    emit(out, Token::ListEnd);
    assert(tokens_view(out@) =~= target);
}

impl Condition {
    /// Writes the condition as a struct holding the one field of the
    /// alternative it holds; `UnknownField` writes no field.
    pub fn write(&self, out: &mut Vec<Token>)
        ensures
            tokens_view(final(out)@) == tokens_view(old(out)@) + condition_tokens(self@),
        decreases *self, 1int,
    {
        let ghost start = tokens_view(out@);
        emit(out, Token::StructBegin("Condition".to_owned()));
        let ghost after_begin = tokens_view(out@);
        match self {
            Condition::not_condition(inner) => {
                emit_field_begin(out, "not_condition", TType::Struct, 1);
                inner.write(out);
                emit(out, Token::FieldEnd);
            },
            Condition::and_condition(inner) => {
                emit_field_begin(out, "and_condition", TType::List, 2);
                write_condition_list(inner, out);
                emit(out, Token::FieldEnd);
            },
            Condition::or_condition(inner) => {
                emit_field_begin(out, "or_condition", TType::List, 3);
                write_condition_list(inner, out);
                emit(out, Token::FieldEnd);
            },
            Condition::repos(inner) => {
                emit_field_begin(out, "repos", TType::List, 4);
                write_string_list(inner, out);
                emit(out, Token::FieldEnd);
            },
            Condition::platforms(inner) => {
                emit_field_begin(out, "platforms", TType::List, 5);
                write_string_list(inner, out);
                emit(out, Token::FieldEnd);
            },
            Condition::domains(inner) => {
                emit_field_begin(out, "domains", TType::List, 6);
                write_string_list(inner, out);
                emit(out, Token::FieldEnd);
            },
            Condition::tiers(inner) => {
                emit_field_begin(out, "tiers", TType::List, 7);
                write_string_list(inner, out);
                emit(out, Token::FieldEnd);
            },
            Condition::hosts(inner) => {
                emit_field_begin(out, "hosts", TType::List, 8);
                write_string_list(inner, out);
                emit(out, Token::FieldEnd);
            },
            Condition::group(inner) => {
                emit_field_begin(out, "group", TType::String, 9);
                emit(out, Token::Str(inner.clone()));
                emit(out, Token::FieldEnd);
            },
            Condition::shard(inner) => {
                emit_field_begin(out, "shard", TType::I32, 10);
                emit(out, Token::I32(*inner));
                emit(out, Token::FieldEnd);
            },
            Condition::user_shard(inner) => {
                emit_field_begin(out, "user_shard", TType::I32, 11);
                emit(out, Token::I32(*inner));
                emit(out, Token::FieldEnd);
            },
            Condition::time_shard(inner) => {
                emit_field_begin(out, "time_shard", TType::Struct, 12);
                inner.write(out);
                emit(out, Token::FieldEnd);
            },
            Condition::host_prefixes(inner) => {
                emit_field_begin(out, "host_prefixes", TType::List, 13);
                write_string_list(inner, out);
                emit(out, Token::FieldEnd);
            },
            Condition::UnknownField(_) => {},
        }
        assert(tokens_view(out@) =~= after_begin + condition_field_tokens(self@));
        emit(out, Token::FieldStop);
        emit(out, Token::StructEnd);
        assert(tokens_view(out@) =~= start + condition_tokens(self@));
    }
}

impl Hotfix {
    /// Writes the hotfix: both fields, always.
    pub fn write(&self, out: &mut Vec<Token>)
        ensures
            tokens_view(final(out)@) == tokens_view(old(out)@) + hotfix_tokens(self@),
    {
        let ghost start = tokens_view(out@);
        emit(out, Token::StructBegin("Hotfix".to_owned()));
        emit_field_begin(out, "config", TType::String, 1);
        emit(out, Token::Str(self.config.clone()));
        emit(out, Token::FieldEnd);
        emit_field_begin(out, "condition", TType::Struct, 2);
        let ghost mid = tokens_view(out@);
        self.condition.write(out);
        assert(tokens_view(out@) == mid + condition_tokens(self@.condition));
        emit(out, Token::FieldEnd);
        emit(out, Token::FieldStop);
        emit(out, Token::StructEnd);
        assert(tokens_view(out@) =~= start + hotfix_tokens(self@));
    }
}

/// Appends a list of hotfixes.
fn write_hotfix_list(v: &Vec<Hotfix>, out: &mut Vec<Token>)
    ensures
        tokens_view(final(out)@) == tokens_view(old(out)@) + hotfix_list_tokens(
            hotfixes_view(v@),
        ),
{
    let ghost hv = hotfixes_view(v@);
    let ghost target = tokens_view(old(out)@) + hotfix_list_tokens(hv);
    emit(out, Token::ListBegin(TType::Struct, v.len()));
    let mut i: usize = 0;
    while i < v.len()
        invariant
            i <= v.len(),
            hv == hotfixes_view(v@),
            target == tokens_view(out@) + hotfix_items(hv, i as int) + seq![TokenV::ListEnd],
        decreases v.len() - i,
    {
        let ghost before = tokens_view(out@);
        emit(out, Token::ListValueBegin);
        v[i].write(out);
        assert(hotfix_items(hv, i as int) == seq![TokenV::ListValueBegin] + hotfix_tokens(
            hv[i as int],
        ) + hotfix_items(hv, i + 1));
        assert(tokens_view(out@) =~= before + seq![TokenV::ListValueBegin] + hotfix_tokens(
            hv[i as int],
        ));
        i = i + 1;
    }
    emit(out, Token::ListEnd);
    assert(tokens_view(out@) =~= target);
}

impl ClientConfig {
    /// Writes the configuration: its one field, always.
    pub fn write(&self, out: &mut Vec<Token>)
        ensures
            tokens_view(final(out)@) == tokens_view(old(out)@) + client_config_tokens(self@),
    {
        let ghost start = tokens_view(out@);
        emit(out, Token::StructBegin("ClientConfig".to_owned()));
        emit_field_begin(out, "hotfixes", TType::List, 1);
        let ghost mid = tokens_view(out@);
        write_hotfix_list(&self.hotfixes, out);
        emit(out, Token::FieldEnd);
        emit(out, Token::FieldStop);
        emit(out, Token::StructEnd);
        assert(tokens_view(out@) =~= start + client_config_tokens(self@));
    }
}

} // verus!
