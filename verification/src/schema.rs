use vstd::prelude::*;

use crate::laws::{client_config_knows, condition_knows, hotfix_knows, time_shard_knows};
use crate::failures::lemma_time_shard_layout;
use crate::token::TokenV;
use crate::ttype::TType;
use crate::types::{ClientConfigV, ConditionV, HotfixV, TimeShardV};
use crate::union::{alternative_id, alternative_name, alternative_type, condition_writes_one_field};
use crate::write::{client_config_tokens, condition_tokens, hotfix_tokens, time_shard_tokens};

verus! {

/// The structs of this library, for the tables that describe them.
#[derive(Clone, Copy, PartialEq, Eq, Debug, Structural)]
pub enum StructKind {
    TimeShard,
    Condition,
    Hotfix,
    ClientConfig,
}

/// One entry of a struct's field table: the field's name, type tag and id.
pub struct FieldDecl {
    pub name: String,
    pub ty: TType,
    pub id: i16,
}

/// The mathematical form of a `FieldDecl`.
pub struct FieldDeclV {
    pub name: Seq<char>,
    pub ty: TType,
    pub id: i16,
}

impl View for FieldDecl {
    type V = FieldDeclV;

    open spec fn view(&self) -> FieldDeclV {
        FieldDeclV { name: self.name@, ty: self.ty, id: self.id }
    }
}

/// The fields of each struct, ordered by name, as a protocol that finds
/// fields by name (such as Thrift's SimpleJSON) looks them up.
pub open spec fn field_table_spec(k: StructKind) -> Seq<FieldDeclV> {
    match k {
        StructKind::TimeShard => seq![
            FieldDeclV { name: "end"@, ty: TType::String, id: 2 },
            FieldDeclV { name: "start"@, ty: TType::String, id: 1 },
        ],
        StructKind::Condition => seq![
            FieldDeclV { name: "and_condition"@, ty: TType::List, id: 2 },
            FieldDeclV { name: "domains"@, ty: TType::List, id: 6 },
            FieldDeclV { name: "group"@, ty: TType::String, id: 9 },
            FieldDeclV { name: "host_prefixes"@, ty: TType::List, id: 13 },
            FieldDeclV { name: "hosts"@, ty: TType::List, id: 8 },
            FieldDeclV { name: "not_condition"@, ty: TType::Struct, id: 1 },
            FieldDeclV { name: "or_condition"@, ty: TType::List, id: 3 },
            FieldDeclV { name: "platforms"@, ty: TType::List, id: 5 },
            FieldDeclV { name: "repos"@, ty: TType::List, id: 4 },
            FieldDeclV { name: "shard"@, ty: TType::I32, id: 10 },
            FieldDeclV { name: "tiers"@, ty: TType::List, id: 7 },
            FieldDeclV { name: "time_shard"@, ty: TType::Struct, id: 12 },
            FieldDeclV { name: "user_shard"@, ty: TType::I32, id: 11 },
        ],
        StructKind::Hotfix => seq![
            FieldDeclV { name: "condition"@, ty: TType::Struct, id: 2 },
            FieldDeclV { name: "config"@, ty: TType::String, id: 1 },
        ],
        StructKind::ClientConfig => seq![FieldDeclV { name: "hotfixes"@, ty: TType::List, id: 1 }],
    }
}

/// The fields, by type tag and id, that the reader of each struct reads.
pub open spec fn kind_knows(k: StructKind, ty: TType, id: i16) -> bool {
    match k {
        StructKind::TimeShard => time_shard_knows(ty, id),
        StructKind::Condition => condition_knows(ty, id),
        StructKind::Hotfix => hotfix_knows(ty, id),
        StructKind::ClientConfig => client_config_knows(ty, id),
    }
}

/// The struct inside the value of a field of type tag `ty` and id `id` of
/// the struct `k`, for the fields whose value is one of this library's
/// structs or a list of them; none for the others.
pub open spec fn inner_kind_spec(k: StructKind, ty: TType, id: i16) -> Option<StructKind> {
    match k {
        StructKind::Condition => if (ty == TType::Struct && id == 1) || (ty == TType::List && (id == 2
            || id == 3)) {
            Some(StructKind::Condition)
        } else if ty == TType::Struct && id == 12 {
            Some(StructKind::TimeShard)
        } else {
            None
        },
        StructKind::Hotfix => if ty == TType::Struct && id == 2 {
            Some(StructKind::Condition)
        } else {
            None
        },
        StructKind::ClientConfig => if ty == TType::List && id == 1 {
            Some(StructKind::Hotfix)
        } else {
            None
        },
        StructKind::TimeShard => None,
    }
}

fn decl(name: &str, ty: TType, id: i16) -> (d: FieldDecl)
    ensures
        d@ == (FieldDeclV { name: name@, ty, id }),
{
    FieldDecl { name: name.to_owned(), ty, id }
}

/// The field table of the struct `k`.
pub fn field_table(k: StructKind) -> (r: Vec<FieldDecl>)
    ensures
        r@.map_values(|d: FieldDecl| d@) == field_table_spec(k),
{
    let mut v: Vec<FieldDecl> = Vec::new();
    match k {
        StructKind::TimeShard => {
            v.push(decl("end", TType::String, 2));
            v.push(decl("start", TType::String, 1));
        },
        StructKind::Condition => {
            v.push(decl("and_condition", TType::List, 2));
            v.push(decl("domains", TType::List, 6));
            v.push(decl("group", TType::String, 9));
            v.push(decl("host_prefixes", TType::List, 13));
            v.push(decl("hosts", TType::List, 8));
            v.push(decl("not_condition", TType::Struct, 1));
            v.push(decl("or_condition", TType::List, 3));
            v.push(decl("platforms", TType::List, 5));
            v.push(decl("repos", TType::List, 4));
            v.push(decl("shard", TType::I32, 10));
            v.push(decl("tiers", TType::List, 7));
            v.push(decl("time_shard", TType::Struct, 12));
            v.push(decl("user_shard", TType::I32, 11));
        },
        StructKind::Hotfix => {
            v.push(decl("condition", TType::Struct, 2));
            v.push(decl("config", TType::String, 1));
        },
        StructKind::ClientConfig => {
            v.push(decl("hotfixes", TType::List, 1));
        },
    }
    assert(v@.map_values(|d: FieldDecl| d@) =~= field_table_spec(k));
    v
}

/// The struct inside the value of a field of the struct `k`, if any.
pub fn inner_kind(k: StructKind, ty: TType, id: i16) -> (r: Option<StructKind>)
    ensures
        r == inner_kind_spec(k, ty, id),
{
    match k {
        StructKind::Condition => if (ty == TType::Struct && id == 1) || (ty == TType::List && (id == 2
            || id == 3)) {
            Some(StructKind::Condition)
        } else if ty == TType::Struct && id == 12 {
            Some(StructKind::TimeShard)
        } else {
            None
        },
        StructKind::Hotfix => if ty == TType::Struct && id == 2 {
            Some(StructKind::Condition)
        } else {
            None
        },
        StructKind::ClientConfig => if ty == TType::List && id == 1 {
            Some(StructKind::Hotfix)
        } else {
            None
        },
        StructKind::TimeShard => None,
    }
}

/// A struct's field table lists exactly the fields that its reader reads:
/// a type tag and id stand in the table if and only if the reader knows
/// them; and every field with a struct inside is one that it reads.
pub proof fn field_table_is_what_is_read(k: StructKind, ty: TType, id: i16)
    ensures
        (exists|i: int|
            0 <= i < field_table_spec(k).len() && #[trigger] field_table_spec(k)[i].ty == ty
                && field_table_spec(k)[i].id == id) <==> kind_knows(k, ty, id),
        inner_kind_spec(k, ty, id) is Some ==> kind_knows(k, ty, id),
{
    let t = field_table_spec(k);
    assert forall|j: int| 0 <= j < t.len() implies kind_knows(k, #[trigger] t[j].ty, t[j].id) by {
        if j == 0 {} else if j == 1 {} else if j == 2 {} else if j == 3 {} else if j == 4 {}
        else if j == 5 {} else if j == 6 {} else if j == 7 {} else if j == 8 {} else if j == 9 {}
        else if j == 10 {} else if j == 11 {} else {}
    }
    if kind_knows(k, ty, id) {
        match k {
            StructKind::TimeShard => {
                if id == 2 {
                    assert(t[0].ty == ty && t[0].id == id);
                } else {
                    assert(t[1].ty == ty && t[1].id == id);
                }
            },
            StructKind::Condition => {
                if ty == TType::List && id == 2 { assert(t[0].ty == ty && t[0].id == id); }
                else if ty == TType::List && id == 6 { assert(t[1].ty == ty && t[1].id == id); }
                else if ty == TType::String && id == 9 { assert(t[2].ty == ty && t[2].id == id); }
                else if ty == TType::List && id == 13 { assert(t[3].ty == ty && t[3].id == id); }
                else if ty == TType::List && id == 8 { assert(t[4].ty == ty && t[4].id == id); }
                else if ty == TType::Struct && id == 1 { assert(t[5].ty == ty && t[5].id == id); }
                else if ty == TType::List && id == 3 { assert(t[6].ty == ty && t[6].id == id); }
                else if ty == TType::List && id == 5 { assert(t[7].ty == ty && t[7].id == id); }
                else if ty == TType::List && id == 4 { assert(t[8].ty == ty && t[8].id == id); }
                else if ty == TType::I32 && id == 10 { assert(t[9].ty == ty && t[9].id == id); }
                else if ty == TType::List && id == 7 { assert(t[10].ty == ty && t[10].id == id); }
                else if ty == TType::Struct && id == 12 { assert(t[11].ty == ty && t[11].id == id); }
                else { assert(t[12].ty == ty && t[12].id == id); }
            },
            StructKind::Hotfix => {
                if id == 2 {
                    assert(t[0].ty == ty && t[0].id == id);
                } else {
                    assert(t[1].ty == ty && t[1].id == id);
                }
            },
            StructKind::ClientConfig => {
                assert(t[0].ty == ty && t[0].id == id);
            },
        }
    }
}

/// Whether the table holds an entry with this name, type tag and id.
pub open spec fn table_has(t: Seq<FieldDeclV>, name: Seq<char>, ty: TType, id: i16) -> bool {
    exists|i: int| 0 <= i < t.len() && #[trigger] t[i] == (FieldDeclV { name, ty, id })
}

/// Whether the token is a field header that the table holds, under the
/// same name, type tag and id.
pub open spec fn header_in_table(tok: TokenV, t: Seq<FieldDeclV>) -> bool {
    match tok {
        TokenV::FieldBegin(name, ty, id) => table_has(t, name, ty, id),
        _ => false,
    }
}

/// A struct's field table names each field as its writer names it: every
/// field header that the writer of a time shard, a condition (of any
/// alternative), a hotfix or a client configuration emits for its own
/// fields stands in that struct's table with the same name, type tag and
/// id, so that a protocol that finds fields by name maps every written
/// field back to its id.
pub proof fn field_table_names_written_fields(t: TimeShardV, c: ConditionV, h: HotfixV, cc: ClientConfigV)
    ensures
        header_in_table(time_shard_tokens(t)[1], field_table_spec(StructKind::TimeShard)),
        header_in_table(time_shard_tokens(t)[4], field_table_spec(StructKind::TimeShard)),
        !(c is UnknownField) ==> header_in_table(condition_tokens(c)[1], field_table_spec(StructKind::Condition)),
        header_in_table(hotfix_tokens(h)[1], field_table_spec(StructKind::Hotfix)),
        header_in_table(hotfix_tokens(h)[4], field_table_spec(StructKind::Hotfix)),
        header_in_table(client_config_tokens(cc)[1], field_table_spec(StructKind::ClientConfig)),
{
    let ts = field_table_spec(StructKind::TimeShard);
    lemma_time_shard_layout(t);
    assert(ts[1] == FieldDeclV { name: "start"@, ty: TType::String, id: 1 });
    assert(ts[0] == FieldDeclV { name: "end"@, ty: TType::String, id: 2 });
    let hs = field_table_spec(StructKind::Hotfix);
    let htoks = hotfix_tokens(h);
    assert(htoks =~= seq![
        TokenV::StructBegin("Hotfix"@),
        TokenV::FieldBegin("config"@, TType::String, 1),
        TokenV::Str(h.config),
        TokenV::FieldEnd,
        TokenV::FieldBegin("condition"@, TType::Struct, 2),
    ] + condition_tokens(h.condition) + seq![TokenV::FieldEnd, TokenV::FieldStop, TokenV::StructEnd]);
    assert(htoks[1] == TokenV::FieldBegin("config"@, TType::String, 1));
    assert(htoks[4] == TokenV::FieldBegin("condition"@, TType::Struct, 2));
    assert(hs[1] == FieldDeclV { name: "config"@, ty: TType::String, id: 1 });
    assert(hs[0] == FieldDeclV { name: "condition"@, ty: TType::Struct, id: 2 });
    let cs = field_table_spec(StructKind::ClientConfig);
    assert(client_config_tokens(cc)[1] == TokenV::FieldBegin("hotfixes"@, TType::List, 1));
    assert(cs[0] == FieldDeclV { name: "hotfixes"@, ty: TType::List, id: 1 });
    if !(c is UnknownField) {
        let k = field_table_spec(StructKind::Condition);
        condition_writes_one_field(c);
        let id = alternative_id(c);
        let d = FieldDeclV { name: alternative_name(id), ty: alternative_type(id), id };
        assert(condition_tokens(c)[1] == TokenV::FieldBegin(alternative_name(id), alternative_type(id), id));
        if id == 1 { assert(k[5] == d); }
        else if id == 2 { assert(k[0] == d); }
        else if id == 3 { assert(k[6] == d); }
        else if id == 4 { assert(k[8] == d); }
        else if id == 5 { assert(k[7] == d); }
        else if id == 6 { assert(k[1] == d); }
        else if id == 7 { assert(k[10] == d); }
        else if id == 8 { assert(k[4] == d); }
        else if id == 9 { assert(k[2] == d); }
        else if id == 10 { assert(k[9] == d); }
        else if id == 11 { assert(k[12] == d); }
        else if id == 12 { assert(k[11] == d); }
        else { assert(k[3] == d); }
    }
}

} // verus!
