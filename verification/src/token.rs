use vstd::prelude::*;

use crate::ttype::TType;

verus! {

/// One event of a Thrift protocol stream: what a protocol writer is asked to
/// emit, in order, and what a protocol reader hands out, in order.
///
/// A `double` is carried by its IEEE-754 bits and a `float` likewise.
#[derive(Clone, Debug, PartialEq, Eq)]
pub enum Token {
    StructBegin(String),
    StructEnd,
    FieldBegin(String, TType, i16),
    FieldEnd,
    FieldStop,
    MapBegin(TType, TType, usize),
    MapKeyBegin,
    MapValueBegin,
    MapEnd,
    ListBegin(TType, usize),
    ListValueBegin,
    ListEnd,
    SetBegin(TType, usize),
    SetValueBegin,
    SetEnd,
    Bool(bool),
    Byte(i8),
    I16(i16),
    I32(i32),
    I64(i64),
    Double(u64),
    Float(u32),
    Str(String),
    Bin(Vec<u8>),
}

/// The mathematical form of a `Token`: strings as character sequences and
/// binary payloads as byte sequences.
pub enum TokenV {
    StructBegin(Seq<char>),
    StructEnd,
    FieldBegin(Seq<char>, TType, i16),
    FieldEnd,
    FieldStop,
    MapBegin(TType, TType, usize),
    MapKeyBegin,
    MapValueBegin,
    MapEnd,
    ListBegin(TType, usize),
    ListValueBegin,
    ListEnd,
    SetBegin(TType, usize),
    SetValueBegin,
    SetEnd,
    Bool(bool),
    Byte(i8),
    I16(i16),
    I32(i32),
    I64(i64),
    Double(u64),
    Float(u32),
    Str(Seq<char>),
    Bin(Seq<u8>),
}

impl View for Token {
    type V = TokenV;

    open spec fn view(&self) -> TokenV {
        match self {
            Token::StructBegin(n) => TokenV::StructBegin(n@),
            Token::StructEnd => TokenV::StructEnd,
            Token::FieldBegin(n, t, i) => TokenV::FieldBegin(n@, *t, *i),
            Token::FieldEnd => TokenV::FieldEnd,
            Token::FieldStop => TokenV::FieldStop,
            Token::MapBegin(k, v, n) => TokenV::MapBegin(*k, *v, *n),
            Token::MapKeyBegin => TokenV::MapKeyBegin,
            Token::MapValueBegin => TokenV::MapValueBegin,
            Token::MapEnd => TokenV::MapEnd,
            Token::ListBegin(t, n) => TokenV::ListBegin(*t, *n),
            Token::ListValueBegin => TokenV::ListValueBegin,
            Token::ListEnd => TokenV::ListEnd,
            Token::SetBegin(t, n) => TokenV::SetBegin(*t, *n),
            Token::SetValueBegin => TokenV::SetValueBegin,
            Token::SetEnd => TokenV::SetEnd,
            Token::Bool(b) => TokenV::Bool(*b),
            Token::Byte(b) => TokenV::Byte(*b),
            Token::I16(v) => TokenV::I16(*v),
            Token::I32(v) => TokenV::I32(*v),
            Token::I64(v) => TokenV::I64(*v),
            Token::Double(v) => TokenV::Double(*v),
            Token::Float(v) => TokenV::Float(*v),
            Token::Str(s) => TokenV::Str(s@),
            Token::Bin(b) => TokenV::Bin(b@),
        }
    }
}

/// The mathematical form of a token stream.
pub open spec fn tokens_view(ts: Seq<Token>) -> Seq<TokenV> {
    ts.map_values(|t: Token| t@)
}

} // verus!
