use vstd::prelude::*;

verus! {

/// The type tag that a Thrift protocol attaches to a field, a list element,
/// a set element, or a map key or value. `MapOf` and `SetOf` are the
/// protocol's map and set tags.
#[derive(Clone, Copy, PartialEq, Eq, Debug, Structural)]
pub enum TType {
    Stop,
    Void,
    Bool,
    Byte,
    Double,
    I16,
    I32,
    I64,
    String,
    Struct,
    MapOf,
    SetOf,
    List,
    UTF8,
    UTF16,
    Stream,
    Float,
}

} // verus!
