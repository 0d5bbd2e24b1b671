use vstd::prelude::*;

verus! {

/// The mathematical content of a stored value.
pub enum Val {
    Str(Seq<char>),
    List(Seq<Seq<char>>),
}

/// Represented value kinds in the database: a string, or a list whose
/// front is at index 0.
#[derive(Debug)]
pub enum Value {
    Str(String),
    LL(Vec<String>),
}

/// The characters of each string of a vector, in order.
pub open spec fn strings_view(v: Seq<String>) -> Seq<Seq<char>> {
    v.map_values(|s: String| s@)
}

impl View for Value {
    type V = Val;

    open spec fn view(&self) -> Val {
        match self {
            Value::Str(s) => Val::Str(s@),
            Value::LL(l) => Val::List(strings_view(l@)),
        }
    }
}

} // verus!
