//! The closed set of types that the checker knows.

use vstd::prelude::*;
use crate::text::same_text;

verus! {

/// One of the seven supported type categories.
#[derive(Debug, Clone, Copy, PartialEq, Eq, Hash, Structural)]
pub enum PythonType {
    Int,
    Float,
    String,
    Bool,
    List,
    Dict,
    Tuple,
}

impl PythonType {
    /// The canonical lower-case name of a type, as it is written in an
    /// annotation and shown in messages.
    pub open spec fn spec_name(self) -> Seq<char> {
        match self {
            PythonType::Int => "int"@,
            PythonType::Float => "float"@,
            PythonType::String => "str"@,
            PythonType::Bool => "bool"@,
            PythonType::List => "list"@,
            PythonType::Dict => "dict"@,
            PythonType::Tuple => "tuple"@,
        }
    }

    /// The type that a name stands for: exactly the seven canonical names
    /// are known, and nothing else is.
    pub open spec fn spec_from_name(name: Seq<char>) -> Option<PythonType> {
        if name == "int"@ {
            Some(PythonType::Int)
        } else if name == "float"@ {
            Some(PythonType::Float)
        } else if name == "str"@ {
            Some(PythonType::String)
        } else if name == "bool"@ {
            Some(PythonType::Bool)
        } else if name == "list"@ {
            Some(PythonType::List)
        } else if name == "dict"@ {
            Some(PythonType::Dict)
        } else if name == "tuple"@ {
            Some(PythonType::Tuple)
        } else {
            None
        }
    }

    /// Whether a value of type `actual` may be stored where `expected` is
    /// asked for: the two are the same, or a boolean widens to an integer.
    pub open spec fn spec_is_assignable(actual: PythonType, expected: PythonType) -> bool {
        actual == expected || (actual == PythonType::Bool && expected == PythonType::Int)
    }

    /// The canonical name of this type.
    pub fn name(&self) -> (text: &'static str)
        ensures
            text@ == self.spec_name(),
    {
        match self {
            PythonType::Int => "int",
            PythonType::Float => "float",
            PythonType::String => "str",
            PythonType::Bool => "bool",
            PythonType::List => "list",
            PythonType::Dict => "dict",
            PythonType::Tuple => "tuple",
        }
    }

    /// The canonical name of this type, as an owned string.
    pub fn to_string(&self) -> (text: String)
        ensures
            text@ == self.spec_name(),
    {
        self.name().to_owned()
    }

    /// Looks a type up by its canonical name. Any other text is unknown.
    pub fn from_name(name: &str) -> (found: Option<PythonType>)
        ensures
            found == PythonType::spec_from_name(name@),
    {
        if same_text(name, "int") {
            Some(PythonType::Int)
        } else if same_text(name, "float") {
            Some(PythonType::Float)
        } else if same_text(name, "str") {
            Some(PythonType::String)
        } else if same_text(name, "bool") {
            Some(PythonType::Bool)
        } else if same_text(name, "list") {
            Some(PythonType::List)
        } else if same_text(name, "dict") {
            Some(PythonType::Dict)
        } else if same_text(name, "tuple") {
            Some(PythonType::Tuple)
        } else {
            None
        }
    }

    /// Whether a value of type `actual` may be stored where `expected` is
    /// asked for.
    pub fn is_assignable(actual: PythonType, expected: PythonType) -> (fits: bool)
        ensures
            fits == PythonType::spec_is_assignable(actual, expected),
    {
        if actual == expected {
            return true;
        }
        matches!((actual, expected), (PythonType::Bool, PythonType::Int))
    }
}

impl std::str::FromStr for PythonType {
    type Err = ();

    fn from_str(s: &str) -> (parsed: Result<PythonType, ()>)
        ensures
            parsed == match PythonType::spec_from_name(s@) {
                Some(t) => Ok::<PythonType, ()>(t),
                None => Err::<PythonType, ()>(()),
            },
    {
        match PythonType::from_name(s) {
            Some(t) => Ok(t),
            None => Err(()),
        }
    }
}

/// The seven canonical names are pairwise different.
pub proof fn lemma_names_differ(a: PythonType, b: PythonType)
    ensures
        a.spec_name() == b.spec_name() <==> a == b,
{
    reveal_strlit("int");
    reveal_strlit("float");
    reveal_strlit("str");
    reveal_strlit("bool");
    reveal_strlit("list");
    reveal_strlit("dict");
    reveal_strlit("tuple");
    if a != b && a.spec_name() == b.spec_name() {
        assert(a.spec_name().len() == b.spec_name().len());
        assert(a.spec_name()[0] == b.spec_name()[0]);
    }
}

/// Looking a type's canonical name up gives that type back.
pub proof fn lemma_name_round_trip(t: PythonType)
    ensures
        PythonType::spec_from_name(t.spec_name()) == Some(t),
{
    lemma_names_differ(t, PythonType::Int);
    lemma_names_differ(t, PythonType::Float);
    lemma_names_differ(t, PythonType::String);
    lemma_names_differ(t, PythonType::Bool);
    lemma_names_differ(t, PythonType::List);
    lemma_names_differ(t, PythonType::Dict);
    lemma_names_differ(t, PythonType::Tuple);
}

/// A name that is known is the canonical name of the type it stands for:
/// looking a name up and naming the result gives the same text back.
pub proof fn lemma_known_name_is_canonical(name: Seq<char>)
    requires
        PythonType::spec_from_name(name) is Some,
    ensures
        PythonType::spec_from_name(name).unwrap().spec_name() == name,
{
}

/// Assignability is the identity on types plus the single widening from
/// boolean to integer: every type fits itself, a boolean fits an integer,
/// and no other pair of different types fits.
pub proof fn lemma_assignable_pairs(actual: PythonType, expected: PythonType)
    ensures
        PythonType::spec_is_assignable(actual, actual),
        PythonType::spec_is_assignable(PythonType::Bool, PythonType::Int),
        actual != expected && PythonType::spec_is_assignable(actual, expected) ==> actual
            == PythonType::Bool && expected == PythonType::Int,
        !PythonType::spec_is_assignable(PythonType::Int, PythonType::Bool),
        !PythonType::spec_is_assignable(PythonType::Int, PythonType::Float),
{
}

} // verus!
