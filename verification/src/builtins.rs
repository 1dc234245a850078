//! The seven built-in functions: their names, fixed signatures, and what
//! each computes.

use vstd::prelude::*;

use crate::ast::Type;
use crate::parser_spec::is_builtin_name;
use crate::text::str_eq;

verus! {

/// A built-in function. Every built-in takes exactly one argument.
#[derive(Debug, Clone, Copy, PartialEq, Eq, Structural)]
pub enum Builtin {
    Len,
    IntToString,
    StringToInt,
    BoolToInt,
    IntToBool,
    BoolToString,
    StringToBool,
}

/// The built-in called `name`, if there is one.
pub open spec fn builtin_named(name: Seq<char>) -> Option<Builtin> {
    if name == "len"@ {
        Some(Builtin::Len)
    } else if name == "int_to_string"@ {
        Some(Builtin::IntToString)
    } else if name == "string_to_int"@ {
        Some(Builtin::StringToInt)
    } else if name == "bool_to_int"@ {
        Some(Builtin::BoolToInt)
    } else if name == "int_to_bool"@ {
        Some(Builtin::IntToBool)
    } else if name == "bool_to_string"@ {
        Some(Builtin::BoolToString)
    } else if name == "string_to_bool"@ {
        Some(Builtin::StringToBool)
    } else {
        None
    }
}

/// The name under which a built-in is called.
pub open spec fn builtin_name(b: Builtin) -> Seq<char> {
    match b {
        Builtin::Len => "len"@,
        Builtin::IntToString => "int_to_string"@,
        Builtin::StringToInt => "string_to_int"@,
        Builtin::BoolToInt => "bool_to_int"@,
        Builtin::IntToBool => "int_to_bool"@,
        Builtin::BoolToString => "bool_to_string"@,
        Builtin::StringToBool => "string_to_bool"@,
    }
}

/// The type of a built-in's single parameter.
pub open spec fn builtin_parameter(b: Builtin) -> Type {
    match b {
        Builtin::Len => Type::String,
        Builtin::IntToString => Type::Int,
        Builtin::StringToInt => Type::String,
        Builtin::BoolToInt => Type::Bool,
        Builtin::IntToBool => Type::Int,
        Builtin::BoolToString => Type::Bool,
        Builtin::StringToBool => Type::String,
    }
}

/// The type of a built-in's result.
pub open spec fn builtin_result(b: Builtin) -> Type {
    match b {
        Builtin::Len => Type::Int,
        Builtin::IntToString => Type::String,
        Builtin::StringToInt => Type::Int,
        Builtin::BoolToInt => Type::Int,
        Builtin::IntToBool => Type::Bool,
        Builtin::BoolToString => Type::String,
        Builtin::StringToBool => Type::Bool,
    }
}

/// The names the parser reserves are exactly the names of the built-ins.
pub proof fn law_reserved_names_are_the_builtins(name: Seq<char>)
    ensures
        builtin_named(name) is Some <==> is_builtin_name(name),
        builtin_named(name) matches Some(b) ==> builtin_name(b) == name,
{
}

impl Builtin {
    /// The built-in called `name`, if there is one.
    pub fn named(name: &str) -> (builtin: Option<Builtin>)
        ensures
            builtin == builtin_named(name@),
    {
        if str_eq(name, "len") {
            Some(Builtin::Len)
        } else if str_eq(name, "int_to_string") {
            Some(Builtin::IntToString)
        } else if str_eq(name, "string_to_int") {
            Some(Builtin::StringToInt)
        } else if str_eq(name, "bool_to_int") {
            Some(Builtin::BoolToInt)
        } else if str_eq(name, "int_to_bool") {
            Some(Builtin::IntToBool)
        } else if str_eq(name, "bool_to_string") {
            Some(Builtin::BoolToString)
        } else if str_eq(name, "string_to_bool") {
            Some(Builtin::StringToBool)
        } else {
            None
        }
    }

    /// The name under which the built-in is called.
    pub fn name(self) -> (name: &'static str)
        ensures
            name@ == builtin_name(self),
    {
        match self {
            Builtin::Len => "len",
            Builtin::IntToString => "int_to_string",
            Builtin::StringToInt => "string_to_int",
            Builtin::BoolToInt => "bool_to_int",
            Builtin::IntToBool => "int_to_bool",
            Builtin::BoolToString => "bool_to_string",
            Builtin::StringToBool => "string_to_bool",
        }
    }

    /// The type of the built-in's parameter.
    pub fn result_type(self) -> (ty: Type)
        ensures
            ty == builtin_result(self),
    {
        match self {
            Builtin::Len => Type::Int,
            Builtin::IntToString => Type::String,
            Builtin::StringToInt => Type::Int,
            Builtin::BoolToInt => Type::Int,
            Builtin::IntToBool => Type::Bool,
            Builtin::BoolToString => Type::String,
            Builtin::StringToBool => Type::Bool,
        }
    }

    /// The type of the built-in's one parameter.
    pub fn parameter_type(self) -> (ty: Type)
        ensures
            ty == builtin_parameter(self),
    {
        match self {
            Builtin::Len => Type::String,
            Builtin::IntToString => Type::Int,
            Builtin::StringToInt => Type::String,
            Builtin::BoolToInt => Type::Bool,
            Builtin::IntToBool => Type::Int,
            Builtin::BoolToString => Type::Bool,
            Builtin::StringToBool => Type::String,
        }
    }
}

} // verus!
