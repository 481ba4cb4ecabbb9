//! The names that the types of arguments go by in command definitions.
use super::value::{ArrayType, ValueType};
use crate::parse::classic::parsing::same_text;
use crate::parse::{text_of, to_chars};
use vstd::prelude::*;
use vstd::string::StringExecFns;

verus! {

/// The name of the type of the elements of an array.
pub open spec fn array_type_text(inner: ArrayType) -> Seq<char> {
    match inner {
        ArrayType::Word => "u32"@,
        ArrayType::SignedWord => "i32"@,
        ArrayType::Byte => "u8"@,
        ArrayType::SignedByte => "i8"@,
        ArrayType::Half => "u16"@,
        ArrayType::SignedHalf => "i16"@,
        ArrayType::String => "str"@,
        ArrayType::Utf16 => "wstr"@,
        ArrayType::TfPointer => "sub"@,
        ArrayType::TfPointerSync => "sub_sync"@,
    }
}

/// `count` pairs of square brackets.
pub open spec fn brackets(count: nat) -> Seq<char>
    decreases count,
{
    if count == 0 {
        Seq::empty()
    } else {
        brackets((count - 1) as nat) + "[]"@
    }
}

/// The name of a type: for an array, the name of the type of its elements
/// and a pair of square brackets for each of its levels.
pub open spec fn type_text(ty: ValueType) -> Seq<char> {
    match ty {
        ValueType::Bool => "bool"@,
        ValueType::Signed => "int"@,
        ValueType::Unsigned => "uint"@,
        ValueType::String => "str"@,
        ValueType::Utf16 => "wstr"@,
        ValueType::Array { depth, inner } => array_type_text(inner) + brackets(depth as nat),
        ValueType::TfPointer => "sub"@,
        ValueType::TfPointerSync => "sub_sync"@,
    }
}

/// The type of the elements of an array that goes by a name.
pub open spec fn array_type_named(name: Seq<char>) -> Option<ArrayType> {
    if name == "u32"@ {
        Some(ArrayType::Word)
    } else if name == "s32"@ || name == "i32"@ {
        Some(ArrayType::SignedWord)
    } else if name == "u8"@ {
        Some(ArrayType::Byte)
    } else if name == "i8"@ || name == "s8"@ {
        Some(ArrayType::SignedByte)
    } else if name == "u16"@ {
        Some(ArrayType::Half)
    } else if name == "i16"@ || name == "s16"@ {
        Some(ArrayType::SignedHalf)
    } else if name == "str"@ {
        Some(ArrayType::String)
    } else if name == "wstr"@ || name == "ustr"@ {
        Some(ArrayType::Utf16)
    } else if name == "sub"@ {
        Some(ArrayType::TfPointer)
    } else if name == "sub_sync"@ {
        Some(ArrayType::TfPointerSync)
    } else {
        None
    }
}

/// The number of pairs of square brackets at the end of the first `upto`
/// characters of a name.
pub open spec fn bracket_pairs(name: Seq<char>, upto: int) -> nat
    decreases upto,
{
    if 2 <= upto <= name.len() && name[upto - 2] == '[' && name[upto - 1] == ']' {
        1 + bracket_pairs(name, upto - 2)
    } else {
        0
    }
}

/// The type that goes by a name. A name that ends with square brackets is
/// that of an array with one level for each pair of them, of which there
/// can be 255 at most.
pub open spec fn type_named(name: Seq<char>) -> Option<ValueType> {
    let depth = bracket_pairs(name, name.len() as int);
    if depth > 0 {
        if depth > u8::MAX {
            None
        } else {
            match array_type_named(name.take(name.len() - 2 * depth)) {
                Some(inner) => Some(ValueType::Array { depth: depth as u8, inner }),
                None => None,
            }
        }
    } else if name == "bool"@ {
        Some(ValueType::Bool)
    } else if name == "int"@ {
        Some(ValueType::Signed)
    } else if name == "uint"@ {
        Some(ValueType::Unsigned)
    } else if name == "str"@ {
        Some(ValueType::String)
    } else if name == "wstr"@ || name == "ustr"@ {
        Some(ValueType::Utf16)
    } else if name == "sub"@ {
        Some(ValueType::TfPointer)
    } else if name == "sub_sync"@ {
        Some(ValueType::TfPointerSync)
    } else {
        None
    }
}

/// The name of a type.
#[verifier::rlimit(50)]
pub fn name_of_type(ty: &ValueType) -> (name: String)
    ensures
        name@ == type_text(*ty),
{
    match ty {
        ValueType::Bool => String::from_str("bool"),
        ValueType::Signed => String::from_str("int"),
        ValueType::Unsigned => String::from_str("uint"),
        ValueType::String => String::from_str("str"),
        ValueType::Utf16 => String::from_str("wstr"),
        ValueType::Array { depth, inner } => {
            let mut tmp_str = String::from_str(
                match inner {
                    ArrayType::Word => "u32",
                    ArrayType::SignedWord => "i32",
                    ArrayType::Byte => "u8",
                    ArrayType::SignedByte => "i8",
                    ArrayType::Half => "u16",
                    ArrayType::SignedHalf => "i16",
                    ArrayType::String => "str",
                    ArrayType::Utf16 => "wstr",
                    ArrayType::TfPointer => "sub",
                    ArrayType::TfPointerSync => "sub_sync",
                },
            );
            let ghost base = tmp_str@;
            let mut i: u8 = 0;
            assert(tmp_str@ =~= base + brackets(0));
            while i < *depth
                invariant
                    i <= *depth,
                    tmp_str@ == base + brackets(i as nat),
                decreases *depth - i,
            {
                tmp_str.append("[]");
                i += 1;
                assert(tmp_str@ =~= base + brackets(i as nat));
            }
            tmp_str
        },
        ValueType::TfPointer => String::from_str("sub"),
        ValueType::TfPointerSync => String::from_str("sub_sync"),
    }
}

/// The type of the elements of an array that goes by a name.
pub fn get_arr_inner_type(ty: &str) -> (inner: Option<ArrayType>)
    ensures
        inner == array_type_named(ty@),
{
    if same_text(ty, "u32") {
        Some(ArrayType::Word)
    } else if same_text(ty, "s32") || same_text(ty, "i32") {
        Some(ArrayType::SignedWord)
    } else if same_text(ty, "u8") {
        Some(ArrayType::Byte)
    } else if same_text(ty, "i8") || same_text(ty, "s8") {
        Some(ArrayType::SignedByte)
    } else if same_text(ty, "u16") {
        Some(ArrayType::Half)
    } else if same_text(ty, "i16") || same_text(ty, "s16") {
        Some(ArrayType::SignedHalf)
    } else if same_text(ty, "str") {
        Some(ArrayType::String)
    } else if same_text(ty, "wstr") || same_text(ty, "ustr") {
        Some(ArrayType::Utf16)
    } else if same_text(ty, "sub") {
        Some(ArrayType::TfPointer)
    } else if same_text(ty, "sub_sync") {
        Some(ArrayType::TfPointerSync)
    } else {
        None
    }
}

/// The type that goes by a name.
#[verifier::rlimit(50)]
pub fn get_val_type(ty: &str) -> (found: Option<ValueType>)
    ensures
        found == type_named(ty@),
{
    let chars = to_chars(ty);
    let len = chars.len();
    let mut upto: usize = len;
    let mut depth: usize = 0;
    while upto >= 2 && chars[upto - 2] == '[' && chars[upto - 1] == ']'
        invariant
            upto <= len,
            len == chars.len(),
            depth * 2 + upto == len,
            bracket_pairs(chars@, len as int) == depth + bracket_pairs(chars@, upto as int),
        decreases upto,
    {
        upto -= 2;
        depth += 1;
    }
    if depth > 0 {
        if depth > 255 {
            return None;
        }
        let s = text_of(&chars, 0, upto);
        assert(s@ =~= ty@.take(ty@.len() - 2 * depth));
        match get_arr_inner_type(s.as_str()) {
            Some(inner) => Some(ValueType::Array { depth: depth as u8, inner }),
            None => None,
        }
    } else if same_text(ty, "bool") {
        Some(ValueType::Bool)
    } else if same_text(ty, "int") {
        Some(ValueType::Signed)
    } else if same_text(ty, "uint") {
        Some(ValueType::Unsigned)
    } else if same_text(ty, "str") {
        Some(ValueType::String)
    } else if same_text(ty, "wstr") || same_text(ty, "ustr") {
        Some(ValueType::Utf16)
    } else if same_text(ty, "sub") {
        Some(ValueType::TfPointer)
    } else if same_text(ty, "sub_sync") {
        Some(ValueType::TfPointerSync)
    } else {
        None
    }
}

/// The definition of a command: its names, its number and discriminator,
/// and its arguments.
#[derive(Clone, Debug)]
pub struct TickflowCmdDef {
    pub name: String,
    pub tks_name: Option<String>,
    pub cmd: u32,
    pub arg0: Option<u32>,
    pub args: Vec<TickflowArgDef>,
}

/// The definition of an argument of a command: its name, its type, and
/// where it goes.
#[derive(Clone, Debug)]
pub struct TickflowArgDef {
    pub name: Option<String>,
    pub tf_type: ValueType,
    pub into: ArgInto,
}

/// Where an argument of a command goes: into the discriminator, or into
/// one of the argument words.
#[derive(Clone, Debug, PartialEq, Eq, PartialOrd, Ord)]
pub enum ArgInto {
    Arg0,
    ArgPos(u32),
}

} // verus!
