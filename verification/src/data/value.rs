//! The values that the arguments of a Tickflow operation take once they are
//! parsed, and their types.
use super::{RawOp, RawTickflowOp};
use crate::endian::i32_bits;
use vstd::prelude::*;
use vstd::std_specs::convert::FromSpecImpl;

verus! {

/// Tickflow operation ready for compilation
#[derive(Debug, Clone)]
pub struct TickflowOp {
    pub op: u16,
    pub arg0: u32,
    pub args: Vec<Value>,
    pub scene: i32,
}

#[derive(Debug, Clone)]
pub enum Value {
    Bool(bool),
    Signed(i32),
    Unsigned(u32),
    String(String),
    Utf16(String),
    Array(Array),
    TfPointer(TfPointer),
    TfPointerSync(TfPointer),
}

#[derive(Debug, Clone, Copy, PartialEq, Eq, Structural)]
pub enum ValueType {
    Bool,
    Signed,
    Unsigned,
    String,
    Utf16,
    Array { depth: u8, inner: ArrayType },
    TfPointer,
    TfPointerSync,
}

#[derive(Debug, Clone, Copy, PartialEq, Eq, Structural)]
pub enum ArrayType {
    Word,
    SignedWord,
    Byte,
    SignedByte,
    Half,
    SignedHalf,
    String,
    Utf16,
    TfPointer,
    TfPointerSync,
}

#[derive(Debug)]
pub enum Array {
    Word(Vec<u32>),
    SignedWord(Vec<i32>),
    Byte(Vec<u8>),
    SignedByte(Vec<i8>),
    Half(Vec<u16>),
    SignedHalf(Vec<i16>),
    String(Vec<String>),
    Utf16(Vec<String>),
    TfPointer(Vec<TfPointer>),
    Arrays(Box<Array>),
}

#[derive(Debug)]
pub enum TfPointer {
    Raw(u32),
    Label(String),
}

impl Clone for TfPointer {
    fn clone(&self) -> (copy: Self)
        ensures
            copy == *self,
    {
        match self {
            TfPointer::Raw(c) => TfPointer::Raw(*c),
            TfPointer::Label(c) => TfPointer::Label(c.clone()),
        }
    }
}

/// What an [`Array`] holds.
pub ghost enum Elements {
    Word(Seq<u32>),
    SignedWord(Seq<i32>),
    Byte(Seq<u8>),
    SignedByte(Seq<i8>),
    Half(Seq<u16>),
    SignedHalf(Seq<i16>),
    String(Seq<Seq<char>>),
    Utf16(Seq<Seq<char>>),
    TfPointer(Seq<TfPointer>),
    Arrays(Box<Elements>),
}

/// The texts of a list of strings.
pub open spec fn texts(strings: Seq<String>) -> Seq<Seq<char>> {
    Seq::new(strings.len(), |i: int| strings[i]@)
}

impl Array {
    /// What the array holds.
    pub open spec fn elements(self) -> Elements
        decreases self,
    {
        match self {
            Array::Word(c) => Elements::Word(c@),
            Array::SignedWord(c) => Elements::SignedWord(c@),
            Array::Byte(c) => Elements::Byte(c@),
            Array::SignedByte(c) => Elements::SignedByte(c@),
            Array::Half(c) => Elements::Half(c@),
            Array::SignedHalf(c) => Elements::SignedHalf(c@),
            Array::String(c) => Elements::String(texts(c@)),
            Array::Utf16(c) => Elements::Utf16(texts(c@)),
            Array::TfPointer(c) => Elements::TfPointer(c@),
            Array::Arrays(c) => Elements::Arrays(Box::new((*c).elements())),
        }
    }
}

impl Clone for Array {
    /// A copy that holds what the array holds.
    fn clone(&self) -> (copy: Self)
        ensures
            copy.elements() == self.elements(),
        decreases self,
    {
        match self {
            Array::Word(c) => Array::Word(c.clone()),
            Array::SignedWord(c) => Array::SignedWord(c.clone()),
            Array::Byte(c) => Array::Byte(c.clone()),
            Array::SignedByte(c) => Array::SignedByte(c.clone()),
            Array::Half(c) => Array::Half(c.clone()),
            Array::SignedHalf(c) => Array::SignedHalf(c.clone()),
            Array::String(c) => Array::String(c.clone()),
            Array::Utf16(c) => Array::Utf16(c.clone()),
            Array::TfPointer(c) => Array::TfPointer(c.clone()),
            Array::Arrays(c) => {
                let inner: &Array = &**c;
                Array::Arrays(Box::new(inner.clone()))
            },
        }
    }
}

impl Array {
    /// The number of array levels: one for a flat array, one more for each
    /// array that it is wrapped in.
    pub open spec fn depth(&self) -> nat
        decreases self,
    {
        match self {
            Array::Arrays(inner) => 1 + inner.depth(),
            _ => 1,
        }
    }

    /// The type of the elements at the innermost level.
    pub open spec fn element_type(&self) -> ArrayType
        decreases self,
    {
        match self {
            Array::Word(_) => ArrayType::Word,
            Array::SignedWord(_) => ArrayType::SignedWord,
            Array::Byte(_) => ArrayType::Byte,
            Array::SignedByte(_) => ArrayType::SignedByte,
            Array::Half(_) => ArrayType::Half,
            Array::SignedHalf(_) => ArrayType::SignedHalf,
            Array::String(_) => ArrayType::String,
            Array::Utf16(_) => ArrayType::Utf16,
            Array::TfPointer(_) => ArrayType::TfPointer,
            Array::Arrays(inner) => inner.element_type(),
        }
    }

    /// An array has at least one level.
    pub proof fn lemma_depth_positive(&self)
        ensures
            self.depth() >= 1,
    {
    }

    /// The number of array levels. It must fit the eight bits that a type
    /// gives it.
    #[verifier::rlimit(50)]
    pub fn get_depth(&self) -> (depth: u8)
        requires
            self.depth() <= u8::MAX,
        ensures
            depth == self.depth(),
    {
        let mut depth: u8 = 1;
        let mut ar = self;
        loop
            invariant
                depth + ar.depth() == self.depth() + 1,
                self.depth() <= u8::MAX,
                depth >= 1,
            ensures
                depth == self.depth(),
            decreases ar.depth(),
        {
            match ar {
                Array::Arrays(c) => {
                    proof {
                        c.lemma_depth_positive();
                    }
                    depth += 1;
                    ar = &**c;
                },
                _ => {
                    break ;
                },
            }
        }
        depth
    }

    /// The type of the elements at the innermost level.
    #[verifier::rlimit(50)]
    pub fn get_type(&self) -> (inner: ArrayType)
        ensures
            inner == self.element_type(),
    {
        let mut ar = self;
        loop
            invariant
                ar.element_type() == self.element_type(),
            decreases ar.depth(),
        {
            match ar {
                Array::Word(_) => {
                    return ArrayType::Word;
                },
                Array::SignedWord(_) => {
                    return ArrayType::SignedWord;
                },
                Array::Byte(_) => {
                    return ArrayType::Byte;
                },
                Array::SignedByte(_) => {
                    return ArrayType::SignedByte;
                },
                Array::Half(_) => {
                    return ArrayType::Half;
                },
                Array::SignedHalf(_) => {
                    return ArrayType::SignedHalf;
                },
                Array::String(_) => {
                    return ArrayType::String;
                },
                Array::Utf16(_) => {
                    return ArrayType::Utf16;
                },
                Array::TfPointer(_) => {
                    return ArrayType::TfPointer;
                },
                Array::Arrays(c) => {
                    ar = &**c;
                },
            }
        }
    }
}

impl Value {
    /// The type of the value. A pointer counts as a plain pointer whether
    /// it is synchronous or not.
    pub open spec fn type_of(&self) -> ValueType {
        match self {
            Value::Bool(_) => ValueType::Bool,
            Value::Signed(_) => ValueType::Signed,
            Value::Unsigned(_) => ValueType::Unsigned,
            Value::String(_) => ValueType::String,
            Value::Utf16(_) => ValueType::Utf16,
            Value::Array(c) => ValueType::Array {
                depth: c.depth() as u8,
                inner: c.element_type(),
            },
            Value::TfPointer(_) => ValueType::TfPointer,
            Value::TfPointerSync(_) => ValueType::TfPointer,
        }
    }

    /// Whether the type of the value can be given: an array has no more
    /// levels than a type can count.
    pub open spec fn has_type(&self) -> bool {
        self matches Value::Array(c) ==> c.depth() <= u8::MAX
    }

    pub fn get_type(&self) -> (ty: ValueType)
        requires
            self.has_type(),
        ensures
            ty == self.type_of(),
    {
        match self {
            Value::Bool(_) => ValueType::Bool,
            Value::Signed(_) => ValueType::Signed,
            Value::Unsigned(_) => ValueType::Unsigned,
            Value::String(_) => ValueType::String,
            Value::Utf16(_) => ValueType::Utf16,
            Value::Array(c) => ValueType::Array { depth: c.get_depth(), inner: c.get_type() },
            Value::TfPointer(_) => ValueType::TfPointer,
            Value::TfPointerSync(_) => ValueType::TfPointer,
        }
    }
}

impl From<Vec<u32>> for Array {
    fn from(vec: Vec<u32>) -> (made: Self) {
        Self::Word(vec)
    }
}

impl FromSpecImpl<Vec<u32>> for Array {
    open spec fn obeys_from_spec() -> bool {
        true
    }

    open spec fn from_spec(vec: Vec<u32>) -> Self {
        Array::Word(vec)
    }
}

impl From<Vec<i32>> for Array {
    fn from(vec: Vec<i32>) -> (made: Self) {
        Self::SignedWord(vec)
    }
}

impl FromSpecImpl<Vec<i32>> for Array {
    open spec fn obeys_from_spec() -> bool {
        true
    }

    open spec fn from_spec(vec: Vec<i32>) -> Self {
        Array::SignedWord(vec)
    }
}

impl From<Vec<u16>> for Array {
    fn from(vec: Vec<u16>) -> (made: Self) {
        Self::Half(vec)
    }
}

impl FromSpecImpl<Vec<u16>> for Array {
    open spec fn obeys_from_spec() -> bool {
        true
    }

    open spec fn from_spec(vec: Vec<u16>) -> Self {
        Array::Half(vec)
    }
}

impl From<Vec<i16>> for Array {
    fn from(vec: Vec<i16>) -> (made: Self) {
        Self::SignedHalf(vec)
    }
}

impl FromSpecImpl<Vec<i16>> for Array {
    open spec fn obeys_from_spec() -> bool {
        true
    }

    open spec fn from_spec(vec: Vec<i16>) -> Self {
        Array::SignedHalf(vec)
    }
}

impl From<Vec<u8>> for Array {
    fn from(vec: Vec<u8>) -> (made: Self) {
        Self::Byte(vec)
    }
}

impl FromSpecImpl<Vec<u8>> for Array {
    open spec fn obeys_from_spec() -> bool {
        true
    }

    open spec fn from_spec(vec: Vec<u8>) -> Self {
        Array::Byte(vec)
    }
}

impl From<Vec<i8>> for Array {
    fn from(vec: Vec<i8>) -> (made: Self) {
        Self::SignedByte(vec)
    }
}

impl FromSpecImpl<Vec<i8>> for Array {
    open spec fn obeys_from_spec() -> bool {
        true
    }

    open spec fn from_spec(vec: Vec<i8>) -> Self {
        Array::SignedByte(vec)
    }
}

impl From<Vec<String>> for Array {
    fn from(vec: Vec<String>) -> (made: Self) {
        Self::String(vec)
    }
}

impl FromSpecImpl<Vec<String>> for Array {
    open spec fn obeys_from_spec() -> bool {
        true
    }

    open spec fn from_spec(vec: Vec<String>) -> Self {
        Array::String(vec)
    }
}

impl From<Vec<TfPointer>> for Array {
    fn from(vec: Vec<TfPointer>) -> (made: Self) {
        Self::TfPointer(vec)
    }
}

impl FromSpecImpl<Vec<TfPointer>> for Array {
    open spec fn obeys_from_spec() -> bool {
        true
    }

    open spec fn from_spec(vec: Vec<TfPointer>) -> Self {
        Array::TfPointer(vec)
    }
}

impl From<Vec<u32>> for Value {
    fn from(value: Vec<u32>) -> (made: Self) {
        Self::Array(Array::Word(value))
    }
}

impl FromSpecImpl<Vec<u32>> for Value {
    open spec fn obeys_from_spec() -> bool {
        true
    }

    open spec fn from_spec(value: Vec<u32>) -> Self {
        Value::Array(Array::Word(value))
    }
}

impl From<Vec<i32>> for Value {
    fn from(value: Vec<i32>) -> (made: Self) {
        Self::Array(Array::SignedWord(value))
    }
}

impl FromSpecImpl<Vec<i32>> for Value {
    open spec fn obeys_from_spec() -> bool {
        true
    }

    open spec fn from_spec(value: Vec<i32>) -> Self {
        Value::Array(Array::SignedWord(value))
    }
}

impl From<Vec<u16>> for Value {
    fn from(value: Vec<u16>) -> (made: Self) {
        Self::Array(Array::Half(value))
    }
}

impl FromSpecImpl<Vec<u16>> for Value {
    open spec fn obeys_from_spec() -> bool {
        true
    }

    open spec fn from_spec(value: Vec<u16>) -> Self {
        Value::Array(Array::Half(value))
    }
}

impl From<Vec<i16>> for Value {
    fn from(value: Vec<i16>) -> (made: Self) {
        Self::Array(Array::SignedHalf(value))
    }
}

impl FromSpecImpl<Vec<i16>> for Value {
    open spec fn obeys_from_spec() -> bool {
        true
    }

    open spec fn from_spec(value: Vec<i16>) -> Self {
        Value::Array(Array::SignedHalf(value))
    }
}

impl From<Vec<u8>> for Value {
    fn from(value: Vec<u8>) -> (made: Self) {
        Self::Array(Array::Byte(value))
    }
}

impl FromSpecImpl<Vec<u8>> for Value {
    open spec fn obeys_from_spec() -> bool {
        true
    }

    open spec fn from_spec(value: Vec<u8>) -> Self {
        Value::Array(Array::Byte(value))
    }
}

impl From<Vec<i8>> for Value {
    fn from(value: Vec<i8>) -> (made: Self) {
        Self::Array(Array::SignedByte(value))
    }
}

impl FromSpecImpl<Vec<i8>> for Value {
    open spec fn obeys_from_spec() -> bool {
        true
    }

    open spec fn from_spec(value: Vec<i8>) -> Self {
        Value::Array(Array::SignedByte(value))
    }
}

impl From<Vec<String>> for Value {
    fn from(value: Vec<String>) -> (made: Self) {
        Self::Array(Array::String(value))
    }
}

impl FromSpecImpl<Vec<String>> for Value {
    open spec fn obeys_from_spec() -> bool {
        true
    }

    open spec fn from_spec(value: Vec<String>) -> Self {
        Value::Array(Array::String(value))
    }
}

impl From<Vec<TfPointer>> for Value {
    fn from(value: Vec<TfPointer>) -> (made: Self) {
        Self::Array(Array::TfPointer(value))
    }
}

impl FromSpecImpl<Vec<TfPointer>> for Value {
    open spec fn obeys_from_spec() -> bool {
        true
    }

    open spec fn from_spec(value: Vec<TfPointer>) -> Self {
        Value::Array(Array::TfPointer(value))
    }
}

impl From<String> for Value {
    fn from(string: String) -> (made: Self) {
        Self::String(string)
    }
}

impl FromSpecImpl<String> for Value {
    open spec fn obeys_from_spec() -> bool {
        true
    }

    open spec fn from_spec(string: String) -> Self {
        Value::String(string)
    }
}

impl From<u32> for Value {
    fn from(number: u32) -> (made: Self) {
        Self::Unsigned(number)
    }
}

impl FromSpecImpl<u32> for Value {
    open spec fn obeys_from_spec() -> bool {
        true
    }

    open spec fn from_spec(number: u32) -> Self {
        Value::Unsigned(number)
    }
}

impl From<i32> for Value {
    fn from(number: i32) -> (made: Self) {
        Self::Signed(number)
    }
}

impl FromSpecImpl<i32> for Value {
    open spec fn obeys_from_spec() -> bool {
        true
    }

    open spec fn from_spec(number: i32) -> Self {
        Value::Signed(number)
    }
}

impl From<u32> for TfPointer {
    fn from(number: u32) -> (made: Self) {
        Self::Raw(number)
    }
}

impl FromSpecImpl<u32> for TfPointer {
    open spec fn obeys_from_spec() -> bool {
        true
    }

    open spec fn from_spec(number: u32) -> Self {
        TfPointer::Raw(number)
    }
}

impl From<i32> for TfPointer {
    fn from(number: i32) -> (made: Self) {
        if number < 0 {
            Self::Raw((number as i64 + 0x1_0000_0000) as u32)
        } else {
            Self::Raw(number as u32)
        }
    }
}

impl FromSpecImpl<i32> for TfPointer {
    open spec fn obeys_from_spec() -> bool {
        true
    }

    open spec fn from_spec(number: i32) -> Self {
        TfPointer::Raw(i32_bits(number))
    }
}

/// What a [`TickflowOp`] holds whose arguments are all plain numbers.
pub open spec fn unsigned_args(args: Seq<Value>) -> Seq<u32> {
    Seq::new(args.len(), |i: int| args[i]->Unsigned_0)
}

impl TickflowOp {
    /// Whether the operation is the given raw operation with every argument
    /// taken as a plain number.
    pub open spec fn is_raw(&self, op: RawOp) -> bool {
        &&& self.op == op.op
        &&& self.arg0 == op.arg0
        &&& self.scene == op.scene
        &&& self.args@.len() == op.args.len()
        &&& forall|i: int| 0 <= i < self.args@.len() ==> (#[trigger] self.args@[i]) is Unsigned
        &&& unsigned_args(self.args@) == op.args
    }

    /// The operation that a raw operation is before its arguments are
    /// given types: every argument is a plain number.
    pub fn from_raw(op: RawTickflowOp) -> (made: Self)
        ensures
            made.is_raw(op@),
    {
        let mut args: Vec<Value> = Vec::new();
        let mut i: usize = 0;
        while i < op.args.len()
            invariant
                i <= op.args.len(),
                args@.len() == i,
                forall|k: int| 0 <= k < i ==> (#[trigger] args@[k]) is Unsigned,
                forall|k: int| 0 <= k < i ==> (#[trigger] args@[k])->Unsigned_0 == op.args@[k],
            decreases op.args.len() - i,
        {
            args.push(Value::Unsigned(op.args[i]));
            i += 1;
        }
        assert(unsigned_args(args@) =~= op.args@);
        TickflowOp { op: op.op, arg0: op.arg0, args, scene: op.scene }
    }
}

impl From<RawTickflowOp> for TickflowOp {
    /// As [`TickflowOp::from_raw`].
    fn from(op: RawTickflowOp) -> (made: Self)
        ensures
            made.is_raw(op@),
    {
        TickflowOp::from_raw(op)
    }
}

impl FromSpecImpl<RawTickflowOp> for TickflowOp {
    open spec fn obeys_from_spec() -> bool {
        false
    }

    open spec fn from_spec(op: RawTickflowOp) -> Self {
        arbitrary()
    }
}

} // verus!
