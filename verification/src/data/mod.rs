//! Tickflow operations, their definitions, and the operation tables that
//! classify them.
use crate::endian::ByteOrder;
use vstd::prelude::*;

pub mod btks;
/// Data representation for Rhythm Heaven Fever (Wii)
pub mod fever;
/// Data representation for Rhythm Heaven (NDS)
pub mod gold;
/// Data representation for Rhythm Heaven Megamix (3DS)
pub mod megamix;
pub mod type_names;
pub mod value;

pub use type_names::{ArgInto, TickflowArgDef, TickflowCmdDef};
pub use value::{Array, ArrayType, TfPointer, TickflowOp, Value, ValueType};

use btks::BtksType;

verus! {

/// The scene value that stands for "no scene": a definition with this scene
/// applies in every scene, and a subroutine starts out with it.
pub const NO_SCENE: i32 = -1;

/// Tickflow operation as decompiled, before parsing
#[derive(Debug, Clone)]
pub struct RawTickflowOp {
    pub op: u16,
    pub arg0: u32,
    pub args: Vec<u32>,
    pub scene: i32,
}

/// What a [`RawTickflowOp`] holds.
pub ghost struct RawOp {
    pub op: u16,
    pub arg0: u32,
    pub args: Seq<u32>,
    pub scene: i32,
}

impl View for RawTickflowOp {
    type V = RawOp;

    open spec fn view(&self) -> RawOp {
        RawOp { op: self.op, arg0: self.arg0, args: self.args@, scene: self.scene }
    }
}

/// Tickflow operation definition
#[derive(Debug, Clone, Copy, Eq)]
pub struct TickflowOpDef {
    pub op: u16,
    pub arg0: Option<u32>,
    pub scene: i32,
}

/// Tickflow operation definition with specific args indicated
#[derive(Debug, Clone)]
pub struct ArgsTickflowOpDef {
    pub op: u16,
    pub arg0: Option<u32>,
    pub args: Vec<(i8, bool)>,
    pub scene: i32,
}

/// What an [`ArgsTickflowOpDef`] holds: a definition, and the argument slots
/// it refers to, each with its wide-string flag.
pub ghost struct ArgsOpDef {
    pub op: u16,
    pub arg0: Option<u32>,
    pub args: Seq<(i8, bool)>,
    pub scene: i32,
}

impl ArgsOpDef {
    /// The definition without its argument slots.
    pub open spec fn head(self) -> TickflowOpDef {
        TickflowOpDef { op: self.op, arg0: self.arg0, scene: self.scene }
    }
}

impl DeepView for ArgsTickflowOpDef {
    type V = ArgsOpDef;

    open spec fn deep_view(&self) -> ArgsOpDef {
        ArgsOpDef { op: self.op, arg0: self.arg0, args: self.args@, scene: self.scene }
    }
}

/// The definitions of a list without their argument slots.
pub open spec fn heads(defs: Seq<ArgsOpDef>) -> Seq<TickflowOpDef> {
    Seq::new(defs.len(), |i: int| defs[i].head())
}

impl RawTickflowOp {
    pub fn as_definition(&self) -> (def: TickflowOpDef)
        ensures
            def == (TickflowOpDef { op: self.op, arg0: Some(self.arg0), scene: self.scene }),
    {
        TickflowOpDef { op: self.op, arg0: Some(self.arg0), scene: self.scene }
    }
}

impl TickflowOpDef {
    /// Whether two definitions agree as far as both are specific: the
    /// opcodes are equal, the discriminators are equal unless one is absent,
    /// and the scenes are equal unless one is [`NO_SCENE`].
    pub open spec fn agrees_with(self, other: TickflowOpDef) -> bool {
        &&& self.op == other.op
        &&& (self.arg0 is Some && other.arg0 is Some ==> self.arg0 == other.arg0)
        &&& (self.scene != NO_SCENE && other.scene != NO_SCENE ==> self.scene == other.scene)
    }

    /// Whether this definition classifies an instruction with the given
    /// opcode and discriminator while `scene` is the current scene.
    pub open spec fn applies_to(self, op: u16, arg0: u32, scene: i32) -> bool {
        &&& self.op == op
        &&& (self.scene == NO_SCENE || self.scene == scene)
        &&& (self.arg0 matches Some(wanted) ==> wanted == arg0)
    }
}

impl PartialEq for TickflowOpDef {
    fn eq(&self, other: &Self) -> (equal: bool) {
        self.op == other.op && (match self.arg0 {
            Some(c) => match other.arg0 {
                Some(d) => c == d,
                None => true,
            },
            None => true,
        }) && (if self.scene != NO_SCENE && other.scene != NO_SCENE {
            self.scene == other.scene
        } else {
            true
        })
    }
}

impl vstd::std_specs::cmp::PartialEqSpecImpl for TickflowOpDef {
    open spec fn obeys_eq_spec() -> bool {
        true
    }

    open spec fn eq_spec(&self, other: &Self) -> bool {
        self.agrees_with(*other)
    }
}

/// The index of the first definition from `from` on that applies, if any.
pub open spec fn first_match_from(
    defs: Seq<TickflowOpDef>,
    op: u16,
    arg0: u32,
    scene: i32,
    from: int,
) -> Option<int>
    decreases defs.len() - from,
{
    if from < 0 || from >= defs.len() {
        None
    } else if defs[from].applies_to(op, arg0, scene) {
        Some(from)
    } else {
        first_match_from(defs, op, arg0, scene, from + 1)
    }
}

/// The index of the first definition of the list that applies, if any: the
/// first matching entry wins.
pub open spec fn first_match(defs: Seq<TickflowOpDef>, op: u16, arg0: u32, scene: i32) -> Option<
    int,
> {
    first_match_from(defs, op, arg0, scene, 0)
}

/// [`first_match_from`] finds the least index from `from` on whose definition
/// applies, and finds nothing exactly when none applies.
pub proof fn lemma_first_match_from(
    defs: Seq<TickflowOpDef>,
    op: u16,
    arg0: u32,
    scene: i32,
    from: int,
)
    requires
        0 <= from,
    ensures
        match first_match_from(defs, op, arg0, scene, from) {
            Some(i) => {
                &&& from <= i < defs.len()
                &&& defs[i].applies_to(op, arg0, scene)
                &&& forall|j: int| from <= j < i ==> !defs[j].applies_to(op, arg0, scene)
            },
            None => forall|j: int| from <= j < defs.len() ==> !defs[j].applies_to(op, arg0, scene),
        },
    decreases defs.len() - from,
{
    if from < defs.len() && !defs[from].applies_to(op, arg0, scene) {
        lemma_first_match_from(defs, op, arg0, scene, from + 1);
    }
}

/// The first matching entry wins: [`first_match`] gives the least index whose
/// definition applies, and nothing exactly when no definition applies.
pub proof fn lemma_first_match(defs: Seq<TickflowOpDef>, op: u16, arg0: u32, scene: i32)
    ensures
        match first_match(defs, op, arg0, scene) {
            Some(i) => {
                &&& 0 <= i < defs.len()
                &&& defs[i].applies_to(op, arg0, scene)
                &&& forall|j: int| 0 <= j < i ==> !defs[j].applies_to(op, arg0, scene)
            },
            None => forall|j: int| 0 <= j < defs.len() ==> !defs[j].applies_to(op, arg0, scene),
        },
{
    lemma_first_match_from(defs, op, arg0, scene, 0);
}

/// Scans a list of definitions for the first that applies.
#[verifier::rlimit(50)]
pub fn find_match(defs: &Vec<TickflowOpDef>, op: &RawTickflowOp, scene: i32) -> (found: Option<
    usize,
>)
    ensures
        match found {
            Some(i) => i < defs.len() && first_match(defs@, op.op, op.arg0, scene) == Some(
                i as int,
            ),
            None => first_match(defs@, op.op, op.arg0, scene) is None,
        },
{
    let mut i: usize = 0;
    while i < defs.len()
        invariant
            i <= defs.len(),
            first_match(defs@, op.op, op.arg0, scene) == first_match_from(
                defs@,
                op.op,
                op.arg0,
                scene,
                i as int,
            ),
        decreases defs.len() - i,
    {
        let def = &defs[i];
        if op.op == def.op && (def.scene == NO_SCENE || def.scene == scene) {
            match def.arg0 {
                None => {
                    return Some(i);
                },
                Some(c) => {
                    if op.arg0 == c {
                        return Some(i);
                    }
                },
            }
        }
        i += 1;
    }
    None
}

/// Scans a list of definitions with argument slots for the first that
/// applies.
#[verifier::rlimit(50)]
pub fn find_args_match(defs: &Vec<ArgsTickflowOpDef>, op: &RawTickflowOp, scene: i32) -> (found:
    Option<usize>)
    ensures
        match found {
            Some(i) => i < defs.len() && first_match(
                heads(defs.deep_view()),
                op.op,
                op.arg0,
                scene,
            ) == Some(i as int),
            None => first_match(heads(defs.deep_view()), op.op, op.arg0, scene) is None,
        },
{
    let ghost all = heads(defs.deep_view());
    let mut i: usize = 0;
    while i < defs.len()
        invariant
            i <= defs.len(),
            all == heads(defs.deep_view()),
            all.len() == defs.len(),
            first_match(all, op.op, op.arg0, scene) == first_match_from(
                all,
                op.op,
                op.arg0,
                scene,
                i as int,
            ),
        decreases defs.len() - i,
    {
        let def = &defs[i];
        assert(all[i as int] == def.deep_view().head());
        if op.op == def.op && (def.scene == NO_SCENE || def.scene == scene) {
            match def.arg0 {
                None => {
                    return Some(i);
                },
                Some(c) => {
                    if op.arg0 == c {
                        return Some(i);
                    }
                },
            }
        }
        i += 1;
    }
    None
}

/// The definition with argument slots that classifies an instruction, if
/// any: the first of the list whose head applies.
pub open spec fn matching_args_def(defs: Seq<ArgsOpDef>, op: RawOp, scene: i32) -> Option<
    ArgsOpDef,
> {
    match first_match(heads(defs), op.op, op.arg0, scene) {
        Some(i) => Some(defs[i]),
        None => None,
    }
}

/// The definition that classifies an instruction, if any: the first of the
/// list that applies.
pub open spec fn matching_def(defs: Seq<TickflowOpDef>, op: RawOp, scene: i32) -> Option<
    TickflowOpDef,
> {
    match first_match(defs, op.op, op.arg0, scene) {
        Some(i) => Some(defs[i]),
        None => None,
    }
}

/// The argument slot that a scene operation takes the new scene from, when
/// `op` is that operation: the definition's first slot, where `-1` stands for
/// the discriminator itself. The definition's own scene plays no part.
pub open spec fn scene_slot(def: ArgsOpDef, op: RawOp) -> Option<i8> {
    if op.op == def.op && (def.arg0 matches Some(wanted) ==> wanted == op.arg0) && def.args.len()
        > 0 {
        Some(def.args[0].0)
    } else {
        None
    }
}

/// The seven lists of definitions of one game variant, as the engine reads
/// them.
pub ghost struct OperationTable {
    pub calls: Seq<ArgsOpDef>,
    pub strings: Seq<ArgsOpDef>,
    pub arrays: Seq<ArgsOpDef>,
    pub depths: Seq<TickflowOpDef>,
    pub undepths: Seq<TickflowOpDef>,
    pub scene: ArgsOpDef,
    pub returns: Seq<TickflowOpDef>,
}

/// Trait for every type of Tickflow operation.
///
/// An implementation declares, for one game variant, the byte order, the
/// container tag and the ordered lists of definitions of each role. The
/// queries are the same for every variant: within a list the first
/// definition that applies wins.
pub trait OperationSet {
    /// The tag that a container of this variant carries.
    spec fn btks_type() -> BtksType;

    /// The byte order that this variant writes its numbers in.
    spec fn byte_order() -> ByteOrder;

    /// The tag that a container of this variant carries.
    fn btks_tickflow_type() -> (tag: BtksType)
        ensures
            tag == Self::btks_type(),
    ;

    /// The byte order that this variant writes its numbers in.
    fn endian() -> (order: ByteOrder)
        ensures
            order == Self::byte_order(),
    ;

    /// The definitions of the operations that call a subroutine.
    spec fn call_operations() -> Seq<ArgsOpDef>;

    /// The definitions of the operations that refer to strings.
    spec fn string_operations() -> Seq<ArgsOpDef>;

    /// The definitions of the operations that refer to arrays.
    spec fn array_operations() -> Seq<ArgsOpDef>;

    /// The definitions of the operations that open a nested block.
    spec fn depth_operations() -> Seq<TickflowOpDef>;

    /// The definitions of the operations that close a nested block.
    spec fn undepth_operations() -> Seq<TickflowOpDef>;

    /// The definition of the one operation that changes the scene.
    spec fn scene_operation() -> ArgsOpDef;

    /// The definitions of the operations that return from a subroutine.
    spec fn return_operations() -> Seq<TickflowOpDef>;

    fn get_call_operations() -> (defs: Vec<ArgsTickflowOpDef>)
        ensures
            defs.deep_view() == Self::call_operations(),
    ;

    fn is_call_operation(op: &RawTickflowOp, scene: i32) -> (found: Option<ArgsTickflowOpDef>)
        ensures
            found.deep_view() == matching_args_def(Self::call_operations(), op@, scene),
    {
        let mut defs = Self::get_call_operations();
        match find_args_match(&defs, op, scene) {
            Some(i) => Some(defs.swap_remove(i)),
            None => None,
        }
    }

    fn get_string_operations() -> (defs: Vec<ArgsTickflowOpDef>)
        ensures
            defs.deep_view() == Self::string_operations(),
    ;

    fn is_string_operation(op: &RawTickflowOp, scene: i32) -> (found: Option<ArgsTickflowOpDef>)
        ensures
            found.deep_view() == matching_args_def(Self::string_operations(), op@, scene),
    {
        let mut defs = Self::get_string_operations();
        match find_args_match(&defs, op, scene) {
            Some(i) => Some(defs.swap_remove(i)),
            None => None,
        }
    }

    fn get_array_operations() -> (defs: Vec<ArgsTickflowOpDef>)
        ensures
            defs.deep_view() == Self::array_operations(),
    ;

    fn is_array_operation(op: &RawTickflowOp, scene: i32) -> (found: Option<ArgsTickflowOpDef>)
        ensures
            found.deep_view() == matching_args_def(Self::array_operations(), op@, scene),
    {
        let mut defs = Self::get_array_operations();
        match find_args_match(&defs, op, scene) {
            Some(i) => Some(defs.swap_remove(i)),
            None => None,
        }
    }

    fn get_depth_operations() -> (defs: Vec<TickflowOpDef>)
        ensures
            defs@ == Self::depth_operations(),
    ;

    fn is_depth_operation(op: &RawTickflowOp, scene: i32) -> (found: Option<TickflowOpDef>)
        ensures
            found == matching_def(Self::depth_operations(), op@, scene),
    {
        let defs = Self::get_depth_operations();
        match find_match(&defs, op, scene) {
            Some(i) => Some(defs[i]),
            None => None,
        }
    }

    fn get_undepth_operations() -> (defs: Vec<TickflowOpDef>)
        ensures
            defs@ == Self::undepth_operations(),
    ;

    fn is_undepth_operation(op: &RawTickflowOp, scene: i32) -> (found: Option<TickflowOpDef>)
        ensures
            found == matching_def(Self::undepth_operations(), op@, scene),
    {
        let defs = Self::get_undepth_operations();
        match find_match(&defs, op, scene) {
            Some(i) => Some(defs[i]),
            None => None,
        }
    }

    fn get_scene_operation() -> (def: ArgsTickflowOpDef)
        ensures
            def.deep_view() == Self::scene_operation(),
    ;

    fn is_scene_operation(op: &RawTickflowOp) -> (slot: Option<i8>)
        ensures
            slot == scene_slot(Self::scene_operation(), op@),
    {
        let scene_op = Self::get_scene_operation();
        if op.op == scene_op.op && scene_op.args.len() > 0 {
            match scene_op.arg0 {
                None => {
                    return Some(scene_op.args[0].0);
                },
                Some(c) => {
                    if op.arg0 == c {
                        return Some(scene_op.args[0].0);
                    }
                },
            }
        }
        None
    }

    fn get_return_operations() -> (defs: Vec<TickflowOpDef>)
        ensures
            defs@ == Self::return_operations(),
    ;

    fn is_return_operation(op: &RawTickflowOp, scene: i32) -> (found: Option<TickflowOpDef>)
        ensures
            found == matching_def(Self::return_operations(), op@, scene),
    {
        let defs = Self::get_return_operations();
        match find_match(&defs, op, scene) {
            Some(i) => Some(defs[i]),
            None => None,
        }
    }
}

/// The lists of definitions that an implementation of [`OperationSet`]
/// declares.
pub open spec fn table_of<T: OperationSet>() -> OperationTable {
    OperationTable {
        calls: T::call_operations(),
        strings: T::string_operations(),
        arrays: T::array_operations(),
        depths: T::depth_operations(),
        undepths: T::undepth_operations(),
        scene: T::scene_operation(),
        returns: T::return_operations(),
    }
}

/// A definition that applies to the opcode `op`: with the discriminator
/// `arg0` where one is given, in the scene `scene` where it is not
/// [`NO_SCENE`].
pub fn tf_op(op: u16, arg0: Option<u32>, scene: i32) -> (def: TickflowOpDef)
    ensures
        def == (TickflowOpDef { op, arg0, scene }),
{
    TickflowOpDef { op, arg0, scene }
}

impl ArgsOpDef {
    /// The definition with one more argument slot.
    pub open spec fn with_arg(self, slot: i8, wide: bool) -> ArgsOpDef {
        ArgsOpDef { op: self.op, arg0: self.arg0, args: self.args.push((slot, wide)), scene: self.scene }
    }
}

/// What [`args_tf_op`] makes.
pub open spec fn args_def(op: u16, arg0: Option<u32>, scene: i32) -> ArgsOpDef {
    ArgsOpDef { op, arg0, args: Seq::empty(), scene }
}

/// A definition as [`tf_op`] makes it, for an operation that refers to some
/// of its arguments: [`ArgsTickflowOpDef::with_arg`] adds them.
pub fn args_tf_op(op: u16, arg0: Option<u32>, scene: i32) -> (def: ArgsTickflowOpDef)
    ensures
        def.deep_view() == args_def(op, arg0, scene),
{
    ArgsTickflowOpDef { op, arg0, args: Vec::new(), scene }
}

impl ArgsTickflowOpDef {
    /// The definition with one more argument slot that it refers to; `wide`
    /// says that a string there is made of 16-bit units.
    pub fn with_arg(self, slot: i8, wide: bool) -> (def: ArgsTickflowOpDef)
        ensures
            def.deep_view() == self.deep_view().with_arg(slot, wide),
    {
        let mut def = self;
        def.args.push((slot, wide));
        def
    }
}

/// A definition applies to an instruction exactly when it agrees with the
/// definition that the instruction makes of itself, provided that the
/// instruction was read in a scene: one that was read in no scene agrees
/// with the definitions of every scene.
pub proof fn lemma_agreement_is_applying(op: RawOp, def: TickflowOpDef)
    requires
        op.scene != NO_SCENE,
    ensures
        (TickflowOpDef { op: op.op, arg0: Some(op.arg0), scene: op.scene }).agrees_with(def)
            <==> def.applies_to(op.op, op.arg0, op.scene),
{
}

} // verus!
