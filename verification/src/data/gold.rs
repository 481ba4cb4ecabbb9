use crate::data::btks::BtksType;
use crate::data::{
    args_def, args_tf_op, ArgsOpDef, ArgsTickflowOpDef, OperationSet, TickflowOpDef, NO_SCENE,
};
use crate::endian::ByteOrder;
use vstd::prelude::*;

verus! {

/// The operations of Rhythm Heaven for the DS. Only the scene operation is
/// known: the lists are empty.
pub struct GoldOp;

impl OperationSet for GoldOp {
    open spec fn btks_type() -> BtksType {
        BtksType::Gold
    }

    open spec fn byte_order() -> ByteOrder {
        ByteOrder::LittleEndian
    }

    fn btks_tickflow_type() -> (tag: BtksType) {
        BtksType::Gold
    }

    fn endian() -> (order: ByteOrder) {
        ByteOrder::LittleEndian
    }

    open spec fn call_operations() -> Seq<ArgsOpDef> {
        Seq::empty()
    }

    fn get_call_operations() -> (defs: Vec<ArgsTickflowOpDef>) {
        let mut defs: Vec<ArgsTickflowOpDef> = Vec::new();
        assert(defs.deep_view() =~= Self::call_operations());
        defs
    }

    open spec fn string_operations() -> Seq<ArgsOpDef> {
        Seq::empty()
    }

    fn get_string_operations() -> (defs: Vec<ArgsTickflowOpDef>) {
        let mut defs: Vec<ArgsTickflowOpDef> = Vec::new();
        assert(defs.deep_view() =~= Self::string_operations());
        defs
    }

    open spec fn array_operations() -> Seq<ArgsOpDef> {
        Seq::empty()
    }

    fn get_array_operations() -> (defs: Vec<ArgsTickflowOpDef>) {
        let mut defs: Vec<ArgsTickflowOpDef> = Vec::new();
        assert(defs.deep_view() =~= Self::array_operations());
        defs
    }

    open spec fn depth_operations() -> Seq<TickflowOpDef> {
        Seq::empty()
    }

    fn get_depth_operations() -> (defs: Vec<TickflowOpDef>) {
        let mut defs: Vec<TickflowOpDef> = Vec::new();
        assert(defs@ =~= Self::depth_operations());
        defs
    }

    open spec fn undepth_operations() -> Seq<TickflowOpDef> {
        Seq::empty()
    }

    fn get_undepth_operations() -> (defs: Vec<TickflowOpDef>) {
        let mut defs: Vec<TickflowOpDef> = Vec::new();
        assert(defs@ =~= Self::undepth_operations());
        defs
    }

    open spec fn scene_operation() -> ArgsOpDef {
        args_def(0x100, None, NO_SCENE).with_arg(-1i8, false)
    }

    fn get_scene_operation() -> (def: ArgsTickflowOpDef) {
        args_tf_op(0x100, None, NO_SCENE).with_arg(-1, false)
    }

    open spec fn return_operations() -> Seq<TickflowOpDef> {
        Seq::empty()
    }

    fn get_return_operations() -> (defs: Vec<TickflowOpDef>) {
        let mut defs: Vec<TickflowOpDef> = Vec::new();
        assert(defs@ =~= Self::return_operations());
        defs
    }
}

} // verus!
