use crate::data::btks::BtksType;
use crate::data::{
    args_def, args_tf_op, tf_op, ArgsOpDef, ArgsTickflowOpDef, OperationSet, TickflowOpDef,
    NO_SCENE,
};
use crate::endian::ByteOrder;
use vstd::prelude::*;

verus! {

/// The operations of Rhythm Heaven Fever, US version.
pub struct FeverUsOp;

impl OperationSet for FeverUsOp {
    open spec fn btks_type() -> BtksType {
        BtksType::FeverUs
    }

    open spec fn byte_order() -> ByteOrder {
        ByteOrder::BigEndian
    }

    fn btks_tickflow_type() -> (tag: BtksType) {
        BtksType::FeverUs
    }

    fn endian() -> (order: ByteOrder) {
        ByteOrder::BigEndian
    }

    open spec fn call_operations() -> Seq<ArgsOpDef> {
        seq![
            args_def(0, None, NO_SCENE).with_arg(0, false),
            args_def(1, None, NO_SCENE).with_arg(0, false),
            args_def(0x100, Some(0), NO_SCENE).with_arg(1, false),
        ]
    }

    fn get_call_operations() -> (defs: Vec<ArgsTickflowOpDef>) {
        let mut defs: Vec<ArgsTickflowOpDef> = Vec::new();
        defs.push(args_tf_op(0, None, NO_SCENE).with_arg(0, false));
        defs.push(args_tf_op(1, None, NO_SCENE).with_arg(0, false));
        defs.push(args_tf_op(0x100, Some(0), NO_SCENE).with_arg(1, false));
        assert(defs.deep_view() =~= Self::call_operations());
        defs
    }

    open spec fn string_operations() -> Seq<ArgsOpDef> {
        seq![
            args_def(0x105, None, NO_SCENE).with_arg(0, false),
            args_def(0x106, None, NO_SCENE).with_arg(0, false),
            args_def(0x107, Some(0), NO_SCENE).with_arg(0, false),
            args_def(0x107, Some(1), NO_SCENE).with_arg(0, false),
            args_def(0x107, Some(2), NO_SCENE).with_arg(0, false),
            args_def(0x108, None, NO_SCENE).with_arg(0, false),
            args_def(0x124, None, NO_SCENE).with_arg(0, false),
        ]
    }

    fn get_string_operations() -> (defs: Vec<ArgsTickflowOpDef>) {
        let mut defs: Vec<ArgsTickflowOpDef> = Vec::new();
        defs.push(args_tf_op(0x105, None, NO_SCENE).with_arg(0, false));
        defs.push(args_tf_op(0x106, None, NO_SCENE).with_arg(0, false));
        defs.push(args_tf_op(0x107, Some(0), NO_SCENE).with_arg(0, false));
        defs.push(args_tf_op(0x107, Some(1), NO_SCENE).with_arg(0, false));
        defs.push(args_tf_op(0x107, Some(2), NO_SCENE).with_arg(0, false));
        defs.push(args_tf_op(0x108, None, NO_SCENE).with_arg(0, false));
        defs.push(args_tf_op(0x124, None, NO_SCENE).with_arg(0, false));
        assert(defs.deep_view() =~= Self::string_operations());
        defs
    }

    open spec fn array_operations() -> Seq<ArgsOpDef> {
        Seq::empty()
    }

    fn get_array_operations() -> (defs: Vec<ArgsTickflowOpDef>) {
        let mut defs: Vec<ArgsTickflowOpDef> = Vec::new();
        assert(defs.deep_view() =~= Self::array_operations());
        defs
    }

    open spec fn depth_operations() -> Seq<TickflowOpDef> {
        seq![
            TickflowOpDef { op: 0x10, arg0: Some(0), scene: NO_SCENE },
            TickflowOpDef { op: 0x10, arg0: Some(1), scene: NO_SCENE },
            TickflowOpDef { op: 0x10, arg0: Some(2), scene: NO_SCENE },
            TickflowOpDef { op: 0x10, arg0: Some(3), scene: NO_SCENE },
            TickflowOpDef { op: 0x10, arg0: Some(4), scene: NO_SCENE },
            TickflowOpDef { op: 0x10, arg0: Some(5), scene: NO_SCENE },
            TickflowOpDef { op: 0x13, arg0: None, scene: NO_SCENE },
        ]
    }

    fn get_depth_operations() -> (defs: Vec<TickflowOpDef>) {
        let mut defs: Vec<TickflowOpDef> = Vec::new();
        defs.push(tf_op(0x10, Some(0), NO_SCENE));
        defs.push(tf_op(0x10, Some(1), NO_SCENE));
        defs.push(tf_op(0x10, Some(2), NO_SCENE));
        defs.push(tf_op(0x10, Some(3), NO_SCENE));
        defs.push(tf_op(0x10, Some(4), NO_SCENE));
        defs.push(tf_op(0x10, Some(5), NO_SCENE));
        defs.push(tf_op(0x13, None, NO_SCENE));
        assert(defs@ =~= Self::depth_operations());
        defs
    }

    open spec fn undepth_operations() -> Seq<TickflowOpDef> {
        seq![
            TickflowOpDef { op: 0x12, arg0: None, scene: NO_SCENE },
            TickflowOpDef { op: 0x17, arg0: None, scene: NO_SCENE },
        ]
    }

    fn get_undepth_operations() -> (defs: Vec<TickflowOpDef>) {
        let mut defs: Vec<TickflowOpDef> = Vec::new();
        defs.push(tf_op(0x12, None, NO_SCENE));
        defs.push(tf_op(0x17, None, NO_SCENE));
        assert(defs@ =~= Self::undepth_operations());
        defs
    }

    open spec fn scene_operation() -> ArgsOpDef {
        args_def(0x100, Some(0), NO_SCENE).with_arg(0, false)
    }

    fn get_scene_operation() -> (def: ArgsTickflowOpDef) {
        args_tf_op(0x100, Some(0), NO_SCENE).with_arg(0, false)
    }

    open spec fn return_operations() -> Seq<TickflowOpDef> {
        seq![
            TickflowOpDef { op: 2, arg0: None, scene: NO_SCENE },
            TickflowOpDef { op: 3, arg0: None, scene: NO_SCENE },
        ]
    }

    fn get_return_operations() -> (defs: Vec<TickflowOpDef>) {
        let mut defs: Vec<TickflowOpDef> = Vec::new();
        defs.push(tf_op(2, None, NO_SCENE));
        defs.push(tf_op(3, None, NO_SCENE));
        assert(defs@ =~= Self::return_operations());
        defs
    }
}

} // verus!
