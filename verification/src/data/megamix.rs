use crate::data::btks::BtksType;
use crate::data::{
    args_def, args_tf_op, tf_op, ArgsOpDef, ArgsTickflowOpDef, OperationSet, TickflowOpDef,
    NO_SCENE,
};
use crate::endian::ByteOrder;
use vstd::prelude::*;

verus! {

/// The operations of Rhythm Heaven Megamix, international version.
pub struct MegamixOp;

impl OperationSet for MegamixOp {
    open spec fn btks_type() -> BtksType {
        BtksType::MegamixIntl
    }

    open spec fn byte_order() -> ByteOrder {
        ByteOrder::LittleEndian
    }

    fn btks_tickflow_type() -> (tag: BtksType) {
        BtksType::MegamixIntl
    }

    fn endian() -> (order: ByteOrder) {
        ByteOrder::LittleEndian
    }

    open spec fn call_operations() -> Seq<ArgsOpDef> {
        seq![
            args_def(0x1, Some(1), NO_SCENE).with_arg(1, false),
            args_def(0x2, None, NO_SCENE).with_arg(0, false),
            args_def(0x3, Some(2), NO_SCENE).with_arg(0, false),
            args_def(0x6, None, NO_SCENE).with_arg(0, false),
        ]
    }

    fn get_call_operations() -> (defs: Vec<ArgsTickflowOpDef>) {
        let mut defs: Vec<ArgsTickflowOpDef> = Vec::new();
        defs.push(args_tf_op(0x1, Some(1), NO_SCENE).with_arg(1, false));
        defs.push(args_tf_op(0x2, None, NO_SCENE).with_arg(0, false));
        defs.push(args_tf_op(0x3, Some(2), NO_SCENE).with_arg(0, false));
        defs.push(args_tf_op(0x6, None, NO_SCENE).with_arg(0, false));
        assert(defs.deep_view() =~= Self::call_operations());
        defs
    }

    open spec fn string_operations() -> Seq<ArgsOpDef> {
        seq![
            args_def(0x31, None, NO_SCENE).with_arg(1, true),
            args_def(0x35, Some(0), NO_SCENE).with_arg(1, true),
            args_def(0x36, None, NO_SCENE).with_arg(1, true),
            args_def(0x39, Some(0), NO_SCENE).with_arg(1, true),
            args_def(0x3A, None, NO_SCENE).with_arg(1, true),
            args_def(0x3B, None, NO_SCENE).with_arg(2, false),
            args_def(0x3E, Some(0), NO_SCENE).with_arg(1, true),
            args_def(0x5D, Some(0), NO_SCENE).with_arg(1, true),
            args_def(0x5D, Some(2), NO_SCENE).with_arg(0, true),
            args_def(0x61, Some(2), NO_SCENE).with_arg(0, true),
            args_def(0x65, Some(1), NO_SCENE).with_arg(1, false),
            args_def(0x66, None, NO_SCENE).with_arg(1, false),
            args_def(0x67, Some(1), NO_SCENE).with_arg(1, false),
            args_def(0x68, Some(1), NO_SCENE).with_arg(1, false),
            args_def(0x93, None, NO_SCENE).with_arg(2, false).with_arg(3, false),
            args_def(0x94, None, NO_SCENE).with_arg(1, false).with_arg(2, false).with_arg(3, false),
            args_def(0x95, None, NO_SCENE).with_arg(1, false),
            args_def(0xAF, Some(2), NO_SCENE).with_arg(2, false),
            args_def(0xB0, Some(4), NO_SCENE).with_arg(1, false),
            args_def(0xB0, Some(5), NO_SCENE).with_arg(1, false),
            args_def(0xB0, Some(6), NO_SCENE).with_arg(1, false),
            args_def(0xB5, None, NO_SCENE).with_arg(0, false),
            args_def(0x105, None, 1).with_arg(0, false),
            args_def(0x107, Some(0), 0xC).with_arg(0, false),
            args_def(0x107, Some(1), 0xC).with_arg(0, false),
            args_def(0x106, None, 0x18).with_arg(0, false),
            args_def(0x106, None, 0x2A).with_arg(0, false),
            args_def(0x10B, None, 0x2C).with_arg(0, false),
            args_def(0x107, Some(0), 0x39).with_arg(0, false),
            args_def(0x107, Some(1), 0x39).with_arg(0, false),
            args_def(0x108, None, 0x39).with_arg(0, false),
            args_def(0x109, None, 0x39).with_arg(0, false).with_arg(1, false),
            args_def(0x10A, None, 0x39).with_arg(0, false),
        ]
    }

    #[verifier::rlimit(50)]
    fn get_string_operations() -> (defs: Vec<ArgsTickflowOpDef>) {
        let mut defs: Vec<ArgsTickflowOpDef> = Vec::new();
        defs.push(args_tf_op(0x31, None, NO_SCENE).with_arg(1, true));
        defs.push(args_tf_op(0x35, Some(0), NO_SCENE).with_arg(1, true));
        defs.push(args_tf_op(0x36, None, NO_SCENE).with_arg(1, true));
        defs.push(args_tf_op(0x39, Some(0), NO_SCENE).with_arg(1, true));
        defs.push(args_tf_op(0x3A, None, NO_SCENE).with_arg(1, true));
        defs.push(args_tf_op(0x3B, None, NO_SCENE).with_arg(2, false));
        defs.push(args_tf_op(0x3E, Some(0), NO_SCENE).with_arg(1, true));
        defs.push(args_tf_op(0x5D, Some(0), NO_SCENE).with_arg(1, true));
        defs.push(args_tf_op(0x5D, Some(2), NO_SCENE).with_arg(0, true));
        defs.push(args_tf_op(0x61, Some(2), NO_SCENE).with_arg(0, true));
        defs.push(args_tf_op(0x65, Some(1), NO_SCENE).with_arg(1, false));
        defs.push(args_tf_op(0x66, None, NO_SCENE).with_arg(1, false));
        defs.push(args_tf_op(0x67, Some(1), NO_SCENE).with_arg(1, false));
        defs.push(args_tf_op(0x68, Some(1), NO_SCENE).with_arg(1, false));
        defs.push(args_tf_op(0x93, None, NO_SCENE).with_arg(2, false).with_arg(3, false));
        defs.push(args_tf_op(0x94, None, NO_SCENE).with_arg(1, false).with_arg(2, false).with_arg(3, false));
        defs.push(args_tf_op(0x95, None, NO_SCENE).with_arg(1, false));
        defs.push(args_tf_op(0xAF, Some(2), NO_SCENE).with_arg(2, false));
        defs.push(args_tf_op(0xB0, Some(4), NO_SCENE).with_arg(1, false));
        defs.push(args_tf_op(0xB0, Some(5), NO_SCENE).with_arg(1, false));
        defs.push(args_tf_op(0xB0, Some(6), NO_SCENE).with_arg(1, false));
        defs.push(args_tf_op(0xB5, None, NO_SCENE).with_arg(0, false));
        defs.push(args_tf_op(0x105, None, 1).with_arg(0, false));
        defs.push(args_tf_op(0x107, Some(0), 0xC).with_arg(0, false));
        defs.push(args_tf_op(0x107, Some(1), 0xC).with_arg(0, false));
        defs.push(args_tf_op(0x106, None, 0x18).with_arg(0, false));
        defs.push(args_tf_op(0x106, None, 0x2A).with_arg(0, false));
        defs.push(args_tf_op(0x10B, None, 0x2C).with_arg(0, false));
        defs.push(args_tf_op(0x107, Some(0), 0x39).with_arg(0, false));
        defs.push(args_tf_op(0x107, Some(1), 0x39).with_arg(0, false));
        defs.push(args_tf_op(0x108, None, 0x39).with_arg(0, false));
        defs.push(args_tf_op(0x109, None, 0x39).with_arg(0, false).with_arg(1, false));
        defs.push(args_tf_op(0x10A, None, 0x39).with_arg(0, false));
        assert(defs.deep_view() =~= Self::string_operations());
        defs
    }

    open spec fn array_operations() -> Seq<ArgsOpDef> {
        Seq::empty()
    }

    fn get_array_operations() -> (defs: Vec<ArgsTickflowOpDef>) {
        let mut defs: Vec<ArgsTickflowOpDef> = Vec::new();
        assert(defs.deep_view() =~= Self::array_operations());
        defs
    }

    open spec fn depth_operations() -> Seq<TickflowOpDef> {
        seq![
            TickflowOpDef { op: 0x16, arg0: None, scene: NO_SCENE },
            TickflowOpDef { op: 0x16, arg0: Some(1), scene: NO_SCENE },
            TickflowOpDef { op: 0x16, arg0: Some(2), scene: NO_SCENE },
            TickflowOpDef { op: 0x16, arg0: Some(3), scene: NO_SCENE },
            TickflowOpDef { op: 0x16, arg0: Some(4), scene: NO_SCENE },
            TickflowOpDef { op: 0x16, arg0: Some(5), scene: NO_SCENE },
            TickflowOpDef { op: 0x19, arg0: None, scene: NO_SCENE },
        ]
    }

    fn get_depth_operations() -> (defs: Vec<TickflowOpDef>) {
        let mut defs: Vec<TickflowOpDef> = Vec::new();
        defs.push(tf_op(0x16, None, NO_SCENE));
        defs.push(tf_op(0x16, Some(1), NO_SCENE));
        defs.push(tf_op(0x16, Some(2), NO_SCENE));
        defs.push(tf_op(0x16, Some(3), NO_SCENE));
        defs.push(tf_op(0x16, Some(4), NO_SCENE));
        defs.push(tf_op(0x16, Some(5), NO_SCENE));
        defs.push(tf_op(0x19, None, NO_SCENE));
        assert(defs@ =~= Self::depth_operations());
        defs
    }

    open spec fn undepth_operations() -> Seq<TickflowOpDef> {
        seq![
            TickflowOpDef { op: 0x18, arg0: None, scene: NO_SCENE },
            TickflowOpDef { op: 0x1D, arg0: None, scene: NO_SCENE },
        ]
    }

    fn get_undepth_operations() -> (defs: Vec<TickflowOpDef>) {
        let mut defs: Vec<TickflowOpDef> = Vec::new();
        defs.push(tf_op(0x18, None, NO_SCENE));
        defs.push(tf_op(0x1D, None, NO_SCENE));
        assert(defs@ =~= Self::undepth_operations());
        defs
    }

    open spec fn scene_operation() -> ArgsOpDef {
        args_def(0x28, None, NO_SCENE).with_arg(0, false)
    }

    fn get_scene_operation() -> (def: ArgsTickflowOpDef) {
        args_tf_op(0x28, None, NO_SCENE).with_arg(0, false)
    }

    open spec fn return_operations() -> Seq<TickflowOpDef> {
        seq![
            TickflowOpDef { op: 0x7, arg0: None, scene: NO_SCENE },
            TickflowOpDef { op: 0x8, arg0: None, scene: NO_SCENE },
        ]
    }

    fn get_return_operations() -> (defs: Vec<TickflowOpDef>) {
        let mut defs: Vec<TickflowOpDef> = Vec::new();
        defs.push(tf_op(0x7, None, NO_SCENE));
        defs.push(tf_op(0x8, None, NO_SCENE));
        assert(defs@ =~= Self::return_operations());
        defs
    }
}

} // verus!
