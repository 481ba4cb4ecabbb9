use tickflow::data::btks::BtksType;
use tickflow::data::fever::FeverUsOp;
use tickflow::data::gold::GoldOp;
use tickflow::data::megamix::MegamixOp;
use tickflow::data::type_names::{get_arr_inner_type, get_val_type, name_of_type};
use tickflow::data::{
    args_tf_op, find_args_match, find_match, tf_op, Array, ArrayType, OperationSet,
    RawTickflowOp, TfPointer, TickflowOp, TickflowOpDef, Value, ValueType,
};
use tickflow::endian::ByteOrder;
use tickflow::extract::gold::TICKOVY_OFFSET_US;
use tickflow::extract::megamix::{locations_us, Scene, CODE_OFFSET};

fn op(op: u16, arg0: u32, args: Vec<u32>) -> RawTickflowOp {
    RawTickflowOp { op, arg0, args, scene: -1 }
}

#[test]
fn the_first_definition_that_applies_wins() {
    let defs = vec![tf_op(5, Some(1), 3), tf_op(5, None, -1), tf_op(5, Some(2), -1)];
    assert_eq!(find_match(&defs, &op(5, 1, vec![]), 3), Some(0));
    assert_eq!(find_match(&defs, &op(5, 1, vec![]), 4), Some(1));
    assert_eq!(find_match(&defs, &op(5, 2, vec![]), -1), Some(1));
    assert_eq!(find_match(&defs, &op(6, 2, vec![]), -1), None);
    let defs = vec![tf_op(5, Some(1), 3), tf_op(5, Some(2), -1)];
    assert_eq!(find_match(&defs, &op(5, 2, vec![]), 7), Some(1));
    assert_eq!(find_match(&defs, &op(5, 3, vec![]), 7), None);
    assert_eq!(find_match(&defs, &op(5, 1, vec![]), -1), None);
    let defs = vec![args_tf_op(9, None, 2).with_arg(1, true), args_tf_op(9, None, -1)];
    assert_eq!(find_args_match(&defs, &op(9, 0, vec![]), 2), Some(0));
    assert_eq!(find_args_match(&defs, &op(9, 0, vec![]), 1), Some(1));
    assert_eq!(find_args_match(&defs, &op(8, 0, vec![]), 1), None);
}

#[test]
fn the_tables_classify_operations() {
    let call = MegamixOp::is_call_operation(&op(1, 1, vec![0, 8]), -1).unwrap();
    assert_eq!((call.op, call.arg0, call.args.clone(), call.scene), (1, Some(1), vec![(1, false)], -1));
    assert!(MegamixOp::is_call_operation(&op(1, 0, vec![0, 8]), -1).is_none());
    let string = MegamixOp::is_string_operation(&op(0x94, 0, vec![]), -1).unwrap();
    assert_eq!(string.args, vec![(1, false), (2, false), (3, false)]);
    let string = MegamixOp::is_string_operation(&op(0x5D, 2, vec![]), 5).unwrap();
    assert_eq!(string.args, vec![(0, true)]);
    assert!(MegamixOp::is_string_operation(&op(0x105, 0, vec![]), -1).is_none());
    assert!(MegamixOp::is_string_operation(&op(0x105, 0, vec![]), 1).is_some());
    assert!(MegamixOp::is_string_operation(&op(0x106, 0, vec![]), 0x2A).is_some());
    assert!(MegamixOp::is_array_operation(&op(0x105, 0, vec![]), 1).is_none());
    assert_eq!(
        MegamixOp::is_depth_operation(&op(0x16, 3, vec![]), -1),
        Some(TickflowOpDef { op: 0x16, arg0: None, scene: -1 })
    );
    assert!(MegamixOp::is_depth_operation(&op(0x19, 0, vec![]), 4).is_some());
    assert!(MegamixOp::is_undepth_operation(&op(0x1D, 0, vec![]), 4).is_some());
    assert!(MegamixOp::is_undepth_operation(&op(0x16, 0, vec![]), 4).is_none());
    assert!(MegamixOp::is_return_operation(&op(0x8, 9, vec![]), 4).is_some());
    assert!(MegamixOp::is_return_operation(&op(0x9, 0, vec![]), 4).is_none());
    assert_eq!(MegamixOp::is_scene_operation(&op(0x28, 0, vec![3])), Some(0));
    assert_eq!(MegamixOp::is_scene_operation(&op(0x29, 0, vec![3])), None);
    assert_eq!(MegamixOp::get_string_operations().len(), 33);
    assert_eq!(MegamixOp::btks_tickflow_type(), BtksType::MegamixIntl);
    assert_eq!(MegamixOp::endian(), ByteOrder::LittleEndian);
}

#[test]
fn fever_and_gold_have_their_own_tables() {
    assert_eq!(FeverUsOp::endian(), ByteOrder::BigEndian);
    assert_eq!(FeverUsOp::btks_tickflow_type(), BtksType::FeverUs);
    assert_eq!(FeverUsOp::is_scene_operation(&op(0x100, 0, vec![1, 2])), Some(0));
    assert_eq!(FeverUsOp::is_scene_operation(&op(0x100, 1, vec![1, 2])), None);
    let call = FeverUsOp::is_call_operation(&op(0x100, 0, vec![1, 2]), 1).unwrap();
    assert_eq!(call.args, vec![(1, false)]);
    assert!(FeverUsOp::is_return_operation(&op(3, 0, vec![]), -1).is_some());
    assert_eq!(FeverUsOp::get_depth_operations().len(), 7);
    assert_eq!(FeverUsOp::get_undepth_operations().len(), 2);
    assert_eq!(FeverUsOp::get_string_operations().len(), 7);
    assert_eq!(GoldOp::endian(), ByteOrder::LittleEndian);
    assert_eq!(GoldOp::btks_tickflow_type(), BtksType::Gold);
    assert_eq!(GoldOp::is_scene_operation(&op(0x100, 7, vec![])), Some(-1));
    assert!(GoldOp::get_call_operations().is_empty());
    assert!(GoldOp::is_return_operation(&op(0x7, 0, vec![]), -1).is_none());
}

#[test]
fn definitions_agree_as_far_as_they_are_specific() {
    let def = |op, arg0, scene| TickflowOpDef { op, arg0, scene };
    assert!(def(1, Some(2), 3) == def(1, Some(2), 3));
    assert!(def(1, None, 3) == def(1, Some(2), 3));
    assert!(def(1, Some(2), -1) == def(1, Some(2), 3));
    assert!(def(1, Some(2), 3) != def(1, Some(3), 3));
    assert!(def(1, Some(2), 3) != def(1, Some(2), 4));
    assert!(def(1, None, -1) != def(2, None, -1));
    let raw = RawTickflowOp { op: 9, arg0: 4, args: vec![1], scene: 6 };
    assert!(raw.as_definition() == def(9, Some(4), 6));
    assert_eq!(raw.as_definition().arg0, Some(4));
}

#[test]
fn values_know_their_types() {
    assert_eq!(Value::Bool(true).get_type(), ValueType::Bool);
    assert_eq!(Value::Signed(-1).get_type(), ValueType::Signed);
    assert_eq!(Value::Unsigned(1).get_type(), ValueType::Unsigned);
    assert_eq!(Value::String("a".to_string()).get_type(), ValueType::String);
    assert_eq!(Value::Utf16("a".to_string()).get_type(), ValueType::Utf16);
    assert_eq!(Value::TfPointer(TfPointer::Raw(1)).get_type(), ValueType::TfPointer);
    assert_eq!(
        Value::TfPointerSync(TfPointer::Label("l".to_string())).get_type(),
        ValueType::TfPointer
    );
    let nested = Array::Arrays(Box::new(Array::Arrays(Box::new(Array::Half(vec![1, 2])))));
    assert_eq!(nested.get_depth(), 3);
    assert_eq!(nested.get_type(), ArrayType::Half);
    assert_eq!(Array::Byte(vec![]).get_depth(), 1);
    assert_eq!(
        Value::Array(nested.clone()).get_type(),
        ValueType::Array { depth: 3, inner: ArrayType::Half }
    );
    let flat = [
        (Array::Word(vec![]), ArrayType::Word),
        (Array::SignedWord(vec![]), ArrayType::SignedWord),
        (Array::Byte(vec![]), ArrayType::Byte),
        (Array::SignedByte(vec![]), ArrayType::SignedByte),
        (Array::Half(vec![]), ArrayType::Half),
        (Array::SignedHalf(vec![]), ArrayType::SignedHalf),
        (Array::String(vec![]), ArrayType::String),
        (Array::Utf16(vec![]), ArrayType::Utf16),
        (Array::TfPointer(vec![]), ArrayType::TfPointer),
    ];
    for (array, inner) in flat {
        assert_eq!(array.get_type(), inner);
    }
}

#[test]
fn values_are_made_of_plain_data() {
    assert!(matches!(Array::from(vec![1u32]), Array::Word(v) if v == vec![1]));
    assert!(matches!(Array::from(vec![1i32]), Array::SignedWord(_)));
    assert!(matches!(Array::from(vec![1u16]), Array::Half(_)));
    assert!(matches!(Array::from(vec![1i16]), Array::SignedHalf(_)));
    assert!(matches!(Array::from(vec![1u8]), Array::Byte(_)));
    assert!(matches!(Array::from(vec![1i8]), Array::SignedByte(_)));
    assert!(matches!(Array::from(vec!["s".to_string()]), Array::String(_)));
    assert!(matches!(Array::from(vec![TfPointer::Raw(1)]), Array::TfPointer(_)));
    assert!(matches!(Value::from(vec![1u8, 2]), Value::Array(Array::Byte(v)) if v == vec![1, 2]));
    assert!(matches!(Value::from("s".to_string()), Value::String(s) if s == "s"));
    assert!(matches!(Value::from(7u32), Value::Unsigned(7)));
    assert!(matches!(Value::from(-7i32), Value::Signed(-7)));
    assert!(matches!(TfPointer::from(7u32), TfPointer::Raw(7)));
    assert!(matches!(TfPointer::from(-1i32), TfPointer::Raw(0xFFFF_FFFF)));
    assert!(matches!(TfPointer::from(5i32), TfPointer::Raw(5)));
    let typed: TickflowOp = RawTickflowOp { op: 3, arg0: 4, args: vec![5, 6], scene: 7 }.into();
    assert_eq!((typed.op, typed.arg0, typed.scene), (3, 4, 7));
    assert!(matches!(typed.args[..], [Value::Unsigned(5), Value::Unsigned(6)]));
}

#[test]
fn types_go_by_names() {
    assert_eq!(name_of_type(&ValueType::Bool), "bool");
    assert_eq!(name_of_type(&ValueType::Signed), "int");
    assert_eq!(name_of_type(&ValueType::Unsigned), "uint");
    assert_eq!(name_of_type(&ValueType::String), "str");
    assert_eq!(name_of_type(&ValueType::Utf16), "wstr");
    assert_eq!(name_of_type(&ValueType::TfPointer), "sub");
    assert_eq!(name_of_type(&ValueType::TfPointerSync), "sub_sync");
    assert_eq!(
        name_of_type(&ValueType::Array { depth: 2, inner: ArrayType::SignedHalf }),
        "i16[][]"
    );
    assert_eq!(get_val_type("bool"), Some(ValueType::Bool));
    assert_eq!(get_val_type("ustr"), Some(ValueType::Utf16));
    assert_eq!(get_val_type("sub_sync"), Some(ValueType::TfPointerSync));
    assert_eq!(get_val_type("u32"), None);
    assert_eq!(get_val_type(""), None);
    assert_eq!(
        get_val_type("s8[][][]"),
        Some(ValueType::Array { depth: 3, inner: ArrayType::SignedByte })
    );
    assert_eq!(
        get_val_type("sub[]"),
        Some(ValueType::Array { depth: 1, inner: ArrayType::TfPointer })
    );
    assert_eq!(get_val_type("bool[]"), None);
    assert_eq!(get_val_type("[]"), None);
    let deep = format!("u8{}", "[]".repeat(255));
    assert_eq!(get_val_type(&deep), Some(ValueType::Array { depth: 255, inner: ArrayType::Byte }));
    assert_eq!(get_val_type(&format!("{}[]", deep)), None);
    assert_eq!(get_arr_inner_type("s32"), Some(ArrayType::SignedWord));
    assert_eq!(get_arr_inner_type("wstr"), Some(ArrayType::Utf16));
    assert_eq!(get_arr_inner_type("int"), None);
}

#[test]
fn the_games_have_their_places() {
    assert_eq!(CODE_OFFSET, 0x100000);
    assert_eq!(TICKOVY_OFFSET_US, 0x0228FA60);
    let places = locations_us();
    assert_eq!(places.games[0], ("agbClap_short", 0x39d6dc));
    assert_eq!(places.games.len(), 104);
    assert_eq!(places.gates.len(), 16);
    assert_eq!(places.gate_practices[3], ("ctrChickenPractice", 0x3c985c));
    assert!(places.subs.is_empty() && places.misc.is_empty());
    assert_eq!(Scene::Global.id(), 0xFF);
    assert_eq!(Scene::AgbBatter.id(), 0);
    assert_eq!(Scene::CtrInterpreter.id(), 0x39);
    assert_eq!(Scene::WorldMap.id(), 0x47);
    assert_eq!(Scene::DemoMessage.id(), 0x62);
}

#[test]
fn a_copy_of_an_array_holds_what_the_array_holds() {
    let arrays = [
        Array::Word(vec![1, 2]),
        Array::SignedByte(vec![-1]),
        Array::String(vec!["a".to_string(), "b".to_string()]),
        Array::TfPointer(vec![TfPointer::Raw(3), TfPointer::Label("l".to_string())]),
        Array::Arrays(Box::new(Array::Arrays(Box::new(Array::Half(vec![7]))))),
    ];
    for array in arrays {
        assert_eq!(format!("{:?}", array.clone()), format!("{:?}", array));
    }
    let pointer = TfPointer::Label("there".to_string());
    assert!(matches!(pointer.clone(), TfPointer::Label(name) if name == "there"));
}

#[test]
fn the_games_of_the_keepers_are_listed_with_their_practices() {
    let places = locations_us();
    assert_eq!(places.gates[0], ("agbVirus00", 0x3bdd64));
    assert_eq!(places.gates[15], ("ctrChickenEndless", 0x3cd11c));
    assert_eq!(places.gate_practices[0], ("agbVirusPractice", 0x3bdee4));
    assert_eq!(places.gate_practices.len(), 4);
    assert_eq!(places.games[103], ("remix07", 0x459b20));
    assert_eq!(places.games[15], ("agbBatter_long", 0x39a43c));
}
