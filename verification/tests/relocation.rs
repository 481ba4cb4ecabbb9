use std::collections::HashMap;
use tickflow::endian::ByteOrder;
use tickflow::extract::{relocate, ExtractError, Pointer, PointerType};

#[test]
fn pointers_are_patched_in_both_byte_orders() {
    let mut functions = HashMap::new();
    functions.insert(0x1000u32, 0x0102_0304u32);
    for (order, want) in [
        (ByteOrder::LittleEndian, [0xAA, 4, 3, 2, 1, 9, 0, 0, 0, 0xBB]),
        (ByteOrder::BigEndian, [0xAA, 1, 2, 3, 4, 0, 0, 0, 9, 0xBB]),
    ] {
        let mut code = vec![0xAA, 1, 1, 1, 1, 2, 2, 2, 2, 0xBB];
        let mut pointers = vec![
            Pointer { at: 1, points_to: 0x1000, ptype: PointerType::Tickflow },
            Pointer { at: 5, points_to: 9, ptype: PointerType::Data },
        ];
        relocate(&mut code, &mut pointers, &functions, order).unwrap();
        assert_eq!(code, want.to_vec());
        assert_eq!(
            pointers,
            vec![
                Pointer { at: 1, points_to: 0x0102_0304, ptype: PointerType::Tickflow },
                Pointer { at: 5, points_to: 9, ptype: PointerType::Data },
            ]
        );
    }
}

#[test]
fn a_pointer_to_an_unknown_subroutine_is_refused() {
    let functions: HashMap<u32, u32> = HashMap::new();
    let mut code = vec![0; 8];
    let mut pointers = vec![Pointer { at: 0, points_to: 4, ptype: PointerType::Tickflow }];
    let got = relocate(&mut code, &mut pointers, &functions, ByteOrder::LittleEndian);
    assert_eq!(got, Err(ExtractError::UnknownFunction));
}

#[test]
fn a_pointer_outside_the_code_is_refused() {
    let functions: HashMap<u32, u32> = HashMap::new();
    let mut code = vec![0; 8];
    let mut pointers = vec![Pointer { at: 5, points_to: 4, ptype: PointerType::Data }];
    let got = relocate(&mut code, &mut pointers, &functions, ByteOrder::LittleEndian);
    assert_eq!(got, Err(ExtractError::OutOfBounds));
    let mut pointers = vec![Pointer { at: 4, points_to: 4, ptype: PointerType::Data }];
    assert_eq!(relocate(&mut code, &mut pointers, &functions, ByteOrder::LittleEndian), Ok(()));
}
