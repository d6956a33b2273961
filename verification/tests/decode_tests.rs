use chip8_core::convert_to_binary_coded_decimal;
use chip8_core::decode_instruction_into_nibbles;
use chip8_core::index_from_point;
use chip8_core::point_from_index;

#[test]
fn instruction_nibbles_are_correctly_decoded() {
    let test_cases = [
        (0x00E0, [0x0, 0x0, 0xE, 0x0]),
        (0x1234, [0x1, 0x2, 0x3, 0x4]),
        (0x6A17, [0x6, 0xA, 0x1, 0x7]),
    ];

    for (instruction, expected_result) in test_cases {
        assert_eq!(decode_instruction_into_nibbles(instruction), expected_result);
    }
}

#[test]
fn numbers_are_correctly_converted_to_binary_coded_decimal() {
    let test_cases = [
        (0, [0, 0, 0]),
        (1, [0, 0, 1]),
        (14, [0, 1, 4]),
        (67, [0, 6, 7]),
        (146, [1, 4, 6]),
        (249, [2, 4, 9]),
        (255, [2, 5, 5]),
    ];

    for (test_case, expected_result) in test_cases {
        assert_eq!(convert_to_binary_coded_decimal(test_case), expected_result);
    }
}

#[test]
fn point_is_correctly_converted_to_index() {
    let test_cases = [(0, (0, 0)), (1, (0, 1)), (66, (1, 2)), (2047, (31, 63))];

    for (expected_result, test_case) in test_cases {
        assert_eq!(index_from_point(test_case), expected_result);
    }
}

#[test]
fn index_is_correctly_converted_to_point() {
    let test_cases = [(0, (0, 0)), (1, (0, 1)), (66, (1, 2)), (2047, (31, 63))];

    for (test_case, expected_result) in test_cases {
        assert_eq!(point_from_index(test_case), expected_result);
    }
}

#[test]
fn index_point_conversion_is_a_bijection_over_the_display() {
    for k in 0..2048 {
        assert_eq!(index_from_point(point_from_index(k)), k);
    }
    for i in 0..32 {
        for j in 0..64 {
            assert_eq!(point_from_index(index_from_point((i, j))), (i, j));
        }
    }
}

#[test]
fn every_nibble_is_below_sixteen() {
    for instruction in [0x0000u16, 0xFFFF, 0x1234, 0xABCD, 0x8001] {
        for nibble in decode_instruction_into_nibbles(instruction) {
            assert!(nibble < 16);
        }
    }
}
