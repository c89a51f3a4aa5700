use botracers::tui::{command_move, Move};
use botracers::tui::{memory_line, reg_name, register_line};

#[test]
fn register_names() {
    assert_eq!(reg_name(0), "z");
    assert_eq!(reg_name(2), "sp");
    assert_eq!(reg_name(8), "s0");
    assert_eq!(reg_name(18), "s2");
    assert_eq!(reg_name(26), "s10");
    assert_eq!(reg_name(31), "t6");
}

#[test]
fn register_lines_match_format() {
    for (i, val) in [(0usize, 0u32), (5, 0xffff_ffff), (17, 1234), (26, 0x8000_0000)] {
        let expected = format!("x{i:02}: {:>2} | {:>10} | {:>10x} |", reg_name(i), val as i32, val);
        assert_eq!(register_line(i, val), expected);
    }
}

#[test]
fn memory_lines_match_format() {
    for (i, b) in [(0usize, [0u8, 0, 0, 0]), (3, [0x78, 0x56, 0x34, 0x12]), (1000, [0xff, 0xff, 0xff, 0xff])] {
        let [b0, b1, b2, b3] = b;
        let expected = format!(
            "{:x}: {b0:02x} {b1:02x} {b2:02x} {b3:02x} {:>10}",
            i * 4,
            b0 as u32 | (b1 as u32) << 8 | (b2 as u32) << 16 | (b3 as u32) << 24
        );
        assert_eq!(memory_line(i, b), expected);
    }
}

#[test]
fn command_words_move_the_marker() {
    assert_eq!(command_move(1), Some(Move::Left));
    assert_eq!(command_move(2), Some(Move::Up));
    assert_eq!(command_move(3), Some(Move::Right));
    assert_eq!(command_move(4), Some(Move::Down));
    assert_eq!(command_move(0), None);
    assert_eq!(command_move(5), None);
}
