//! The text of the debugger's register and memory panes.
use vstd::prelude::*;

use crate::text::{decimal, hex, padded, push_decimal, push_hex, push_padded, push_signed, signed_decimal};

verus! {

/// The ABI name of register `x<reg>`.
pub open spec fn abi_name(reg: int) -> Seq<char> {
    if reg == 0 {
        seq!['z']
    } else if reg == 1 {
        seq!['r', 'a']
    } else if reg == 2 {
        seq!['s', 'p']
    } else if reg == 3 {
        seq!['g', 'p']
    } else if reg == 4 {
        seq!['t', 'p']
    } else if 5 <= reg <= 7 {
        seq!['t', (0x30 + reg - 5) as char]
    } else if 8 <= reg <= 9 {
        seq!['s', (0x30 + reg - 8) as char]
    } else if 10 <= reg <= 17 {
        seq!['a', (0x30 + reg - 10) as char]
    } else if 18 <= reg <= 25 {
        seq!['s', (0x30 + reg - 16) as char]
    } else if reg == 26 {
        seq!['s', '1', '0']
    } else if reg == 27 {
        seq!['s', '1', '1']
    } else {
        seq!['t', (0x30 + reg - 25) as char]
    }
}

/// The ABI name of register `x<reg>`.
pub fn reg_name(reg: usize) -> (r: &'static str)
    requires
        reg < 32,
    ensures
        r@ == abi_name(reg as int),
{
    proof {
        reveal_strlit("z");
        reveal_strlit("ra");
        reveal_strlit("sp");
        reveal_strlit("gp");
        reveal_strlit("tp");
        reveal_strlit("t0");
        reveal_strlit("t1");
        reveal_strlit("t2");
        reveal_strlit("s0");
        reveal_strlit("s1");
        reveal_strlit("a0");
        reveal_strlit("a1");
        reveal_strlit("a2");
        reveal_strlit("a3");
        reveal_strlit("a4");
        reveal_strlit("a5");
        reveal_strlit("a6");
        reveal_strlit("a7");
        reveal_strlit("s2");
        reveal_strlit("s3");
        reveal_strlit("s4");
        reveal_strlit("s5");
        reveal_strlit("s6");
        reveal_strlit("s7");
        reveal_strlit("s8");
        reveal_strlit("s9");
        reveal_strlit("s10");
        reveal_strlit("s11");
        reveal_strlit("t3");
        reveal_strlit("t4");
        reveal_strlit("t5");
        reveal_strlit("t6");
    }
    let r = match reg {
        0 => "z",
        1 => "ra",
        2 => "sp",
        3 => "gp",
        4 => "tp",
        5 => "t0",
        6 => "t1",
        7 => "t2",
        8 => "s0",
        9 => "s1",
        10 => "a0",
        11 => "a1",
        12 => "a2",
        13 => "a3",
        14 => "a4",
        15 => "a5",
        16 => "a6",
        17 => "a7",
        18 => "s2",
        19 => "s3",
        20 => "s4",
        21 => "s5",
        22 => "s6",
        23 => "s7",
        24 => "s8",
        25 => "s9",
        26 => "s10",
        27 => "s11",
        28 => "t3",
        29 => "t4",
        30 => "t5",
        _ => "t6",
    };
    assert(r@ =~= abi_name(reg as int));
    r
}

/// One line of the register pane: the register's number (two digits), its
/// ABI name, its value as a signed number and in hexadecimal.
pub open spec fn register_text(i: int, val: u32) -> Seq<char> {
    seq!['x'] + padded(decimal(i as nat), 2, '0') + seq![':', ' '] + padded(abi_name(i), 2, ' ')
        + seq![' ', '|', ' '] + padded(signed_decimal(val as i32 as int), 10, ' ') + seq![' ', '|', ' ']
        + padded(hex(val as nat), 10, ' ') + seq![' ', '|']
}

/// One line of the register pane for register `x<i>` holding `val`.
pub fn register_line(i: usize, val: u32) -> (r: String)
    requires
        i < 32,
    ensures
        r@ == register_text(i as int, val),
{
    proof {
        reveal_strlit("x");
        reveal_strlit(": ");
        reveal_strlit(" | ");
        reveal_strlit(" |");
        reveal_strlit("0");
        reveal_strlit(" ");
    }
    let mut line = String::from_str("x");
    let mut number = String::new();
    push_decimal(&mut number, i as u64);
    push_padded(&mut line, number.as_str(), 2, "0");
    line.append(": ");
    push_padded(&mut line, reg_name(i), 2, " ");
    line.append(" | ");
    let mut signed = String::new();
    push_signed(&mut signed, (val as i32) as i64);
    push_padded(&mut line, signed.as_str(), 10, " ");
    line.append(" | ");
    let mut digits = String::new();
    push_hex(&mut digits, val as u64);
    push_padded(&mut line, digits.as_str(), 10, " ");
    line.append(" |");
    assert(line@ =~= register_text(i as int, val));
    line
}

/// One line of the memory pane: the word's byte address in hexadecimal, its
/// four bytes as two hexadecimal digits and a space each, and its
/// little-endian value.
pub open spec fn memory_text(index: int, b: Seq<u8>) -> Seq<char> {
    hex((index * 4) as nat) + seq![':', ' '] + memory_bytes_text(b, 4) + padded(
        decimal((b[0] + b[1] * 256 + b[2] * 0x10000 + b[3] * 0x1000000) as nat),
        10,
        ' ',
    )
}

/// Appends byte `b` as two hexadecimal digits and a space.
fn push_byte(line: &mut String, b: u8)
    ensures
        final(line)@ == old(line)@ + padded(hex(b as nat), 2, '0') + seq![' '],
{
    proof {
        reveal_strlit(" ");
        reveal_strlit("0");
    }
    let mut digits = String::new();
    push_hex(&mut digits, b as u64);
    push_padded(line, digits.as_str(), 2, "0");
    line.append(" ");
}

/// One line of the memory pane for the `index`-th word, holding `bytes`.
pub fn memory_line(index: usize, bytes: [u8; 4]) -> (r: String)
    requires
        index * 4 <= u64::MAX,
    ensures
        r@ == memory_text(index as int, bytes@),
{
    proof {
        reveal_strlit(": ");
        reveal_strlit(" ");
        reveal_strlit("0");
    }
    let mut line = String::new();
    push_hex(&mut line, index as u64 * 4);
    line.append(": ");
    let mut k: usize = 0;
    while k < 4
        invariant
            k <= 4,
            index * 4 <= u64::MAX,
            line@ == hex((index * 4) as nat) + seq![':', ' '] + memory_bytes_text(bytes@, k as int),
        decreases 4 - k,
    {
        push_byte(&mut line, bytes[k]);
        k = k + 1;
    }
    let value = (bytes[0] as u64) + (bytes[1] as u64) * 256 + (bytes[2] as u64) * 0x10000 + (bytes[3] as u64)
        * 0x1000000;
    let mut number = String::new();
    push_decimal(&mut number, value);
    push_padded(&mut line, number.as_str(), 10, " ");
    assert(line@ =~= memory_text(index as int, bytes@));
    line
}

/// The first `k` bytes of `b`, each as two hexadecimal digits and a space.
pub open spec fn memory_bytes_text(b: Seq<u8>, k: int) -> Seq<char>
    decreases k,
{
    if k <= 0 {
        Seq::empty()
    } else {
        memory_bytes_text(b, k - 1) + padded(hex(b[k - 1] as nat), 2, '0') + seq![' ']
    }
}

/// A move of the debugger's marker, in grid steps.
#[derive(Debug, Clone, Copy, PartialEq, Eq, Structural)]
pub enum Move {
    Left,
    Up,
    Right,
    Down,
}

/// The move that a command word asks for: 1 left, 2 up, 3 right, 4 down;
/// other words move nothing.
pub fn command_move(command: u32) -> (r: Option<Move>)
    ensures
        r == (if command == 1 {
            Some(Move::Left)
        } else if command == 2 {
            Some(Move::Up)
        } else if command == 3 {
            Some(Move::Right)
        } else if command == 4 {
            Some(Move::Down)
        } else {
            None
        }),
{
    match command {
        1 => Some(Move::Left),
        2 => Some(Move::Up),
        3 => Some(Move::Right),
        4 => Some(Move::Down),
        _ => None,
    }
}

} // verus!
