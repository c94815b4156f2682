use vstd::prelude::*;
use vstd::string::StringExecFns;
use crate::types::op_family;
use crate::types::op_kk;
use crate::types::op_n;
use crate::types::op_nnn;
use crate::types::op_x;
use crate::types::op_y;

verus! {

/// The lower-case hexadecimal digit for a value below 16.
pub open spec fn hex_digit(d: u8) -> char {
    if d == 0 {
        '0'
    } else if d == 1 {
        '1'
    } else if d == 2 {
        '2'
    } else if d == 3 {
        '3'
    } else if d == 4 {
        '4'
    } else if d == 5 {
        '5'
    } else if d == 6 {
        '6'
    } else if d == 7 {
        '7'
    } else if d == 8 {
        '8'
    } else if d == 9 {
        '9'
    } else if d == 10 {
        'a'
    } else if d == 11 {
        'b'
    } else if d == 12 {
        'c'
    } else if d == 13 {
        'd'
    } else if d == 14 {
        'e'
    } else {
        'f'
    }
}

/// The three low nibbles of a word as hexadecimal digits.
pub open spec fn spec_hex3(w: u16) -> Seq<char> {
    seq![
        hex_digit(((w / 0x100) % 0x10) as u8),
        hex_digit(((w / 0x10) % 0x10) as u8),
        hex_digit((w % 0x10) as u8),
    ]
}

/// All four nibbles of a word as hexadecimal digits.
pub open spec fn spec_hex4(w: u16) -> Seq<char> {
    seq![hex_digit((w / 0x1000) as u8)] + spec_hex3(w)
}

/// A byte in decimal, without leading zeros.
pub open spec fn spec_dec(v: u8) -> Seq<char> {
    if v < 10 {
        seq![hex_digit(v)]
    } else if v < 100 {
        seq![hex_digit(v / 10), hex_digit(v % 10)]
    } else {
        seq![hex_digit(v / 100), hex_digit((v / 10) % 10), hex_digit(v % 10)]
    }
}

/// The lower-case hexadecimal digit for a value below 16, as a string.
fn hex_str(d: u8) -> (r: &'static str)
    requires
        d < 16,
    ensures
        r@ == seq![hex_digit(d)],
{
    let r: &'static str = match d {
        0 => "0",
        1 => "1",
        2 => "2",
        3 => "3",
        4 => "4",
        5 => "5",
        6 => "6",
        7 => "7",
        8 => "8",
        9 => "9",
        10 => "a",
        11 => "b",
        12 => "c",
        13 => "d",
        14 => "e",
        _ => "f",
    };
    proof {
        reveal_strlit("0");
        reveal_strlit("1");
        reveal_strlit("2");
        reveal_strlit("3");
        reveal_strlit("4");
        reveal_strlit("5");
        reveal_strlit("6");
        reveal_strlit("7");
        reveal_strlit("8");
        reveal_strlit("9");
        reveal_strlit("a");
        reveal_strlit("b");
        reveal_strlit("c");
        reveal_strlit("d");
        reveal_strlit("e");
        reveal_strlit("f");
        assert(r@ =~= seq![hex_digit(d)]);
    }
    r
}

/// The three low nibbles of a word as hexadecimal digits.
fn hex3(w: u16) -> (r: String)
    ensures
        r@ == spec_hex3(w),
{
    let d1 = hex_str(((w / 0x100) % 0x10) as u8);
    let d2 = hex_str(((w / 0x10) % 0x10) as u8);
    let d3 = hex_str((w % 0x10) as u8);
    let r = String::from_str(d1).concat(d2).concat(d3);
    proof {
        assert(r@ =~= spec_hex3(w));
    }
    r
}

/// All four nibbles of a word as hexadecimal digits.
fn hex4(w: u16) -> (r: String)
    ensures
        r@ == spec_hex4(w),
{
    let d0 = hex_str((w / 0x1000) as u8);
    let rest = hex3(w);
    let r = String::from_str(d0).concat(rest.as_str());
    proof {
        assert(r@ =~= spec_hex4(w));
    }
    r
}

/// A byte in decimal, without leading zeros.
fn dec_str(v: u8) -> (r: String)
    ensures
        r@ == spec_dec(v),
{
    if v < 10 {
        let r = String::from_str(hex_str(v));
        proof {
            assert(r@ =~= spec_dec(v));
        }
        r
    } else if v < 100 {
        let r = String::from_str(hex_str(v / 10)).concat(hex_str(v % 10));
        proof {
            assert(r@ =~= spec_dec(v));
        }
        r
    } else {
        let r = String::from_str(hex_str(v / 100)).concat(hex_str((v / 10) % 10)).concat(
            hex_str(v % 10),
        );
        proof {
            assert(r@ =~= spec_dec(v));
        }
        r
    }
}

/// The mnemonic rendering of one instruction word: the mnemonic column,
/// then the operands; register operands in hexadecimal after a V,
/// addresses as three hexadecimal digits after 0x, immediates in
/// decimal; a word no family recognises renders as a .word directive.
pub open spec fn spec_disasm(w: u16) -> Seq<char> {
    let x = op_x(w);
    let y = op_y(w);
    let n = op_n(w);
    let nnn = op_nnn(w);
    let kk = op_kk(w);
    let fam = op_family(w);
    let unknown = ".word   0x"@ + spec_hex4(w);
    if fam == 0x0 {
        if nnn == 0x0E0 {
            "CLS"@
        } else if nnn == 0x0EE {
            "RET"@
        } else {
            unknown
        }
    } else if fam == 0x1 {
        "JP      0x"@ + spec_hex3(nnn)
    } else if fam == 0x2 {
        "CALL    0x"@ + spec_hex3(nnn)
    } else if fam == 0x3 {
        "SE      V"@ + seq![hex_digit(x)] + ", "@ + spec_dec(kk)
    } else if fam == 0x4 {
        "SNE     V"@ + seq![hex_digit(x)] + ", "@ + spec_dec(kk)
    } else if fam == 0x5 {
        "SE      V"@ + seq![hex_digit(x)] + ", V"@ + seq![hex_digit(y)]
    } else if fam == 0x6 {
        "LD      V"@ + seq![hex_digit(x)] + ", "@ + spec_dec(kk)
    } else if fam == 0x7 {
        "ADD     V"@ + seq![hex_digit(x)] + ", "@ + spec_dec(kk)
    } else if fam == 0x8 {
        let pair = seq![hex_digit(x)] + " V"@ + seq![hex_digit(y)];
        if n == 0x0 {
            "LD      V"@ + pair
        } else if n == 0x1 {
            "OR      V"@ + pair
        } else if n == 0x2 {
            "AND     V"@ + pair
        } else if n == 0x3 {
            "XOR     V"@ + pair
        } else if n == 0x4 {
            "ADD     V"@ + pair
        } else if n == 0x5 {
            "SUB     V"@ + pair
        } else if n == 0x6 {
            "SHR     V"@ + pair
        } else if n == 0x7 {
            "SUBN    V"@ + pair
        } else if n == 0xE {
            "SHL     V"@ + pair
        } else {
            unknown
        }
    } else if fam == 0x9 {
        "SNE     V"@ + seq![hex_digit(x)] + " V"@ + seq![hex_digit(y)]
    } else if fam == 0xA {
        "LD      I, 0x"@ + spec_hex3(nnn)
    } else if fam == 0xB {
        "JP      V0, 0x"@ + spec_hex3(nnn)
    } else if fam == 0xC {
        "RND     V"@ + seq![hex_digit(x)] + ", "@ + spec_dec(kk)
    } else if fam == 0xD {
        "DRW     V"@ + seq![hex_digit(x)] + ", V"@ + seq![hex_digit(y)] + ", "@ + spec_dec(n)
    } else if fam == 0xE {
        if kk == 0x9E {
            "SKP     V"@ + seq![hex_digit(x)] + " << INPUT"@
        } else if kk == 0xA1 {
            "SKNP    V"@ + seq![hex_digit(x)] + " << INPUT"@
        } else {
            unknown
        }
    } else {
        if kk == 0x07 {
            "LD      V"@ + seq![hex_digit(x)] + ", DT"@
        } else if kk == 0x0A {
            "LD      V"@ + seq![hex_digit(x)] + ", K << INPUT"@
        } else if kk == 0x15 {
            "LD      DT, V"@ + seq![hex_digit(x)]
        } else if kk == 0x18 {
            "LD      ST, V"@ + seq![hex_digit(x)]
        } else if kk == 0x1E {
            "ADD     I, V"@ + seq![hex_digit(x)]
        } else if kk == 0x29 {
            "LD      F, V"@ + seq![hex_digit(x)]
        } else if kk == 0x33 {
            "LD      B, V"@ + seq![hex_digit(x)]
        } else if kk == 0x55 {
            "LD      [I], V"@ + seq![hex_digit(x)]
        } else if kk == 0x65 {
            "LD      V"@ + seq![hex_digit(x)] + ", [I]"@
        } else {
            unknown
        }
    }
}

/// Render one instruction word as assembly text.
pub fn disasm(word: u16) -> (r: String)
    ensures
        r@ == spec_disasm(word),
{
    let x = (word / 0x100 % 0x10) as u8;
    let y = (word / 0x10 % 0x10) as u8;
    let n = (word % 0x10) as u8;
    let nnn: u16 = word % 0x1000;
    let kk: u8 = (word % 0x100) as u8;
    let fam = (word / 0x1000) as u8;
    if fam == 0x0 {
        if nnn == 0x0E0 {
            String::from_str("CLS")
        } else if nnn == 0x0EE {
            String::from_str("RET")
        } else {
            String::from_str(".word   0x").concat(hex4(word).as_str())
        }
    } else if fam == 0x1 {
        String::from_str("JP      0x").concat(hex3(nnn).as_str())
    } else if fam == 0x2 {
        String::from_str("CALL    0x").concat(hex3(nnn).as_str())
    } else if fam == 0x3 {
        String::from_str("SE      V").concat(hex_str(x)).concat(", ").concat(dec_str(kk).as_str())
    } else if fam == 0x4 {
        String::from_str("SNE     V").concat(hex_str(x)).concat(", ").concat(dec_str(kk).as_str())
    } else if fam == 0x5 {
        String::from_str("SE      V").concat(hex_str(x)).concat(", V").concat(hex_str(y))
    } else if fam == 0x6 {
        String::from_str("LD      V").concat(hex_str(x)).concat(", ").concat(dec_str(kk).as_str())
    } else if fam == 0x7 {
        String::from_str("ADD     V").concat(hex_str(x)).concat(", ").concat(dec_str(kk).as_str())
    } else if fam == 0x8 {
        if n == 0x0 {
            String::from_str("LD      V").concat(hex_str(x)).concat(" V").concat(hex_str(y))
        } else if n == 0x1 {
            String::from_str("OR      V").concat(hex_str(x)).concat(" V").concat(hex_str(y))
        } else if n == 0x2 {
            String::from_str("AND     V").concat(hex_str(x)).concat(" V").concat(hex_str(y))
        } else if n == 0x3 {
            String::from_str("XOR     V").concat(hex_str(x)).concat(" V").concat(hex_str(y))
        } else if n == 0x4 {
            String::from_str("ADD     V").concat(hex_str(x)).concat(" V").concat(hex_str(y))
        } else if n == 0x5 {
            String::from_str("SUB     V").concat(hex_str(x)).concat(" V").concat(hex_str(y))
        } else if n == 0x6 {
            String::from_str("SHR     V").concat(hex_str(x)).concat(" V").concat(hex_str(y))
        } else if n == 0x7 {
            String::from_str("SUBN    V").concat(hex_str(x)).concat(" V").concat(hex_str(y))
        } else if n == 0xE {
            String::from_str("SHL     V").concat(hex_str(x)).concat(" V").concat(hex_str(y))
        } else {
            String::from_str(".word   0x").concat(hex4(word).as_str())
        }
    } else if fam == 0x9 {
        String::from_str("SNE     V").concat(hex_str(x)).concat(" V").concat(hex_str(y))
    } else if fam == 0xA {
        String::from_str("LD      I, 0x").concat(hex3(nnn).as_str())
    } else if fam == 0xB {
        String::from_str("JP      V0, 0x").concat(hex3(nnn).as_str())
    } else if fam == 0xC {
        String::from_str("RND     V").concat(hex_str(x)).concat(", ").concat(dec_str(kk).as_str())
    } else if fam == 0xD {
        String::from_str("DRW     V").concat(hex_str(x)).concat(", V").concat(hex_str(y)).concat(
            ", ",
        ).concat(dec_str(n).as_str())
    } else if fam == 0xE {
        if kk == 0x9E {
            String::from_str("SKP     V").concat(hex_str(x)).concat(" << INPUT")
        } else if kk == 0xA1 {
            String::from_str("SKNP    V").concat(hex_str(x)).concat(" << INPUT")
        } else {
            String::from_str(".word   0x").concat(hex4(word).as_str())
        }
    } else {
        if kk == 0x07 {
            String::from_str("LD      V").concat(hex_str(x)).concat(", DT")
        } else if kk == 0x0A {
            String::from_str("LD      V").concat(hex_str(x)).concat(", K << INPUT")
        } else if kk == 0x15 {
            String::from_str("LD      DT, V").concat(hex_str(x))
        } else if kk == 0x18 {
            String::from_str("LD      ST, V").concat(hex_str(x))
        } else if kk == 0x1E {
            String::from_str("ADD     I, V").concat(hex_str(x))
        } else if kk == 0x29 {
            String::from_str("LD      F, V").concat(hex_str(x))
        } else if kk == 0x33 {
            String::from_str("LD      B, V").concat(hex_str(x))
        } else if kk == 0x55 {
            String::from_str("LD      [I], V").concat(hex_str(x))
        } else if kk == 0x65 {
            String::from_str("LD      V").concat(hex_str(x)).concat(", [I]")
        } else {
            String::from_str(".word   0x").concat(hex4(word).as_str())
        }
    }
}

} // verus!
