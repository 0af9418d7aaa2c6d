//! The board part-id and serial number read from a radio device, and
//! its display form: the four serial words as eight uppercase hex
//! digits each, joined by dashes.

use vstd::prelude::*;
use vstd::string::StringExecFns;

verus! {

/// The uppercase hexadecimal digit for a value below sixteen.
pub open spec fn hex_char(n: int) -> char {
    if n == 0 {
        '0'
    } else if n == 1 {
        '1'
    } else if n == 2 {
        '2'
    } else if n == 3 {
        '3'
    } else if n == 4 {
        '4'
    } else if n == 5 {
        '5'
    } else if n == 6 {
        '6'
    } else if n == 7 {
        '7'
    } else if n == 8 {
        '8'
    } else if n == 9 {
        '9'
    } else if n == 10 {
        'A'
    } else if n == 11 {
        'B'
    } else if n == 12 {
        'C'
    } else if n == 13 {
        'D'
    } else if n == 14 {
        'E'
    } else {
        'F'
    }
}

/// The `k`-th hex digit of a 32-bit word, most significant first.
pub open spec fn nibble(w: u32, k: int) -> int {
    ((w >> ((28 - 4 * k) as u32)) & 0xF) as int
}

/// A 32-bit word as eight uppercase hex digits, most significant first.
pub open spec fn hex32(w: u32) -> Seq<char> {
    Seq::new(8, |k: int| hex_char(nibble(w, k)))
}

/// A sequence of words as hex groups joined by dashes.
pub open spec fn dashed_hex(words: Seq<u32>) -> Seq<char>
    decreases words.len(),
{
    if words.len() == 0 {
        Seq::empty()
    } else if words.len() == 1 {
        hex32(words[0])
    } else {
        dashed_hex(words.drop_last()) + seq!['-'] + hex32(words.last())
    }
}

/// The part id and serial number of a radio board.
#[derive(Debug)]
pub struct SerialNumber {
    /// The two part-id words.
    pub part_id: [u32; 2],
    /// The four serial-number words.
    pub serial_no: [u32; 4],
}

impl Default for SerialNumber {
    /// An all-zero serial, as used before the device has been read.
    fn default() -> (r: Self)
        ensures
            r.part_id@ == seq![0u32, 0u32],
            r.serial_no@ == seq![0u32, 0u32, 0u32, 0u32],
    {
        let r = SerialNumber { part_id: [0, 0], serial_no: [0, 0, 0, 0] };
        proof {
            assert(r.part_id@ =~= seq![0u32, 0u32]);
            assert(r.serial_no@ =~= seq![0u32, 0u32, 0u32, 0u32]);
        }
        r
    }
}

/// Appends the uppercase hex digit of a value below sixteen.
fn push_hex_digit(s: &mut String, nib: u32)
    requires
        nib < 16,
    ensures
        final(s)@ == old(s)@ + seq![hex_char(nib as int)],
{
    proof {
        reveal_strlit("0");
        reveal_strlit("1");
        reveal_strlit("2");
        reveal_strlit("3");
        reveal_strlit("4");
        reveal_strlit("5");
        reveal_strlit("6");
        reveal_strlit("7");
        reveal_strlit("8");
        reveal_strlit("9");
        reveal_strlit("A");
        reveal_strlit("B");
        reveal_strlit("C");
        reveal_strlit("D");
        reveal_strlit("E");
        reveal_strlit("F");
    }
    match nib {
        0 => s.append("0"),
        1 => s.append("1"),
        2 => s.append("2"),
        3 => s.append("3"),
        4 => s.append("4"),
        5 => s.append("5"),
        6 => s.append("6"),
        7 => s.append("7"),
        8 => s.append("8"),
        9 => s.append("9"),
        10 => s.append("A"),
        11 => s.append("B"),
        12 => s.append("C"),
        13 => s.append("D"),
        14 => s.append("E"),
        _ => s.append("F"),
    }
}

/// Appends the eight uppercase hex digits of one word.
fn push_hex32(s: &mut String, w: u32)
    ensures
        final(s)@ == old(s)@ + hex32(w),
{
    let mut k: usize = 0;
    while k < 8
        invariant
            k <= 8,
            s@ == old(s)@ + hex32(w).subrange(0, k as int),
        decreases 8 - k,
    {
        let shift: u32 = 28 - 4 * (k as u32);
        let nib: u32 = (w >> shift) & 0xF;
        proof {
            assert((w >> shift) & 0xF < 16) by (bit_vector);
            assert(nib as int == nibble(w, k as int));
        }
        push_hex_digit(s, nib);
        proof {
            assert(old(s)@ + hex32(w).subrange(0, k as int + 1) =~= (old(s)@ + hex32(w).subrange(
                0,
                k as int,
            )) + seq![hex_char(nibble(w, k as int))]);
        }
        k = k + 1;
    }
    proof {
        assert(hex32(w).subrange(0, 8) =~= hex32(w));
    }
}

impl SerialNumber {
    /// The serial number's display form: the four serial words as
    /// uppercase hex, joined by dashes.
    pub fn serial_string(&self) -> (r: String)
        ensures
            r@ == dashed_hex(self.serial_no@),
    {
        let mut s = String::new();
        let mut w: usize = 0;
        while w < 4
            invariant
                w <= 4,
                s@ == dashed_hex(self.serial_no@.subrange(0, w as int)),
            decreases 4 - w,
        {
            proof {
                reveal_strlit("-");
            }
            if w > 0 {
                s.append("-");
            }
            push_hex32(&mut s, self.serial_no[w]);
            proof {
                let words = self.serial_no@;
                let sub1 = words.subrange(0, w as int + 1);
                assert(sub1.drop_last() =~= words.subrange(0, w as int));
                if w == 0 {
                    assert(dashed_hex(sub1) == hex32(words[0]));
                    assert(Seq::<char>::empty() + hex32(words[0]) =~= hex32(words[0]));
                } else {
                    assert(dashed_hex(sub1) == dashed_hex(words.subrange(0, w as int))
                        + seq!['-'] + hex32(words[w as int]));
                }
            }
            w = w + 1;
        }
        proof {
            assert(self.serial_no@.subrange(0, 4) =~= self.serial_no@);
        }
        s
    }
}

} // verus!
