//! Deterministic asset file names derived from an emoji's code points.
//!
//! An extracted glyph image is stored under a name built from the emoji's
//! original (unnormalized) code points, `-{code point:05X}` for each one.
//! The extraction step and the runtime lookup both call [`asset_filename`],
//! so the producer and the consumer of the files can never drift apart.

use vstd::prelude::*;
use vstd::string::StringExecFns;

verus! {

/// The uppercase hexadecimal digit character for a value below sixteen.
pub open spec fn hex_digit_char(d: int) -> char {
    if d == 0 {
        '0'
    } else if d == 1 {
        '1'
    } else if d == 2 {
        '2'
    } else if d == 3 {
        '3'
    } else if d == 4 {
        '4'
    } else if d == 5 {
        '5'
    } else if d == 6 {
        '6'
    } else if d == 7 {
        '7'
    } else if d == 8 {
        '8'
    } else if d == 9 {
        '9'
    } else if d == 10 {
        'A'
    } else if d == 11 {
        'B'
    } else if d == 12 {
        'C'
    } else if d == 13 {
        'D'
    } else if d == 14 {
        'E'
    } else {
        'F'
    }
}

/// The uppercase hexadecimal digits of `v`, zero-padded on the left to at
/// least `width` digits.
pub open spec fn hex_chars(v: nat, width: nat) -> Seq<char>
    decreases v, width,
{
    if v < 16 && width <= 1 {
        seq![hex_digit_char(v as int)]
    } else {
        hex_chars(v / 16, (if width <= 1 { 0int } else { width - 1 }) as nat).push(
            hex_digit_char((v % 16) as int),
        )
    }
}

/// The asset file name fragment for a sequence of code points:
/// `-{c:05X}` for each code point `c`, in order.
pub open spec fn spec_asset_filename(cps: Seq<char>) -> Seq<char>
    decreases cps.len(),
{
    if cps.len() == 0 {
        Seq::empty()
    } else {
        spec_asset_filename(cps.drop_last()) + seq!['-'] + hex_chars((cps.last() as u32) as nat, 5)
    }
}

fn hex_digit_str(d: u32) -> (r: &'static str)
    requires
        d < 16,
    ensures
        r@ == seq![hex_digit_char(d as int)],
{
    let r: &'static str = match d {
        0 => {
            proof {
                reveal_strlit("0");
            }
            "0"
        },
        1 => {
            proof {
                reveal_strlit("1");
            }
            "1"
        },
        2 => {
            proof {
                reveal_strlit("2");
            }
            "2"
        },
        3 => {
            proof {
                reveal_strlit("3");
            }
            "3"
        },
        4 => {
            proof {
                reveal_strlit("4");
            }
            "4"
        },
        5 => {
            proof {
                reveal_strlit("5");
            }
            "5"
        },
        6 => {
            proof {
                reveal_strlit("6");
            }
            "6"
        },
        7 => {
            proof {
                reveal_strlit("7");
            }
            "7"
        },
        8 => {
            proof {
                reveal_strlit("8");
            }
            "8"
        },
        9 => {
            proof {
                reveal_strlit("9");
            }
            "9"
        },
        10 => {
            proof {
                reveal_strlit("A");
            }
            "A"
        },
        11 => {
            proof {
                reveal_strlit("B");
            }
            "B"
        },
        12 => {
            proof {
                reveal_strlit("C");
            }
            "C"
        },
        13 => {
            proof {
                reveal_strlit("D");
            }
            "D"
        },
        14 => {
            proof {
                reveal_strlit("E");
            }
            "E"
        },
        _ => {
            proof {
                reveal_strlit("F");
            }
            "F"
        },
    };
    assert(r@ =~= seq![hex_digit_char(d as int)]);
    r
}

/// Appends the uppercase hexadecimal digits of `v`, zero-padded on the left
/// to at least `width` digits, to `s`.
fn push_hex(s: &mut String, v: u32, width: u32)
    ensures
        final(s)@ == old(s)@ + hex_chars(v as nat, width as nat),
    decreases v, width,
{
    if v < 16 && width <= 1 {
        let d = hex_digit_str(v);
        s.append(d);
        proof {
            assert(final(s)@ =~= old(s)@ + hex_chars(v as nat, width as nat));
        }
    } else {
        let w2: u32 = if width <= 1 {
            0
        } else {
            width - 1
        };
        push_hex(s, v / 16, w2);
        let d = hex_digit_str(v % 16);
        s.append(d);
        proof {
            let high = hex_chars((v / 16) as nat, w2 as nat);
            assert(hex_chars(v as nat, width as nat) == high.push(
                hex_digit_char((v % 16) as int),
            ));
            assert(final(s)@ =~= old(s)@ + high.push(hex_digit_char((v % 16) as int)));
        }
    }
}

/// The asset file name fragment for an emoji's original code points:
/// the concatenation of `-{c:05X}` for every code point `c`.
///
/// A pure function of the code points alone: the extraction step and the
/// runtime lookup recompute the same name from the same entry.
pub fn asset_filename(cps: &Vec<char>) -> (r: String)
    ensures
        r@ == spec_asset_filename(cps@),
{
    let mut s = String::new();
    let mut i: usize = 0;
    while i < cps.len()
        invariant
            i <= cps.len(),
            s@ == spec_asset_filename(cps@.take(i as int)),
        decreases cps.len() - i,
    {
        proof {
            reveal_strlit("-");
        }
        s.append("-");
        let c = cps[i];
        push_hex(&mut s, c as u32, 5);
        proof {
            let pre = cps@.take(i as int);
            let post = cps@.take(i as int + 1);
            assert(post.drop_last() =~= pre);
            assert(post.last() == cps@[i as int]);
            assert("-"@ =~= seq!['-']);
            assert(s@ =~= spec_asset_filename(post));
        }
        i = i + 1;
    }
    proof {
        assert(cps@.take(cps@.len() as int) =~= cps@);
    }
    s
}

/// The asset file name is a pure function of the code points: two entries
/// with the same original code points always yield the same name, so the
/// extraction step and the runtime lookup can never disagree.
pub proof fn lemma_asset_filename_deterministic(a: Seq<char>, b: Seq<char>)
    requires
        a == b,
    ensures
        spec_asset_filename(a) == spec_asset_filename(b),
{
}

} // verus!
