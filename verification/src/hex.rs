//! Human-readable hex dumps of wire bytes: two lowercase digits per byte,
//! bytes separated by single spaces.

use vstd::prelude::*;
use vstd::string::StringExecFns;

verus! {

/// The lowercase hex digit for the nibble `n`.
pub open spec fn hex_digit(n: u8) -> char
    recommends
        n < 16,
{
    if n == 0 {
        '0'
    } else if n == 1 {
        '1'
    } else if n == 2 {
        '2'
    } else if n == 3 {
        '3'
    } else if n == 4 {
        '4'
    } else if n == 5 {
        '5'
    } else if n == 6 {
        '6'
    } else if n == 7 {
        '7'
    } else if n == 8 {
        '8'
    } else if n == 9 {
        '9'
    } else if n == 10 {
        'a'
    } else if n == 11 {
        'b'
    } else if n == 12 {
        'c'
    } else if n == 13 {
        'd'
    } else if n == 14 {
        'e'
    } else {
        'f'
    }
}

/// The two hex digits of the byte `b`, high nibble first.
pub open spec fn hex_pair(b: u8) -> Seq<char> {
    seq![hex_digit(b / 16), hex_digit(b % 16)]
}

/// The hex dump of `s`: the hex pairs of its bytes joined by single spaces.
pub open spec fn hex_dump_spec(s: Seq<u8>) -> Seq<char>
    decreases s.len(),
{
    if s.len() == 0 {
        Seq::empty()
    } else if s.len() == 1 {
        hex_pair(s[0])
    } else {
        hex_pair(s[0]) + seq![' '] + hex_dump_spec(s.drop_first())
    }
}

/// Dumping one more byte appends a space (unless the dump was empty) and
/// the byte's hex pair.
proof fn lemma_hex_dump_push(s: Seq<u8>, b: u8)
    ensures
        hex_dump_spec(s.push(b)) == if s.len() == 0 {
            hex_pair(b)
        } else {
            hex_dump_spec(s) + seq![' '] + hex_pair(b)
        },
    decreases s.len(),
{
    let t = s.push(b);
    if s.len() == 0 {
        assert(t.len() == 1);
        assert(t[0] == b);
    } else {
        assert(t.len() >= 2);
        assert(t[0] == s[0]);
        assert(t.drop_first() =~= s.drop_first().push(b));
        lemma_hex_dump_push(s.drop_first(), b);
        if s.len() == 1 {
            assert(hex_dump_spec(t) =~= hex_dump_spec(s) + seq![' '] + hex_pair(b));
        } else {
            assert(hex_dump_spec(t) =~= hex_dump_spec(s) + seq![' '] + hex_pair(b));
        }
    }
}

/// Returns the one-character string of the lowercase hex digit for the
/// nibble `n`.
fn hex_digit_str(n: u8) -> (s: &'static str)
    requires
        n < 16,
    ensures
        s@ == seq![hex_digit(n)],
{
    match n {
        0 => {
            proof {
                reveal_strlit("0");
            }
            "0"
        },
        1 => {
            proof {
                reveal_strlit("1");
            }
            "1"
        },
        2 => {
            proof {
                reveal_strlit("2");
            }
            "2"
        },
        3 => {
            proof {
                reveal_strlit("3");
            }
            "3"
        },
        4 => {
            proof {
                reveal_strlit("4");
            }
            "4"
        },
        5 => {
            proof {
                reveal_strlit("5");
            }
            "5"
        },
        6 => {
            proof {
                reveal_strlit("6");
            }
            "6"
        },
        7 => {
            proof {
                reveal_strlit("7");
            }
            "7"
        },
        8 => {
            proof {
                reveal_strlit("8");
            }
            "8"
        },
        9 => {
            proof {
                reveal_strlit("9");
            }
            "9"
        },
        10 => {
            proof {
                reveal_strlit("a");
            }
            "a"
        },
        11 => {
            proof {
                reveal_strlit("b");
            }
            "b"
        },
        12 => {
            proof {
                reveal_strlit("c");
            }
            "c"
        },
        13 => {
            proof {
                reveal_strlit("d");
            }
            "d"
        },
        14 => {
            proof {
                reveal_strlit("e");
            }
            "e"
        },
        _ => {
            proof {
                reveal_strlit("f");
            }
            "f"
        },
    }
}

/// Renders `data` as lowercase hex, two digits per byte, space-separated.
pub fn hex_dump(data: &[u8]) -> (r: String)
    ensures
        r@ == hex_dump_spec(data@),
{
    let mut out = String::new();
    let mut i: usize = 0;
    while i < data.len()
        invariant
            i <= data@.len(),
            out@ == hex_dump_spec(data@.take(i as int)),
        decreases data@.len() - i,
    {
        if i > 0 {
            proof {
                reveal_strlit(" ");
            }
            out.append(" ");
        }
        let b = data[i];
        out.append(hex_digit_str(b / 16));
        out.append(hex_digit_str(b % 16));
        proof {
            lemma_hex_dump_push(data@.take(i as int), b);
            assert(data@.take(i as int).push(b) =~= data@.take(i as int + 1));
            assert(out@ =~= hex_dump_spec(data@.take(i as int + 1)));
        }
        i = i + 1;
    }
    proof {
        assert(data@.take(data@.len() as int) =~= data@);
    }
    out
}

} // verus!
