//! Byte- and string-level helpers shared by the parsing and reporting code:
//! ASCII whitespace, byte-slice equality, hexadecimal digits, and the one
//! trusted conversion from bytes to `String`.

use vstd::prelude::*;
use vstd::string::StringExecFns;

verus! {

/// ASCII whitespace, the token separator of the configuration and trigger
/// formats: space, tab, line feed, form feed, carriage return.
pub open spec fn is_ws(b: u8) -> bool {
    b == 32 || b == 9 || b == 10 || b == 12 || b == 13
}

/// Executable twin of [`is_ws`].
pub fn ws(b: u8) -> (r: bool)
    ensures
        r == is_ws(b),
{
    b == 32 || b == 9 || b == 10 || b == 12 || b == 13
}

/// Byte-for-byte equality of two slices.
pub fn bytes_eq(a: &[u8], b: &[u8]) -> (r: bool)
    ensures
        r == (a@ == b@),
{
    if a.len() != b.len() {
        assert(a@ != b@) by {
            assert(a@.len() != b@.len());
        }
        return false;
    }
    let mut i: usize = 0;
    while i < a.len()
        invariant
            i <= a.len(),
            a@.len() == b@.len(),
            forall|j: int| 0 <= j < i ==> a@[j] == b@[j],
        decreases a.len() - i,
    {
        if a[i] != b[i] {
            return false;
        }
        i += 1;
    }
    proof {
        assert(a@ =~= b@);
    }
    true
}

/// Every byte is ASCII (and therefore valid UTF-8 on its own).
pub open spec fn ascii_bytes(s: Seq<u8>) -> bool {
    forall|i: int| 0 <= i < s.len() ==> s[i] < 128
}

/// Relies on std's `String::from_utf8`: it succeeds exactly on valid UTF-8
/// (in particular on all-ASCII input) and returns a string whose UTF-8
/// encoding is the input itself.
#[verifier::external_body]
pub fn utf8_string(v: &[u8]) -> (r: Option<String>)
    ensures
        r matches Some(s) ==> vstd::utf8::encode_utf8(s@) == v@,
        ascii_bytes(v@) ==> r is Some,
{
    match String::from_utf8(v.to_vec()) {
        Ok(s) => Some(s),
        Err(_) => None,
    }
}

/// The lower-case hexadecimal digit for a value below sixteen.
pub open spec fn hex_digit(n: int) -> char {
    if n == 0 {
        '0'
    } else if n == 1 {
        '1'
    } else if n == 2 {
        '2'
    } else if n == 3 {
        '3'
    } else if n == 4 {
        '4'
    } else if n == 5 {
        '5'
    } else if n == 6 {
        '6'
    } else if n == 7 {
        '7'
    } else if n == 8 {
        '8'
    } else if n == 9 {
        '9'
    } else if n == 10 {
        'a'
    } else if n == 11 {
        'b'
    } else if n == 12 {
        'c'
    } else if n == 13 {
        'd'
    } else if n == 14 {
        'e'
    } else {
        'f'
    }
}

/// Appends the hexadecimal digit of `d` to `s`.
pub fn push_hex_digit(s: &mut String, d: u8)
    requires
        d < 16,
    ensures
        final(s)@ == old(s)@.push(hex_digit(d as int)),
{
    match d {
        0 => {
            proof {
                reveal_strlit("0");
            }
            s.append("0");
        },
        1 => {
            proof {
                reveal_strlit("1");
            }
            s.append("1");
        },
        2 => {
            proof {
                reveal_strlit("2");
            }
            s.append("2");
        },
        3 => {
            proof {
                reveal_strlit("3");
            }
            s.append("3");
        },
        4 => {
            proof {
                reveal_strlit("4");
            }
            s.append("4");
        },
        5 => {
            proof {
                reveal_strlit("5");
            }
            s.append("5");
        },
        6 => {
            proof {
                reveal_strlit("6");
            }
            s.append("6");
        },
        7 => {
            proof {
                reveal_strlit("7");
            }
            s.append("7");
        },
        8 => {
            proof {
                reveal_strlit("8");
            }
            s.append("8");
        },
        9 => {
            proof {
                reveal_strlit("9");
            }
            s.append("9");
        },
        10 => {
            proof {
                reveal_strlit("a");
            }
            s.append("a");
        },
        11 => {
            proof {
                reveal_strlit("b");
            }
            s.append("b");
        },
        12 => {
            proof {
                reveal_strlit("c");
            }
            s.append("c");
        },
        13 => {
            proof {
                reveal_strlit("d");
            }
            s.append("d");
        },
        14 => {
            proof {
                reveal_strlit("e");
            }
            s.append("e");
        },
        _ => {
            proof {
                reveal_strlit("f");
            }
            s.append("f");
        },
    }
    proof {
        assert(s@ =~= old(s)@.push(hex_digit(d as int)));
    }
}

} // verus!
