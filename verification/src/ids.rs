//! Verified rendering and parsing of 128-bit identifiers in the
//! hyphenated hexadecimal form `xxxxxxxx-xxxx-xxxx-xxxx-xxxxxxxxxxxx`
//! used for entity ids throughout the service.
use vstd::prelude::*;
use vstd::string::StrSliceExecFns;
use vstd::string::StringExecFns;

verus! {

/// The lowercase hexadecimal digit for a nibble value.
pub open spec fn hex_char(n: int) -> char {
    if n == 0 {
        '0'
    } else if n == 1 {
        '1'
    } else if n == 2 {
        '2'
    } else if n == 3 {
        '3'
    } else if n == 4 {
        '4'
    } else if n == 5 {
        '5'
    } else if n == 6 {
        '6'
    } else if n == 7 {
        '7'
    } else if n == 8 {
        '8'
    } else if n == 9 {
        '9'
    } else if n == 10 {
        'a'
    } else if n == 11 {
        'b'
    } else if n == 12 {
        'c'
    } else if n == 13 {
        'd'
    } else if n == 14 {
        'e'
    } else {
        'f'
    }
}

/// The value of a hexadecimal digit, either case; -1 for any other
/// character.
pub open spec fn hex_val(c: char) -> int {
    if 48 <= c as u32 <= 57 {
        c as u32 - 48
    } else if 97 <= c as u32 <= 102 {
        c as u32 - 87
    } else if 65 <= c as u32 <= 70 {
        c as u32 - 55
    } else {
        -1
    }
}

/// The positions of the four hyphens in the rendered form.
pub open spec fn is_dash_pos(i: int) -> bool {
    i == 8 || i == 13 || i == 18 || i == 23
}

/// How many hyphens stand strictly before position `i`.
pub open spec fn dashes_before(i: int) -> int {
    if i > 23 {
        4
    } else if i > 18 {
        3
    } else if i > 13 {
        2
    } else if i > 8 {
        1
    } else {
        0
    }
}

/// The `k`-th nibble of the identifier, most significant first.
pub open spec fn nibble_of(id: u128, k: int) -> u128 {
    (id >> (((31 - k) * 4) as u128)) & 0xf
}

/// The character at position `i` of the rendered identifier.
pub open spec fn uuid_char(id: u128, i: int) -> char {
    if is_dash_pos(i) {
        '-'
    } else {
        hex_char(nibble_of(id, i - dashes_before(i)) as int)
    }
}

/// The full 36-character rendered form of the identifier.
pub open spec fn spec_uuid_str(id: u128) -> Seq<char> {
    Seq::new(36, |i: int| uuid_char(id, i))
}

/// A single lowercase hexadecimal digit as a string slice.
fn hex_str(nib: u8) -> (r: &'static str)
    requires
        nib < 16,
    ensures
        r@ =~= seq![hex_char(nib as int)],
{
    match nib {
        0 => {
            proof {
                reveal_strlit("0");
            }
            "0"
        },
        1 => {
            proof {
                reveal_strlit("1");
            }
            "1"
        },
        2 => {
            proof {
                reveal_strlit("2");
            }
            "2"
        },
        3 => {
            proof {
                reveal_strlit("3");
            }
            "3"
        },
        4 => {
            proof {
                reveal_strlit("4");
            }
            "4"
        },
        5 => {
            proof {
                reveal_strlit("5");
            }
            "5"
        },
        6 => {
            proof {
                reveal_strlit("6");
            }
            "6"
        },
        7 => {
            proof {
                reveal_strlit("7");
            }
            "7"
        },
        8 => {
            proof {
                reveal_strlit("8");
            }
            "8"
        },
        9 => {
            proof {
                reveal_strlit("9");
            }
            "9"
        },
        10 => {
            proof {
                reveal_strlit("a");
            }
            "a"
        },
        11 => {
            proof {
                reveal_strlit("b");
            }
            "b"
        },
        12 => {
            proof {
                reveal_strlit("c");
            }
            "c"
        },
        13 => {
            proof {
                reveal_strlit("d");
            }
            "d"
        },
        14 => {
            proof {
                reveal_strlit("e");
            }
            "e"
        },
        _ => {
            proof {
                reveal_strlit("f");
            }
            "f"
        },
    }
}

/// Renders the identifier in its hyphenated lowercase hexadecimal form.
pub fn uuid_to_string(id: u128) -> (r: String)
    ensures
        r@ == spec_uuid_str(id),
{
    let mut s = String::new();
    let mut i: usize = 0;
    while i < 36
        invariant
            0 <= i <= 36,
            s@ =~= spec_uuid_str(id).take(i as int),
        decreases 36 - i,
    {
        if i == 8 || i == 13 || i == 18 || i == 23 {
            proof {
                reveal_strlit("-");
            }
            s.append("-");
            assert(s@ =~= spec_uuid_str(id).take(i as int + 1));
        } else {
            let k: usize = if i < 8 {
                i
            } else if i < 13 {
                i - 1
            } else if i < 18 {
                i - 2
            } else if i < 23 {
                i - 3
            } else {
                i - 4
            };
            assert(k as int == i as int - dashes_before(i as int));
            let shift: u128 = ((31 - k) as u128) * 4;
            let nibble: u128 = (id >> shift) & 0xf;
            assert(nibble < 16) by (bit_vector)
                requires
                    nibble == (id >> shift) & 0xf,
            ;
            let nib: u8 = nibble as u8;
            assert(nib as u128 == nibble_of(id, k as int));
            s.append(hex_str(nib));
            assert(s@ =~= spec_uuid_str(id).take(i as int + 1));
        }
        i = i + 1;
    }
    proof {
        assert(spec_uuid_str(id).take(36) =~= spec_uuid_str(id));
    }
    s
}

/// What a well-formed rendered identifier looks like: 36 characters,
/// hyphens at the four fixed positions, hexadecimal digits elsewhere.
pub open spec fn uuid_chars_ok(s: Seq<char>) -> bool {
    s.len() == 36 && forall|i: int|
        0 <= i < 36 ==> (if is_dash_pos(i) {
            s[i] == '-'
        } else {
            hex_val(#[trigger] s[i]) >= 0
        })
}

/// The value read from the first `i` characters of a rendered
/// identifier, hyphens skipped.
pub open spec fn uuid_val_prefix(s: Seq<char>, i: int) -> int
    decreases i,
{
    if i <= 0 {
        0
    } else if is_dash_pos(i - 1) {
        uuid_val_prefix(s, i - 1)
    } else {
        uuid_val_prefix(s, i - 1) * 16 + hex_val(s[i - 1])
    }
}

/// What `parse_uuid` accepts, and the value it reads.
pub open spec fn spec_parse_uuid(s: Seq<char>) -> Option<u128> {
    if uuid_chars_ok(s) {
        Some(uuid_val_prefix(s, 36) as u128)
    } else {
        None
    }
}

/// Sixteen to the given power.
pub open spec fn pow16(e: nat) -> int
    decreases e,
{
    if e == 0 {
        1
    } else {
        16 * pow16((e - 1) as nat)
    }
}

proof fn lemma_pow16_pos(e: nat)
    ensures
        pow16(e) >= 1,
    decreases e,
{
    if e > 0 {
        lemma_pow16_pos((e - 1) as nat);
    }
}

proof fn lemma_pow16_mono(e1: nat, e2: nat)
    requires
        e1 <= e2,
    ensures
        pow16(e1) <= pow16(e2),
    decreases e2,
{
    if e1 < e2 {
        lemma_pow16_mono(e1, (e2 - 1) as nat);
        lemma_pow16_pos((e2 - 1) as nat);
    }
}

proof fn lemma_pow16_32()
    ensures
        pow16(32) == 0x100000000000000000000000000000000,
{
    reveal_with_fuel(pow16, 33);
}

/// The value read from a prefix stays below sixteen to the number of
/// nibbles read.
proof fn lemma_uuid_val_bound(s: Seq<char>, i: int)
    requires
        0 <= i <= 36,
        forall|k: int|
            0 <= k < i ==> (is_dash_pos(k) || hex_val(#[trigger] s[k]) >= 0),
    ensures
        0 <= uuid_val_prefix(s, i) < pow16((i - dashes_before(i)) as nat),
    decreases i,
{
    if i == 0 {
    } else {
        lemma_uuid_val_bound(s, i - 1);
        if is_dash_pos(i - 1) {
            assert(dashes_before(i) == dashes_before(i - 1) + 1);
        } else {
            assert(dashes_before(i) == dashes_before(i - 1));
            assert(hex_val(s[i - 1]) <= 15);
        }
    }
}

/// A single hexadecimal digit, either case, read to its value.
fn hex_digit(c: char) -> (r: Option<u8>)
    ensures
        match r {
            Some(d) => hex_val(c) == d as int,
            None => hex_val(c) < 0,
        },
{
    let cu = c as u32;
    if 48 <= cu && cu <= 57 {
        Some((cu - 48) as u8)
    } else if 97 <= cu && cu <= 102 {
        Some((cu - 87) as u8)
    } else if 65 <= cu && cu <= 70 {
        Some((cu - 55) as u8)
    } else {
        None
    }
}

/// Parses the hyphenated hexadecimal form of an identifier: succeeds
/// exactly on 36-character strings with hyphens at the four fixed
/// positions and hexadecimal digits (either case) elsewhere.
pub fn parse_uuid(s: &str) -> (r: Option<u128>)
    ensures
        r == spec_parse_uuid(s@),
{
    let len = s.unicode_len();
    if len != 36 {
        return None;
    }
    let mut v: u128 = 0;
    let mut i: usize = 0;
    while i < 36
        invariant
            0 <= i <= 36,
            s@.len() == 36,
            forall|k: int|
                0 <= k < i ==> (if is_dash_pos(k) {
                    s@[k] == '-'
                } else {
                    hex_val(#[trigger] s@[k]) >= 0
                }),
            v == uuid_val_prefix(s@, i as int),
        decreases 36 - i,
    {
        let c = s.get_char(i);
        if i == 8 || i == 13 || i == 18 || i == 23 {
            if c != '-' {
                return None;
            }
        } else {
            match hex_digit(c) {
                None => {
                    assert(!uuid_chars_ok(s@));
                    return None;
                },
                Some(d) => {
                    proof {
                        lemma_uuid_val_bound(s@, i as int);
                        assert(i as int - dashes_before(i as int) <= 31);
                        lemma_pow16_mono((i as int - dashes_before(i as int)) as nat, 31);
                        lemma_pow16_32();
                        assert(pow16(32) == 16 * pow16(31));
                    }
                    v = v * 16 + (d as u128);
                },
            }
        }
        i = i + 1;
    }
    proof {
        assert(uuid_chars_ok(s@));
        lemma_uuid_val_bound(s@, 36);
        lemma_pow16_32();
    }
    Some(v)
}

} // verus!
