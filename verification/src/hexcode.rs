use vstd::prelude::*;

verus! {

/// The ASCII code of the lower-case hexadecimal digit for a nibble.
pub open spec fn hex_digit_code(n: u8) -> u8
    recommends
        n < 16,
{
    if n < 10 {
        (48 + n) as u8
    } else {
        (87 + n) as u8
    }
}

/// The lower-case hexadecimal rendering of a byte sequence, two digits per
/// byte, high nibble first.
pub open spec fn hex_seq(bytes: Seq<u8>) -> Seq<char> {
    Seq::new(
        bytes.len() * 2,
        |i: int|
            if i % 2 == 0 {
                hex_digit_code(bytes[i / 2] / 16) as char
            } else {
                hex_digit_code(bytes[i / 2] % 16) as char
            },
    )
}

/// The value of a hexadecimal digit character, lower or upper case, or -1
/// for any other character.
pub open spec fn hex_digit_val(c: char) -> int {
    let x = c as int;
    if 48 <= x && x <= 57 {
        x - 48
    } else if 97 <= x && x <= 102 {
        x - 87
    } else if 65 <= x && x <= 70 {
        x - 55
    } else {
        -1
    }
}

pub open spec fn is_hex_digit(c: char) -> bool {
    hex_digit_val(c) >= 0
}

/// The bytes denoted by a hexadecimal string: defined when the length is
/// even and every character is a hexadecimal digit of either case.
pub open spec fn hex_decoding(s: Seq<char>) -> Option<Seq<u8>> {
    if s.len() % 2 == 0 && (forall|i: int| 0 <= i < s.len() ==> is_hex_digit(#[trigger] s[i])) {
        Some(
            Seq::new(
                s.len() / 2,
                |i: int| (hex_digit_val(s[2 * i]) * 16 + hex_digit_val(s[2 * i + 1])) as u8,
            ),
        )
    } else {
        None
    }
}

fn hex_digit_str(n: u8) -> (r: &'static str)
    requires
        n < 16,
    ensures
        r@ =~= seq![hex_digit_code(n) as char],
{
    proof {
        reveal_strlit("0");
        reveal_strlit("1");
        reveal_strlit("2");
        reveal_strlit("3");
        reveal_strlit("4");
        reveal_strlit("5");
        reveal_strlit("6");
        reveal_strlit("7");
        reveal_strlit("8");
        reveal_strlit("9");
        reveal_strlit("a");
        reveal_strlit("b");
        reveal_strlit("c");
        reveal_strlit("d");
        reveal_strlit("e");
        reveal_strlit("f");
    }
    match n {
        0 => "0",
        1 => "1",
        2 => "2",
        3 => "3",
        4 => "4",
        5 => "5",
        6 => "6",
        7 => "7",
        8 => "8",
        9 => "9",
        10 => "a",
        11 => "b",
        12 => "c",
        13 => "d",
        14 => "e",
        _ => "f",
    }
}

/// Renders bytes as a lower-case hexadecimal string, two digits per byte.
pub fn hex_encode(bytes: &[u8]) -> (r: String)
    ensures
        r@ == hex_seq(bytes@),
{
    let mut r = String::new();
    let mut i: usize = 0;
    while i < bytes.len()
        invariant
            0 <= i <= bytes@.len(),
            r@ =~= hex_seq(bytes@.subrange(0, i as int)),
        decreases bytes@.len() - i,
    {
        let b = bytes[i];
        r.append(hex_digit_str(b / 16));
        r.append(hex_digit_str(b % 16));
        i = i + 1;
        assert(r@ =~= hex_seq(bytes@.subrange(0, i as int)));
    }
    assert(bytes@.subrange(0, bytes@.len() as int) =~= bytes@);
    r
}

fn decode_digit(b: u8) -> (r: Option<u8>)
    ensures
        match r {
            Some(v) => hex_digit_val(b as char) == v,
            None => hex_digit_val(b as char) < 0,
        },
{
    if 48 <= b && b <= 57 {
        Some(b - 48)
    } else if 97 <= b && b <= 102 {
        Some(b - 87)
    } else if 65 <= b && b <= 70 {
        Some(b - 55)
    } else {
        None
    }
}

/// Parses a hexadecimal string of either case into its bytes; `None` when
/// the length is odd or any character is not a hexadecimal digit.
pub fn hex_decode(s: &str) -> (r: Option<Vec<u8>>)
    ensures
        match r {
            Some(v) => hex_decoding(s@) == Some(v@),
            None => hex_decoding(s@) is None,
        },
{
    broadcast use vstd::string::is_ascii_spec_bytes;

    if !s.is_ascii() {
        proof {
            let cs = s@;
            assert(exists|i: int| 0 <= i < cs.len() && !('\0' <= #[trigger] cs[i] <= '\u{7f}'));
            let i = choose|i: int| 0 <= i < cs.len() && !('\0' <= #[trigger] cs[i] <= '\u{7f}');
            assert(!is_hex_digit(cs[i]));
        }
        return None;
    }
    let bytes = s.as_bytes();
    let ghost cs = s@;
    assert(bytes@.len() == cs.len());
    assert(forall|i: int| 0 <= i < cs.len() ==> bytes@[i] == #[trigger] cs[i] as u8);
    assert(forall|i: int|
        0 <= i < cs.len() ==> (#[trigger] bytes@[i]) as char == cs[i]) by {
        assert(forall|i: int|
            0 <= i < cs.len() ==> '\0' <= #[trigger] cs[i] <= '\u{7f}');
    }
    if bytes.len() % 2 != 0 {
        return None;
    }
    let mut out: Vec<u8> = Vec::new();
    let mut i: usize = 0;
    while i + 1 < bytes.len() + 1
        invariant
            cs == s@,
            i % 2 == 0,
            0 <= i <= bytes@.len(),
            bytes@.len() % 2 == 0,
            bytes@.len() == cs.len(),
            forall|j: int| 0 <= j < cs.len() ==> (#[trigger] bytes@[j]) as char == cs[j],
            forall|j: int| 0 <= j < i ==> is_hex_digit(#[trigger] cs[j]),
            out@.len() == i / 2,
            forall|j: int|
                0 <= j < out@.len() ==> #[trigger] out@[j] == (hex_digit_val(cs[2 * j]) * 16
                    + hex_digit_val(cs[2 * j + 1])) as u8,
        decreases bytes@.len() - i,
    {
        let hi = match decode_digit(bytes[i]) {
            Some(v) => v,
            None => {
                proof {
                    assert(s@[i as int] == cs[i as int]);
                    assert(cs[i as int] == bytes@[i as int] as char);
                    assert(!is_hex_digit(s@[i as int]));
                }
                return None;
            },
        };
        let lo = match decode_digit(bytes[i + 1]) {
            Some(v) => v,
            None => {
                proof {
                    assert(s@[i + 1] == cs[i + 1]);
                    assert(cs[i + 1] == bytes@[i + 1] as char);
                    assert(!is_hex_digit(s@[i + 1]));
                }
                return None;
            },
        };
        out.push(hi * 16 + lo);
        i = i + 2;
    }
    proof {
        let decoded = hex_decoding(cs);
        assert(decoded is Some);
        assert(decoded.unwrap() =~= out@);
    }
    Some(out)
}

/// Encoding and then decoding a byte sequence gives the bytes back.
pub proof fn lemma_hex_round_trip(bytes: Seq<u8>)
    ensures
        hex_decoding(hex_seq(bytes)) == Some(bytes),
{
    let s = hex_seq(bytes);
    assert forall|i: int| 0 <= i < s.len() implies is_hex_digit(#[trigger] s[i]) by {
        if i % 2 == 0 {
            assert(s[i] == hex_digit_code(bytes[i / 2] / 16) as char);
        } else {
            assert(s[i] == hex_digit_code(bytes[i / 2] % 16) as char);
        }
    }
    let decoded = hex_decoding(s).unwrap();
    assert forall|i: int| 0 <= i < bytes.len() implies decoded[i] == bytes[i] by {
        assert(s[2 * i] == hex_digit_code(bytes[i] / 16) as char);
        assert(s[2 * i + 1] == hex_digit_code(bytes[i] % 16) as char);
    }
    assert(decoded =~= bytes);
}

} // verus!
