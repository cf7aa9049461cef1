use vstd::prelude::*;

verus! {

/// The ASCII-lowercase image of one character: letters `A` through `Z` map to
/// their lowercase forms, every other character stays as it is.
pub open spec fn lower_char(c: char) -> char {
    if 'A' <= c && c <= 'Z' {
        ((c as u32) + 32) as char
    } else {
        c
    }
}

/// The ASCII-lowercase image of a character sequence.
pub open spec fn lower_chars(s: Seq<char>) -> Seq<char> {
    s.map_values(|c: char| lower_char(c))
}

fn char_lower_eq(a: char, b: char) -> (r: bool)
    ensures
        r == (lower_char(a) == lower_char(b)),
{
    proof {
        vstd::utf8::char_u32_cast(a, a as u32);
        vstd::utf8::char_u32_cast(b, b as u32);
        vstd::utf8::char_is_scalar(a);
        vstd::utf8::char_is_scalar(b);
        assert('A' as u32 == 65 && 'Z' as u32 == 90 && 'a' as u32 == 97);
    }
    let au = a as u32;
    let bu = b as u32;
    let al = if 65 <= au && au <= 90 {
        au + 32
    } else {
        au
    };
    let bl = if 65 <= bu && bu <= 90 {
        bu + 32
    } else {
        bu
    };
    al == bl
}

/// Compares two strings for equality up to ASCII case.
pub fn ascii_lower_eq(a: &str, b: &str) -> (r: bool)
    ensures
        r == (lower_chars(a@) == lower_chars(b@)),
{
    let alen = a.unicode_len();
    let blen = b.unicode_len();
    if alen != blen {
        proof {
            assert(lower_chars(a@).len() != lower_chars(b@).len());
        }
        return false;
    }
    let mut i: usize = 0;
    while i < alen
        invariant
            i <= alen,
            alen == a@.len() && alen == b@.len(),
            forall|j: int| 0 <= j < i ==> lower_char(a@[j]) == lower_char(b@[j]),
        decreases alen - i,
    {
        if !char_lower_eq(a.get_char(i), b.get_char(i)) {
            proof {
                assert(lower_chars(a@)[i as int] != lower_chars(b@)[i as int]);
            }
            return false;
        }
        i += 1;
    }
    proof {
        assert(lower_chars(a@) =~= lower_chars(b@));
    }
    true
}

/// The character for one decimal digit.
pub open spec fn dec_digit(d: nat) -> char {
    if d == 0 {
        '0'
    } else if d == 1 {
        '1'
    } else if d == 2 {
        '2'
    } else if d == 3 {
        '3'
    } else if d == 4 {
        '4'
    } else if d == 5 {
        '5'
    } else if d == 6 {
        '6'
    } else if d == 7 {
        '7'
    } else if d == 8 {
        '8'
    } else {
        '9'
    }
}

/// Decimal digits of `n`, most significant first, without a sign and without
/// leading zeros (`0` itself is the single digit `0`).
pub open spec fn dec_str_of(n: nat) -> Seq<char>
    decreases n,
{
    if n < 10 {
        seq![dec_digit(n)]
    } else {
        dec_str_of(n / 10).push(dec_digit(n % 10))
    }
}

fn dec_digit_str(d: u64) -> (r: &'static str)
    requires
        d < 10,
    ensures
        r@ =~= seq![dec_digit(d as nat)],
{
    let r: &'static str = if d == 0 {
        "0"
    } else if d == 1 {
        "1"
    } else if d == 2 {
        "2"
    } else if d == 3 {
        "3"
    } else if d == 4 {
        "4"
    } else if d == 5 {
        "5"
    } else if d == 6 {
        "6"
    } else if d == 7 {
        "7"
    } else if d == 8 {
        "8"
    } else {
        "9"
    };
    proof {
        reveal_strlit("0");
        reveal_strlit("1");
        reveal_strlit("2");
        reveal_strlit("3");
        reveal_strlit("4");
        reveal_strlit("5");
        reveal_strlit("6");
        reveal_strlit("7");
        reveal_strlit("8");
        reveal_strlit("9");
    }
    r
}

/// Renders `n` in decimal, most significant digit first.
pub fn u64_to_string(n: u64) -> (r: String)
    ensures
        r@ == dec_str_of(n as nat),
    decreases n,
{
    if n < 10 {
        let mut s = String::new();
        s.append(dec_digit_str(n));
        assert(s@ =~= dec_str_of(n as nat));
        s
    } else {
        let mut s = u64_to_string(n / 10);
        s.append(dec_digit_str(n % 10));
        assert(s@ =~= dec_str_of(n as nat));
        s
    }
}

/// The character for one hexadecimal digit, lowercase.
pub open spec fn hex_digit(d: nat) -> char {
    if d < 10 {
        dec_digit(d)
    } else if d == 10 {
        'a'
    } else if d == 11 {
        'b'
    } else if d == 12 {
        'c'
    } else if d == 13 {
        'd'
    } else if d == 14 {
        'e'
    } else {
        'f'
    }
}

/// Lowercase hexadecimal form of a byte string: two digits per byte,
/// high nibble first.
pub open spec fn hex_of(bytes: Seq<u8>) -> Seq<char>
    decreases bytes.len(),
{
    if bytes.len() == 0 {
        Seq::empty()
    } else {
        hex_of(bytes.drop_last()) + seq![
            hex_digit((bytes.last() / 16) as nat),
            hex_digit((bytes.last() % 16) as nat),
        ]
    }
}

fn hex_digit_str(d: u8) -> (r: &'static str)
    requires
        d < 16,
    ensures
        r@ =~= seq![hex_digit(d as nat)],
{
    if d < 10 {
        dec_digit_str(d as u64)
    } else {
        let r: &'static str = if d == 10 {
            "a"
        } else if d == 11 {
            "b"
        } else if d == 12 {
            "c"
        } else if d == 13 {
            "d"
        } else if d == 14 {
            "e"
        } else {
            "f"
        };
        proof {
            reveal_strlit("a");
            reveal_strlit("b");
            reveal_strlit("c");
            reveal_strlit("d");
            reveal_strlit("e");
            reveal_strlit("f");
        }
        r
    }
}

/// Renders a byte string in lowercase hexadecimal.
pub fn hex_string(bytes: &Vec<u8>) -> (r: String)
    ensures
        r@ == hex_of(bytes@),
{
    let mut s = String::new();
    let mut i: usize = 0;
    while i < bytes.len()
        invariant
            i <= bytes@.len(),
            s@ == hex_of(bytes@.take(i as int)),
        decreases bytes@.len() - i,
    {
        let b = bytes[i];
        s.append(hex_digit_str(b / 16));
        s.append(hex_digit_str(b % 16));
        proof {
            assert(bytes@.take(i + 1int).drop_last() =~= bytes@.take(i as int));
            assert(bytes@.take(i + 1int).last() == bytes@[i as int]);
        }
        i += 1;
    }
    proof {
        assert(bytes@.take(bytes@.len() as int) =~= bytes@);
    }
    s
}

/// The canonical textual form of a 20- or 32-byte chain identifier:
/// `0x` followed by its lowercase hexadecimal digits.
pub open spec fn addr_chars_of(bytes: Seq<u8>) -> Seq<char> {
    seq!['0', 'x'] + hex_of(bytes)
}

/// A value with a canonical `0x`-prefixed lowercase hexadecimal rendering.
pub trait HashString {
    /// The bytes that the rendering shows.
    spec fn hash_view(&self) -> Seq<u8>;

    /// Renders the value as `0x` followed by lowercase hexadecimal digits.
    fn hash_string(&self) -> (r: String)
        ensures
            r@ == addr_chars_of(self.hash_view()),
    ;
}

impl HashString for Vec<u8> {
    open spec fn hash_view(&self) -> Seq<u8> {
        self@
    }

    fn hash_string(&self) -> (r: String)
        ensures
            r@ == addr_chars_of(self@),
    {
        let mut s = String::new();
        s.append("0x");
        proof {
            reveal_strlit("0x");
            assert(s@ =~= seq!['0', 'x']);
        }
        let hex = hex_string(self);
        s.append(hex.as_str());
        proof {
            assert(s@ =~= addr_chars_of(self@));
        }
        s
    }
}

/// Whether `c` is a decimal digit.
pub open spec fn is_dec_digit(c: char) -> bool {
    '0' <= c && c <= '9'
}

/// The numeric value of a decimal digit character.
pub open spec fn dec_digit_val(c: char) -> nat {
    ((c as u32) - 48) as nat
}

/// The numeric value of a digit sequence read in base 10.
pub open spec fn digits_val(s: Seq<char>) -> nat
    decreases s.len(),
{
    if s.len() == 0 {
        0
    } else {
        digits_val(s.drop_last()) * 10 + dec_digit_val(s.last())
    }
}

/// Whether every character of `s` is a decimal digit.
pub open spec fn all_dec_digits(s: Seq<char>) -> bool {
    forall|j: int| 0 <= j < s.len() ==> is_dec_digit(#[trigger] s[j])
}

/// The value of a parsed digit string under an optional leading minus sign,
/// `None` outside the range of an `i32` or when `ds` is not one or more digits.
pub open spec fn parse_i32_digits(neg: bool, ds: Seq<char>) -> Option<i32> {
    if ds.len() == 0 || !all_dec_digits(ds) {
        None
    } else if neg {
        if digits_val(ds) <= 0x8000_0000 {
            Some((0 - digits_val(ds) as int) as i32)
        } else {
            None
        }
    } else {
        if digits_val(ds) <= 0x7fff_ffff {
            Some(digits_val(ds) as i32)
        } else {
            None
        }
    }
}

/// What parsing a decimal `i32` yields: an optional single sign, then one or
/// more digits, with the value inside the type's range; anything else is `None`.
pub open spec fn parse_i32_spec(s: Seq<char>) -> Option<i32> {
    if s.len() > 0 && (s[0] == '-' || s[0] == '+') {
        parse_i32_digits(s[0] == '-', s.drop_first())
    } else {
        parse_i32_digits(false, s)
    }
}

proof fn lemma_digits_val_grows(s: Seq<char>, i: int)
    requires
        0 <= i <= s.len(),
    ensures
        digits_val(s.take(i)) <= digits_val(s),
    decreases s.len() - i,
{
    if i < s.len() {
        lemma_digits_val_grows(s, i + 1);
        assert(s.take(i + 1).drop_last() =~= s.take(i));
        assert(digits_val(s.take(i)) <= digits_val(s.take(i + 1)));
    } else {
        assert(s.take(i) =~= s);
    }
}

fn parse_digits(s: &str, start: usize) -> (r: Option<u64>)
    requires
        start <= s@.len(),
    ensures
        match r {
            Some(v) => {
                &&& s@.skip(start as int).len() > 0
                &&& forall|j: int|
                    start <= j < s@.len() ==> is_dec_digit(#[trigger] s@[j])
                &&& v == digits_val(s@.skip(start as int))
                &&& v <= 0x8000_0000
            },
            None => {
                s@.skip(start as int).len() == 0
                    || !(forall|j: int| start <= j < s@.len() ==> is_dec_digit(#[trigger] s@[j]))
                    || digits_val(s@.skip(start as int)) > 0x8000_0000
            },
        },
{
    let len = s.unicode_len();
    if start >= len {
        return None;
    }
    let ghost ds = s@.skip(start as int);
    let mut acc: u64 = 0;
    let mut i: usize = start;
    while i < len
        invariant
            start <= i <= len,
            len == s@.len(),
            ds == s@.skip(start as int),
            forall|j: int| start <= j < i ==> is_dec_digit(#[trigger] s@[j]),
            acc == digits_val(ds.take(i - start)),
            acc <= 0x8000_0000,
        decreases len - i,
    {
        let c = s.get_char(i);
        let cu = c as u32;
        proof {
            assert('0' as u32 == 48 && '9' as u32 == 57);
            vstd::utf8::char_is_scalar(c);
        }
        if cu < 48 || cu > 57 {
            assert(!is_dec_digit(s@[i as int]));
            return None;
        }
        assert(is_dec_digit(s@[i as int]));
        let d = (cu - 48) as u64;
        let next = acc * 10 + d;
        proof {
            assert(ds.take(i + 1 - start).drop_last() =~= ds.take(i - start));
            assert(ds.take(i + 1 - start).last() == s@[i as int]);
            assert(digits_val(ds.take(i + 1 - start)) == acc * 10 + d);
        }
        if next > 0x8000_0000 {
            proof {
                lemma_digits_val_grows(ds, i + 1 - start);
            }
            return None;
        }
        acc = next;
        i += 1;
    }
    proof {
        assert(ds.take(len - start) =~= ds);
    }
    Some(acc)
}

/// Parses a decimal `i32`, as the original text of a rule or event carries it:
/// an optional sign, then digits.
pub fn parse_i32(s: &str) -> (r: Option<i32>)
    ensures
        r == parse_i32_spec(s@),
{
    let len = s.unicode_len();
    if len == 0 {
        return None;
    }
    let first = s.get_char(0);
    let neg = first == '-';
    let signed = neg || first == '+';
    let start: usize = if signed {
        1
    } else {
        0
    };
    proof {
        if signed {
            assert(s@.skip(1) =~= s@.drop_first());
        } else {
            assert(s@.skip(0) =~= s@);
        }
    }
    let ghost ds = if signed {
        s@.drop_first()
    } else {
        s@
    };
    proof {
        assert(ds =~= s@.skip(start as int));
        assert(parse_i32_spec(s@) == parse_i32_digits(neg, ds));
    }
    match parse_digits(s, start) {
        None => {
            proof {
                if ds.len() == 0 {
                    assert(parse_i32_digits(neg, ds) is None);
                } else if !all_dec_digits(ds) {
                    assert(parse_i32_digits(neg, ds) is None);
                } else {
                    assert forall|j: int|
                        start <= j < s@.len() implies is_dec_digit(#[trigger] s@[j]) by {
                        assert(ds[j - start] == s@[j]);
                    }
                    assert(digits_val(ds) > 0x8000_0000);
                    assert(parse_i32_digits(neg, ds) is None);
                }
            }
            None
        },
        Some(v) => {
            proof {
                assert forall|j: int| 0 <= j < ds.len() implies is_dec_digit(
                    #[trigger] ds[j],
                ) by {
                    assert(ds[j] == s@[j + start]);
                }
                assert(all_dec_digits(ds));
            }
            if neg {
                proof {
                    assert(parse_i32_digits(neg, ds) matches Some(x) && x == (0 - v as int) as i32);
                }
                let r: i32 = if v == 0x8000_0000 {
                    -0x8000_0000
                } else {
                    0 - (v as i32)
                };
                Some(r)
            } else {
                if v > 0x7fff_ffff {
                    None
                } else {
                    Some(v as i32)
                }
            }
        },
    }
}

/// Hexadecimal digits carry no uppercase letters, so lowercasing fixes them.
pub proof fn lemma_hex_of_lower(b: Seq<u8>)
    ensures
        lower_chars(hex_of(b)) =~= hex_of(b),
    decreases b.len(),
{
    if b.len() > 0 {
        lemma_hex_of_lower(b.drop_last());
        assert(lower_char(hex_digit((b.last() / 16) as nat)) == hex_digit((b.last() / 16) as nat));
        assert(lower_char(hex_digit((b.last() % 16) as nat)) == hex_digit((b.last() % 16) as nat));
        assert forall|i: int| 0 <= i < hex_of(b).len() implies lower_chars(hex_of(b))[i] == hex_of(
            b,
        )[i] by {
            if i < hex_of(b).len() - 2 {
                assert(lower_chars(hex_of(b.drop_last()))[i] == hex_of(b.drop_last())[i]);
            }
        }
    }
}

/// A canonical address rendering carries no uppercase letters either.
pub proof fn lemma_addr_chars_lower(b: Seq<u8>)
    ensures
        lower_chars(addr_chars_of(b)) =~= addr_chars_of(b),
{
    lemma_hex_of_lower(b);
    assert forall|i: int| 0 <= i < addr_chars_of(b).len() implies lower_chars(addr_chars_of(b))[i]
        == addr_chars_of(b)[i] by {
        if i >= 2 {
            assert(lower_chars(hex_of(b))[i - 2] == hex_of(b)[i - 2]);
        } else {
            assert(addr_chars_of(b)[i] == seq!['0', 'x'][i]);
        }
    }
}

/// The value of one hexadecimal digit character, either case.
pub open spec fn hex_digit_val(c: char) -> Option<nat> {
    if '0' <= c && c <= '9' {
        Some(((c as u32) - 48) as nat)
    } else if 'a' <= c && c <= 'f' {
        Some(((c as u32) - 87) as nat)
    } else if 'A' <= c && c <= 'F' {
        Some(((c as u32) - 55) as nat)
    } else {
        None
    }
}

/// The bytes a hexadecimal text spells: two digits per byte, high nibble
/// first, either case; odd lengths and other characters spell nothing.
pub open spec fn hex_parse(s: Seq<char>) -> Option<Seq<u8>>
    decreases s.len(),
{
    if s.len() == 0 {
        Some(Seq::empty())
    } else if s.len() == 1 {
        None
    } else {
        match (hex_digit_val(s[s.len() - 2]), hex_digit_val(s.last())) {
            (Some(h), Some(l)) => match hex_parse(s.take(s.len() - 2)) {
                Some(front) => Some(front.push((16 * h + l) as u8)),
                None => None,
            },
            _ => None,
        }
    }
}

/// Each digit character reads back as its value.
proof fn lemma_hex_digit_val(d: nat)
    requires
        d < 16,
    ensures
        hex_digit_val(hex_digit(d)) == Some(d),
{
    assert('0' as u32 == 48 && '9' as u32 == 57 && 'a' as u32 == 97 && 'f' as u32 == 102);
    assert('A' as u32 == 65);
    if d == 0 {
        assert(hex_digit(d) == '0');
    } else if d == 1 {
        assert(hex_digit(d) == '1' && '1' as u32 == 49);
    } else if d == 2 {
        assert(hex_digit(d) == '2' && '2' as u32 == 50);
    } else if d == 3 {
        assert(hex_digit(d) == '3' && '3' as u32 == 51);
    } else if d == 4 {
        assert(hex_digit(d) == '4' && '4' as u32 == 52);
    } else if d == 5 {
        assert(hex_digit(d) == '5' && '5' as u32 == 53);
    } else if d == 6 {
        assert(hex_digit(d) == '6' && '6' as u32 == 54);
    } else if d == 7 {
        assert(hex_digit(d) == '7' && '7' as u32 == 55);
    } else if d == 8 {
        assert(hex_digit(d) == '8' && '8' as u32 == 56);
    } else if d == 9 {
        assert(hex_digit(d) == '9' && '9' as u32 == 57);
    } else if d == 10 {
        assert(hex_digit(d) == 'a');
    } else if d == 11 {
        assert(hex_digit(d) == 'b' && 'b' as u32 == 98);
    } else if d == 12 {
        assert(hex_digit(d) == 'c' && 'c' as u32 == 99);
    } else if d == 13 {
        assert(hex_digit(d) == 'd' && 'd' as u32 == 100);
    } else if d == 14 {
        assert(hex_digit(d) == 'e' && 'e' as u32 == 101);
    } else {
        assert(hex_digit(d) == 'f');
    }
}

/// Parsing undoes rendering: the hexadecimal form of any byte string spells
/// those bytes.
pub proof fn lemma_hex_parse_of(b: Seq<u8>)
    ensures
        hex_parse(hex_of(b)) == Some(b),
    decreases b.len(),
{
    if b.len() > 0 {
        lemma_hex_parse_of(b.drop_last());
        let s = hex_of(b);
        let hi = (b.last() / 16) as nat;
        let lo = (b.last() % 16) as nat;
        assert(s.len() == hex_of(b.drop_last()).len() + 2);
        assert(s[s.len() - 2] == hex_digit(hi));
        assert(s.last() == hex_digit(lo));
        lemma_hex_digit_val(hi);
        lemma_hex_digit_val(lo);
        assert(s.take(s.len() - 2) =~= hex_of(b.drop_last()));
        assert(16 * hi + lo == b.last());
        assert(b.drop_last().push(b.last()) =~= b);
    }
}

/// Parses hexadecimal text back into bytes.
#[verifier::loop_isolation(false)]
pub fn hex_decode(s: &str) -> (r: Option<Vec<u8>>)
    ensures
        match r {
            Some(v) => hex_parse(s@) == Some(v@),
            None => hex_parse(s@) is None,
        },
{
    let len = s.unicode_len();
    if len % 2 != 0 {
        proof {
            lemma_odd_hex_parse(s@);
        }
        return None;
    }
    let mut out: Vec<u8> = Vec::new();
    let mut i: usize = 0;
    proof {
        assert(s@.take(0) =~= Seq::<char>::empty());
    }
    while i < len
        invariant
            i <= len,
            i % 2 == 0,
            hex_parse(s@.take(i as int)) == Some(out@),
        decreases len - i,
    {
        let hi = match hex_digit_of(s.get_char(i)) {
            Some(h) => h,
            None => {
                proof {
                    lemma_bad_digit_hex_parse(s@, i as int);
                }
                return None;
            },
        };
        let lo = match hex_digit_of(s.get_char(i + 1)) {
            Some(l) => l,
            None => {
                proof {
                    lemma_bad_digit_hex_parse(s@, i as int);
                }
                return None;
            },
        };
        out.push(16 * hi + lo);
        proof {
            assert(s@.take(i + 2).take(i as int) =~= s@.take(i as int));
            assert(s@.take(i + 2)[i + 1] == s@[i + 1]);
            assert(s@.take(i + 2)[i as int] == s@[i as int]);
        }
        i += 2;
    }
    proof {
        assert(s@.take(len as int) =~= s@);
    }
    Some(out)
}

/// Text of odd length spells nothing.
proof fn lemma_odd_hex_parse(s: Seq<char>)
    requires
        s.len() % 2 == 1,
    ensures
        hex_parse(s) is None,
    decreases s.len(),
{
    if s.len() > 1 {
        lemma_odd_hex_parse(s.take(s.len() - 2));
    }
}

/// Text whose next position holds no digit pair spells nothing, however it
/// continues.
proof fn lemma_bad_digit_hex_parse(s: Seq<char>, i: int)
    requires
        0 <= i,
        i % 2 == 0,
        i + 2 <= s.len(),
        s.len() % 2 == 0,
        hex_digit_val(s[i]) is None || hex_digit_val(s[i + 1]) is None,
    ensures
        hex_parse(s) is None,
    decreases s.len() - i,
{
    if s.len() == i + 2 {
        assert(s[s.len() - 2] == s[i]);
        assert(s.last() == s[i + 1]);
    } else {
        lemma_bad_digit_hex_parse(s.take(s.len() - 2), i);
    }
}

/// Reads one hexadecimal digit character.
fn hex_digit_of(c: char) -> (r: Option<u8>)
    ensures
        match r {
            Some(d) => hex_digit_val(c) == Some(d as nat) && d < 16,
            None => hex_digit_val(c) is None,
        },
{
    proof {
        vstd::utf8::char_is_scalar(c);
        assert('0' as u32 == 48 && '9' as u32 == 57);
        assert('a' as u32 == 97 && 'f' as u32 == 102);
        assert('A' as u32 == 65 && 'F' as u32 == 70);
    }
    let cu = c as u32;
    if 48 <= cu && cu <= 57 {
        Some((cu - 48) as u8)
    } else if 97 <= cu && cu <= 102 {
        Some((cu - 87) as u8)
    } else if 65 <= cu && cu <= 70 {
        Some((cu - 55) as u8)
    } else {
        None
    }
}

} // verus!
