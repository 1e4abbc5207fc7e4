//! Byte-level text helpers: ASCII case normalization, substring search,
//! hashing and number formatting.
//!
//! Device instance paths and executable names are compared after ASCII
//! uppercasing, and stable device ids are a hash of the uppercased path, so
//! these operations are the foundation of the whole device model.

use vstd::prelude::*;
use vstd::string::StrSliceExecFns;
use vstd::string::StringSliceAdditionalSpecFns;

verus! {

/// FNV-1a 64-bit offset basis.
pub const FNV_OFFSET: u64 = 0xcbf29ce484222325;

/// FNV-1a 64-bit prime.
pub const FNV_PRIME: u64 = 0x100000001b3;

/// ASCII uppercase of one byte: lowercase letters are shifted, everything
/// else is untouched.
pub open spec fn to_upper_byte(b: u8) -> u8 {
    if 97 <= b <= 122 {
        (b - 32) as u8
    } else {
        b
    }
}

/// ASCII uppercase of a byte string.
pub open spec fn upper_bytes(s: Seq<u8>) -> Seq<u8> {
    Seq::new(s.len(), |i: int| to_upper_byte(s[i]))
}

/// ASCII uppercase of one UTF-16 code unit.
pub open spec fn to_upper_unit(u: u16) -> u16 {
    if 97 <= u <= 122 {
        (u - 32) as u16
    } else {
        u
    }
}

/// ASCII uppercase of a UTF-16 code-unit string.
pub open spec fn upper_units(s: Seq<u16>) -> Seq<u16> {
    Seq::new(s.len(), |i: int| to_upper_unit(s[i]))
}

/// ASCII lowercase of one byte: uppercase letters are shifted, everything
/// else is untouched.
pub open spec fn to_lower_byte(b: u8) -> u8 {
    if 65 <= b <= 90 {
        (b + 32) as u8
    } else {
        b
    }
}

/// ASCII lowercase of a byte string.
pub open spec fn lower_bytes(s: Seq<u8>) -> Seq<u8> {
    Seq::new(s.len(), |i: int| to_lower_byte(s[i]))
}

/// Uppercasing bytes twice is the same as uppercasing them once.
pub proof fn lemma_upper_bytes_idempotent(s: Seq<u8>)
    ensures
        upper_bytes(upper_bytes(s)) == upper_bytes(s),
{
    assert(upper_bytes(upper_bytes(s)) =~= upper_bytes(s));
}

/// ASCII-uppercase a byte string.
pub fn ascii_upper_bytes(v: &Vec<u8>) -> (r: Vec<u8>)
    ensures
        r@ == upper_bytes(v@),
{
    let mut r: Vec<u8> = Vec::new();
    let mut i: usize = 0;
    while i < v.len()
        invariant
            i <= v@.len(),
            r@ == upper_bytes(v@).subrange(0, i as int),
        decreases v@.len() - i,
    {
        let b = v[i];
        if 97 <= b && b <= 122 {
            r.push(b - 32);
        } else {
            r.push(b);
        }
        i += 1;
        proof {
            assert(r@ =~= upper_bytes(v@).subrange(0, i as int));
        }
    }
    proof {
        assert(upper_bytes(v@).subrange(0, v@.len() as int) =~= upper_bytes(v@));
    }
    r
}

/// ASCII-lowercase a byte string.
pub fn ascii_lower_bytes(v: &Vec<u8>) -> (r: Vec<u8>)
    ensures
        r@ == lower_bytes(v@),
{
    let mut r: Vec<u8> = Vec::new();
    let mut i: usize = 0;
    while i < v.len()
        invariant
            i <= v@.len(),
            r@ == lower_bytes(v@).subrange(0, i as int),
        decreases v@.len() - i,
    {
        let b = v[i];
        if 65 <= b && b <= 90 {
            r.push(b + 32);
        } else {
            r.push(b);
        }
        i += 1;
        proof {
            assert(r@ =~= lower_bytes(v@).subrange(0, i as int));
        }
    }
    proof {
        assert(lower_bytes(v@).subrange(0, v@.len() as int) =~= lower_bytes(v@));
    }
    r
}

/// ASCII-uppercase a UTF-16 code-unit string.
pub fn ascii_upper_units(v: &Vec<u16>) -> (r: Vec<u16>)
    ensures
        r@ == upper_units(v@),
{
    let mut r: Vec<u16> = Vec::new();
    let mut i: usize = 0;
    while i < v.len()
        invariant
            i <= v@.len(),
            r@ == upper_units(v@).subrange(0, i as int),
        decreases v@.len() - i,
    {
        let u = v[i];
        if 97 <= u && u <= 122 {
            r.push(u - 32);
        } else {
            r.push(u);
        }
        i += 1;
        proof {
            assert(r@ =~= upper_units(v@).subrange(0, i as int));
        }
    }
    proof {
        assert(upper_units(v@).subrange(0, v@.len() as int) =~= upper_units(v@));
    }
    r
}

/// The bytes of a string slice, as a fresh vector.
pub fn str_bytes(s: &str) -> (r: Vec<u8>)
    ensures
        r@ == s.spec_bytes(),
{
    s.as_bytes_vec()
}

/// FNV-1a 64-bit hash of a byte string, folded left to right.
pub open spec fn fnv1a(s: Seq<u8>) -> u64
    decreases s.len(),
{
    if s.len() == 0 {
        FNV_OFFSET
    } else {
        vstd::wrapping::u64_specs::wrapping_mul(fnv1a(s.drop_last()) ^ (s.last() as u64), FNV_PRIME)
    }
}

/// Compute the FNV-1a 64-bit hash of a byte string.
pub fn fnv1a_hash(bytes: &Vec<u8>) -> (h: u64)
    ensures
        h == fnv1a(bytes@),
{
    let mut h: u64 = FNV_OFFSET;
    let mut i: usize = 0;
    proof {
        assert(bytes@.subrange(0, 0) =~= Seq::<u8>::empty());
    }
    while i < bytes.len()
        invariant
            i <= bytes@.len(),
            h == fnv1a(bytes@.subrange(0, i as int)),
        decreases bytes@.len() - i,
    {
        proof {
            assert(bytes@.subrange(0, i + 1).drop_last() =~= bytes@.subrange(0, i as int));
            assert(bytes@.subrange(0, i + 1).last() == bytes@[i as int]);
        }
        h = (h ^ (bytes[i] as u64)).wrapping_mul(FNV_PRIME);
        i += 1;
    }
    proof {
        assert(bytes@.subrange(0, bytes@.len() as int) =~= bytes@);
    }
    h
}

/// The lowercase hexadecimal digit for a value below sixteen.
pub open spec fn hex_digit(n: int) -> char {
    if n == 0 {
        '0'
    } else if n == 1 {
        '1'
    } else if n == 2 {
        '2'
    } else if n == 3 {
        '3'
    } else if n == 4 {
        '4'
    } else if n == 5 {
        '5'
    } else if n == 6 {
        '6'
    } else if n == 7 {
        '7'
    } else if n == 8 {
        '8'
    } else if n == 9 {
        '9'
    } else if n == 10 {
        'a'
    } else if n == 11 {
        'b'
    } else if n == 12 {
        'c'
    } else if n == 13 {
        'd'
    } else if n == 14 {
        'e'
    } else {
        'f'
    }
}

/// A 64-bit value as exactly sixteen lowercase hexadecimal characters,
/// most significant nibble first.
pub open spec fn hex16_chars(x: u64) -> Seq<char> {
    Seq::new(16, |i: int| hex_digit(((x >> (((15 - i) * 4) as u64)) & 0xf) as int))
}

/// One hexadecimal digit as a string slice.
fn hex_digit_str(n: u64) -> (r: &'static str)
    requires
        n < 16,
    ensures
        r@ =~= seq![hex_digit(n as int)],
{
    proof {
        reveal_strlit("0");
        reveal_strlit("1");
        reveal_strlit("2");
        reveal_strlit("3");
        reveal_strlit("4");
        reveal_strlit("5");
        reveal_strlit("6");
        reveal_strlit("7");
        reveal_strlit("8");
        reveal_strlit("9");
        reveal_strlit("a");
        reveal_strlit("b");
        reveal_strlit("c");
        reveal_strlit("d");
        reveal_strlit("e");
        reveal_strlit("f");
    }
    match n {
        0 => "0",
        1 => "1",
        2 => "2",
        3 => "3",
        4 => "4",
        5 => "5",
        6 => "6",
        7 => "7",
        8 => "8",
        9 => "9",
        10 => "a",
        11 => "b",
        12 => "c",
        13 => "d",
        14 => "e",
        _ => "f",
    }
}

/// Format a 64-bit value as sixteen lowercase hexadecimal characters.
pub fn u64_to_hex16(x: u64) -> (s: String)
    ensures
        s@ == hex16_chars(x),
{
    let mut s = String::new();
    let mut i: usize = 0;
    proof {
        assert(s@ =~= hex16_chars(x).subrange(0, 0));
    }
    while i < 16
        invariant
            i <= 16,
            s@ == hex16_chars(x).subrange(0, i as int),
        decreases 16 - i,
    {
        let shift: u64 = ((15 - i) * 4) as u64;
        let nibble: u64 = (x >> shift) & 0xf;
        proof {
            assert((x >> shift) & 0xf < 16) by (bit_vector);
        }
        let d = hex_digit_str(nibble);
        s.append(d);
        i += 1;
        proof {
            assert(s@ =~= hex16_chars(x).subrange(0, i as int));
        }
    }
    proof {
        assert(hex16_chars(x).subrange(0, 16) =~= hex16_chars(x));
    }
    s
}

/// The decimal digit character for a value below ten.
pub open spec fn dec_digit(n: int) -> char {
    hex_digit(if 0 <= n < 10 {
        n
    } else {
        0
    })
}

/// A natural number written in decimal, without leading zeros (a single
/// zero for the value zero).
pub open spec fn dec_chars(n: int) -> Seq<char>
    decreases n,
{
    if n < 10 {
        seq![dec_digit(n)]
    } else {
        dec_chars(n / 10).push(dec_digit(n % 10))
    }
}

/// Format a 32-bit value in decimal.
pub fn u32_to_decimal(n: u32) -> (s: String)
    ensures
        s@ == dec_chars(n as int),
    decreases n,
{
    if n < 10 {
        let s = String::new();
        let d = hex_digit_str(n as u64);
        s.concat(d)
    } else {
        proof {
            assert(n / 10 < n) by (nonlinear_arith)
                requires
                    n >= 10,
            ;
        }
        let s = u32_to_decimal(n / 10);
        let d = hex_digit_str((n % 10) as u64);
        s.concat(d)
    }
}

/// Appending one element extends a filtered sequence by that element
/// exactly when the predicate accepts it.
pub proof fn lemma_filter_push<A>(s: Seq<A>, pred: spec_fn(A) -> bool, x: A)
    ensures
        s.push(x).filter(pred) == if pred(x) {
            s.filter(pred).push(x)
        } else {
            s.filter(pred)
        },
{
    reveal(Seq::filter);
    assert(s.push(x).drop_last() =~= s);
}

/// Whether `needle` occurs as a contiguous run inside `hay`.
pub open spec fn contains_seq(hay: Seq<u8>, needle: Seq<u8>) -> bool {
    exists|i: int|
        0 <= i && i + needle.len() <= hay.len() && (#[trigger] hay.subrange(
            i,
            i + needle.len() as int,
        )) =~= needle
}

/// Whether `needle` stands at offset `i` of `hay`.
fn matches_at(hay: &Vec<u8>, needle: &Vec<u8>, i: usize) -> (r: bool)
    requires
        i + needle@.len() <= hay@.len(),
    ensures
        r == (hay@.subrange(i as int, i + needle@.len() as int) =~= needle@),
{
    let hay_len = hay.len();
    let mut j: usize = 0;
    while j < needle.len()
        invariant
            j <= needle@.len(),
            i + needle@.len() <= hay@.len(),
            hay@.len() == hay_len,
            forall|k: int| 0 <= k < j ==> hay@[i + k] == needle@[k],
        decreases needle@.len() - j,
    {
        if hay[i + j] != needle[j] {
            proof {
                let sub = hay@.subrange(i as int, i + needle@.len() as int);
                assert(sub[j as int] != needle@[j as int]);
            }
            return false;
        }
        j += 1;
    }
    proof {
        assert(hay@.subrange(i as int, i + needle@.len() as int) =~= needle@);
    }
    true
}

/// Naive substring search over bytes.
pub fn contains_bytes(hay: &Vec<u8>, needle: &Vec<u8>) -> (r: bool)
    ensures
        r == contains_seq(hay@, needle@),
{
    if needle.len() > hay.len() {
        return false;
    }
    let mut i: usize = 0;
    while i <= hay.len() - needle.len()
        invariant
            needle@.len() <= hay@.len(),
            i <= hay@.len() - needle@.len() + 1,
            forall|k: int|
                0 <= k < i ==> !((#[trigger] hay@.subrange(k, k + needle@.len() as int))
                    =~= needle@),
        decreases hay@.len() + 1 - needle@.len() - i,
    {
        if matches_at(hay, needle, i) {
            return true;
        }
        i += 1;
    }
    false
}

/// Equality of two byte vectors.
pub fn bytes_eq(a: &Vec<u8>, b: &Vec<u8>) -> (r: bool)
    ensures
        r == (a@ == b@),
{
    if a.len() != b.len() {
        return false;
    }
    let mut i: usize = 0;
    while i < a.len()
        invariant
            i <= a@.len() == b@.len(),
            forall|k: int| 0 <= k < i ==> a@[k] == b@[k],
        decreases a@.len() - i,
    {
        if a[i] != b[i] {
            return false;
        }
        i += 1;
    }
    proof {
        assert(a@ =~= b@);
    }
    true
}

/// The position of the first occurrence of `needle` inside `hay`, if any.
pub open spec fn spec_find_sub(hay: Seq<u8>, needle: Seq<u8>) -> Option<int>
    decreases hay.len(),
{
    if needle.len() > hay.len() {
        None
    } else if hay.subrange(0, needle.len() as int) == needle {
        Some(0int)
    } else if hay.len() == 0 {
        None
    } else {
        match spec_find_sub(hay.drop_first(), needle) {
            Some(i) => Some(i + 1),
            None => None,
        }
    }
}

/// Find the first occurrence of `needle` inside `hay`.
pub fn find_sub(hay: &Vec<u8>, needle: &Vec<u8>) -> (r: Option<usize>)
    ensures
        match r {
            Some(i) => spec_find_sub(hay@, needle@) == Some(i as int) && i + needle@.len()
                <= hay@.len(),
            None => spec_find_sub(hay@, needle@) is None,
        },
{
    let hl = hay.len();
    let nl = needle.len();
    if nl > hl {
        return None;
    }
    if nl == 0 {
        proof {
            assert(hay@.subrange(0, 0) =~= needle@);
        }
        return Some(0);
    }
    let mut i: usize = 0;
    proof {
        assert(hay@.skip(0) =~= hay@);
    }
    while i <= hl - nl
        invariant
            nl == needle@.len() <= hay@.len() == hl,
            i <= hl - nl + 1,
            spec_find_sub(hay@, needle@) == (match spec_find_sub(hay@.skip(i as int), needle@) {
                Some(j) => Some(i + j),
                None => None::<int>,
            }),
        decreases hl - i,
    {
        proof {
            let rest = hay@.skip(i as int);
            assert(rest.subrange(0, needle@.len() as int) =~= hay@.subrange(
                i as int,
                i + needle@.len(),
            ));
        }
        if matches_at(hay, needle, i) {
            return Some(i);
        }
        proof {
            let rest = hay@.skip(i as int);
            assert(rest.len() > 0);
            assert(rest.drop_first() =~= hay@.skip(i + 1));
        }
        i += 1;
    }
    proof {
        let rest = hay@.skip(i as int);
        assert(needle@.len() > rest.len());
    }
    None
}

/// Whether `prefix` stands at the start of `s`.
pub open spec fn starts_with_seq(s: Seq<u8>, prefix: Seq<u8>) -> bool {
    prefix.len() <= s.len() && s.subrange(0, prefix.len() as int) =~= prefix
}

/// Prefix test over bytes.
pub fn starts_with_bytes(s: &Vec<u8>, prefix: &Vec<u8>) -> (r: bool)
    ensures
        r == starts_with_seq(s@, prefix@),
{
    if prefix.len() > s.len() {
        return false;
    }
    matches_at(s, prefix, 0)
}

/// Equality of two strings, stated over their character views.
pub fn string_eq(a: &String, b: &String) -> (r: bool)
    ensures
        r == (a@ == b@),
{
    *a == *b
}

/// Case-insensitive ASCII equality of two strings, compared byte by byte
/// after uppercasing.
pub fn eq_ignore_ascii_case(a: &str, b: &str) -> (r: bool)
    ensures
        r == (upper_bytes(a.spec_bytes()) == upper_bytes(b.spec_bytes())),
{
    let ab = ascii_upper_bytes(&str_bytes(a));
    let bb = ascii_upper_bytes(&str_bytes(b));
    let r = ab == bb;
    proof {
        if ab@ =~= bb@ {
            assert(upper_bytes(a.spec_bytes()) == upper_bytes(b.spec_bytes()));
        }
    }
    r
}

} // verus!
