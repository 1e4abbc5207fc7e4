//! The hiding-driver list protocol: wire codec and read-modify-write
//! decisions.
//!
//! The filter driver keeps a blacklist of hidden device paths and a
//! whitelist of applications, both exchanged as double-null-terminated
//! UTF-16LE buffers, plus a one-byte global active flag.  The driver's
//! control device admits one handle at a time, so every operation is an
//! open, a get, a decision, an optional set, and a close.  The decisions
//! and the codec are verified here on plain values; the embedding program
//! performs the device I/O.

use vstd::prelude::*;

use crate::text::{ascii_upper_units, upper_units};

verus! {

/// Control code: read the application whitelist.
pub const IOCTL_GET_WHITELIST: u32 = 0x80016000;

/// Control code: replace the application whitelist.
pub const IOCTL_SET_WHITELIST: u32 = 0x80016004;

/// Control code: read the device blacklist.
pub const IOCTL_GET_BLACKLIST: u32 = 0x80016008;

/// Control code: replace the device blacklist.
pub const IOCTL_SET_BLACKLIST: u32 = 0x8001600C;

/// Control code: read the global active flag.
pub const IOCTL_GET_ACTIVE: u32 = 0x80016010;

/// Control code: set the global active flag.
pub const IOCTL_SET_ACTIVE: u32 = 0x80016014;

/// The UTF-16LE bytes of a code-unit string: low byte then high byte,
/// unit by unit.
pub open spec fn utf16le_bytes(ws: Seq<u16>) -> Seq<u8> {
    Seq::new(
        2 * ws.len(),
        |i: int|
            if i % 2 == 0 {
                (ws[i / 2] & 0xff) as u8
            } else {
                (ws[i / 2] >> 8) as u8
            },
    )
}

/// The code units read from a byte buffer, pair by pair, little endian;
/// a trailing odd byte is ignored.
pub open spec fn units_from_bytes(b: Seq<u8>) -> Seq<u16> {
    Seq::new(b.len() / 2, |i: int| (b[2 * i] as u16) | ((b[2 * i + 1] as u16) << 8))
}

/// Reading back the bytes of a code-unit string gives the units again.
pub proof fn lemma_units_bytes_round_trip(ws: Seq<u16>)
    ensures
        units_from_bytes(utf16le_bytes(ws)) == ws,
{
    assert forall|i: int|
        0 <= i < ws.len() implies units_from_bytes(utf16le_bytes(ws))[i] == ws[i] by {
        let u = ws[i];
        assert(((u & 0xff) as u8 as u16) | (((u >> 8) as u8 as u16) << 8) == u) by (bit_vector);
    }
    assert(units_from_bytes(utf16le_bytes(ws)) =~= ws);
}

/// Each string followed by its null terminator, in order.
pub open spec fn flat_units(list: Seq<Seq<u16>>) -> Seq<u16>
    decreases list.len(),
{
    if list.len() == 0 {
        Seq::empty()
    } else {
        list[0] + seq![0u16] + flat_units(list.drop_first())
    }
}

/// The full list payload: every string null-terminated, then the second
/// null that ends the list.
pub open spec fn multi_units(list: Seq<Seq<u16>>) -> Seq<u16> {
    flat_units(list) + seq![0u16]
}

/// The encoded multi-string buffer of a list.
pub open spec fn spec_encode_multi_string(list: Seq<Seq<u16>>) -> Seq<u8> {
    utf16le_bytes(multi_units(list))
}

/// Flattening distributes over concatenation of lists.
proof fn lemma_flat_units_concat(a: Seq<Seq<u16>>, b: Seq<Seq<u16>>)
    ensures
        flat_units(a + b) == flat_units(a) + flat_units(b),
    decreases a.len(),
{
    if a.len() == 0 {
        assert(a + b =~= b);
        assert(flat_units(a) + flat_units(b) =~= flat_units(b));
    } else {
        assert((a + b).drop_first() =~= a.drop_first() + b);
        assert((a + b)[0] == a[0]);
        lemma_flat_units_concat(a.drop_first(), b);
        assert(a[0] + seq![0u16] + (flat_units(a.drop_first()) + flat_units(b)) =~= flat_units(a)
            + flat_units(b));
    }
}

/// The views of a sequence of code-unit vectors.
pub open spec fn views_of(list: Seq<Vec<u16>>) -> Seq<Seq<u16>> {
    Seq::new(list.len(), |i: int| list[i]@)
}

/// Pushing one vector extends the view sequence by its view.
proof fn lemma_views_push(list: Seq<Vec<u16>>, v: Vec<u16>)
    ensures
        views_of(list.push(v)) == views_of(list).push(v@),
{
    assert(views_of(list.push(v)) =~= views_of(list).push(v@));
}

/// Encode a list of wide strings as a double-null-terminated UTF-16LE
/// byte buffer.
pub fn encode_multi_string(strings: &Vec<Vec<u16>>) -> (r: Vec<u8>)
    ensures
        r@ == spec_encode_multi_string(views_of(strings@)),
{
    let mut units: Vec<u16> = Vec::new();
    let n = strings.len();
    let mut i: usize = 0;
    proof {
        assert(views_of(strings@).subrange(0, 0) =~= Seq::<Seq<u16>>::empty());
        assert(units@ =~= flat_units(views_of(strings@).subrange(0, 0)));
    }
    while i < n
        invariant
            i <= n == strings@.len(),
            units@ == flat_units(views_of(strings@).subrange(0, i as int)),
        decreases n - i,
    {
        let mut j: usize = 0;
        let s = &strings[i];
        while j < s.len()
            invariant
                j <= s@.len(),
                s == &strings@[i as int],
                units@ == flat_units(views_of(strings@).subrange(0, i as int)) + s@.subrange(
                    0,
                    j as int,
                ),
            decreases s@.len() - j,
        {
            units.push(s[j]);
            j += 1;
            proof {
                assert(units@ =~= flat_units(views_of(strings@).subrange(0, i as int))
                    + s@.subrange(0, j as int));
            }
        }
        units.push(0);
        i += 1;
        proof {
            let prefix = views_of(strings@).subrange(0, i - 1);
            let single = seq![strings@[i - 1]@];
            assert(views_of(strings@).subrange(0, i as int) =~= prefix + single);
            lemma_flat_units_concat(prefix, single);
            assert(single.drop_first() =~= Seq::<Seq<u16>>::empty());
            assert(flat_units(Seq::<Seq<u16>>::empty()) =~= Seq::<u16>::empty());
            assert(flat_units(single) =~= strings@[i - 1]@ + seq![0u16]);
            assert(strings@[i - 1]@.subrange(0, strings@[i - 1]@.len() as int) =~= strings@[i
                - 1]@);
            assert(units@ =~= flat_units(views_of(strings@).subrange(0, i as int)));
        }
    }
    units.push(0);
    proof {
        assert(views_of(strings@).subrange(0, n as int) =~= views_of(strings@));
        assert(units@ =~= multi_units(views_of(strings@)));
    }
    let mut bytes: Vec<u8> = Vec::new();
    let m = units.len();
    let mut k: usize = 0;
    proof {
        assert(bytes@ =~= utf16le_bytes(units@).subrange(0, 0));
    }
    while k < m
        invariant
            k <= m == units@.len(),
            units@ == multi_units(views_of(strings@)),
            bytes@ == utf16le_bytes(units@).subrange(0, 2 * k),
        decreases m - k,
    {
        let u = units[k];
        bytes.push((u & 0xff) as u8);
        bytes.push((u >> 8) as u8);
        k += 1;
        proof {
            assert(bytes@ =~= utf16le_bytes(units@).subrange(0, 2 * k));
        }
    }
    proof {
        assert(utf16le_bytes(units@).subrange(0, 2 * units@.len() as int) =~= utf16le_bytes(
            units@,
        ));
    }
    bytes
}

/// The longest zero-free prefix of a code-unit string.
pub open spec fn take_until_zero(ws: Seq<u16>) -> Seq<u16>
    decreases ws.len(),
{
    if ws.len() == 0 {
        Seq::empty()
    } else if ws[0] == 0 {
        Seq::empty()
    } else {
        seq![ws[0]] + take_until_zero(ws.drop_first())
    }
}

/// When the first zero stands at position `k`, the zero-free prefix is
/// exactly the first `k` units.
proof fn lemma_take_until_zero(ws: Seq<u16>, k: int)
    requires
        0 <= k <= ws.len(),
        forall|i: int| 0 <= i < k ==> ws[i] != 0,
        k == ws.len() || ws[k] == 0,
    ensures
        take_until_zero(ws) == ws.subrange(0, k),
    decreases k,
{
    if k == 0 {
        assert(take_until_zero(ws) =~= ws.subrange(0, 0));
    } else {
        lemma_take_until_zero(ws.drop_first(), k - 1);
        assert(ws.drop_first().subrange(0, k - 1) =~= ws.subrange(1, k));
        assert(seq![ws[0]] + ws.subrange(1, k) =~= ws.subrange(0, k));
    }
}

/// The zero-free prefix is never longer than the string.
proof fn lemma_take_until_zero_len(ws: Seq<u16>)
    ensures
        take_until_zero(ws).len() <= ws.len(),
    decreases ws.len(),
{
    if ws.len() > 0 && ws[0] != 0 {
        lemma_take_until_zero_len(ws.drop_first());
    }
}

/// The strings read from a code-unit buffer: zero-terminated runs, up to
/// the empty run that ends the list.  A run the buffer ends inside (with
/// no terminator) is not part of the list.
pub open spec fn spec_split_units(ws: Seq<u16>) -> Seq<Seq<u16>>
    decreases ws.len(),
    via spec_split_units_decreases
{
    if ws.len() == 0 {
        Seq::empty()
    } else if ws[0] == 0 {
        Seq::empty()
    } else {
        let head = take_until_zero(ws);
        if head.len() == ws.len() {
            Seq::empty()
        } else {
            seq![head] + spec_split_units(ws.skip(head.len() as int + 1))
        }
    }
}

#[via_fn]
proof fn spec_split_units_decreases(ws: Seq<u16>) {
    lemma_take_until_zero_len(ws);
}

/// Decode a double-null-terminated UTF-16LE byte buffer into the list of
/// wide strings it carries.
pub fn decode_multi_string(bytes: &Vec<u8>) -> (r: Vec<Vec<u16>>)
    ensures
        views_of(r@) == spec_split_units(units_from_bytes(bytes@)),
{
    let mut units: Vec<u16> = Vec::new();
    let blen = bytes.len();
    let pairs = blen / 2;
    let mut k: usize = 0;
    let mut b: usize = 0;
    proof {
        assert(units@ =~= units_from_bytes(bytes@).subrange(0, 0));
    }
    while k < pairs
        invariant
            k <= pairs == bytes@.len() / 2,
            blen == bytes@.len(),
            b == 2 * k,
            units@ == units_from_bytes(bytes@).subrange(0, k as int),
        decreases pairs - k,
    {
        let lo = bytes[b];
        let hi = bytes[b + 1];
        units.push((lo as u16) | ((hi as u16) << 8));
        k += 1;
        b += 2;
        proof {
            assert(units@ =~= units_from_bytes(bytes@).subrange(0, k as int));
        }
    }
    proof {
        assert(units_from_bytes(bytes@).subrange(0, (bytes@.len() / 2) as int) =~= units_from_bytes(
            bytes@,
        ));
    }

    let n = units.len();
    let mut strings: Vec<Vec<u16>> = Vec::new();
    let mut pos: usize = 0;
    proof {
        assert(units@.skip(0) =~= units@);
        assert(views_of(strings@) + spec_split_units(units@.skip(0)) =~= spec_split_units(units@));
    }
    loop
        invariant
            pos <= n == units@.len(),
            units@ == units_from_bytes(bytes@),
            spec_split_units(units@) == views_of(strings@) + spec_split_units(
                units@.skip(pos as int),
            ),
        decreases n - pos,
    {
        let ghost remaining = units@.skip(pos as int);
        if pos >= n {
            proof {
                assert(remaining =~= Seq::<u16>::empty());
                assert(spec_split_units(remaining) =~= Seq::<Seq<u16>>::empty());
                assert(views_of(strings@) + spec_split_units(remaining) =~= views_of(strings@));
            }
            return strings;
        }
        if units[pos] == 0 {
            proof {
                assert(remaining[0] == units@[pos as int]);
                assert(spec_split_units(remaining) =~= Seq::<Seq<u16>>::empty());
                assert(views_of(strings@) + spec_split_units(remaining) =~= views_of(strings@));
            }
            return strings;
        }
        // scan for the terminating zero of the current run
        let mut z: usize = pos;
        while z < n && units[z] != 0
            invariant
                pos <= z <= n == units@.len(),
                forall|i: int| pos <= i < z ==> units@[i] != 0,
            decreases n - z,
        {
            z += 1;
        }
        proof {
            assert(remaining.len() == n - pos);
            assert forall|i: int| 0 <= i < z - pos implies remaining[i] != 0 by {
                assert(remaining[i] == units@[pos + i]);
            }
            if z < n {
                assert(remaining[z - pos] == units@[z as int]);
            }
            lemma_take_until_zero(remaining, z - pos);
            assert(remaining.subrange(0, z - pos) =~= units@.subrange(pos as int, z as int));
            assert(remaining[0] == units@[pos as int]);
        }
        if z == n {
            // the buffer ended inside a run: it never got its terminator
            proof {
                assert(take_until_zero(remaining).len() == remaining.len());
                assert(spec_split_units(remaining) =~= Seq::<Seq<u16>>::empty());
                assert(views_of(strings@) + spec_split_units(remaining) =~= views_of(strings@));
            }
            return strings;
        }
        let mut current: Vec<u16> = Vec::new();
        let mut j: usize = pos;
        while j < z
            invariant
                pos <= j <= z <= units@.len(),
                current@ == units@.subrange(pos as int, j as int),
            decreases z - j,
        {
            current.push(units[j]);
            j += 1;
            proof {
                assert(current@ =~= units@.subrange(pos as int, j as int));
            }
        }
        let ghost prev_strings = strings@;
        proof {
            assert(current@ =~= units@.subrange(pos as int, z as int));
        }
        strings.push(current);
        proof {
            let head = take_until_zero(remaining);
            assert(head.len() < remaining.len());
            assert(remaining.skip(head.len() as int + 1) =~= units@.skip(z + 1));
            assert(spec_split_units(remaining) == seq![head] + spec_split_units(
                units@.skip(z + 1),
            ));
            lemma_views_push(prev_strings, strings@.last());
            assert(strings@ =~= prev_strings.push(strings@.last()));
            assert(views_of(strings@) =~= views_of(prev_strings).push(head));
            assert(views_of(strings@) + spec_split_units(units@.skip(z + 1)) =~= spec_split_units(
                units@,
            ));
        }
        pos = z + 1;
    }
}

/// A wide string fit for the driver's lists: non-empty and free of the
/// null unit the wire format uses as a terminator.
pub open spec fn wide_string_ok(s: Seq<u16>) -> bool {
    s.len() > 0 && forall|j: int| 0 <= j < s.len() ==> s[j] != 0
}

/// Encoding a list of non-empty, null-free strings and decoding the
/// buffer gives the same list back.
pub proof fn lemma_multi_string_round_trip(list: Seq<Seq<u16>>)
    requires
        forall|i: int| 0 <= i < list.len() ==> wide_string_ok(#[trigger] list[i]),
    ensures
        spec_split_units(units_from_bytes(spec_encode_multi_string(list))) == list,
    decreases list.len(),
{
    lemma_units_bytes_round_trip(multi_units(list));
    lemma_split_multi_units(list);
}

/// Splitting the unit payload of a list of non-empty, null-free strings
/// gives the list back.
proof fn lemma_split_multi_units(list: Seq<Seq<u16>>)
    requires
        forall|i: int| 0 <= i < list.len() ==> wide_string_ok(#[trigger] list[i]),
    ensures
        spec_split_units(multi_units(list)) == list,
    decreases list.len(),
{
    let ws = multi_units(list);
    if list.len() == 0 {
        assert(ws =~= seq![0u16]);
        assert(spec_split_units(ws) =~= list);
    } else {
        let s = list[0];
        let rest = list.drop_first();
        assert forall|i: int| 0 <= i < rest.len() implies wide_string_ok(#[trigger] rest[i]) by {
            assert(rest[i] == list[i + 1]);
        }
        lemma_split_multi_units(rest);
        assert(ws =~= s + seq![0u16] + multi_units(rest));
        assert(ws[0] == s[0]);
        assert(ws[0] != 0);
        assert forall|i: int| 0 <= i < s.len() implies ws[i] != 0 by {
            assert(ws[i] == s[i]);
        }
        assert(ws[s.len() as int] == 0);
        lemma_take_until_zero(ws, s.len() as int);
        assert(ws.subrange(0, s.len() as int) =~= s);
        assert(take_until_zero(ws).len() < ws.len());
        assert(ws.skip(s.len() as int + 1) =~= multi_units(rest));
        assert(spec_split_units(ws) =~= seq![s] + spec_split_units(multi_units(rest)));
        assert(seq![s] + rest =~= list);
    }
}

/// Whether the list already carries this path, compared case-insensitively
/// after ASCII uppercasing, as the driver's clients do.
pub open spec fn spec_contains_ci(list: Seq<Seq<u16>>, path: Seq<u16>) -> bool {
    exists|i: int| 0 <= i < list.len() && upper_units(#[trigger] list[i]) == upper_units(path)
}

/// Equality of two code-unit vectors.
fn units_eq(a: &Vec<u16>, b: &Vec<u16>) -> (r: bool)
    ensures
        r == (a@ == b@),
{
    if a.len() != b.len() {
        return false;
    }
    let mut i: usize = 0;
    while i < a.len()
        invariant
            i <= a@.len() == b@.len(),
            forall|k: int| 0 <= k < i ==> a@[k] == b@[k],
        decreases a@.len() - i,
    {
        if a[i] != b[i] {
            return false;
        }
        i += 1;
    }
    proof {
        assert(a@ =~= b@);
    }
    true
}

/// Test whether the list carries the path, case-insensitively.
fn list_contains_ci(list: &Vec<Vec<u16>>, path: &Vec<u16>) -> (r: bool)
    ensures
        r == spec_contains_ci(views_of(list@), path@),
{
    let target = ascii_upper_units(path);
    let mut i: usize = 0;
    while i < list.len()
        invariant
            i <= list@.len(),
            target@ == upper_units(path@),
            forall|k: int|
                0 <= k < i ==> upper_units((#[trigger] views_of(list@)[k])) != upper_units(path@),
        decreases list@.len() - i,
    {
        let up = ascii_upper_units(&list[i]);
        if units_eq(&up, &target) {
            proof {
                assert(upper_units(views_of(list@)[i as int]) == upper_units(path@));
            }
            return true;
        }
        proof {
            assert(upper_units(views_of(list@)[i as int]) != upper_units(path@));
        }
        i += 1;
    }
    false
}

/// The read-modify-write client of the hiding driver's two lists.  Each
/// public operation reads the current list through one ephemeral handle,
/// decides here, and writes the updated list back only when it changed.
pub struct HidHide {
}

impl HidHide {
    /// The updated blacklist an add must write, or nothing when the path
    /// is already present (then no set is issued, which keeps the
    /// operation idempotent).
    pub fn add_to_blacklist(current: &Vec<Vec<u16>>, instance_path: &Vec<u16>) -> (r: Option<
        Vec<Vec<u16>>,
    >)
        ensures
            match r {
                Some(updated) => !spec_contains_ci(views_of(current@), instance_path@) && views_of(
                    updated@,
                ) == views_of(current@).push(instance_path@),
                None => spec_contains_ci(views_of(current@), instance_path@),
            },
    {
        Self::list_after_add(current, instance_path)
    }

    /// The updated whitelist an add must write, or nothing when the
    /// application path is already present.
    pub fn add_to_whitelist(current: &Vec<Vec<u16>>, app_path: &Vec<u16>) -> (r: Option<
        Vec<Vec<u16>>,
    >)
        ensures
            match r {
                Some(updated) => !spec_contains_ci(views_of(current@), app_path@) && views_of(
                    updated@,
                ) == views_of(current@).push(app_path@),
                None => spec_contains_ci(views_of(current@), app_path@),
            },
    {
        Self::list_after_add(current, app_path)
    }

    /// The updated blacklist a removal must write, or nothing when no
    /// entry matched (then no set is issued).
    pub fn remove_from_blacklist(current: &Vec<Vec<u16>>, instance_path: &Vec<u16>) -> (r: Option<
        Vec<Vec<u16>>,
    >)
        ensures
            ({
                let kept = views_of(current@).filter(
                    |s: Seq<u16>| upper_units(s) != upper_units(instance_path@),
                );
                match r {
                    Some(updated) => kept.len() != views_of(current@).len() && views_of(updated@)
                        == kept,
                    None => kept.len() == views_of(current@).len(),
                }
            }),
    {
        let target = ascii_upper_units(instance_path);
        let n = current.len();
        let mut kept: Vec<Vec<u16>> = Vec::new();
        let mut i: usize = 0;
        proof {
            assert(views_of(current@).subrange(0, 0) =~= Seq::<Seq<u16>>::empty());
            vstd::prelude::Seq::<Seq<u16>>::empty().lemma_filter_len(
                |s: Seq<u16>| upper_units(s) != upper_units(instance_path@),
            );
            reveal(Seq::filter);
        }
        while i < n
            invariant
                i <= n == current@.len(),
                target@ == upper_units(instance_path@),
                views_of(kept@) == views_of(current@).subrange(0, i as int).filter(
                    |s: Seq<u16>| upper_units(s) != upper_units(instance_path@),
                ),
        decreases n - i,
        {
            proof {
                let pred = |s: Seq<u16>| upper_units(s) != upper_units(instance_path@);
                let prefix = views_of(current@).subrange(0, i as int);
                assert(views_of(current@).subrange(0, i + 1) =~= prefix.push(
                    views_of(current@)[i as int],
                ));
                crate::text::lemma_filter_push(prefix, pred, views_of(current@)[i as int]);
            }
            let up = ascii_upper_units(&current[i]);
            if !units_eq(&up, &target) {
                let item = current[i].clone();
                let ghost prev_kept = kept@;
                proof {
                    assert(item@ =~= current@[i as int]@);
                }
                kept.push(item);
                proof {
                    lemma_views_push(prev_kept, kept@.last());
                    assert(kept@ =~= prev_kept.push(kept@.last()));
                    assert(views_of(kept@) =~= views_of(prev_kept).push(current@[i as int]@));
                    assert(views_of(kept@) =~= views_of(current@).subrange(0, i + 1).filter(
                        |s: Seq<u16>| upper_units(s) != upper_units(instance_path@),
                    ));
                }
            } else {
                proof {
                    assert(views_of(kept@) =~= views_of(current@).subrange(0, i + 1).filter(
                        |s: Seq<u16>| upper_units(s) != upper_units(instance_path@),
                    ));
                }
            }
            i += 1;
        }
        proof {
            assert(views_of(current@).subrange(0, n as int) =~= views_of(current@));
        }
        if kept.len() != current.len() {
            proof {
                views_of(current@).lemma_filter_len(
                    |s: Seq<u16>| upper_units(s) != upper_units(instance_path@),
                );
            }
            Some(kept)
        } else {
            None
        }
    }

    /// The one-byte payload of the global active flag.
    pub fn encode_active(active: bool) -> (r: u8)
        ensures
            r == (if active {
                1u8
            } else {
                0u8
            }),
    {
        if active {
            1
        } else {
            0
        }
    }

    /// Shared add logic for the two lists.
    fn list_after_add(current: &Vec<Vec<u16>>, path: &Vec<u16>) -> (r: Option<Vec<Vec<u16>>>)
        ensures
            match r {
                Some(updated) => !spec_contains_ci(views_of(current@), path@) && views_of(updated@)
                    == views_of(current@).push(path@),
                None => spec_contains_ci(views_of(current@), path@),
            },
    {
        if list_contains_ci(current, path) {
            return None;
        }
        let mut updated: Vec<Vec<u16>> = Vec::new();
        let n = current.len();
        let mut i: usize = 0;
        while i < n
            invariant
                i <= n == current@.len(),
                views_of(updated@) == views_of(current@).subrange(0, i as int),
                !spec_contains_ci(views_of(current@), path@),
            decreases n - i,
        {
            let item = current[i].clone();
            let ghost prev = updated@;
            proof {
                assert(item@ =~= current@[i as int]@);
            }
            updated.push(item);
            i += 1;
            proof {
                lemma_views_push(prev, updated@.last());
                assert(updated@ =~= prev.push(updated@.last()));
                assert(views_of(updated@) =~= views_of(current@).subrange(0, i as int));
            }
        }
        let tail = path.clone();
        let ghost prev = updated@;
        proof {
            assert(tail@ =~= path@);
        }
        updated.push(tail);
        proof {
            assert(views_of(current@).subrange(0, n as int) =~= views_of(current@));
            lemma_views_push(prev, updated@.last());
            assert(updated@ =~= prev.push(updated@.last()));
            assert(views_of(updated@) =~= views_of(current@).push(path@));
        }
        Some(updated)
    }
}

/// A list that an add produced contains the added path: a repeated add
/// issues no second write.
pub proof fn lemma_add_makes_contained(list: Seq<Seq<u16>>, path: Seq<u16>)
    ensures
        spec_contains_ci(list.push(path), path),
{
    assert(list.push(path)[list.len() as int] == path);
}

} // verus!
