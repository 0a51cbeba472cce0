//! Properties that relate generation, rendering and parsing.
use crate::generator::{body_text, is_hyphenated, is_uppercase, is_valid_uuid, UuidFormat, UuidGenerator};
use crate::hash::{hash16_spec, hash32_spec};
use crate::metadata::{extract_spec, inject_spec, lemma_extract_inject, mask_version, ClientMetadata};
use crate::parser::{
    clean_spec, is_hex_char, lemma_clean_keeps, lemma_hyphenated_text_parses,
    lemma_simple_text_parses, parse_spec, uuid_text_value,
};
use crate::text::{
    hex_digit, hyphenated_text, hyphens_before, is_hyphen_pos, lemma_digit_chars, lemma_digit_order,
    lemma_nibble_range, nibble_at, simple_text,
};
use crate::value::{be_prefix, timestamp_of};
use vstd::prelude::*;
use vstd::utf8::encode_utf8;

verus! {

/// Every body text of 16 bytes parses back to those bytes.
pub proof fn lemma_body_parses(f: UuidFormat, b: Seq<u8>)
    requires
        b.len() == 16,
    ensures
        parse_spec(body_text(f, b)) == Some(b),
{
    let t = body_text(f, b);
    let upper = is_uppercase(f);
    lemma_simple_text_parses(b, upper);
    lemma_hyphenated_text_parses(b, upper);
    assert(uuid_text_value(t) == Some(b));
    assert(is_hex_char(simple_text(b, upper)[0]));
    assert(is_hex_char(simple_text(b, upper)[31]));
    if is_hyphenated(f) {
        assert(t[0] == simple_text(b, upper)[0]);
        assert(t[35] == simple_text(b, upper)[31]);
    }
    lemma_clean_keeps(t);
}

/// A metadata-bearing identifier rendered without prefix parses back, and
/// its extracted record holds the OS family, the masked OS version and the
/// two hashes of the metadata that was written into it.
pub proof fn lemma_metadata_round_trip(g: UuidGenerator, s: Seq<char>, m: ClientMetadata)
    requires
        g.prefix_spec() is None,
        g.renders_with(s, m),
    ensures
        parse_spec(s) matches Some(c) && extract_spec(c) matches Some(e) && e.os_type == m.os_type
            && e.os_version == mask_version(m.os_version) && e.hostname_hash == (hash16_spec(
            encode_utf8(m.hostname@),
        ) % 256) as u8 && e.extended_hash == hash32_spec(encode_utf8(m.extended_input())),
{
    let b = choose|b: Seq<u8>| is_valid_uuid(b, 7) && s == g.render(inject_spec(b, m));
    let c = inject_spec(b, m);
    lemma_body_parses(g.format_spec(), c);
    lemma_extract_inject(b, m);
}

/// Text order: at the first position where the two texts differ, the first
/// has the smaller character.
pub open spec fn text_lt(a: Seq<char>, b: Seq<char>) -> bool {
    exists|i: int|
        0 <= i < a.len() && i < b.len() && a.subrange(0, i) == b.subrange(0, i) && (a[i] as u32) < (
        b[i] as u32)
}

proof fn lemma_text_lt_at(a: Seq<char>, b: Seq<char>, i: int)
    requires
        0 <= i < a.len(),
        i < b.len(),
        forall|q: int| 0 <= q < i ==> a[q] == b[q],
        (a[i] as u32) < (b[i] as u32),
    ensures
        text_lt(a, b),
{
    assert(a.subrange(0, i) =~= b.subrange(0, i));
}

proof fn lemma_be_prefix_eq(a: Seq<u8>, b: Seq<u8>, n: nat)
    requires
        n <= a.len(),
        n <= b.len(),
        be_prefix(a, n) == be_prefix(b, n),
    ensures
        forall|j: int| 0 <= j < n ==> a[j] == b[j],
    decreases n,
{
    if n > 0 {
        let x1 = be_prefix(a, (n - 1) as nat);
        let x2 = be_prefix(b, (n - 1) as nat);
        assert(x1 == x2 && a[n - 1] == b[n - 1]) by {
            if x1 < x2 {
                assert(x1 * 256 + 256 <= x2 * 256);
            } else if x1 > x2 {
                assert(x2 * 256 + 256 <= x1 * 256);
            }
        }
        lemma_be_prefix_eq(a, b, (n - 1) as nat);
    }
}

/// The first byte at which two big-endian prefixes in increasing order differ.
proof fn first_difference(a: Seq<u8>, b: Seq<u8>, n: nat) -> (k: int)
    requires
        n <= a.len(),
        n <= b.len(),
        be_prefix(a, n) < be_prefix(b, n),
    ensures
        0 <= k < n,
        forall|j: int| 0 <= j < k ==> a[j] == b[j],
        a[k] < b[k],
    decreases n,
{
    let x1 = be_prefix(a, (n - 1) as nat);
    let x2 = be_prefix(b, (n - 1) as nat);
    if x1 < x2 {
        first_difference(a, b, (n - 1) as nat)
    } else {
        if x1 > x2 {
            assert(x2 * 256 + 256 <= x1 * 256);
        }
        lemma_be_prefix_eq(a, b, (n - 1) as nat);
        n - 1
    }
}

/// The first position at which the compact forms of `a` and `b` differ, and
/// the order there, given the first byte `k` at which they differ.
proof fn simple_difference(a: Seq<u8>, b: Seq<u8>, k: int, upper: bool) -> (i: int)
    requires
        a.len() == 16,
        b.len() == 16,
        0 <= k < 16,
        forall|j: int| 0 <= j < k ==> a[j] == b[j],
        a[k] < b[k],
    ensures
        0 <= i < 32,
        i == 2 * k || i == 2 * k + 1,
        forall|q: int| 0 <= q < i ==> simple_text(a, upper)[q] == simple_text(b, upper)[q],
        (simple_text(a, upper)[i] as u32) < (simple_text(b, upper)[i] as u32),
{
    let ta = simple_text(a, upper);
    let tb = simple_text(b, upper);
    assert forall|q: int| 0 <= q < 2 * k implies ta[q] == tb[q] by {
        assert(a[q / 2] == b[q / 2]);
    }
    let ha = a[k] as int / 16;
    let hb = b[k] as int / 16;
    assert(nibble_at(a, 2 * k) == ha && nibble_at(b, 2 * k) == hb);
    assert(nibble_at(a, 2 * k + 1) == a[k] as int % 16 && nibble_at(b, 2 * k + 1) == b[k] as int
        % 16);
    if ha < hb {
        lemma_digit_order(ha, hb, upper);
        2 * k
    } else {
        assert(ha == hb);
        lemma_digit_order(a[k] as int % 16, b[k] as int % 16, upper);
        2 * k + 1
    }
}

/// Identifiers rendered by one generator sort in the order of their
/// timestamps: an earlier millisecond gives the smaller text.
pub proof fn lemma_sortable(g: UuidGenerator, a: Seq<u8>, b: Seq<u8>)
    requires
        a.len() == 16,
        b.len() == 16,
        timestamp_of(a) < timestamp_of(b),
    ensures
        text_lt(g.render(a), g.render(b)),
{
    let f = g.format_spec();
    let upper = is_uppercase(f);
    let k = first_difference(a, b, 6);
    let i = simple_difference(a, b, k, upper);
    let sa = simple_text(a, upper);
    let sb = simple_text(b, upper);
    let ta = body_text(f, a);
    let tb = body_text(f, b);
    let pos = if is_hyphenated(f) {
        i + (if i >= 8 {
            1int
        } else {
            0
        })
    } else {
        i
    };
    if is_hyphenated(f) {
        assert forall|q: int| 0 <= q < pos implies ta[q] == tb[q] by {
            if !is_hyphen_pos(q) {
                assert(q - hyphens_before(q) < i);
            }
        }
        assert(!is_hyphen_pos(pos) && pos - hyphens_before(pos) == i);
    }
    assert(forall|q: int| 0 <= q < pos ==> ta[q] == tb[q]);
    assert((ta[pos] as u32) < (tb[pos] as u32));
    match g.prefix_spec() {
        Some(p) => {
            let ra = g.render(a);
            let rb = g.render(b);
            assert forall|q: int| 0 <= q < p.len() + pos implies ra[q] == rb[q] by {
                if q >= p.len() {
                    assert(ra[q] == ta[q - p.len()]);
                    assert(rb[q] == tb[q - p.len()]);
                }
            }
            lemma_text_lt_at(ra, rb, p.len() + pos);
        },
        None => {
            lemma_text_lt_at(ta, tb, pos);
        },
    }
}

/// Writing metadata keeps the timestamp, so metadata-bearing identifiers
/// rendered by one generator sort in the order of their timestamps too.
pub proof fn lemma_sortable_with_metadata(
    g: UuidGenerator,
    a: Seq<u8>,
    b: Seq<u8>,
    ma: ClientMetadata,
    mb: ClientMetadata,
)
    requires
        a.len() == 16,
        b.len() == 16,
        timestamp_of(a) < timestamp_of(b),
    ensures
        text_lt(g.render(inject_spec(a, ma)), g.render(inject_spec(b, mb))),
{
    crate::value::lemma_be_prefix_same(a, inject_spec(a, ma), 6);
    crate::value::lemma_be_prefix_same(b, inject_spec(b, mb), 6);
    lemma_sortable(g, inject_spec(a, ma), inject_spec(b, mb));
}

/// Identifiers taken at strictly increasing milliseconds render, in that
/// order, to strictly increasing texts: sorting the texts gives back the order
/// of generation.
pub proof fn lemma_sortable_sequence(g: UuidGenerator, ids: Seq<Seq<u8>>)
    requires
        forall|i: int| 0 <= i < ids.len() ==> (#[trigger] ids[i]).len() == 16,
        forall|i: int, j: int|
            0 <= i < j < ids.len() ==> timestamp_of(#[trigger] ids[i]) < timestamp_of(
                #[trigger] ids[j],
            ),
    ensures
        forall|i: int, j: int|
            0 <= i < j < ids.len() ==> text_lt(g.render(#[trigger] ids[i]), g.render(#[trigger] ids[j])),
{
    assert forall|i: int, j: int| 0 <= i < j < ids.len() implies text_lt(
        g.render(#[trigger] ids[i]),
        g.render(#[trigger] ids[j]),
    ) by {
        lemma_sortable(g, ids[i], ids[j]);
    }
}

/// Shape of rendered text: the prefix, then 36 characters with hyphens at
/// positions 8, 13, 18 and 23 (hyphenated formats) or 32 (compact formats);
/// every other character is a hex digit, and none is a lower-case letter in
/// the upper-case formats, nor an upper-case letter in the others.
pub proof fn lemma_format_shape(g: UuidGenerator, b: Seq<u8>)
    requires
        b.len() == 16,
    ensures
        ({
            let t = g.render(b);
            let pl = match g.prefix_spec() {
                Some(p) => p.len() as int,
                None => 0,
            };
            let body = t.subrange(pl, t.len() as int);
            &&& g.prefix_spec() matches Some(p) ==> t.subrange(0, pl) == p
            &&& is_hyphenated(g.format_spec()) ==> t.len() == pl + 36
            &&& !is_hyphenated(g.format_spec()) ==> t.len() == pl + 32
            &&& is_hyphenated(g.format_spec()) ==> body[8] == '-' && body[13] == '-' && body[18]
                == '-' && body[23] == '-'
            &&& forall|q: int|
                0 <= q < body.len() && !(is_hyphenated(g.format_spec()) && is_hyphen_pos(q))
                    ==> is_hex_char(#[trigger] body[q])
            &&& is_uppercase(g.format_spec()) ==> forall|q: int|
                0 <= q < body.len() ==> !(97 <= (#[trigger] body[q]) as u32 <= 122)
            &&& !is_uppercase(g.format_spec()) ==> forall|q: int|
                0 <= q < body.len() ==> !(65 <= (#[trigger] body[q]) as u32 <= 90)
        }),
{
    let f = g.format_spec();
    let upper = is_uppercase(f);
    let t = g.render(b);
    let body = body_text(f, b);
    let pl = match g.prefix_spec() {
        Some(p) => p.len() as int,
        None => 0,
    };
    assert(t.subrange(pl, t.len() as int) =~= body);
    match g.prefix_spec() {
        Some(p) => {
            assert(t.subrange(0, pl) =~= p);
        },
        None => {},
    }
    assert forall|i: int| 0 <= i < 32 implies is_hex_char(#[trigger] simple_text(b, upper)[i]) && (
    upper ==> !(97 <= simple_text(b, upper)[i] as u32 <= 122)) && (!upper ==> !(65
        <= simple_text(b, upper)[i] as u32 <= 90)) by {
        lemma_nibble_range(b, i);
        lemma_digit_chars(nibble_at(b, i), upper);
    }
    if is_hyphenated(f) {
        assert forall|q: int| 0 <= q < 36 && !is_hyphen_pos(q) implies #[trigger] body[q]
            == simple_text(b, upper)[q - hyphens_before(q)] && 0 <= q - hyphens_before(q) < 32 by {
        }
    }
}

} // verus!
