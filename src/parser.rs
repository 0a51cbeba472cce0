//! Parsing identifier text: normalization of decorations, then the hex form.
use crate::metadata::{extract_metadata, extract_spec, ExtractedMetadata};
use crate::text::{hex_digit, hyphenated_text, hyphens_before, is_hyphen_pos, nibble_at, simple_text};
use crate::value::Uuid;
use vstd::prelude::*;
use vstd::string::StrSliceExecFns;

verus! {

/// The parse error of the `uuid` crate, carried as an opaque value.
#[verifier::external_type_specification]
#[verifier::external_body]
pub struct ExUuidError(uuid::Error);

/// Error returned when text is not an identifier.
#[derive(Debug)]
pub enum ParseError {
    Standard(uuid::Error),
}

/// Whether `c` is a hex digit of either case.
pub open spec fn is_hex_char(c: char) -> bool {
    (48 <= c as u32 <= 57) || (65 <= c as u32 <= 70) || (97 <= c as u32 <= 102)
}

/// The value of the hex digit `c`.
pub open spec fn hex_val(c: char) -> int {
    if c as u32 <= 57 {
        c as u32 - 48
    } else if c as u32 <= 70 {
        c as u32 - 55
    } else {
        c as u32 - 87
    }
}

/// Every character of `h` is a hex digit.
pub open spec fn all_hex(h: Seq<char>) -> bool {
    forall|i: int| 0 <= i < h.len() ==> is_hex_char(#[trigger] h[i])
}

/// The 16 bytes that 32 hex digits spell, high nibble first.
pub open spec fn decode_hex(h: Seq<char>) -> Seq<u8> {
    Seq::new(16, |i: int| (hex_val(h[2 * i]) * 16 + hex_val(h[2 * i + 1])) as u8)
}

/// Position in the hyphenated form of the `i`-th hex digit.
pub open spec fn digit_pos(i: int) -> int {
    i + (if i >= 8 {
        1int
    } else {
        0
    }) + (if i >= 12 {
        1int
    } else {
        0
    }) + (if i >= 16 {
        1int
    } else {
        0
    }) + (if i >= 20 {
        1int
    } else {
        0
    })
}

/// The 32 hex digits of a hyphenated form, hyphens left out.
pub open spec fn strip_hyphens(s: Seq<char>) -> Seq<char> {
    Seq::new(32, |i: int| s[digit_pos(i)])
}

/// `s` is 36 characters: hex digits in 8-4-4-4-12 groups joined by hyphens.
pub open spec fn hyphenated_ok(s: Seq<char>) -> bool {
    &&& s.len() == 36
    &&& s[8] == '-' && s[13] == '-' && s[18] == '-' && s[23] == '-'
    &&& all_hex(strip_hyphens(s))
}

/// ASCII lower case of `c`; other characters are kept.
pub open spec fn ascii_lower(c: char) -> char {
    if 65 <= c as u32 <= 90 {
        (c as u32 + 32) as char
    } else {
        c
    }
}

/// The URN scheme token.
pub open spec fn urn_token() -> Seq<char> {
    seq!['u', 'r', 'n', ':', 'u', 'u', 'i', 'd', ':']
}

/// The short scheme token.
pub open spec fn uuid_token() -> Seq<char> {
    seq!['u', 'u', 'i', 'd', ':']
}

/// `p` is the URN scheme token in any ASCII case.
pub open spec fn urn_token_any_case(p: Seq<char>) -> bool {
    p.len() == 9 && forall|i: int| 0 <= i < 9 ==> ascii_lower(#[trigger] p[i]) == urn_token()[i]
}

/// The identifier that `s` spells in one of the four accepted shapes:
/// 32 hex digits; the hyphenated form; the hyphenated form in braces; the
/// hyphenated form after the URN scheme token in any case.
pub open spec fn uuid_text_value(s: Seq<char>) -> Option<Seq<u8>> {
    if s.len() == 32 {
        if all_hex(s) {
            Some(decode_hex(s))
        } else {
            None
        }
    } else if s.len() == 36 {
        if hyphenated_ok(s) {
            Some(decode_hex(strip_hyphens(s)))
        } else {
            None
        }
    } else if s.len() == 38 && s[0] == '{' && s[37] == '}' && hyphenated_ok(s.subrange(1, 37)) {
        Some(decode_hex(strip_hyphens(s.subrange(1, 37))))
    } else if s.len() == 45 && urn_token_any_case(s.subrange(0, 9)) && hyphenated_ok(
        s.subrange(9, 45),
    ) {
        Some(decode_hex(strip_hyphens(s.subrange(9, 45))))
    } else {
        None
    }
}

/// `s` with every leading copy of `p` removed.
pub open spec fn trim_prefix_all(s: Seq<char>, p: Seq<char>) -> Seq<char>
    decreases s.len(),
{
    if p.len() > 0 && p.len() <= s.len() && s.subrange(0, p.len() as int) == p {
        trim_prefix_all(s.subrange(p.len() as int, s.len() as int), p)
    } else {
        s
    }
}

/// `s` with every leading `c` removed.
pub open spec fn trim_start_char(s: Seq<char>, c: char) -> Seq<char>
    decreases s.len(),
{
    if s.len() > 0 && s[0] == c {
        trim_start_char(s.drop_first(), c)
    } else {
        s
    }
}

/// `s` with every trailing `c` removed.
pub open spec fn trim_end_char(s: Seq<char>, c: char) -> Seq<char>
    decreases s.len(),
{
    if s.len() > 0 && s.last() == c {
        trim_end_char(s.drop_last(), c)
    } else {
        s
    }
}

/// Normalization: leading URN tokens, then leading short scheme tokens, then
/// leading `{` are removed, and trailing `}`.
pub open spec fn clean_spec(s: Seq<char>) -> Seq<char> {
    trim_end_char(trim_start_char(trim_prefix_all(trim_prefix_all(s, urn_token()), uuid_token()), '{'), '}')
}

/// The identifier that the text `s` denotes, if any.
pub open spec fn parse_spec(s: Seq<char>) -> Option<Seq<u8>> {
    uuid_text_value(clean_spec(s))
}

/// The compact form of 16 bytes is 32 hex digits that spell them.
pub proof fn lemma_simple_text_parses(b: Seq<u8>, upper: bool)
    requires
        b.len() == 16,
    ensures
        all_hex(simple_text(b, upper)),
        decode_hex(simple_text(b, upper)) == b,
{
    let t = simple_text(b, upper);
    assert forall|i: int| 0 <= i < 32 implies is_hex_char(t[i]) && hex_val(t[i]) == nibble_at(
        b,
        i,
    ) by {
        crate::text::lemma_nibble_range(b, i);
        crate::text::lemma_digit_chars(nibble_at(b, i), upper);
    }
    assert forall|j: int| 0 <= j < 16 implies decode_hex(t)[j] == b[j] by {
        assert(nibble_at(b, 2 * j) == b[j] as int / 16);
        assert(nibble_at(b, 2 * j + 1) == b[j] as int % 16);
    }
    assert(decode_hex(t) =~= b);
}

/// The hyphenated form of 16 bytes is well formed, and without its hyphens
/// it is the compact form.
pub proof fn lemma_hyphenated_text_parses(b: Seq<u8>, upper: bool)
    requires
        b.len() == 16,
    ensures
        hyphenated_ok(hyphenated_text(b, upper)),
        strip_hyphens(hyphenated_text(b, upper)) == simple_text(b, upper),
{
    let h = hyphenated_text(b, upper);
    lemma_simple_text_parses(b, upper);
    assert forall|i: int| 0 <= i < 32 implies #[trigger] strip_hyphens(h)[i] == simple_text(
        b,
        upper,
    )[i] by {
        let p = digit_pos(i);
        assert(!is_hyphen_pos(p));
        assert(p - hyphens_before(p) == i);
    }
    assert(strip_hyphens(h) =~= simple_text(b, upper));
}

/// Text with a hex digit at both ends is left as it is by normalization.
pub proof fn lemma_clean_keeps(x: Seq<char>)
    requires
        x.len() > 0,
        is_hex_char(x[0]),
        is_hex_char(x.last()),
    ensures
        clean_spec(x) == x,
{
    if x.len() >= 9 {
        assert(x.subrange(0, 9)[0] != urn_token()[0]);
    }
    if x.len() >= 5 {
        assert(x.subrange(0, 5)[0] != uuid_token()[0]);
    }
    assert(trim_prefix_all(x, urn_token()) == x);
    assert(trim_prefix_all(x, uuid_token()) == x);
}

/// The first and last characters of a bare identifier text are hex digits.
proof fn lemma_bare_ends(x: Seq<char>)
    requires
        (x.len() == 32 && all_hex(x)) || hyphenated_ok(x),
    ensures
        x.len() > 0,
        is_hex_char(x[0]),
        is_hex_char(x.last()),
{
    if x.len() != 32 {
        assert(strip_hyphens(x)[0] == x[0]);
        assert(strip_hyphens(x)[31] == x[35]);
    }
}

/// Scheme and brace decorations do not change what a bare identifier text
/// parses to: `urn:uuid:X`, `X` and `{X}` parse alike.
pub proof fn lemma_parse_decorations(x: Seq<char>)
    requires
        (x.len() == 32 && all_hex(x)) || hyphenated_ok(x),
    ensures
        parse_spec(urn_token() + x) == parse_spec(x),
        parse_spec(seq!['{'] + x + seq!['}']) == parse_spec(x),
        parse_spec(x) == uuid_text_value(x),
{
    lemma_bare_ends(x);
    lemma_clean_keeps(x);
    let u = urn_token() + x;
    assert(u.subrange(0, 9) =~= urn_token());
    assert(u.subrange(9, u.len() as int) =~= x);
    assert(trim_prefix_all(u, urn_token()) == trim_prefix_all(x, urn_token()));
    let y = seq!['{'] + x + seq!['}'];
    if y.len() >= 9 {
        assert(y.subrange(0, 9)[0] != urn_token()[0]);
    }
    assert(y.subrange(0, 5)[0] != uuid_token()[0]);
    assert(trim_prefix_all(y, urn_token()) == y);
    assert(trim_prefix_all(y, uuid_token()) == y);
    let z = x + seq!['}'];
    assert(y.drop_first() =~= z);
    assert(z[0] == x[0]);
    assert(trim_start_char(z, '{') == z);
    assert(trim_start_char(y, '{') == z);
    assert(z.drop_last() =~= x);
    assert(trim_end_char(x, '}') == x);
    assert(trim_end_char(z, '}') == x);
}

/// Whether `pat` occurs in `s` at character position `start`.
pub(crate) fn matches_at(s: &str, n: usize, start: usize, pat: &str) -> (r: bool)
    requires
        n == s@.len(),
        start <= n,
    ensures
        r == (start + pat@.len() <= n && s@.subrange(start as int, start + pat@.len()) == pat@),
{
    let m = pat.unicode_len();
    if m > n - start {
        return false;
    }
    let mut j: usize = 0;
    while j < m
        invariant
            m == pat@.len(),
            start + m <= n,
            n == s@.len(),
            j <= m,
            forall|k: int| 0 <= k < j ==> s@[start + k] == pat@[k],
        decreases m - j,
    {
        if s.get_char(start + j) != pat.get_char(j) {
            assert(s@.subrange(start as int, start + m)[j as int] != pat@[j as int]);
            return false;
        }
        j += 1;
    }
    assert(s@.subrange(start as int, start + m) =~= pat@);
    true
}

proof fn lemma_trim_prefix_step(s: Seq<char>, p: Seq<char>, start: int)
    requires
        p.len() > 0,
        0 <= start,
        start + p.len() <= s.len(),
        s.subrange(start, start + p.len()) == p,
    ensures
        trim_prefix_all(s.subrange(start, s.len() as int), p) == trim_prefix_all(
            s.subrange(start + p.len(), s.len() as int),
            p,
        ),
{
    let t = s.subrange(start, s.len() as int);
    assert(t.subrange(0, p.len() as int) =~= s.subrange(start, start + p.len()));
    assert(t.subrange(p.len() as int, t.len() as int) =~= s.subrange(
        start + p.len(),
        s.len() as int,
    ));
}

proof fn lemma_trim_prefix_stop(s: Seq<char>, p: Seq<char>, start: int)
    requires
        0 <= start <= s.len(),
        !(start + p.len() <= s.len() && s.subrange(start, start + p.len()) == p),
    ensures
        trim_prefix_all(s.subrange(start, s.len() as int), p) == s.subrange(start, s.len() as int),
{
    let t = s.subrange(start, s.len() as int);
    if p.len() <= t.len() {
        assert(t.subrange(0, p.len() as int) =~= s.subrange(start, start + p.len()));
    }
}

/// Advances `start` past every copy of `pat` found there.
fn skip_prefixes(s: &str, n: usize, start: usize, pat: &str) -> (r: usize)
    requires
        n == s@.len(),
        start <= n,
        pat@.len() > 0,
    ensures
        start <= r <= n,
        s@.subrange(r as int, n as int) == trim_prefix_all(s@.subrange(start as int, n as int), pat@),
{
    let mut i = start;
    while matches_at(s, n, i, pat)
        invariant
            n == s@.len(),
            start <= i <= n,
            pat@.len() > 0,
            trim_prefix_all(s@.subrange(i as int, n as int), pat@) == trim_prefix_all(
                s@.subrange(start as int, n as int),
                pat@,
            ),
        decreases n - i,
    {
        proof {
            lemma_trim_prefix_step(s@, pat@, i as int);
        }
        i = i + pat.unicode_len();
    }
    proof {
        lemma_trim_prefix_stop(s@, pat@, i as int);
    }
    i
}

/// Strips decorations from identifier text: leading `urn:uuid:` tokens, then
/// leading `uuid:` tokens, then leading `{`, and trailing `}`.
pub fn clean_uuid_input(input: &str) -> (r: &str)
    ensures
        r@ == clean_spec(input@),
{
    let n = input.unicode_len();
    proof {
        reveal_strlit("urn:uuid:");
        reveal_strlit("uuid:");
        assert("urn:uuid:"@ =~= urn_token());
        assert("uuid:"@ =~= uuid_token());
        assert(input@.subrange(0, n as int) =~= input@);
    }
    let after_urn = skip_prefixes(input, n, 0, "urn:uuid:");
    let mut start = skip_prefixes(input, n, after_urn, "uuid:");
    let ghost scheme_free = input@.subrange(start as int, n as int);
    assert(scheme_free == trim_prefix_all(trim_prefix_all(input@, urn_token()), uuid_token()));
    while start < n && input.get_char(start) == '{'
        invariant
            n == input@.len(),
            start <= n,
            trim_start_char(input@.subrange(start as int, n as int), '{') == trim_start_char(
                scheme_free,
                '{',
            ),
        decreases n - start,
    {
        assert(input@.subrange(start as int, n as int).drop_first() =~= input@.subrange(
            start + 1,
            n as int,
        ));
        start += 1;
    }
    assert(trim_start_char(input@.subrange(start as int, n as int), '{') == input@.subrange(
        start as int,
        n as int,
    ));
    let ghost brace_free = input@.subrange(start as int, n as int);
    let mut end = n;
    while end > start && input.get_char(end - 1) == '}'
        invariant
            n == input@.len(),
            start <= end <= n,
            trim_end_char(input@.subrange(start as int, end as int), '}') == trim_end_char(
                brace_free,
                '}',
            ),
        decreases end - start,
    {
        assert(input@.subrange(start as int, end as int).drop_last() =~= input@.subrange(
            start as int,
            end - 1,
        ));
        end -= 1;
    }
    input.substring_char(start, end)
}

/// Relies on uuid::Uuid::parse_str: it accepts exactly 32 hex digits, the
/// hyphenated form, the braced hyphenated form and the URN form (scheme in
/// any ASCII case), hex digits in either case, and returns the bytes they spell.
#[verifier::external_body]
fn parse_str_bytes(s: &str) -> (r: Result<[u8; 16], uuid::Error>)
    ensures
        match r {
            Ok(b) => uuid_text_value(s@) == Some(b@),
            Err(_) => uuid_text_value(s@) is None,
        },
{
    uuid::Uuid::parse_str(s).map(|u| u.into_bytes())
}

/// Parses identifier text after normalization.
pub fn parse_uuid(input: &str) -> (r: Result<Uuid, uuid::Error>)
    ensures
        match r {
            Ok(u) => parse_spec(input@) == Some(u.bytes@),
            Err(_) => parse_spec(input@) is None,
        },
{
    let clean = clean_uuid_input(input);
    match parse_str_bytes(clean) {
        Ok(bytes) => Ok(Uuid { bytes }),
        Err(e) => Err(e),
    }
}

/// Parses identifier text and reads embedded metadata when the version tag is 7.
pub fn parse_uuid_with_metadata(input: &str) -> (r: Result<(Uuid, Option<ExtractedMetadata>), ParseError>)
    ensures
        match r {
            Ok((u, m)) => parse_spec(input@) == Some(u.bytes@) && m == extract_spec(u.bytes@),
            Err(_) => parse_spec(input@) is None,
        },
{
    match parse_uuid(input) {
        Ok(uuid) => {
            let metadata = extract_metadata(&uuid);
            Ok((uuid, metadata))
        },
        Err(e) => Err(ParseError::Standard(e)),
    }
}

} // verus!
