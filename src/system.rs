//! Metadata of the running system: OS family, OS version and hostname.
use crate::metadata::{ClientMetadata, OsType};
use crate::parser::matches_at;
use vstd::prelude::*;
use vstd::string::{StrSliceExecFns, StringExecFns};

verus! {

/// Relies on sysinfo::System::distribution_id: the os-release `ID` of the
/// running system, or Rust's name for its OS.
#[verifier::external_body]
fn distribution_id() -> String {
    sysinfo::System::distribution_id()
}

/// Relies on sysinfo::System::os_version: the OS version text, if known.
#[verifier::external_body]
fn system_os_version() -> Option<String> {
    sysinfo::System::os_version()
}

/// Relies on sysinfo::System::host_name: the hostname, if known.
#[verifier::external_body]
fn system_host_name() -> Option<String> {
    sysinfo::System::host_name()
}

/// Whether `c` is a decimal digit.
pub open spec fn is_digit(c: char) -> bool {
    48 <= c as u32 <= 57
}

/// The value of a sequence of decimal digits.
pub open spec fn digits_value(s: Seq<char>) -> nat
    decreases s.len(),
{
    if s.len() == 0 {
        0
    } else {
        digits_value(s.drop_last()) * 10 + (s.last() as u32 - 48) as nat
    }
}

/// `s` without its leading `+`, if any.
pub open spec fn unsigned_part(s: Seq<char>) -> Seq<char> {
    if s.len() > 0 && s[0] == '+' {
        s.drop_first()
    } else {
        s
    }
}

/// Every character of `d` is a decimal digit.
pub open spec fn all_digits(d: Seq<char>) -> bool {
    forall|i: int| 0 <= i < d.len() ==> is_digit(#[trigger] d[i])
}

/// A `u8` written in decimal: an optional `+`, then at least one digit, with
/// a value of at most 255.
pub open spec fn parse_u8_spec(s: Seq<char>) -> Option<u8> {
    let d = unsigned_part(s);
    if d.len() > 0 && all_digits(d) && digits_value(d) <= 255 {
        Some(digits_value(d) as u8)
    } else {
        None
    }
}

/// The number a version component denotes: its decimal value, or 0 when it
/// is not a `u8`.
pub open spec fn component_value(s: Seq<char>) -> u8 {
    match parse_u8_spec(s) {
        Some(v) => v,
        None => 0,
    }
}

/// Index of the first `.` in `s`, or its length when there is none.
pub open spec fn dot_index(s: Seq<char>) -> int
    decreases s.len(),
{
    if s.len() == 0 {
        0
    } else if s[0] == '.' {
        0
    } else {
        1 + dot_index(s.drop_first())
    }
}

/// `a`, capped at `max`.
pub open spec fn cap(a: u8, max: u8) -> u8 {
    if a > max {
        max
    } else {
        a
    }
}

/// The (major, minor) pair read from a dotted version text: the first two
/// components, capped at 31 and 15; minor is 0 when there is no dot.
pub open spec fn os_version_spec(s: Seq<char>) -> (u8, u8) {
    let d0 = dot_index(s);
    let major = cap(component_value(s.subrange(0, d0)), 31);
    if d0 < s.len() {
        let rest = s.subrange(d0 + 1, s.len() as int);
        (major, cap(component_value(rest.subrange(0, dot_index(rest))), 15))
    } else {
        (major, 0)
    }
}

/// The version assumed for a family when the system reports none.
pub open spec fn default_version(os_type: OsType) -> (u8, u8) {
    match os_type {
        OsType::MacOS => (14, 0),
        OsType::Linux => (6, 0),
        OsType::Windows => (10, 0),
        _ => (0, 0),
    }
}

/// The family that a distribution id names; any other id is Linux.
pub open spec fn family_of_id(id: Seq<char>) -> OsType {
    if id == seq!['w', 'i', 'n', 'd', 'o', 'w', 's'] {
        OsType::Windows
    } else if id == seq!['m', 'a', 'c', 'o', 's'] {
        OsType::MacOS
    } else if id == seq!['a', 'n', 'd', 'r', 'o', 'i', 'd'] {
        OsType::Android
    } else if id == seq!['i', 'o', 's'] {
        OsType::IOS
    } else {
        OsType::Linux
    }
}

proof fn lemma_dot_index_range(s: Seq<char>)
    ensures
        0 <= dot_index(s) <= s.len(),
        dot_index(s) < s.len() ==> s[dot_index(s)] == '.',
        forall|i: int| 0 <= i < dot_index(s) ==> s[i] != '.',
    decreases s.len(),
{
    if s.len() > 0 && s[0] != '.' {
        lemma_dot_index_range(s.drop_first());
        assert forall|i: int| 1 <= i < dot_index(s) implies s[i] != '.' by {
            assert(s[i] == s.drop_first()[i - 1]);
        }
    }
}

proof fn lemma_dot_index_at(s: Seq<char>, d: int)
    requires
        0 <= d <= s.len(),
        d < s.len() ==> s[d] == '.',
        forall|i: int| 0 <= i < d ==> s[i] != '.',
    ensures
        dot_index(s) == d,
    decreases s.len(),
{
    if s.len() > 0 && s[0] != '.' {
        lemma_dot_index_at(s.drop_first(), d - 1);
    }
}

/// Position of the first `.` at or after `from`, or `n`.
fn find_dot(s: &str, n: usize, from: usize) -> (r: usize)
    requires
        n == s@.len(),
        from <= n,
    ensures
        r == from + dot_index(s@.subrange(from as int, n as int)),
        from <= r <= n,
{
    let mut i = from;
    while i < n && s.get_char(i) != '.'
        invariant
            n == s@.len(),
            from <= i <= n,
            forall|k: int| from <= k < i ==> s@[k] != '.',
        decreases n - i,
    {
        i += 1;
    }
    proof {
        lemma_dot_index_at(s@.subrange(from as int, n as int), i - from);
    }
    i
}

/// Parses the characters `from..to` of `s` as a decimal `u8`.
fn parse_u8_in(s: &str, n: usize, from: usize, to: usize) -> (r: Option<u8>)
    requires
        n == s@.len(),
        from <= to <= n,
    ensures
        r == parse_u8_spec(s@.subrange(from as int, to as int)),
{
    let ghost t = s@.subrange(from as int, to as int);
    let mut i = from;
    if i < to && s.get_char(i) == '+' {
        i += 1;
    }
    let ghost d = s@.subrange(i as int, to as int);
    assert(d =~= unsigned_part(t));
    if i == to {
        return None;
    }
    let start = i;
    let mut value: u32 = 0;
    while i < to
        invariant
            n == s@.len(),
            start <= i <= to <= n,
            d == s@.subrange(start as int, to as int),
            t == s@.subrange(from as int, to as int),
            d == unsigned_part(t),
            forall|k: int| start <= k < i ==> is_digit(s@[k]),
            value == digits_value(s@.subrange(start as int, i as int)),
            value <= 255,
        decreases to - i,
    {
        let code = s.get_char(i) as u32;
        if !(48 <= code && code <= 57) {
            assert(!is_digit(d[i - start]));
            return None;
        }
        assert(s@.subrange(start as int, i + 1).drop_last() =~= s@.subrange(start as int, i as int));
        value = value * 10 + (code - 48);
        i += 1;
        if value > 255 {
            proof {
                if all_digits(d) {
                    lemma_digits_value_grows(d, i - start);
                    assert(d.subrange(0, i - start) =~= s@.subrange(start as int, i as int));
                }
            }
            return None;
        }
    }
    assert(s@.subrange(start as int, i as int) =~= d);
    Some(value as u8)
}

proof fn lemma_digits_value_grows(d: Seq<char>, k: int)
    requires
        0 <= k <= d.len(),
        all_digits(d),
    ensures
        digits_value(d.subrange(0, k)) <= digits_value(d),
    decreases d.len() - k,
{
    if k < d.len() {
        lemma_digits_value_grows(d, k + 1);
        assert(d.subrange(0, k + 1).drop_last() =~= d.subrange(0, k));
    } else {
        assert(d.subrange(0, k) =~= d);
    }
}

/// Whether `a` and `b` hold the same characters.
fn same_text(a: &str, b: &str) -> (r: bool)
    ensures
        r == (a@ == b@),
{
    let n = a.unicode_len();
    if b.unicode_len() != n {
        return false;
    }
    let r = matches_at(a, n, 0, b);
    assert(a@.subrange(0, n as int) =~= a@);
    r
}

impl OsType {
    /// The family that a distribution id names: `windows`, `macos`,
    /// `android` and `ios` name theirs; any other id is Linux.
    pub fn from_distribution_id(id: &str) -> (r: OsType)
        ensures
            r == family_of_id(id@),
    {
        proof {
            reveal_strlit("windows");
            reveal_strlit("macos");
            reveal_strlit("android");
            reveal_strlit("ios");
            assert("windows"@ =~= seq!['w', 'i', 'n', 'd', 'o', 'w', 's']);
            assert("macos"@ =~= seq!['m', 'a', 'c', 'o', 's']);
            assert("android"@ =~= seq!['a', 'n', 'd', 'r', 'o', 'i', 'd']);
            assert("ios"@ =~= seq!['i', 'o', 's']);
        }
        if same_text(id, "windows") {
            OsType::Windows
        } else if same_text(id, "macos") {
            OsType::MacOS
        } else if same_text(id, "android") {
            OsType::Android
        } else if same_text(id, "ios") {
            OsType::IOS
        } else {
            OsType::Linux
        }
    }

    /// The family of the running system.
    pub fn current() -> OsType {
        let id = distribution_id();
        Self::from_distribution_id(id.as_str())
    }
}

impl ClientMetadata {
    /// Reads (major, minor) from a dotted version text such as `24.04` or
    /// `15.1.1`: components that are not a `u8` count as 0, major is capped
    /// at 31 and minor at 15, and minor is 0 when there is no dot.
    pub fn parse_os_version(version_str: &str) -> (r: (u8, u8))
        ensures
            r == os_version_spec(version_str@),
            r.0 <= 31,
            r.1 <= 15,
    {
        let n = version_str.unicode_len();
        let d0 = find_dot(version_str, n, 0);
        assert(version_str@.subrange(0, n as int) =~= version_str@);
        let major = match parse_u8_in(version_str, n, 0, d0) {
            Some(v) => v,
            None => 0,
        };
        let major = if major > 31 {
            31
        } else {
            major
        };
        if d0 < n {
            let d1 = find_dot(version_str, n, d0 + 1);
            let ghost rest = version_str@.subrange(d0 + 1, n as int);
            assert(rest.subrange(0, d1 - (d0 + 1)) =~= version_str@.subrange(d0 + 1, d1 as int));
            let minor = match parse_u8_in(version_str, n, d0 + 1, d1) {
                Some(v) => v,
                None => 0,
            };
            let minor = if minor > 15 {
                15
            } else {
                minor
            };
            (major, minor)
        } else {
            (major, 0)
        }
    }

    /// The version assumed for a family whose system reports none.
    pub fn detect_os_version(os_type: OsType) -> (r: (u8, u8))
        ensures
            r == default_version(os_type),
    {
        match os_type {
            OsType::MacOS => (14, 0),
            OsType::Linux => (6, 0),
            OsType::Windows => (10, 0),
            _ => (0, 0),
        }
    }

    /// Metadata from what the system reported: the version text is parsed
    /// when present, else the family's default is used; a missing hostname
    /// becomes `unknown`.
    pub fn from_system_info(
        os_type: OsType,
        os_version: Option<String>,
        host_name: Option<String>,
    ) -> (r: ClientMetadata)
        ensures
            r.os_type == os_type,
            r.os_version == (match os_version {
                Some(v) => os_version_spec(v@),
                None => default_version(os_type),
            }),
            r.hostname@ == (match host_name {
                Some(h) => h@,
                None => seq!['u', 'n', 'k', 'n', 'o', 'w', 'n'],
            }),
            r.user_agent is None,
            r.os_version.0 <= 31,
            r.os_version.1 <= 15,
    {
        let version = match &os_version {
            Some(v) => Self::parse_os_version(v.as_str()),
            None => Self::detect_os_version(os_type),
        };
        let hostname = match host_name {
            Some(h) => h,
            None => {
                proof {
                    reveal_strlit("unknown");
                }
                String::from_str("unknown")
            },
        };
        ClientMetadata { os_type, os_version: version, hostname, user_agent: None }
    }

    /// Metadata of the running system, without user agent: its family, its
    /// OS version and its hostname, as `from_system_info` makes them.
    pub fn from_system() -> (r: ClientMetadata)
        ensures
            r.user_agent is None,
            r.os_version.0 <= 31,
            r.os_version.1 <= 15,
    {
        let os_type = OsType::current();
        let version = system_os_version();
        let host = system_host_name();
        Self::from_system_info(os_type, version, host)
    }
}

} // verus!
