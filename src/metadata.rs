//! Client metadata and the codec that packs it into a time-ordered identifier.
//!
//! The OS field is 12 bits wide: 3 bits of OS family, 5 bits of major
//! version and 4 bits of minor version, from the most significant bit down.
//! Version components are masked to their widths, never rejected.
//!
//! Byte layout of a metadata-bearing identifier:
//! - bytes 0 to 5: millisecond timestamp, big-endian;
//! - byte 6: version tag `7` in the high nibble, top 4 bits of the OS field below;
//! - byte 7: low 8 bits of the OS field;
//! - byte 8: variant bits, untouched;
//! - byte 9: low byte of the 16-bit hostname hash;
//! - bytes 10 to 13: 32-bit hash of hostname followed by user agent, big-endian;
//! - bytes 14 and 15: random, untouched.
use crate::hash::{hash16_spec, hash32_spec, hash_to_u16, hash_to_u32};
use crate::value::{timestamp_of, version_nibble, Uuid};
use vstd::arithmetic::div_mod::{
    lemma_div_denominator, lemma_fundamental_div_mod, lemma_fundamental_div_mod_converse,
};
use vstd::prelude::*;
use vstd::string::StringExecFns;
use vstd::utf8::encode_utf8;

verus! {

/// Operating system family.
#[derive(Clone, Copy, Debug, PartialEq, Eq, Hash, Structural)]
pub enum OsType {
    Linux,
    Windows,
    MacOS,
    Android,
    IOS,
}

impl OsType {
    /// The family code: 1 to 5 in declaration order.
    pub open spec fn code(self) -> u8 {
        match self {
            OsType::Linux => 1,
            OsType::Windows => 2,
            OsType::MacOS => 3,
            OsType::Android => 4,
            OsType::IOS => 5,
        }
    }

    /// The family that the low 3 bits of `value` name; unknown codes are Linux.
    pub open spec fn from_code(value: u8) -> OsType {
        let c = value % 8;
        if c == 2 {
            OsType::Windows
        } else if c == 3 {
            OsType::MacOS
        } else if c == 4 {
            OsType::Android
        } else if c == 5 {
            OsType::IOS
        } else {
            OsType::Linux
        }
    }

    /// The family code of this OS type.
    pub fn encode(self) -> (r: u8)
        ensures
            r == self.code(),
            1 <= r <= 5,
    {
        match self {
            OsType::Linux => 1,
            OsType::Windows => 2,
            OsType::MacOS => 3,
            OsType::Android => 4,
            OsType::IOS => 5,
        }
    }

    /// Decodes the low 3 bits of `value`; codes outside 1 to 5 fall back to Linux.
    pub fn decode(value: u8) -> (r: OsType)
        ensures
            r == Self::from_code(value),
            1 <= r.code() <= 5,
            1 <= value % 8 <= 5 ==> r.code() == value % 8,
            !(1 <= value % 8 <= 5) ==> r == OsType::Linux,
    {
        assert(value & 0x07 == value % 8) by (bit_vector);
        match value & 0x07 {
            2 => OsType::Windows,
            3 => OsType::MacOS,
            4 => OsType::Android,
            5 => OsType::IOS,
            _ => OsType::Linux,
        }
    }
}

/// The version pair with each component masked to its field width.
pub open spec fn mask_version(v: (u8, u8)) -> (u8, u8) {
    ((v.0 % 32) as u8, (v.1 % 16) as u8)
}

/// The 12-bit OS field: family code, major version and minor version.
pub open spec fn os_field(os_type: OsType, v: (u8, u8)) -> u16 {
    (os_type.code() as int * 512 + (v.0 % 32) as int * 16 + (v.1 % 16) as int) as u16
}

/// What an OS field decodes to.
pub open spec fn decode_os_field(e: u16) -> (OsType, (u8, u8)) {
    (OsType::from_code((e / 512) as u8), (((e / 16) % 32) as u8, (e % 16) as u8))
}

/// Packs OS family and version into the 12-bit OS field.
pub fn encode_os_metadata(os_type: OsType, os_version: (u8, u8)) -> (r: u16)
    ensures
        r == os_field(os_type, os_version),
        r < 4096,
{
    let code = os_type.encode();
    let (ma, mi) = os_version;
    let major = ma & 0x1F;
    let minor = mi & 0x0F;
    assert(ma & 0x1F == ma % 32) by (bit_vector);
    assert(mi & 0x0F == mi % 16) by (bit_vector);
    let c = code as u16;
    let m = major as u16;
    let n = minor as u16;
    assert(((c << 9u16) | (m << 4u16) | n) == c * 512 + m * 16 + n) by (bit_vector)
        requires
            c < 8,
            m < 32,
            n < 16,
    ;
    (c << 9) | (m << 4) | n
}

/// Unpacks an OS field into OS family and version.
pub fn decode_os_metadata(encoded: u16) -> (r: (OsType, (u8, u8)))
    ensures
        r == decode_os_field(encoded),
{
    assert(encoded >> 9u16 == encoded / 512) by (bit_vector);
    assert((encoded >> 4u16) & 0x1F == (encoded / 16) % 32) by (bit_vector);
    assert(encoded & 0x0F == encoded % 16) by (bit_vector);
    let os_type = OsType::decode((encoded >> 9) as u8);
    let major = ((encoded >> 4) & 0x1F) as u8;
    let minor = (encoded & 0x0F) as u8;
    (os_type, (major, minor))
}

/// Decoding an encoded OS field gives back the family and the masked version.
pub proof fn lemma_os_field_round_trip(os_type: OsType, os_version: (u8, u8))
    ensures
        decode_os_field(os_field(os_type, os_version)) == (os_type, mask_version(os_version)),
{
    let f = os_field(os_type, os_version);
    let c = os_type.code() as int;
    let ma = (os_version.0 % 32) as int;
    let mi = (os_version.1 % 16) as int;
    assert(f == c * 512 + ma * 16 + mi);
    lemma_fundamental_div_mod_converse(f as int, 512, c, ma * 16 + mi);
    lemma_fundamental_div_mod_converse(f as int, 16, c * 32 + ma, mi);
    lemma_fundamental_div_mod_converse(c * 32 + ma, 32, c, ma);
}

/// Metadata of the client that generates an identifier.
#[derive(Debug)]
pub struct ClientMetadata {
    /// Operating system family.
    pub os_type: OsType,
    /// OS version as (major, minor).
    pub os_version: (u8, u8),
    /// Hostname or machine identifier.
    pub hostname: String,
    /// Optional user agent.
    pub user_agent: Option<String>,
}

impl ClientMetadata {
    /// The text whose hash fills bytes 10 to 13: hostname, then user agent if any.
    pub open spec fn extended_input(self) -> Seq<char> {
        match self.user_agent {
            Some(ua) => self.hostname@ + ua@,
            None => self.hostname@,
        }
    }

    /// Metadata with the given fields and no user agent.
    pub fn new(os_type: OsType, os_version: (u8, u8), hostname: &str) -> (r: ClientMetadata)
        ensures
            r.os_type == os_type,
            r.os_version == os_version,
            r.hostname@ == hostname@,
            r.user_agent is None,
    {
        ClientMetadata {
            os_type,
            os_version,
            hostname: String::from_str(hostname),
            user_agent: None,
        }
    }

    /// The same metadata with the user agent set.
    pub fn with_user_agent(self, user_agent: &str) -> (r: ClientMetadata)
        ensures
            r.os_type == self.os_type,
            r.os_version == self.os_version,
            r.hostname == self.hostname,
            r.user_agent matches Some(ua) && ua@ == user_agent@,
    {
        ClientMetadata { user_agent: Some(String::from_str(user_agent)), ..self }
    }
}

impl Clone for ClientMetadata {
    fn clone(&self) -> (r: ClientMetadata)
        ensures
            r == *self,
    {
        let user_agent = match &self.user_agent {
            Some(ua) => Some(ua.clone()),
            None => None,
        };
        ClientMetadata {
            os_type: self.os_type,
            os_version: self.os_version,
            hostname: self.hostname.clone(),
            user_agent,
        }
    }
}

/// Metadata read back from an identifier.
#[derive(Clone, Copy, Debug, PartialEq, Eq, Hash)]
pub struct ExtractedMetadata {
    pub timestamp_ms: u64,
    pub os_type: OsType,
    pub os_version: (u8, u8),
    pub hostname_hash: u8,
    pub extended_hash: u32,
}

/// Big-endian value of the four bytes from index `i`.
pub open spec fn be32_at(b: Seq<u8>, i: int) -> nat {
    (b[i] as nat) * 0x100_0000 + (b[i + 1] as nat) * 0x1_0000 + (b[i + 2] as nat) * 0x100 + (
    b[i + 3] as nat)
}

/// The OS field held in the low nibble of byte 6 and in byte 7.
pub open spec fn os_field_of(b: Seq<u8>) -> u16 {
    ((b[6] % 16) as int * 256 + b[7] as int) as u16
}

/// What extraction reads from the 16 bytes `b`: nothing unless the version tag is 7.
pub open spec fn extract_spec(b: Seq<u8>) -> Option<ExtractedMetadata> {
    if version_nibble(b) != 7 {
        None
    } else {
        let (os_type, os_version) = decode_os_field(os_field_of(b));
        Some(
            ExtractedMetadata {
                timestamp_ms: timestamp_of(b) as u64,
                os_type,
                os_version,
                hostname_hash: b[9],
                extended_hash: be32_at(b, 10) as u32,
            },
        )
    }
}

/// The bytes `b` with the metadata `m` written into its payload bytes.
pub open spec fn inject_spec(b: Seq<u8>, m: ClientMetadata) -> Seq<u8> {
    let f = os_field(m.os_type, m.os_version) as int;
    let h = hash16_spec(encode_utf8(m.hostname@)) as int;
    let x = hash32_spec(encode_utf8(m.extended_input())) as int;
    b.update(6, (0x70 + f / 256) as u8).update(7, (f % 256) as u8).update(9, (h % 256) as u8).update(
        10,
        (x / 0x100_0000) as u8,
    ).update(11, ((x / 0x1_0000) % 256) as u8).update(12, ((x / 256) % 256) as u8).update(
        13,
        (x % 256) as u8,
    )
}

/// Extraction reads back what injection wrote: the timestamp of the unmodified
/// bytes, the OS family, the masked version and both hashes.
pub proof fn lemma_extract_inject(b: Seq<u8>, m: ClientMetadata)
    requires
        b.len() == 16,
    ensures
        extract_spec(inject_spec(b, m)) == Some(
            ExtractedMetadata {
                timestamp_ms: timestamp_of(b) as u64,
                os_type: m.os_type,
                os_version: mask_version(m.os_version),
                hostname_hash: (hash16_spec(encode_utf8(m.hostname@)) % 256) as u8,
                extended_hash: hash32_spec(encode_utf8(m.extended_input())),
            },
        ),
{
    let c = inject_spec(b, m);
    let f = os_field(m.os_type, m.os_version) as int;
    let x = hash32_spec(encode_utf8(m.extended_input())) as int;
    assert(f < 4096);
    assert(c[6] == 0x70 + f / 256);
    assert(version_nibble(c) == 7);
    assert(os_field_of(c) == f) by {
        lemma_fundamental_div_mod(f, 256);
    }
    lemma_os_field_round_trip(m.os_type, m.os_version);
    crate::value::lemma_be_prefix_same(b, c, 6);
    lemma_be32_split(x);
    assert(be32_at(c, 10) == x);
}

proof fn lemma_be32_split(x: int)
    requires
        0 <= x < 0x1_0000_0000,
    ensures
        (x / 0x100_0000) * 0x100_0000 + ((x / 0x1_0000) % 256) * 0x1_0000 + ((x / 256) % 256) * 256
            + x % 256 == x,
        x / 0x100_0000 < 256,
{
    lemma_fundamental_div_mod(x, 256);
    lemma_fundamental_div_mod(x / 256, 256);
    lemma_fundamental_div_mod(x / 0x1_0000, 256);
    lemma_div_denominator(x, 256, 256);
    lemma_div_denominator(x, 0x1_0000, 256);
}

/// Reads the embedded metadata of a time-ordered identifier.
///
/// Any identifier whose version tag is 7 decodes to some record: the format
/// holds no marker that tells metadata-bearing identifiers from plain ones.
pub fn extract_metadata(uuid: &Uuid) -> (r: Option<ExtractedMetadata>)
    ensures
        r == extract_spec(uuid.bytes@),
{
    let bytes = uuid.as_bytes();
    let tag = bytes[6] >> 4;
    proof {
        crate::value::lemma_high_nibble(bytes[6]);
    }
    if tag != 0x07 {
        return None;
    }
    let t0 = bytes[0] as u64;
    let t1 = t0 * 256 + bytes[1] as u64;
    let t2 = t1 * 256 + bytes[2] as u64;
    let t3 = t2 * 256 + bytes[3] as u64;
    let t4 = t3 * 256 + bytes[4] as u64;
    let timestamp_ms = t4 * 256 + bytes[5] as u64;
    proof {
        reveal_with_fuel(crate::value::be_prefix, 7);
    }
    let b6 = bytes[6];
    assert(b6 & 0x0F == b6 % 16) by (bit_vector);
    let os_encoded = ((b6 & 0x0F) as u16) * 256 + bytes[7] as u16;
    let (os_type, os_version) = decode_os_metadata(os_encoded);
    let extended_hash = (bytes[10] as u32) * 0x100_0000 + (bytes[11] as u32) * 0x1_0000 + (
    bytes[12] as u32) * 0x100 + bytes[13] as u32;
    Some(
        ExtractedMetadata {
            timestamp_ms,
            os_type,
            os_version,
            hostname_hash: bytes[9],
            extended_hash,
        },
    )
}

/// Hash of the extended input: hostname, then user agent if any.
fn extended_hash(metadata: &ClientMetadata) -> (r: u32)
    ensures
        r == hash32_spec(encode_utf8(metadata.extended_input())),
{
    match &metadata.user_agent {
        Some(ua) => {
            let joined = metadata.hostname.clone().concat(ua.as_str());
            hash_to_u32(joined.as_str())
        },
        None => hash_to_u32(metadata.hostname.as_str()),
    }
}

/// Writes `metadata` into the payload bytes of `uuid`: bytes 6 and 7 get the
/// OS field below the version tag 7, byte 9 the low byte of the hostname
/// hash, bytes 10 to 13 the extended hash. Bytes 0 to 5, 8, 14 and 15 are kept.
pub fn inject_metadata(uuid: &Uuid, metadata: &ClientMetadata) -> (r: Uuid)
    ensures
        r.bytes@ == inject_spec(uuid.bytes@, *metadata),
{
    let mut bytes = uuid.bytes;
    let os_encoded = encode_os_metadata(metadata.os_type, metadata.os_version);
    assert(0x70 | ((os_encoded >> 8u16) as u8 & 0x0F) == 0x70 + os_encoded / 256) by (bit_vector)
        requires
            os_encoded < 4096,
    ;
    assert(os_encoded & 0xFF == os_encoded % 256) by (bit_vector);
    bytes[6] = 0x70 | ((os_encoded >> 8) as u8 & 0x0F);
    bytes[7] = (os_encoded & 0xFF) as u8;
    let hostname_hash = hash_to_u16(metadata.hostname.as_str());
    assert(hostname_hash & 0xFF == hostname_hash % 256) by (bit_vector);
    bytes[9] = (hostname_hash & 0xFF) as u8;
    let x = extended_hash(metadata);
    assert(x >> 24u32 == x / 0x100_0000) by (bit_vector);
    assert((x >> 16u32) & 0xFF == (x / 0x1_0000) % 256) by (bit_vector);
    assert((x >> 8u32) & 0xFF == (x / 256) % 256) by (bit_vector);
    assert(x & 0xFF == x % 256) by (bit_vector);
    bytes[10] = (x >> 24) as u8;
    bytes[11] = ((x >> 16) & 0xFF) as u8;
    bytes[12] = ((x >> 8) & 0xFF) as u8;
    bytes[13] = (x & 0xFF) as u8;
    let r = Uuid { bytes };
    assert(r.bytes@ =~= inject_spec(uuid.bytes@, *metadata));
    r
}

} // verus!
