//! Generation of random and time-ordered identifiers, and their rendering.
use crate::metadata::{inject_metadata, inject_spec, ClientMetadata};
use crate::text::{
    hyphenated_lower, hyphenated_text, hyphenated_upper, simple_lower, simple_text, simple_upper,
};
use crate::value::{has_rfc_variant, version_nibble, Uuid};
use vstd::prelude::*;
use vstd::string::StringExecFns;

verus! {

/// Output format of generated identifiers.
#[derive(Clone, Copy, Debug, PartialEq, Eq, Hash, Structural)]
pub enum UuidFormat {
    /// Hyphenated, lower case: 550e8400-e29b-41d4-a716-446655440000
    Standard,
    /// Compact, lower case: 550e8400e29b41d4a716446655440000
    Simple,
    /// Hyphenated, upper case: 550E8400-E29B-41D4-A716-446655440000
    StandardUppercase,
    /// Compact, upper case: 550E8400E29B41D4A716446655440000
    SimpleUppercase,
}

/// Version of generated identifiers.
#[derive(Clone, Copy, Debug, PartialEq, Eq, Hash, Structural)]
pub enum UuidVersion {
    /// Fully random (version 4).
    V4,
    /// Millisecond timestamp followed by random bits (version 7).
    V7,
}

impl UuidVersion {
    /// The version tag that identifiers of this version carry.
    pub open spec fn tag(self) -> u8 {
        match self {
            UuidVersion::V4 => 4,
            UuidVersion::V7 => 7,
        }
    }
}

/// The identifier body of `b` in the format `f`.
pub open spec fn body_text(f: UuidFormat, b: Seq<u8>) -> Seq<char> {
    match f {
        UuidFormat::Standard => hyphenated_text(b, false),
        UuidFormat::Simple => simple_text(b, false),
        UuidFormat::StandardUppercase => hyphenated_text(b, true),
        UuidFormat::SimpleUppercase => simple_text(b, true),
    }
}

/// Whether `f` groups the digits with hyphens.
pub open spec fn is_hyphenated(f: UuidFormat) -> bool {
    f == UuidFormat::Standard || f == UuidFormat::StandardUppercase
}

/// Whether `f` writes upper-case digits.
pub open spec fn is_uppercase(f: UuidFormat) -> bool {
    f == UuidFormat::StandardUppercase || f == UuidFormat::SimpleUppercase
}

/// `b` is a well-formed identifier of version tag `tag`.
pub open spec fn is_valid_uuid(b: Seq<u8>, tag: u8) -> bool {
    b.len() == 16 && version_nibble(b) == tag && has_rfc_variant(b)
}

/// Relies on uuid::Uuid::new_v4: random bits with version tag 4 and the RFC variant.
#[verifier::external_body]
fn new_v4_bytes() -> (r: [u8; 16])
    ensures
        is_valid_uuid(r@, 4),
{
    uuid::Uuid::new_v4().into_bytes()
}

/// Relies on uuid::Uuid::now_v7: the current Unix time in milliseconds in
/// bytes 0 to 5, version tag 7 and the RFC variant.
#[verifier::external_body]
fn now_v7_bytes() -> (r: [u8; 16])
    ensures
        is_valid_uuid(r@, 7),
{
    uuid::Uuid::now_v7().into_bytes()
}

/// Identifier generator: version, output format and optional literal prefix.
#[derive(Debug)]
pub struct UuidGenerator {
    version: UuidVersion,
    format: UuidFormat,
    prefix: Option<String>,
}

impl Clone for UuidGenerator {
    fn clone(&self) -> (r: UuidGenerator)
        ensures
            r == *self,
    {
        let prefix = match &self.prefix {
            Some(p) => Some(p.clone()),
            None => None,
        };
        UuidGenerator { version: self.version, format: self.format, prefix }
    }
}

impl UuidGenerator {
    /// The configured version.
    pub closed spec fn version_spec(&self) -> UuidVersion {
        self.version
    }

    /// The configured format.
    pub closed spec fn format_spec(&self) -> UuidFormat {
        self.format
    }

    /// The configured prefix, if any.
    pub closed spec fn prefix_spec(&self) -> Option<Seq<char>> {
        match self.prefix {
            Some(p) => Some(p@),
            None => None,
        }
    }

    /// The text this generator renders for the identifier bytes `b`.
    pub open spec fn render(&self, b: Seq<u8>) -> Seq<char> {
        match self.prefix_spec() {
            Some(p) => p + body_text(self.format_spec(), b),
            None => body_text(self.format_spec(), b),
        }
    }

    /// `s` is the rendering of some identifier of the configured version.
    pub open spec fn renders(&self, s: Seq<char>) -> bool {
        exists|b: Seq<u8>| is_valid_uuid(b, self.version_spec().tag()) && s == self.render(b)
    }

    /// `s` is the rendering of some time-ordered identifier with `m` written
    /// into its payload bytes.
    pub open spec fn renders_with(&self, s: Seq<char>, m: ClientMetadata) -> bool {
        exists|b: Seq<u8>| is_valid_uuid(b, 7) && s == self.render(inject_spec(b, m))
    }

    /// A generator of the given version and format, without prefix.
    pub fn new(version: UuidVersion, format: UuidFormat) -> (r: UuidGenerator)
        ensures
            r.version_spec() == version,
            r.format_spec() == format,
            r.prefix_spec() is None,
    {
        UuidGenerator { version, format, prefix: None }
    }

    /// A random-version generator in the hyphenated lower-case format.
    pub fn v4() -> (r: UuidGenerator)
        ensures
            r.version_spec() == UuidVersion::V4,
            r.format_spec() == UuidFormat::Standard,
            r.prefix_spec() is None,
    {
        Self::new(UuidVersion::V4, UuidFormat::Standard)
    }

    /// A time-ordered generator in the hyphenated lower-case format.
    pub fn v7() -> (r: UuidGenerator)
        ensures
            r.version_spec() == UuidVersion::V7,
            r.format_spec() == UuidFormat::Standard,
            r.prefix_spec() is None,
    {
        Self::new(UuidVersion::V7, UuidFormat::Standard)
    }

    /// The same generator with another output format.
    pub fn with_format(self, format: UuidFormat) -> (r: UuidGenerator)
        ensures
            r.version_spec() == self.version_spec(),
            r.format_spec() == format,
            r.prefix_spec() == self.prefix_spec(),
    {
        UuidGenerator { format, ..self }
    }

    /// The same generator with a literal prefix put before each identifier.
    pub fn with_prefix(self, prefix: &str) -> (r: UuidGenerator)
        ensures
            r.version_spec() == self.version_spec(),
            r.format_spec() == self.format_spec(),
            r.prefix_spec() == Some(prefix@),
    {
        UuidGenerator { prefix: Some(String::from_str(prefix)), ..self }
    }

    /// The same generator without prefix.
    pub fn without_prefix(self) -> (r: UuidGenerator)
        ensures
            r.version_spec() == self.version_spec(),
            r.format_spec() == self.format_spec(),
            r.prefix_spec() is None,
    {
        UuidGenerator { prefix: None, ..self }
    }

    /// Renders `uuid` in the configured format, after the prefix if one is set.
    pub fn format_uuid(&self, uuid: &Uuid) -> (r: String)
        ensures
            r@ == self.render(uuid.bytes@),
    {
        let formatted = match self.format {
            UuidFormat::Standard => hyphenated_lower(uuid.bytes),
            UuidFormat::Simple => simple_lower(uuid.bytes),
            UuidFormat::StandardUppercase => hyphenated_upper(uuid.bytes),
            UuidFormat::SimpleUppercase => simple_upper(uuid.bytes),
        };
        match &self.prefix {
            Some(prefix) => prefix.clone().concat(formatted.as_str()),
            None => formatted,
        }
    }

    /// Generates one identifier of the configured version and renders it.
    pub fn generate(&self) -> (r: String)
        ensures
            self.renders(r@),
    {
        let bytes = match self.version {
            UuidVersion::V4 => new_v4_bytes(),
            UuidVersion::V7 => now_v7_bytes(),
        };
        self.format_uuid(&Uuid { bytes })
    }

    /// Generates a time-ordered identifier, writes `metadata` into its payload
    /// bytes and renders it.
    pub fn generate_with_metadata(&self, metadata: &ClientMetadata) -> (r: String)
        ensures
            self.renders_with(r@, *metadata),
    {
        let uuid = Uuid { bytes: now_v7_bytes() };
        let custom = inject_metadata(&uuid, metadata);
        self.format_uuid(&custom)
    }

    /// Generates `count` identifiers, each as `generate` does.
    pub fn generate_batch(&self, count: usize) -> (r: Vec<String>)
        ensures
            r@.len() == count,
            forall|i: int| 0 <= i < count ==> self.renders(#[trigger] r@[i]@),
    {
        let mut out: Vec<String> = Vec::new();
        let mut i: usize = 0;
        while i < count
            invariant
                i <= count,
                out@.len() == i,
                forall|j: int| 0 <= j < i ==> self.renders(#[trigger] out@[j]@),
            decreases count - i,
        {
            out.push(self.generate());
            i += 1;
        }
        out
    }

    /// Generates `count` identifiers, each as `generate_with_metadata` does.
    pub fn generate_batch_with_metadata(&self, count: usize, metadata: &ClientMetadata) -> (r: Vec<
        String,
    >)
        ensures
            r@.len() == count,
            forall|i: int| 0 <= i < count ==> self.renders_with(#[trigger] r@[i]@, *metadata),
    {
        let mut out: Vec<String> = Vec::new();
        let mut i: usize = 0;
        while i < count
            invariant
                i <= count,
                out@.len() == i,
                forall|j: int| 0 <= j < i ==> self.renders_with(#[trigger] out@[j]@, *metadata),
            decreases count - i,
        {
            out.push(self.generate_with_metadata(metadata));
            i += 1;
        }
        out
    }
}

impl Default for UuidGenerator {
    fn default() -> (r: UuidGenerator)
        ensures
            r.version_spec() == UuidVersion::V4,
            r.format_spec() == UuidFormat::Standard,
            r.prefix_spec() is None,
    {
        Self::v4()
    }
}

} // verus!
