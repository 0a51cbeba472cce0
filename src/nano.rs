//! Short random identifiers over an alphanumeric alphabet.
use vstd::prelude::*;
use vstd::string::StringExecFns;

verus! {

/// Length of identifiers when none is asked for.
pub const DEFAULT_LENGTH: usize = 12;

/// Longest length that can be asked for.
pub const MAX_LENGTH: usize = 0x1000_0000;

/// Whether `c` is an ASCII digit or letter.
pub open spec fn is_alphanumeric(c: char) -> bool {
    (48 <= c as u32 <= 57) || (65 <= c as u32 <= 90) || (97 <= c as u32 <= 122)
}

/// `s` is the prefix `p` followed by `len` alphanumeric characters.
pub open spec fn is_nanoid_with(s: Seq<char>, p: Seq<char>, len: nat) -> bool {
    &&& s.len() == p.len() + len
    &&& s.subrange(0, p.len() as int) == p
    &&& forall|i: int| p.len() <= i < s.len() ==> is_alphanumeric(#[trigger] s[i])
}

/// The prefix as a character sequence, empty when absent.
pub open spec fn prefix_chars(prefix: Option<&str>) -> Seq<char> {
    match prefix {
        Some(p) => p@,
        None => Seq::empty(),
    }
}

/// The length asked for, or the default one.
pub open spec fn length_or_default(length: Option<usize>) -> nat {
    match length {
        Some(n) => n as nat,
        None => DEFAULT_LENGTH as nat,
    }
}

/// A length that can be asked for: at least 1 and at most `MAX_LENGTH`.
pub open spec fn valid_length(length: Option<usize>) -> bool {
    match length {
        Some(n) => 1 <= n <= MAX_LENGTH,
        None => true,
    }
}

/// Relies on nanoid::format with nanoid::rngs::default: it returns `size`
/// characters drawn from `alphabet`. It loops forever on an empty alphabet
/// or `size` 0, asserts that the alphabet has at most 255 characters, and
/// counts the length in bytes, so the alphabet must be ASCII.
#[verifier::external_body]
fn nanoid_format(alphabet: &[char], size: usize) -> (r: String)
    requires
        1 <= alphabet@.len() <= 255,
        forall|i: int| 0 <= i < alphabet@.len() ==> (#[trigger] alphabet@[i] as u32) < 128,
        1 <= size <= MAX_LENGTH,
    ensures
        r@.len() == size,
        forall|i: int| 0 <= i < size ==> alphabet@.contains(#[trigger] r@[i]),
{
    nanoid::format(nanoid::rngs::default, alphabet, size)
}

/// The 62 ASCII digits and letters.
fn alphabet() -> (r: Vec<char>)
    ensures
        r@.len() == 62,
        forall|i: int| 0 <= i < 62 ==> is_alphanumeric(#[trigger] r@[i]),
{
    let r = vec![
        '0', '1', '2', '3', '4', '5', '6', '7', '8', '9', 'A', 'B', 'C', 'D', 'E', 'F', 'G', 'H', 'I',
        'J', 'K', 'L', 'M', 'N', 'O', 'P', 'Q', 'R', 'S', 'T', 'U', 'V', 'W', 'X', 'Y', 'Z', 'a', 'b',
        'c', 'd', 'e', 'f', 'g', 'h', 'i', 'j', 'k', 'l', 'm', 'n', 'o', 'p', 'q', 'r', 's', 't', 'u',
        'v', 'w', 'x', 'y', 'z',
    ];
    r
}

/// Generator of short random alphanumeric identifiers.
#[derive(Debug, Clone, Copy)]
pub struct NanoIdGenerator;

impl NanoIdGenerator {
    /// A generator.
    pub fn new() -> NanoIdGenerator {
        NanoIdGenerator
    }

    /// One identifier: `prefix` if given, then `length` (default 12)
    /// random alphanumeric characters.
    pub fn generate(&self, prefix: Option<&str>, length: Option<usize>) -> (r: String)
        requires
            valid_length(length),
        ensures
            is_nanoid_with(r@, prefix_chars(prefix), length_or_default(length)),
    {
        let len = match length {
            Some(n) => n,
            None => DEFAULT_LENGTH,
        };
        let chars = alphabet();
        let id = nanoid_format(chars.as_slice(), len);
        assert forall|i: int| 0 <= i < len implies is_alphanumeric(#[trigger] id@[i]) by {
            let j = choose|j: int| 0 <= j < chars@.len() && chars@[j] == id@[i];
            assert(is_alphanumeric(chars@[j]));
        }
        match prefix {
            Some(p) => {
                let r = String::from_str(p).concat(id.as_str());
                assert(r@.subrange(0, p@.len() as int) =~= p@);
                assert forall|i: int| p@.len() <= i < r@.len() implies is_alphanumeric(
                    #[trigger] r@[i],
                ) by {
                    assert(r@[i] == id@[i - p@.len()]);
                }
                r
            },
            None => {
                assert(id@.subrange(0, 0) =~= Seq::<char>::empty());
                id
            },
        }
    }

    /// `count` identifiers, each as `generate` makes them.
    pub fn generate_batch(&self, count: usize, prefix: Option<&str>, length: Option<usize>) -> (r:
        Vec<String>)
        requires
            valid_length(length),
        ensures
            r@.len() == count,
            forall|i: int|
                0 <= i < count ==> is_nanoid_with(
                    #[trigger] r@[i]@,
                    prefix_chars(prefix),
                    length_or_default(length),
                ),
    {
        let mut out: Vec<String> = Vec::new();
        let mut i: usize = 0;
        while i < count
            invariant
                i <= count,
                out@.len() == i,
                valid_length(length),
                forall|j: int|
                    0 <= j < i ==> is_nanoid_with(
                        #[trigger] out@[j]@,
                        prefix_chars(prefix),
                        length_or_default(length),
                    ),
            decreases count - i,
        {
            out.push(self.generate(prefix, length));
            i += 1;
        }
        out
    }
}

impl Default for NanoIdGenerator {
    fn default() -> NanoIdGenerator {
        NanoIdGenerator::new()
    }
}

} // verus!
