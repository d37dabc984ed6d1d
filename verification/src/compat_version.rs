//! The `major.minor` version of the command-line tool whose behaviour is
//! reproduced, and the text form it is read from.

use std::cmp::Ordering;
use vstd::prelude::*;
use vstd::slice::*;
use vstd::string::*;
use vstd::utf8::encode_utf8;
use crate::text::{decimal_digits, push_char, push_decimal, trim, trimmed};

verus! {

/// Name of the environment variable that selects the version.
pub const RESTY_COMPAT_VAR: &'static str = "RESTY_CLI_COMPAT_VERSION";

/// The most decimal digits a field may have.
pub const MAX_DIGITS: usize = 5;

/// A `major.minor` compatibility version.
#[derive(Debug, Clone, Copy, PartialEq, Eq, Ord, Structural)]
pub struct Version {
    pub maj: u16,
    pub min: u16,
}

/// Whether `b` is an ASCII decimal digit.
pub open spec fn is_digit(b: u8) -> bool {
    48 <= b <= 57
}

/// How many digits `s` begins with.
pub open spec fn digit_run(s: Seq<u8>) -> nat
    decreases s.len(),
{
    if s.len() > 0 && is_digit(s[0]) {
        1 + digit_run(s.drop_first())
    } else {
        0
    }
}

/// The number that the digits of `s` spell in decimal; zero for no digits.
pub open spec fn decimal_value(s: Seq<u8>) -> nat
    decreases s.len(),
{
    if s.len() == 0 {
        0
    } else {
        decimal_value(s.drop_last()) * 10 + (s.last() - 48) as nat
    }
}

/// One numeric field at the start of `s`.
pub struct Field {
    /// How many digits the field has.
    pub digits: nat,
    /// The number they spell.
    pub value: nat,
    /// What follows the field and the `.` that ends it.
    pub rest: Seq<u8>,
}

/// Reads one field: at most five digits that spell at most 65535, ended by
/// the end of the input or by a `.`.
pub open spec fn field(s: Seq<u8>) -> Option<Field> {
    let k = digit_run(s);
    if k > MAX_DIGITS {
        None
    } else if k < s.len() && s[k as int] != 46 {
        None
    } else if decimal_value(s.take(k as int)) > u16::MAX {
        None
    } else {
        Some(
            Field {
                digits: k,
                value: decimal_value(s.take(k as int)),
                rest: if k < s.len() {
                    s.skip(k as int + 1)
                } else {
                    Seq::empty()
                },
            },
        )
    }
}

/// The version that `s` spells, if it spells one.
///
/// One leading `v` is allowed. The major field may be empty and then counts
/// as zero. The minor field, if anything follows the first `.`, must have a
/// digit; whatever follows a second `.` is not looked at.
pub open spec fn parse_version(s: Seq<u8>) -> Option<Version> {
    let body = if s.len() > 0 && s[0] == 118 {
        s.drop_first()
    } else {
        s
    };
    if body.len() == 0 {
        None
    } else {
        match field(body) {
            None => None,
            Some(major) => if major.rest.len() == 0 {
                Some(Version { maj: major.value as u16, min: 0 })
            } else {
                match field(major.rest) {
                    None => None,
                    Some(minor) => if minor.digits == 0 {
                        None
                    } else {
                        Some(Version { maj: major.value as u16, min: minor.value as u16 })
                    },
                }
            },
        }
    }
}

/// A run of digits is no longer than what it is a run of, consists of
/// digits, and ends at a byte that is none.
proof fn lemma_digit_run(s: Seq<u8>)
    ensures
        digit_run(s) <= s.len(),
        forall|i: int| 0 <= i < digit_run(s) ==> is_digit(#[trigger] s[i]),
        digit_run(s) < s.len() ==> !is_digit(s[digit_run(s) as int]),
    decreases s.len(),
{
    if s.len() > 0 && is_digit(s[0]) {
        let tail = s.drop_first();
        lemma_digit_run(tail);
        assert forall|i: int| 0 <= i < digit_run(s) implies is_digit(#[trigger] s[i]) by {
            if i > 0 {
                assert(s[i] == tail[i - 1]);
            }
        }
    }
}

/// The first `n` bytes being digits and the next one not fixes the run.
proof fn lemma_digit_run_is(s: Seq<u8>, n: nat)
    requires
        n <= s.len(),
        forall|i: int| 0 <= i < n ==> is_digit(#[trigger] s[i]),
        n < s.len() ==> !is_digit(s[n as int]),
    ensures
        digit_run(s) == n,
    decreases n,
{
    if n > 0 {
        let tail = s.drop_first();
        lemma_digit_run_is(tail, (n - 1) as nat);
    }
}

impl Version {
    pub fn new(maj: u16, min: u16) -> (v: Self)
        ensures
            v == (Version { maj, min }),
    {
        Version { maj, min }
    }

    /// The oldest version whose behaviour is reproduced.
    pub fn compat_min() -> (v: Self)
        ensures
            v == (Version { maj: 0, min: 28 }),
    {
        Version { maj: 0, min: 28 }
    }

    /// The newest version whose behaviour is reproduced.
    pub fn compat_max() -> (v: Self)
        ensures
            v == (Version { maj: 0, min: 30 }),
    {
        Version { maj: 0, min: 30 }
    }

    /// The version as text: `v`, the major number, `.`, the minor number.
    pub open spec fn text(self) -> Seq<char> {
        seq!['v'] + decimal_digits(self.maj as nat) + seq!['.'] + decimal_digits(self.min as nat)
    }

    /// The version as text, as in `v0.28`.
    pub fn to_string(&self) -> (s: String)
        ensures
            s@ == self.text(),
    {
        let mut s = String::new();
        push_char(&mut s, 'v');
        push_decimal(&mut s, self.maj as u128);
        push_char(&mut s, '.');
        push_decimal(&mut s, self.min as u128);
        s
    }

    /// Whether `self` comes before `other`: by major number, then by minor.
    pub open spec fn precedes(self, other: Version) -> bool {
        self.maj < other.maj || (self.maj == other.maj && self.min < other.min)
    }

    /// Reads a version from the start of `value`.
    pub fn from_bytes(value: &[u8]) -> (r: Option<Version>)
        ensures
            r == parse_version(value@),
    {
        let start: usize = if value.len() > 0 && value[0] == 118 {
            1
        } else {
            0
        };
        let body = slice_subrange(value, start, value.len());
        assert(body@ == if value@.len() > 0 && value@[0] == 118 {
            value@.drop_first()
        } else {
            value@
        });
        if body.len() == 0 {
            return None;
        }
        match find_digits(body) {
            None => None,
            Some((len, next)) => {
                proof {
                    lemma_digit_run(body@);
                }
                let maj: u16 = match extract(body, len) {
                    Some(maj) => maj,
                    None => {
                        return None;
                    },
                };
                let rest = slice_subrange(body, next, body.len());
                if rest.len() == 0 {
                    Some(Version::new(maj, 0))
                } else {
                    match find_digits(rest) {
                        None => None,
                        Some((len, _)) => {
                            proof {
                                lemma_digit_run(rest@);
                            }
                            if len == 0 {
                                return None;
                            }
                            match extract(rest, len) {
                                Some(min) => Some(Version::new(maj, min)),
                                None => None,
                            }
                        },
                    }
                }
            },
        }
    }

    /// Reads a version from the start of `value`, taken as its UTF-8 bytes.
    pub fn from_str(value: &str) -> (r: Option<Version>)
        ensures
            r == parse_version(value.spec_bytes()),
    {
        Version::from_bytes(value.as_bytes())
    }
}

/// Finds where the digits at the start of `src` end: their count, and the
/// index at which the next field begins. `None` when they end at a byte that
/// is neither the end of `src` nor a `.`.
fn find_digits(src: &[u8]) -> (r: Option<(usize, usize)>)
    ensures
        match r {
            Some((len, next)) => {
                &&& len == digit_run(src@)
                &&& len <= MAX_DIGITS
                &&& next <= src@.len()
                &&& len < src@.len() ==> src@[len as int] == 46 && next == len + 1
                &&& len == src@.len() ==> next == len
            },
            None => digit_run(src@) > MAX_DIGITS || (digit_run(src@) < src@.len()
                && src@[digit_run(src@) as int] != 46),
        },
{
    let mut index: usize = 0;
    while index < src.len() && index <= MAX_DIGITS
        invariant
            index <= src@.len(),
            index <= MAX_DIGITS + 1,
            forall|i: int| 0 <= i < index ==> is_digit(#[trigger] src@[i]),
        decreases src@.len() - index,
    {
        let b: u8 = src[index];
        if 48 <= b && b <= 57 {
            index = index + 1;
        } else {
            proof {
                lemma_digit_run_is(src@, index as nat);
            }
            if b == 46 {
                return Some((index, index + 1));
            } else {
                return None;
            }
        }
    }
    if index > MAX_DIGITS {
        None
    } else {
        proof {
            lemma_digit_run_is(src@, index as nat);
        }
        Some((index, index))
    }
}

/// The number that the first `len` bytes of `src` spell, if it fits.
fn extract(src: &[u8], len: usize) -> (r: Option<u16>)
    requires
        len <= MAX_DIGITS,
        len <= src@.len(),
        forall|i: int| 0 <= i < len ==> is_digit(#[trigger] src@[i]),
    ensures
        decimal_value(src@.take(len as int)) <= u16::MAX ==> r == Some(
            decimal_value(src@.take(len as int)) as u16,
        ),
        decimal_value(src@.take(len as int)) > u16::MAX ==> r is None,
{
    let mut value: u32 = 0;
    let mut i: usize = 0;
    while i < len
        invariant
            i <= len <= MAX_DIGITS,
            len <= src@.len(),
            forall|j: int| 0 <= j < len ==> is_digit(#[trigger] src@[j]),
            value == decimal_value(src@.take(i as int)),
            i == 0 ==> value == 0,
            i == 1 ==> value <= 9,
            i == 2 ==> value <= 99,
            i == 3 ==> value <= 999,
            i == 4 ==> value <= 9999,
            i == 5 ==> value <= 99999,
        decreases len - i,
    {
        let b: u8 = src[i];
        let digit: u32 = (b - 48) as u32;
        value = value * 10 + digit;
        i = i + 1;
        proof {
            let prefix = src@.take(i as int);
            assert(prefix.drop_last() == src@.take(i - 1));
        }
    }
    if value <= 65535 {
        Some(value as u16)
    } else {
        None
    }
}

/// What the environment's variable says of the version: nothing where it
/// is unset or blank, else the version it spells or, failing that, its
/// value as it stands.
pub open spec fn version_from_env(var: Option<Seq<char>>) -> Option<Result<Version, Seq<char>>> {
    match var {
        None => None,
        Some(value) => if trimmed(value).len() == 0 {
            None
        } else {
            match parse_version(encode_utf8(trimmed(value))) {
                Some(version) => Some(Ok(version)),
                None => Some(Err(value)),
            }
        },
    }
}

/// The version in force and the warning that goes with it: the version
/// that the variable spells, whether or not it is one that is reproduced,
/// or `default` where it spells none.
pub open spec fn chosen_version(var: Option<Seq<char>>, default: Version) -> (Version, Option<
    Seq<char>,
>) {
    match version_from_env(var) {
        Some(Ok(version)) => (
            version,
            if (Version { maj: 0, min: 30 }).precedes(version) {
                Some(
                    "WARN: RESTY_CLI_COMPAT_VERSION ("@ + version.text()
                        + ") is greater than max supported version (v0.30)"@,
                )
            } else if version.precedes(Version { maj: 0, min: 28 }) {
                Some(
                    "WARN: RESTY_CLI_COMPAT_VERSION ("@ + version.text()
                        + ") is less than the minimum supported version (v0.28)"@,
                )
            } else {
                None
            },
        ),
        Some(Err(value)) => (
            default,
            Some("WARN: value of RESTY_CLI_COMPAT_VERSION env var (`"@ + value + "`) is invalid"@),
        ),
        None => (default, None),
    }
}

impl Version {
    /// Reads the version from the value of the environment's variable,
    /// `None` standing for a variable that is not set.
    pub fn from_env(var: Option<String>) -> (r: Option<Result<Version, String>>)
        ensures
            match r {
                None => version_from_env(crate::lua::option_text(var)) is None,
                Some(Ok(version)) => version_from_env(crate::lua::option_text(var)) == Some(
                    Ok::<Version, Seq<char>>(version),
                ),
                Some(Err(value)) => version_from_env(crate::lua::option_text(var)) == Some(
                    Err::<Version, Seq<char>>(value@),
                ),
            },
    {
        let var = match var {
            Some(var) => var,
            None => {
                return None;
            },
        };
        let value = trim(var.as_str());
        if value.as_str().is_empty() {
            return None;
        }
        match Version::from_str(value.as_str()) {
            Some(version) => Some(Ok(version)),
            None => Some(Err(var)),
        }
    }

    /// Chooses the version in force from the variable's value and says what
    /// to warn of.
    pub fn select(var: Option<String>, default: Version) -> (r: (Version, Option<String>))
        ensures
            r.0 == chosen_version(crate::lua::option_text(var), default).0,
            match r.1 {
                Some(warning) => chosen_version(crate::lua::option_text(var), default).1 == Some(
                    warning@,
                ),
                None => chosen_version(crate::lua::option_text(var), default).1 is None,
            },
    {
        match Version::from_env(var) {
            Some(Ok(version)) => {
                let max = Version::compat_max();
                let min = Version::compat_min();
                if version.maj > max.maj || (version.maj == max.maj && version.min > max.min) {
                    let mut w = String::from_str("WARN: RESTY_CLI_COMPAT_VERSION (");
                    w.append(version.to_string().as_str());
                    w.append(") is greater than max supported version (v0.30)");
                    (version, Some(w))
                } else if version.maj < min.maj || (version.maj == min.maj && version.min
                    < min.min) {
                    let mut w = String::from_str("WARN: RESTY_CLI_COMPAT_VERSION (");
                    w.append(version.to_string().as_str());
                    w.append(") is less than the minimum supported version (v0.28)");
                    (version, Some(w))
                } else {
                    (version, None)
                }
            },
            Some(Err(value)) => {
                let mut w = String::from_str("WARN: value of RESTY_CLI_COMPAT_VERSION env var (`");
                w.append(value.as_str());
                w.append("`) is invalid");
                (default, Some(w))
            },
            None => (default, None),
        }
    }
}

impl From<(u16, u16)> for Version {
    fn from(value: (u16, u16)) -> (v: Version) {
        Version::new(value.0, value.1)
    }
}

impl vstd::std_specs::convert::FromSpecImpl<(u16, u16)> for Version {
    open spec fn obeys_from_spec() -> bool {
        true
    }

    open spec fn from_spec(value: (u16, u16)) -> Version {
        Version { maj: value.0, min: value.1 }
    }
}

impl From<Version> for (u16, u16) {
    fn from(val: Version) -> (pair: (u16, u16)) {
        (val.maj, val.min)
    }
}

impl vstd::std_specs::convert::FromSpecImpl<Version> for (u16, u16) {
    open spec fn obeys_from_spec() -> bool {
        true
    }

    open spec fn from_spec(val: Version) -> (u16, u16) {
        (val.maj, val.min)
    }
}

impl PartialOrd for Version {
    fn partial_cmp(&self, other: &Self) -> (r: Option<Ordering>) {
        if self.maj < other.maj {
            Some(Ordering::Less)
        } else if self.maj > other.maj {
            Some(Ordering::Greater)
        } else if self.min < other.min {
            Some(Ordering::Less)
        } else if self.min > other.min {
            Some(Ordering::Greater)
        } else {
            Some(Ordering::Equal)
        }
    }
}

impl vstd::std_specs::cmp::PartialOrdSpecImpl for Version {
    open spec fn obeys_partial_cmp_spec() -> bool {
        true
    }

    open spec fn partial_cmp_spec(&self, other: &Self) -> Option<Ordering> {
        if self.precedes(*other) {
            Some(Ordering::Less)
        } else if other.precedes(*self) {
            Some(Ordering::Greater)
        } else {
            Some(Ordering::Equal)
        }
    }
}

} // verus!
