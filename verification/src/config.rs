//! Remote configuration: the service, throttling and connection limits.
use vstd::prelude::*;

use crate::services::RemoteSource;
use crate::text::{
    all_white_space, chars_of, lemma_ascii_white_space, lemma_trim_surrounded, string_of, tight, trim, trimmed_range,
    white_space,
};

verus! {

/// What the byte-size parser of the `bytesize` crate makes of `text`: a
/// number of bytes, or its error message.
pub uninterp spec fn byte_size_text(text: Seq<char>) -> Result<u64, Seq<char>>;

/// Parses a byte size such as `10kiB` or `10MB` with `bytesize`'s
/// `ByteSize::from_str`, taking the byte count (the `ByteSize`'s one field).
/// The contract only ties the result to `byte_size_text` of the input; what
/// that is on a given text (units, decimals, rounding) is not stated here.
#[verifier::external_body]
fn parse_byte_size(text: &str) -> (r: Result<u64, String>)
    ensures
        match r {
            Ok(n) => byte_size_text(text@) == Ok::<u64, Seq<char>>(n),
            Err(m) => byte_size_text(text@) == Err::<u64, Seq<char>>(m@),
        },
{
    <bytesize::ByteSize as core::str::FromStr>::from_str(text).map(|size| size.0)
}

/// Throttling parameters
///
/// Note: Throttle implements [`FromStr`] to read it from something like "10kiB,10MB"
#[derive(Debug, Clone, Copy, PartialEq, Eq, Structural, Hash)]
pub struct Throttle {
    pub bandwidth: u32,
    pub burst: u32,
}

/// Why a throttle description was refused (the model of [`ThrottleError`]).
pub enum ThrottleFault {
    /// A field is not a byte size; the parser's message.
    InvalidSize(Seq<char>),
    /// A field is a byte size that does not fit in 32 bits.
    OutOfRange(u64),
    /// There is no second, comma-separated field.
    MissingBurst,
}

/// Why a throttle description was refused.
#[derive(Debug, Clone)]
pub enum ThrottleError {
    /// A field is not a byte size; the parser's message.
    InvalidSize(String),
    /// A field is a byte size that does not fit in 32 bits.
    OutOfRange(u64),
    /// There is no second, comma-separated field.
    MissingBurst,
}

impl View for ThrottleError {
    type V = ThrottleFault;

    open spec fn view(&self) -> ThrottleFault {
        match self {
            ThrottleError::InvalidSize(m) => ThrottleFault::InvalidSize(m@),
            ThrottleError::OutOfRange(n) => ThrottleFault::OutOfRange(*n),
            ThrottleError::MissingBurst => ThrottleFault::MissingBurst,
        }
    }
}

/// A parse result read over views.
pub open spec fn parsed_view(r: Result<u64, String>) -> Result<u64, Seq<char>> {
    match r {
        Ok(n) => Ok(n),
        Err(m) => Err(m@),
    }
}

/// A field result read over views.
pub open spec fn field_view(r: Result<u32, ThrottleError>) -> Result<u32, ThrottleFault> {
    match r {
        Ok(n) => Ok(n),
        Err(e) => Err(e@),
    }
}

/// A throttle result read over views.
pub open spec fn throttle_view(r: Result<Throttle, ThrottleError>) -> Result<
    (u32, u32),
    ThrottleFault,
> {
    match r {
        Ok(t) => Ok((t.bandwidth, t.burst)),
        Err(e) => Err(e@),
    }
}

/// The value of one field given what the byte-size parser made of it: the
/// byte count when it fits in 32 bits.
pub open spec fn field_value(parsed: Result<u64, Seq<char>>) -> Result<u32, ThrottleFault> {
    match parsed {
        Err(m) => Err(ThrottleFault::InvalidSize(m)),
        Ok(n) => if n <= u32::MAX {
            Ok(n as u32)
        } else {
            Err(ThrottleFault::OutOfRange(n))
        },
    }
}

/// The value of one field of text: its trimmed text read as a byte size.
pub open spec fn field_outcome(text: Seq<char>) -> Result<u32, ThrottleFault> {
    field_value(byte_size_text(trim(text)))
}

/// The index of the first comma at or after `i`, or the length of `s`.
pub open spec fn field_end(s: Seq<char>, i: int) -> int
    decreases s.len() - i,
{
    if 0 <= i < s.len() && s[i] != ',' {
        field_end(s, i + 1)
    } else {
        i
    }
}

/// What a throttle description reads as: its first comma-separated field is
/// the bandwidth and its second the burst, both byte sizes that fit in 32
/// bits; fields after the second are not looked at.  The bandwidth is read
/// first, so its fault is the one reported when both fields are bad.
pub open spec fn throttle_outcome(s: Seq<char>) -> Result<(u32, u32), ThrottleFault> {
    let e0 = field_end(s, 0);
    match field_outcome(s.subrange(0, e0)) {
        Err(f) => Err(f),
        Ok(bandwidth) => if e0 >= s.len() {
            Err(ThrottleFault::MissingBurst)
        } else {
            let e1 = field_end(s, e0 + 1);
            match field_outcome(s.subrange(e0 + 1, e1)) {
                Err(f) => Err(f),
                Ok(burst) => Ok((bandwidth, burst)),
            }
        },
    }
}

/// The end of the field of `v` that starts at `start`.
fn find_field_end(v: &Vec<char>, start: usize) -> (e: usize)
    requires
        start <= v@.len(),
    ensures
        e == field_end(v@, start as int),
        start <= e <= v@.len(),
{
    let mut i = start;
    while i < v.len() && v[i] != ','
        invariant
            start <= i <= v@.len(),
            field_end(v@, start as int) == field_end(v@, i as int),
        decreases v@.len() - i,
    {
        i = i + 1;
    }
    i
}

/// The value of one field, given what the byte-size parser made of its
/// trimmed text: the byte count when it fits in 32 bits, and otherwise the
/// error that says why not.
pub fn size_field(parsed: Result<u64, String>) -> (r: Result<u32, ThrottleError>)
    ensures
        field_view(r) == field_value(parsed_view(parsed)),
{
    match parsed {
        Err(message) => Err(ThrottleError::InvalidSize(message)),
        Ok(n) => if n <= 0xffff_ffff {
            Ok(n as u32)
        } else {
            Err(ThrottleError::OutOfRange(n))
        },
    }
}

/// Reads the field of `v` in `lo..hi`.
fn read_field(v: &Vec<char>, lo: usize, hi: usize) -> (r: Result<u32, ThrottleError>)
    requires
        lo <= hi <= v@.len(),
    ensures
        field_view(r) == field_outcome(v@.subrange(lo as int, hi as int)),
{
    let text = string_of(&trimmed_range(v, lo, hi));
    size_field(parse_byte_size(text.as_str()))
}

impl Throttle {
    /// Reads a throttle from text such as `"10kiB,10MB"`: the bandwidth, a
    /// comma, then the burst, each a byte size with optional surrounding
    /// white space.
    pub fn from_str(s: &str) -> (r: Result<Throttle, ThrottleError>)
        ensures
            throttle_view(r) == throttle_outcome(s@),
    {
        let v = chars_of(s);
        let e0 = find_field_end(&v, 0);
        let bandwidth = match read_field(&v, 0, e0) {
            Ok(n) => n,
            Err(e) => return Err(e),
        };
        if e0 >= v.len() {
            return Err(ThrottleError::MissingBurst);
        }
        let e1 = find_field_end(&v, e0 + 1);
        let burst = match read_field(&v, e0 + 1, e1) {
            Ok(n) => n,
            Err(e) => return Err(e),
        };
        Ok(Throttle { bandwidth, burst })
    }

    /// This throttle with its bandwidth set to `value`.
    pub fn bandwidth(self, value: u32) -> (t: Throttle)
        ensures
            t == (Throttle { bandwidth: value, ..self }),
    {
        Throttle { bandwidth: value, ..self }
    }

    /// This throttle with its burst set to `value`.
    pub fn burst(self, value: u32) -> (t: Throttle)
        ensures
            t == (Throttle { burst: value, ..self }),
    {
        Throttle { burst: value, ..self }
    }
}

impl core::str::FromStr for Throttle {
    type Err = ThrottleError;

    fn from_str(s: &str) -> (r: Result<Throttle, ThrottleError>)
        ensures
            throttle_view(r) == throttle_outcome(s@),
    {
        Throttle::from_str(s)
    }
}

/// The config for a remote source.
#[derive(Debug, PartialEq, Eq, Hash)]
pub struct RemoteConfig {
    /// The maximum # of open connections.
    pub max_threads: Option<u8>,
    /// The [`Throttle`] settings.
    pub bandwidth: Option<Throttle>,
    /// The [`RemoteSource`] to use.
    pub src: RemoteSource,
}

/// Text without commas.
pub open spec fn comma_free(s: Seq<char>) -> bool {
    forall|i: int| 0 <= i < s.len() ==> #[trigger] s[i] != ','
}

proof fn lemma_field_end_at(s: Seq<char>, i: int, k: int)
    requires
        0 <= i <= k <= s.len(),
        forall|j: int| i <= j < k ==> #[trigger] s[j] != ',',
        k == s.len() || s[k] == ',',
    ensures
        field_end(s, i) == k,
    decreases k - i,
{
    if i < k {
        lemma_field_end_at(s, i + 1, k);
    }
}

/// The fields of `a,b`, read off `a,b` followed by anything that starts at
/// the next comma.
proof fn lemma_two_fields(a: Seq<char>, b: Seq<char>, rest: Seq<char>)
    requires
        comma_free(a),
        comma_free(b),
        rest.len() == 0 || rest[0] == ',',
    ensures
        ({
            let s = a + seq![','] + b + rest;
            &&& field_end(s, 0) == a.len()
            &&& s.subrange(0, a.len() as int) == a
            &&& a.len() < s.len()
            &&& field_end(s, a.len() as int + 1) == a.len() + 1 + b.len()
            &&& s.subrange(a.len() as int + 1, a.len() as int + 1 + b.len()) == b
        }),
{
    let s = a + seq![','] + b + rest;
    let k = a.len() as int;
    assert forall|j: int| 0 <= j < k implies #[trigger] s[j] != ',' by {
        assert(s[j] == a[j]);
    }
    lemma_field_end_at(s, 0, k);
    let e = k + 1 + b.len();
    assert forall|j: int| k + 1 <= j < e implies #[trigger] s[j] != ',' by {
        assert(s[j] == b[j - k - 1]);
    }
    if e < s.len() {
        assert(s[e] == rest[0]);
    }
    lemma_field_end_at(s, k + 1, e);
    assert(s.subrange(0, k) =~= a);
    assert(s.subrange(k + 1, e) =~= b);
}

/// Only the first two fields count: whatever follows a second comma does not
/// change how a throttle description reads.
pub proof fn lemma_extra_fields_ignored(a: Seq<char>, b: Seq<char>, rest: Seq<char>)
    requires
        comma_free(a),
        comma_free(b),
    ensures
        throttle_outcome(a + seq![','] + b + seq![','] + rest) == throttle_outcome(
            a + seq![','] + b,
        ),
{
    lemma_two_fields(a, b, seq![','] + rest);
    lemma_two_fields(a, b, Seq::<char>::empty());
    assert(a + seq![','] + b + (seq![','] + rest) =~= a + seq![','] + b + seq![','] + rest);
    assert(a + seq![','] + b + Seq::<char>::empty() =~= a + seq![','] + b);
}

/// White space around either field does not change how a throttle
/// description reads.
pub proof fn lemma_field_white_space_ignored(
    a: Seq<char>,
    b: Seq<char>,
    w1: Seq<char>,
    w2: Seq<char>,
    w3: Seq<char>,
    w4: Seq<char>,
)
    requires
        comma_free(a),
        comma_free(b),
        tight(a),
        tight(b),
        all_white_space(w1),
        all_white_space(w2),
        all_white_space(w3),
        all_white_space(w4),
    ensures
        throttle_outcome(w1 + a + w2 + seq![','] + (w3 + b + w4)) == throttle_outcome(
            a + seq![','] + b,
        ),
{
    let fa = w1 + a + w2;
    let fb = w3 + b + w4;
    assert forall|i: int| 0 <= i < fa.len() implies #[trigger] fa[i] != ',' by {
        if i < w1.len() {
            assert(white_space(w1[i]));
        } else if i < w1.len() + a.len() {
            assert(fa[i] == a[i - w1.len()]);
        } else {
            assert(white_space(w2[i - w1.len() - a.len()]));
        }
    }
    assert forall|i: int| 0 <= i < fb.len() implies #[trigger] fb[i] != ',' by {
        if i < w3.len() {
            assert(white_space(w3[i]));
        } else if i < w3.len() + b.len() {
            assert(fb[i] == b[i - w3.len()]);
        } else {
            assert(white_space(w4[i - w3.len() - b.len()]));
        }
    }
    lemma_two_fields(fa, fb, Seq::<char>::empty());
    lemma_two_fields(a, b, Seq::<char>::empty());
    assert(fa + seq![','] + fb + Seq::<char>::empty() =~= w1 + a + w2 + seq![','] + (w3 + b
        + w4));
    assert(a + seq![','] + b + Seq::<char>::empty() =~= a + seq![','] + b);
    lemma_trim_surrounded(w1, a, w2);
    lemma_trim_surrounded(w3, b, w4);
    lemma_trim_surrounded(Seq::<char>::empty(), a, Seq::<char>::empty());
    lemma_trim_surrounded(Seq::<char>::empty(), b, Seq::<char>::empty());
    assert(Seq::<char>::empty() + a + Seq::<char>::empty() =~= a);
    assert(Seq::<char>::empty() + b + Seq::<char>::empty() =~= b);
}

/// A description with no comma names no burst: it is refused, with the
/// bandwidth's fault if the bandwidth is bad too.
pub proof fn lemma_single_field_refused(a: Seq<char>)
    requires
        comma_free(a),
    ensures
        throttle_outcome(a) == (match field_outcome(a) {
            Err(f) => Err::<(u32, u32), ThrottleFault>(f),
            Ok(_) => Err(ThrottleFault::MissingBurst),
        }),
{
    lemma_field_end_at(a, 0, a.len() as int);
    assert(a.subrange(0, a.len() as int) =~= a);
}

/// Text made of ASCII digits only.
pub open spec fn ascii_digits(s: Seq<char>) -> bool {
    forall|i: int| 0 <= i < s.len() ==> '0' <= #[trigger] s[i] <= '9'
}

/// Two numbers joined by a comma read as exactly those two numbers: the
/// bandwidth is what the byte-size parser makes of the whole first number and
/// the burst what it makes of the whole second one; trimming takes no digit
/// away.
pub proof fn lemma_number_fields(a: Seq<char>, b: Seq<char>)
    requires
        a.len() > 0,
        b.len() > 0,
        ascii_digits(a),
        ascii_digits(b),
    ensures
        throttle_outcome(a + seq![','] + b) == (match field_value(byte_size_text(a)) {
            Err(f) => Err(f),
            Ok(bandwidth) => match field_value(byte_size_text(b)) {
                Err(f) => Err(f),
                Ok(burst) => Ok((bandwidth, burst)),
            },
        }),
{
    lemma_ascii_white_space(a[0]);
    lemma_ascii_white_space(a.last());
    lemma_ascii_white_space(b[0]);
    lemma_ascii_white_space(b.last());
    assert(a.last() == a[a.len() - 1]);
    assert(b.last() == b[b.len() - 1]);
    assert(comma_free(a));
    assert(comma_free(b));
    lemma_two_fields(a, b, Seq::<char>::empty());
    assert(a + seq![','] + b + Seq::<char>::empty() =~= a + seq![','] + b);
    lemma_trim_surrounded(Seq::<char>::empty(), a, Seq::<char>::empty());
    lemma_trim_surrounded(Seq::<char>::empty(), b, Seq::<char>::empty());
    assert(Seq::<char>::empty() + a + Seq::<char>::empty() =~= a);
    assert(Seq::<char>::empty() + b + Seq::<char>::empty() =~= b);
}

impl Clone for RemoteConfig {
    /// A copy with the same limits and a copy of the same source.
    fn clone(&self) -> (r: Self)
        ensures
            r == *self,
    {
        RemoteConfig {
            max_threads: self.max_threads,
            bandwidth: self.bandwidth,
            src: self.src.clone(),
        }
    }
}

} // verus!
