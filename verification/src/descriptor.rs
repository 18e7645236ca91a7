//! Names of commit log segment files.
//!
//! A segment file is named `CommitLog-<version>-<segment id>.log`, both
//! numbers in decimal.  `Descriptor::create` writes the name of a segment and
//! `Descriptor::try_create` reads a name back.
use vstd::prelude::*;

verus! {

pub type SegmentId = u64;

pub open spec fn is_digit(c: char) -> bool {
    '0' <= c <= '9'
}

pub open spec fn digit_value(c: char) -> nat {
    (c as int - '0' as int) as nat
}

/// The decimal digit for `d`, which is below ten.
pub open spec fn digit_char(d: nat) -> char {
    (d + '0' as int) as char
}

/// A non-empty run of ASCII decimal digits.
pub open spec fn all_digits(s: Seq<char>) -> bool {
    s.len() > 0 && forall|i: int| 0 <= i < s.len() ==> is_digit(#[trigger] s[i])
}

/// The number that the decimal digits `s` spell, most significant first.
pub open spec fn digits_value(s: Seq<char>) -> nat
    decreases s.len(),
{
    if s.len() == 0 {
        0
    } else {
        digits_value(s.drop_last()) * 10 + digit_value(s.last())
    }
}

/// `n` in decimal, without leading zeros.
pub open spec fn decimal(n: nat) -> Seq<char>
    decreases n,
{
    if n < 10 {
        seq![digit_char(n)]
    } else {
        decimal(n / 10).push(digit_char(n % 10))
    }
}

pub open spec fn name_prefix() -> Seq<char> {
    seq!['C', 'o', 'm', 'm', 'i', 't', 'L', 'o', 'g', '-']
}

pub open spec fn name_suffix() -> Seq<char> {
    seq!['.', 'l', 'o', 'g']
}

/// `CommitLog-<version>-<id>.log`.
pub open spec fn shaped(version: Seq<char>, id: Seq<char>) -> Seq<char> {
    name_prefix() + version + seq!['-'] + id + name_suffix()
}

/// The file name of segment `segment_id`, written with version 1.
pub open spec fn descriptor_filename(segment_id: u64) -> Seq<char> {
    shaped(seq!['1'], decimal(segment_id as nat))
}

/// The format version of segment files.
#[derive(PartialEq, Eq, Structural, Debug, Clone, Copy)]
pub enum Version {
    V1,
}

impl Version {
    /// The number that stands for the version in file names and headers.
    pub fn number(self) -> (n: u32)
        ensures
            n == 1,
    {
        match self {
            Version::V1 => 1,
        }
    }
}

/// A segment of the commit log: its id and the name of its file.
#[derive(Debug)]
pub struct Descriptor {
    segment_id: SegmentId,
    filename: String,
}

/// The one-character string for a decimal digit.
fn digit_str(d: u64) -> (s: &'static str)
    requires
        d < 10,
    ensures
        s@ == seq![digit_char(d as nat)],
{
    proof {
        reveal_strlit("0");
        reveal_strlit("1");
        reveal_strlit("2");
        reveal_strlit("3");
        reveal_strlit("4");
        reveal_strlit("5");
        reveal_strlit("6");
        reveal_strlit("7");
        reveal_strlit("8");
        reveal_strlit("9");
    }
    match d {
        0 => "0",
        1 => "1",
        2 => "2",
        3 => "3",
        4 => "4",
        5 => "5",
        6 => "6",
        7 => "7",
        8 => "8",
        _ => "9",
    }
}

/// Appends `n` in decimal to `s`.
fn push_decimal(s: &mut String, n: u64)
    ensures
        final(s)@ == old(s)@ + decimal(n as nat),
    decreases n,
{
    if n >= 10 {
        push_decimal(s, n / 10);
    }
    s.append(digit_str(n % 10));
    proof {
        if n >= 10 {
            assert(old(s)@ + decimal((n / 10) as nat) + seq![digit_char((n % 10) as nat)] =~= old(s)@
                + decimal(n as nat));
        } else {
            assert(decimal(n as nat) == seq![digit_char(n as nat)]);
        }
    }
}

impl Descriptor {
    /// The file name matches the segment id.
    pub closed spec fn wf(&self) -> bool {
        self.filename@ == descriptor_filename(self.segment_id)
    }

    pub closed spec fn spec_segment_id(&self) -> u64 {
        self.segment_id
    }

    pub closed spec fn spec_filename(&self) -> Seq<char> {
        self.filename@
    }

    /// The descriptor of segment `segment_id`, named
    /// `CommitLog-1-<segment_id>.log`.
    pub fn create(segment_id: SegmentId) -> (d: Descriptor)
        ensures
            d.wf(),
            d.spec_segment_id() == segment_id,
            d.spec_filename() == descriptor_filename(segment_id),
    {
        let mut filename = String::new();
        filename.append("CommitLog-");
        filename.append("1");
        filename.append("-");
        push_decimal(&mut filename, segment_id);
        filename.append(".log");
        proof {
            reveal_strlit("CommitLog-");
            reveal_strlit("1");
            reveal_strlit("-");
            reveal_strlit(".log");
            assert(filename@ =~= descriptor_filename(segment_id));
        }
        Descriptor { segment_id, filename }
    }

    pub fn filename(&self) -> (s: &str)
        ensures
            s@ == self.spec_filename(),
    {
        self.filename.as_str()
    }

    pub fn version(&self) -> (v: Version)
        ensures
            v == Version::V1,
    {
        Version::V1
    }

    pub fn segment_id(&self) -> (id: SegmentId)
        ensures
            id == self.spec_segment_id(),
    {
        self.segment_id
    }
}


/// Why a file name is not the name of a segment file.
#[derive(PartialEq, Eq, Structural, Debug, Clone, Copy)]
pub enum DescriptorError {
    /// The name is not `CommitLog-<digits>-<digits>.log`.
    Malformed,
    /// The version does not fit in a byte.
    InvalidVersion,
    /// The version is a byte other than 1.
    UnsupportedVersion(u8),
    /// The segment id does not fit in 64 bits.
    InvalidSegmentId,
}

/// `name` is `CommitLog-<version>-<id>.log` with both parts made of digits.
pub open spec fn matches_shape(name: Seq<char>, version: Seq<char>, id: Seq<char>) -> bool {
    all_digits(version) && all_digits(id) && name == shaped(version, id)
}

/// What reading the file name `name` gives: the segment id, or why the name
/// is refused.
pub open spec fn parse_outcome(name: Seq<char>) -> Result<u64, DescriptorError> {
    if exists|v: Seq<char>, id: Seq<char>| matches_shape(name, v, id) {
        let (v, id) = choose|v: Seq<char>, id: Seq<char>| matches_shape(name, v, id);
        if digits_value(v) > 255 {
            Err(DescriptorError::InvalidVersion)
        } else if digits_value(v) != 1 {
            Err(DescriptorError::UnsupportedVersion(digits_value(v) as u8))
        } else if digits_value(id) > u64::MAX {
            Err(DescriptorError::InvalidSegmentId)
        } else {
            Ok(digits_value(id) as u64)
        }
    } else {
        Err(DescriptorError::Malformed)
    }
}

proof fn lemma_shape_positions(name: Seq<char>, v: Seq<char>, id: Seq<char>)
    requires
        matches_shape(name, v, id),
    ensures
        name.len() == 15 + v.len() + id.len(),
        forall|t: int| 0 <= t < 10 ==> name[t] == name_prefix()[t],
        forall|t: int| 0 <= t < v.len() ==> name[10 + t] == v[t],
        name[10 + v.len() as int] == '-',
        forall|t: int| 0 <= t < id.len() ==> name[11 + v.len() + t] == id[t],
        forall|t: int| 0 <= t < 4 ==> name[11 + v.len() + id.len() + t] == name_suffix()[t],
{
    let a = name_prefix() + v;
    let b = a + seq!['-'];
    let c = b + id;
    assert(name == c + name_suffix());
    assert forall|t: int| 0 <= t < 4 implies name[11 + v.len() + id.len() + t] == name_suffix()[t] by {
        assert(name[c.len() + t] == name_suffix()[t]);
    }
    assert forall|t: int| 0 <= t < id.len() implies name[11 + v.len() + t] == id[t] by {
        assert(name[b.len() + t] == c[b.len() + t]);
    }
    assert(name[10 + v.len() as int] == b[a.len() as int]);
    assert forall|t: int| 0 <= t < v.len() implies name[10 + t] == v[t] by {
        assert(name[10 + t] == a[10 + t]);
    }
    assert forall|t: int| 0 <= t < 10 implies name[t] == name_prefix()[t] by {
        assert(name[t] == a[t]);
    }
}

/// A file name splits into its two numbers in one way only.
pub proof fn lemma_shape_unique(name: Seq<char>, v1: Seq<char>, id1: Seq<char>, v2: Seq<char>, id2: Seq<char>)
    requires
        matches_shape(name, v1, id1),
        matches_shape(name, v2, id2),
    ensures
        v1 == v2,
        id1 == id2,
{
    lemma_shape_positions(name, v1, id1);
    lemma_shape_positions(name, v2, id2);
    if v1.len() < v2.len() {
        assert(name[10 + v1.len() as int] == v2[v1.len() as int]);
        assert(false);
    }
    if v2.len() < v1.len() {
        assert(name[10 + v2.len() as int] == v1[v2.len() as int]);
        assert(false);
    }
    assert(v1 =~= v2) by {
        assert forall|t: int| 0 <= t < v1.len() implies v1[t] == v2[t] by {
            assert(name[10 + t] == v1[t]);
        }
    }
    assert(id1 =~= id2) by {
        assert forall|t: int| 0 <= t < id1.len() implies id1[t] == id2[t] by {
            assert(name[11 + v1.len() + t] == id1[t]);
        }
    }
}

fn is_digit_char(c: char) -> (b: bool)
    ensures
        b == is_digit(c),
{
    c >= '0' && c <= '9'
}

fn prefix_char(i: usize) -> (c: char)
    requires
        i < 10,
    ensures
        c == name_prefix()[i as int],
{
    match i {
        0 => 'C',
        1 => 'o',
        2 => 'm',
        3 => 'm',
        4 => 'i',
        5 => 't',
        6 => 'L',
        7 => 'o',
        8 => 'g',
        _ => '-',
    }
}

fn suffix_char(i: usize) -> (c: char)
    requires
        i < 4,
    ensures
        c == name_suffix()[i as int],
{
    match i {
        0 => '.',
        1 => 'l',
        2 => 'o',
        _ => 'g',
    }
}

/// Finds the two numbers of a segment file name: the version lies in
/// `[10, a)` and the id in `[a + 1, b)`.
fn split_name(name: &str) -> (r: Option<(usize, usize)>)
    ensures
        match r {
            Some((a, b)) => 10 < a < b <= name@.len() && matches_shape(
                name@,
                name@.subrange(10, a as int),
                name@.subrange(a + 1, b as int),
            ),
            None => !exists|v: Seq<char>, id: Seq<char>| matches_shape(name@, v, id),
        },
{
    let n = name.unicode_len();
    let ghost s = name@;
    if n < 17 {
        proof {
            if exists|v: Seq<char>, id: Seq<char>| matches_shape(s, v, id) {
                let (v, id) = choose|v: Seq<char>, id: Seq<char>| matches_shape(s, v, id);
                lemma_shape_positions(s, v, id);
            }
        }
        return None;
    }
    let mut i: usize = 0;
    while i < 10
        invariant
            i <= 10,
            n == s.len(),
            n >= 17,
            s == name@,
            forall|t: int| 0 <= t < i ==> s[t] == name_prefix()[t],
        decreases 10 - i,
    {
        if name.get_char(i) != prefix_char(i) {
            proof {
                if exists|v: Seq<char>, id: Seq<char>| matches_shape(s, v, id) {
                    let (v, id) = choose|v: Seq<char>, id: Seq<char>| matches_shape(s, v, id);
                    lemma_shape_positions(s, v, id);
                }
            }
            return None;
        }
        i = i + 1;
    }
    let mut a: usize = 10;
    while a < n && is_digit_char(name.get_char(a))
        invariant
            10 <= a <= n,
            n == s.len(),
            s == name@,
            forall|t: int| 10 <= t < a ==> is_digit(#[trigger] s[t]),
        decreases n - a,
    {
        a = a + 1;
    }
    if a == 10 || a >= n || name.get_char(a) != '-' {
        proof {
            if exists|v: Seq<char>, id: Seq<char>| matches_shape(s, v, id) {
                let (v, id) = choose|v: Seq<char>, id: Seq<char>| matches_shape(s, v, id);
                lemma_shape_positions(s, v, id);
                if a < 10 + v.len() {
                    assert(s[10 + (a - 10)] == v[a - 10]);
                } else if a > 10 + v.len() {
                    assert(is_digit(s[10 + v.len() as int]));
                }
            }
        }
        return None;
    }
    let mut b: usize = a + 1;
    while b < n && is_digit_char(name.get_char(b))
        invariant
            a < b <= n,
            n == s.len(),
            s == name@,
            forall|t: int| a < t < b ==> is_digit(#[trigger] s[t]),
        decreases n - b,
    {
        b = b + 1;
    }
    let ghost vs = s.subrange(10, a as int);
    proof {
        // Any split of the name puts the dash at `a`.
        if exists|v: Seq<char>, id: Seq<char>| matches_shape(s, v, id) {
            let (v, id) = choose|v: Seq<char>, id: Seq<char>| matches_shape(s, v, id);
            lemma_shape_positions(s, v, id);
            if a < 10 + v.len() {
                assert(s[10 + (a - 10)] == v[a - 10]);
            } else if a > 10 + v.len() {
                assert(is_digit(s[10 + v.len() as int]));
            }
            assert(a == 10 + v.len());
            let e: int = 11 + v.len() as int + id.len() as int;
            if b < e {
                assert(s[11 + v.len() + (b - 11 - v.len())] == id[b - 11 - v.len()]);
            } else if b > e {
                assert(is_digit(s[e]));
                assert(s[e] == name_suffix()[0]);
            }
            assert(b == e);
        }
    }
    if b == a + 1 || n - b != 4 {
        return None;
    }
    let mut m: usize = 0;
    while m < 4
        invariant
            m <= 4,
            b + 4 == n,
            n == s.len(),
            s == name@,
            forall|t: int| 0 <= t < m ==> s[b + t] == name_suffix()[t],
        decreases 4 - m,
    {
        if name.get_char(b + m) != suffix_char(m) {
            proof {
                if exists|v: Seq<char>, id: Seq<char>| matches_shape(s, v, id) {
                    let (v, id) = choose|v: Seq<char>, id: Seq<char>| matches_shape(s, v, id);
                    lemma_shape_positions(s, v, id);
                    assert(s[11 + v.len() + id.len() + m] == name_suffix()[m as int]);
                }
            }
            return None;
        }
        m = m + 1;
    }
    proof {
        let v = s.subrange(10, a as int);
        let id = s.subrange(a + 1, b as int);
        assert(all_digits(v)) by {
            assert forall|t: int| 0 <= t < v.len() implies is_digit(#[trigger] v[t]) by {
                assert(v[t] == s[10 + t]);
            }
        }
        assert(all_digits(id)) by {
            assert forall|t: int| 0 <= t < id.len() implies is_digit(#[trigger] id[t]) by {
                assert(id[t] == s[a + 1 + t]);
            }
        }
        assert(s =~= shaped(v, id));
    }
    Some((a, b))
}


proof fn lemma_digits_step(s: Seq<char>, start: int, i: int)
    requires
        0 <= start <= i < s.len(),
    ensures
        digits_value(s.subrange(start, i + 1)) == digits_value(s.subrange(start, i)) * 10
            + digit_value(s[i]),
{
    assert(s.subrange(start, i + 1).drop_last() =~= s.subrange(start, i));
}

/// The value of the digits of `name` in `[start, end)`, when it is at most
/// `limit`.
fn parse_digits(name: &str, start: usize, end: usize, limit: u64) -> (r: Option<u64>)
    requires
        start <= end <= name@.len(),
        limit >= 9,
        forall|t: int| start <= t < end ==> is_digit(#[trigger] name@[t]),
    ensures
        match r {
            Some(v) => v == digits_value(name@.subrange(start as int, end as int)) && v <= limit,
            None => digits_value(name@.subrange(start as int, end as int)) > limit,
        },
{
    let ghost s = name@;
    let mut value: u64 = 0;
    let mut over = false;
    let mut i = start;
    proof {
        assert(s.subrange(start as int, start as int) =~= Seq::<char>::empty());
    }
    while i < end
        invariant
            start <= i <= end,
            end <= s.len(),
            s == name@,
            limit >= 9,
            forall|t: int| start <= t < end ==> is_digit(#[trigger] s[t]),
            !over ==> value == digits_value(s.subrange(start as int, i as int)) && value <= limit,
            over ==> digits_value(s.subrange(start as int, i as int)) > limit,
        decreases end - i,
    {
        let c = name.get_char(i);
        assert(is_digit(s[i as int]));
        let d = (c as u32 - '0' as u32) as u64;
        proof {
            lemma_digits_step(s, start as int, i as int);
        }
        if !over {
            if value > (limit - d) / 10 {
                assert(value * 10 + d > limit) by (nonlinear_arith)
                    requires
                        value > (limit - d) / 10,
                        d <= 9,
                        limit >= 9,
                ;
                over = true;
            } else {
                assert(value * 10 + d <= limit) by (nonlinear_arith)
                    requires
                        value <= (limit - d) / 10,
                        d <= 9,
                        limit >= 9,
                ;
                value = value * 10 + d;
            }
        }
        i = i + 1;
    }
    if over {
        None
    } else {
        Some(value)
    }
}

impl Descriptor {
    /// Reads a segment file name `CommitLog-<version>-<id>.log`.  The version
    /// must be 1; the descriptor returned is that of segment `<id>`, named as
    /// `create` names it.
    pub fn try_create(file_name: &str) -> (r: Result<Descriptor, DescriptorError>)
        ensures
            match r {
                Ok(d) => d.wf() && d.spec_filename() == descriptor_filename(d.spec_segment_id())
                    && parse_outcome(file_name@) == Ok::<u64, DescriptorError>(d.spec_segment_id()),
                Err(e) => parse_outcome(file_name@) == Err::<u64, DescriptorError>(e),
            },
    {
        let (a, b) = match split_name(file_name) {
            Some(p) => p,
            None => return Err(DescriptorError::Malformed),
        };
        let ghost s = file_name@;
        let ghost v = s.subrange(10, a as int);
        let ghost id = s.subrange(a + 1, b as int);
        proof {
            let (v2, id2) = choose|v2: Seq<char>, id2: Seq<char>| matches_shape(s, v2, id2);
            lemma_shape_unique(s, v, id, v2, id2);
            assert forall|t: int| 10 <= t < a implies is_digit(#[trigger] s[t]) by {
                assert(s[t] == v[t - 10]);
            }
            assert forall|t: int| a + 1 <= t < b implies is_digit(#[trigger] s[t]) by {
                assert(s[t] == id[t - a - 1]);
            }
        }
        let version = match parse_digits(file_name, 10, a, 255) {
            Some(x) => x,
            None => return Err(DescriptorError::InvalidVersion),
        };
        if version != 1 {
            return Err(DescriptorError::UnsupportedVersion(version as u8));
        }
        let segment_id = match parse_digits(file_name, a + 1, b, u64::MAX) {
            Some(x) => x,
            None => return Err(DescriptorError::InvalidSegmentId),
        };
        Ok(Descriptor::create(segment_id))
    }
}


/// Writing a number in decimal and reading it back gives the number.
pub proof fn lemma_decimal_round_trip(n: nat)
    ensures
        all_digits(decimal(n)),
        digits_value(decimal(n)) == n,
    decreases n,
{
    assert(digit_value(digit_char(n % 10)) == n % 10);
    if n < 10 {
        assert(decimal(n).drop_last() =~= Seq::<char>::empty());
        assert(digits_value(decimal(n).drop_last()) == 0);
        assert(decimal(n).last() == digit_char(n));
    } else {
        lemma_decimal_round_trip(n / 10);
        assert(decimal(n).drop_last() =~= decimal(n / 10));
        assert(decimal(n).last() == digit_char(n % 10));
        assert forall|i: int| 0 <= i < decimal(n).len() implies is_digit(#[trigger] decimal(n)[i]) by {
            if i < decimal(n / 10).len() {
                assert(decimal(n)[i] == decimal(n / 10)[i]);
            }
        }
    }
}

/// Reading back the name that `Descriptor::create` gives segment `id`
/// yields `id`.
pub proof fn lemma_filename_round_trip(id: u64)
    ensures
        parse_outcome(descriptor_filename(id)) == Ok::<u64, DescriptorError>(id),
{
    let name = descriptor_filename(id);
    let v = seq!['1'];
    let d = decimal(id as nat);
    lemma_decimal_round_trip(id as nat);
    assert(v.drop_last() =~= Seq::<char>::empty());
    assert('1' as int == 49);
    assert('0' as int == 48);
    assert(digit_value('1') == 1);
    assert(digits_value(v.drop_last()) == 0);
    assert(v.last() == '1');
    assert(digits_value(v) == 1);
    assert(matches_shape(name, v, d));
    let (v2, d2) = choose|v2: Seq<char>, d2: Seq<char>| matches_shape(name, v2, d2);
    lemma_shape_unique(name, v, d, v2, d2);
}

/// Distinct segments get distinct file names.
pub proof fn lemma_filename_injective(a: u64, b: u64)
    requires
        descriptor_filename(a) == descriptor_filename(b),
    ensures
        a == b,
{
    lemma_filename_round_trip(a);
    lemma_filename_round_trip(b);
}


/// What reading a version number from `s` gives: an optional `+`, then
/// decimal digits whose value is a byte, and that byte must be 1.
pub open spec fn version_outcome(s: Seq<char>) -> Result<Version, DescriptorError> {
    let digits = if s.len() > 0 && s[0] == '+' { s.drop_first() } else { s };
    if !all_digits(digits) || digits_value(digits) > 255 {
        Err(DescriptorError::InvalidVersion)
    } else if digits_value(digits) != 1 {
        Err(DescriptorError::UnsupportedVersion(digits_value(digits) as u8))
    } else {
        Ok(Version::V1)
    }
}

impl Version {
    /// Reads a version number: an unsigned byte in decimal, which must be 1.
    pub fn parse(s: &str) -> (r: Result<Version, DescriptorError>)
        ensures
            r == version_outcome(s@),
    {
        let n = s.unicode_len();
        let start: usize = if n > 0 && s.get_char(0) == '+' { 1 } else { 0 };
        let ghost digits = if s@.len() > 0 && s@[0] == '+' { s@.drop_first() } else { s@ };
        proof {
            assert(digits =~= s@.subrange(start as int, n as int));
        }
        if start == n {
            return Err(DescriptorError::InvalidVersion);
        }
        let mut i = start;
        while i < n
            invariant
                start <= i <= n,
                n == s@.len(),
                digits == s@.subrange(start as int, n as int),
                digits == (if s@.len() > 0 && s@[0] == '+' { s@.drop_first() } else { s@ }),
                forall|t: int| start <= t < i ==> is_digit(#[trigger] s@[t]),
            decreases n - i,
        {
            if !is_digit_char(s.get_char(i)) {
                proof {
                    assert(digits[i - start] == s@[i as int]);
                }
                return Err(DescriptorError::InvalidVersion);
            }
            i = i + 1;
        }
        proof {
            assert forall|t: int| 0 <= t < digits.len() implies is_digit(#[trigger] digits[t]) by {
                assert(digits[t] == s@[start + t]);
            }
        }
        match parse_digits(s, start, n, 255) {
            None => Err(DescriptorError::InvalidVersion),
            Some(v) => {
                if v != 1 {
                    Err(DescriptorError::UnsupportedVersion(v as u8))
                } else {
                    Ok(Version::V1)
                }
            },
        }
    }
}

impl Clone for Descriptor {
    fn clone(&self) -> (d: Descriptor)
        ensures
            d.spec_segment_id() == self.spec_segment_id(),
            d.spec_filename() == self.spec_filename(),
    {
        Descriptor { segment_id: self.segment_id, filename: self.filename.clone() }
    }
}

impl PartialEq for Descriptor {
    fn eq(&self, other: &Descriptor) -> (b: bool) {
        self.segment_id == other.segment_id && self.filename == other.filename
    }
}

impl vstd::std_specs::cmp::PartialEqSpecImpl for Descriptor {
    open spec fn obeys_eq_spec() -> bool {
        true
    }

    open spec fn eq_spec(&self, other: &Descriptor) -> bool {
        self.spec_segment_id() == other.spec_segment_id() && self.spec_filename() == other.spec_filename()
    }
}

} // verus!
