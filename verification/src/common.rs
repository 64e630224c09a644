//! Dimensioned counters, identifier newtypes, addresses and small buffer helpers.
use vstd::prelude::*;
use vstd::string::*;
use vstd::utf8::{encode_utf8, is_ascii_chars, is_ascii_chars_encode_utf8};

verus! {

/// A user id.
#[derive(Clone, Copy, Debug, PartialEq, Eq, Structural, PartialOrd, Ord, Hash)]
pub struct Uid(pub u128);

impl View for Uid {
    type V = nat;

    open spec fn view(&self) -> nat {
        self.0 as nat
    }
}

impl Uid {
    /// The id in decimal.
    pub fn to_string(&self) -> (r: String)
        ensures
            r@ == decimal_chars(self@),
    {
        decimal_text(self.0)
    }

    pub fn new(uid: usize) -> (r: Self)
        ensures
            r@ == uid,
    {
        Self(uid as u128)
    }

    /// The id as a machine word. Ids read from text may exceed a word; those are left out.
    pub fn to_usize(&self) -> (r: usize)
        requires
            self@ <= usize::MAX,
        ensures
            r == self@,
    {
        self.0 as usize
    }

    /// Parses a decimal id.
    pub fn try_from(input: &str) -> (r: Result<Self, CommonError>)
        ensures
            r == match decimal_id(input.spec_bytes()) {
                Ok(v) => Ok(Uid(v)),
                Err(e) => Err(e),
            },
    {
        match parse_decimal(input.as_bytes(), u128::MAX) {
            Ok(v) => Ok(Self(v)),
            Err(kind) => Err(CommonError::ParseIntErr(kind)),
        }
    }

    /// The id as 32 bits, the width the kernel uses on the wire.
    pub fn to_u32(self) -> (r: u32)
        requires
            self@ <= u32::MAX,
        ensures
            r == self@,
    {
        self.0 as u32
    }
}

/// A group id.
#[derive(Clone, Copy, Debug, PartialEq, Eq, Structural, PartialOrd, Ord, Hash)]
pub struct Gid(pub u128);

impl View for Gid {
    type V = nat;

    open spec fn view(&self) -> nat {
        self.0 as nat
    }
}

impl Gid {
    /// The id in decimal.
    pub fn to_string(&self) -> (r: String)
        ensures
            r@ == decimal_chars(self@),
    {
        decimal_text(self.0)
    }

    pub fn new(gid: usize) -> (r: Self)
        ensures
            r@ == gid,
    {
        Self(gid as u128)
    }

    /// The id as a machine word. Ids read from text may exceed a word; those are left out.
    pub fn to_usize(&self) -> (r: usize)
        requires
            self@ <= usize::MAX,
        ensures
            r == self@,
    {
        self.0 as usize
    }

    /// Parses a decimal id.
    pub fn try_from(input: &str) -> (r: Result<Self, CommonError>)
        ensures
            r == match decimal_id(input.spec_bytes()) {
                Ok(v) => Ok(Gid(v)),
                Err(e) => Err(e),
            },
    {
        match parse_decimal(input.as_bytes(), u128::MAX) {
            Ok(v) => Ok(Self(v)),
            Err(kind) => Err(CommonError::ParseIntErr(kind)),
        }
    }

    /// The id as 32 bits, the width the kernel uses on the wire.
    pub fn to_u32(self) -> (r: u32)
        requires
            self@ <= u32::MAX,
        ensures
            r == self@,
    {
        self.0 as u32
    }
}

/// The kernel's identifier of a socket, shared by a descriptor and its table line.
#[derive(Clone, Copy, Debug, PartialEq, Eq, Structural, PartialOrd, Ord, Hash)]
pub struct Inode(pub u128);

impl View for Inode {
    type V = nat;

    open spec fn view(&self) -> nat {
        self.0 as nat
    }
}

impl Inode {
    /// The id in decimal.
    pub fn to_string(&self) -> (r: String)
        ensures
            r@ == decimal_chars(self@),
    {
        decimal_text(self.0)
    }

    pub fn new(inode: usize) -> (r: Self)
        ensures
            r@ == inode,
    {
        Self(inode as u128)
    }

    /// Parses a decimal inode number.
    pub fn try_from(input: &str) -> (r: Result<Self, CommonError>)
        ensures
            r == match decimal_id(input.spec_bytes()) {
                Ok(v) => Ok(Inode(v)),
                Err(e) => Err(e),
            },
    {
        match parse_decimal(input.as_bytes(), u128::MAX) {
            Ok(v) => Ok(Self(v)),
            Err(kind) => Err(CommonError::ParseIntErr(kind)),
        }
    }
}

/// Nanoseconds since the Unix epoch.
#[derive(Clone, Copy, Debug, PartialEq, Eq, Structural, PartialOrd, Ord, Hash)]
pub struct Timestamp(pub u128);

impl View for Timestamp {
    type V = nat;

    open spec fn view(&self) -> nat {
        self.0 as nat
    }
}

impl Timestamp {
    pub fn new() -> (r: Self)
        ensures
            r@ == 0,
    {
        Self(0)
    }

    /// The time of the system clock. A clock set before the epoch reads as zero.
    pub fn get_curr_timestamp() -> Self {
        let reading = clock_reading();
        let nanos = match since_epoch(&reading) {
            Ok(span) => Some(nanos_of(&span)),
            Err(_) => None,
        };
        Self::of_reading(nanos)
    }

    /// The time stamp of a reading of the clock: the nanoseconds that it
    /// gave, or zero where the clock stood before the epoch and gave none.
    pub fn of_reading(reading: Option<u128>) -> (r: Self)
        ensures
            r == (match reading {
                Some(nanos) => Timestamp(nanos),
                None => Timestamp(0),
            }),
    {
        match reading {
            Some(nanos) => Self(nanos),
            None => Self(0),
        }
    }
}

/// A reading of the system clock, of which nothing is known here.
#[verifier::external_type_specification]
#[verifier::external_body]
pub struct ExSystemTime(std::time::SystemTime);

/// The failure of a clock that stands before the time it is held against.
#[verifier::external_type_specification]
#[verifier::external_body]
pub struct ExSystemTimeError(std::time::SystemTimeError);

/// `std::time::SystemTime::now`: a reading of the system clock. Nothing is
/// claimed of it.
#[verifier::external_body]
fn clock_reading() -> std::time::SystemTime {
    std::time::SystemTime::now()
}

/// `std::time::SystemTime::duration_since`, held against the epoch: the time
/// from the epoch to the reading, or a failure where the reading lies before
/// the epoch. Nothing is claimed of which it is.
#[verifier::external_body]
fn since_epoch(reading: &std::time::SystemTime) -> Result<
    std::time::Duration,
    std::time::SystemTimeError,
> {
    reading.duration_since(std::time::UNIX_EPOCH)
}

/// `std::time::Duration::as_nanos`: the whole nanoseconds of a span of time.
/// Nothing is claimed of the number.
#[verifier::external_body]
fn nanos_of(span: &std::time::Duration) -> u128 {
    span.as_nanos()
}

/// A duration in nanoseconds.
#[derive(Clone, Copy, Debug, PartialEq, Eq, Structural, PartialOrd, Ord, Hash)]
pub struct TimeCount(pub u128);

impl View for TimeCount {
    type V = nat;

    open spec fn view(&self) -> nat {
        self.0 as nat
    }
}

pub const NANOSECONDS_PER_SECOND: u128 = 1_000_000_000;

pub const NANOSECONDS_PER_MILLISECOND: u128 = 1_000_000;

pub const NANOSECONDS_PER_MICROSECOND: u128 = 1_000;

impl TimeCount {
    pub fn new() -> (r: Self)
        ensures
            r@ == 0,
    {
        Self(0)
    }

    pub fn from_secs(seconds: usize) -> (r: Self)
        ensures
            r@ == seconds * 1_000_000_000,
    {
        Self(seconds as u128 * NANOSECONDS_PER_SECOND)
    }

    pub fn from_milisecs(millisecs: usize) -> (r: Self)
        ensures
            r@ == millisecs * 1_000_000,
    {
        Self(millisecs as u128 * NANOSECONDS_PER_MILLISECOND)
    }

    pub fn from_microsecs(microsecs: usize) -> (r: Self)
        ensures
            r@ == microsecs * 1_000,
    {
        Self(microsecs as u128 * NANOSECONDS_PER_MICROSECOND)
    }

    pub fn from_nanosecs(nanosecs: usize) -> (r: Self)
        ensures
            r@ == nanosecs,
    {
        Self(nanosecs as u128)
    }

    /// Whether the sum of the two still fits the counter.
    pub fn can_add(self, other: Self) -> (r: bool)
        ensures
            r == (self@ + other@ <= u128::MAX),
    {
        self.0 <= u128::MAX - other.0
    }

    pub fn add(self, other: Self) -> (r: Self)
        requires
            self@ + other@ <= u128::MAX,
        ensures
            r@ == self@ + other@,
    {
        Self(self.0 + other.0)
    }

    pub fn add_assign(&mut self, other: Self)
        requires
            old(self)@ + other@ <= u128::MAX,
        ensures
            final(self)@ == old(self)@ + other@,
    {
        self.0 = self.0 + other.0;
    }
}

/// An amount of data in bytes.
#[derive(Clone, Copy, Debug, PartialEq, Eq, Structural, PartialOrd, Ord, Hash)]
pub struct DataCount(pub u128);

impl View for DataCount {
    type V = nat;

    open spec fn view(&self) -> nat {
        self.0 as nat
    }
}

impl DataCount {
    pub fn from_byte(byte: usize) -> (r: Self)
        ensures
            r@ == byte,
    {
        Self(byte as u128)
    }

    pub fn from_kb(kb: usize) -> (r: Self)
        ensures
            r@ == kb * 1024,
    {
        Self(kb as u128 * 1024)
    }

    pub fn from_mb(mb: usize) -> (r: Self)
        ensures
            r@ == mb * 1024 * 1024,
    {
        Self(mb as u128 * 1024 * 1024)
    }

    pub fn from_gb(gb: usize) -> (r: Self)
        ensures
            r@ == gb * 1024 * 1024 * 1024,
    {
        Self(gb as u128 * 1024 * 1024 * 1024)
    }

    pub fn from_tb(tb: usize) -> (r: Self)
        ensures
            r@ == tb * 1024 * 1024 * 1024 * 1024,
    {
        Self(tb as u128 * 1024 * 1024 * 1024 * 1024)
    }

    pub fn from_pb(pb: usize) -> (r: Self)
        ensures
            r@ == pb * 1024 * 1024 * 1024 * 1024 * 1024,
    {
        Self(pb as u128 * 1024 * 1024 * 1024 * 1024 * 1024)
    }

    pub fn from_eb(eb: usize) -> (r: Self)
        ensures
            r@ == eb * 1024 * 1024 * 1024 * 1024 * 1024 * 1024,
    {
        Self(eb as u128 * 1024 * 1024 * 1024 * 1024 * 1024 * 1024)
    }

    /// Whether the sum of the two still fits the counter.
    pub fn can_add(self, other: Self) -> (r: bool)
        ensures
            r == (self@ + other@ <= u128::MAX),
    {
        self.0 <= u128::MAX - other.0
    }

    pub fn add(self, other: Self) -> (r: Self)
        requires
            self@ + other@ <= u128::MAX,
        ensures
            r@ == self@ + other@,
    {
        Self(self.0 + other.0)
    }

    pub fn add_assign(&mut self, other: Self)
        requires
            old(self)@ + other@ <= u128::MAX,
        ensures
            final(self)@ == old(self)@ + other@,
    {
        self.0 = self.0 + other.0;
    }
}

/// A dimensionless count.
#[derive(Clone, Copy, Debug, PartialEq, Eq, Structural, PartialOrd, Ord, Hash)]
pub struct Count(pub u128);

impl View for Count {
    type V = nat;

    open spec fn view(&self) -> nat {
        self.0 as nat
    }
}

impl Count {
    pub fn new(count: usize) -> (r: Self)
        ensures
            r@ == count,
    {
        Self(count as u128)
    }

    /// Whether the sum of the two still fits the counter.
    pub fn can_add(self, other: Self) -> (r: bool)
        ensures
            r == (self@ + other@ <= u128::MAX),
    {
        self.0 <= u128::MAX - other.0
    }

    pub fn add(self, other: Self) -> (r: Self)
        requires
            self@ + other@ <= u128::MAX,
        ensures
            r@ == self@ + other@,
    {
        Self(self.0 + other.0)
    }

    pub fn add_assign(&mut self, other: Self)
        requires
            old(self)@ + other@ <= u128::MAX,
        ensures
            final(self)@ == old(self)@ + other@,
    {
        self.0 = self.0 + other.0;
    }
}

/// Byte order of a multi-byte field.
#[derive(Clone, Copy, Debug, PartialEq, Eq, Structural)]
pub enum Endian {
    Little,
    Big,
}

/// Why a run of bytes is not the decimal or hexadecimal number it should be.
#[derive(Clone, Copy, Debug, PartialEq, Eq, Structural)]
pub enum ParseIntErrorKind {
    /// Nothing to parse.
    Empty,
    /// A byte that is no digit of the radix.
    InvalidDigit,
    /// The number is larger than the target holds.
    PosOverflow,
}

#[derive(Debug)]
pub enum CommonError {
    OddLenHexStr(usize),
    ParseIntErr(ParseIntErrorKind),
    ConvertErr(String),
}

// ---------------------------------------------------------------------------
// Alignment

/// `n` rounded up to the next multiple of `align`.
pub open spec fn next_aligned(n: nat, align: nat) -> nat
    recommends
        align > 0,
{
    (((n + align - 1) as nat / align) * align) as nat
}

/// Rounding up lands on a multiple of `align`, at or after `n` and less than `align` away.
pub proof fn lemma_next_aligned(n: nat, align: nat)
    requires
        align > 0,
    ensures
        next_aligned(n, align) % align == 0,
        n <= next_aligned(n, align) < n + align,
        n % align == 0 ==> next_aligned(n, align) == n,
{
    let m = (n + align - 1) as nat;
    let q = m / align;
    vstd::arithmetic::div_mod::lemma_fundamental_div_mod(m as int, align as int);
    vstd::arithmetic::div_mod::lemma_mod_bound(m as int, align as int);
    assert(m == align * q + m % align);
    assert(q * align == align * q) by (nonlinear_arith);
    vstd::arithmetic::div_mod::lemma_mod_multiples_basic(q as int, align as int);
    if n % align == 0 {
        let k = n / align;
        vstd::arithmetic::div_mod::lemma_fundamental_div_mod(n as int, align as int);
        assert(n == align * k);
        assert(m == align * k + (align - 1));
        vstd::arithmetic::div_mod::lemma_fundamental_div_mod_converse(
            m as int,
            align as int,
            k as int,
            align - 1,
        );
        assert(q == k);
    }
}

/// Pads `buf` with zero bytes up to the next multiple of `align`.
pub fn align_buffer(buf: &mut Vec<u8>, align: usize)
    requires
        align > 0,
        old(buf).len() + align - 1 <= usize::MAX,
    ensures
        final(buf)@.len() == next_aligned(old(buf)@.len(), align as nat),
        final(buf)@.subrange(0, old(buf)@.len() as int) == old(buf)@,
        forall|i: int| old(buf)@.len() <= i < final(buf)@.len() ==> final(buf)@[i] == 0u8,
{
    let target = next_align_num(buf.len(), align);
    proof {
        lemma_next_aligned(buf@.len(), align as nat);
    }
    let ghost before = buf@;
    while buf.len() < target
        invariant
            before.len() <= buf@.len() <= target,
            buf@.subrange(0, before.len() as int) == before,
            forall|i: int| before.len() <= i < buf@.len() ==> buf@[i] == 0u8,
        decreases target - buf.len(),
    {
        buf.push(0u8);
        assert(buf@.subrange(0, before.len() as int) =~= before);
    }
    assert(buf@.subrange(0, before.len() as int) =~= before);
}

/// `curr_num` rounded up to the next multiple of `align`.
pub fn next_align_num(curr_num: usize, align: usize) -> (r: usize)
    requires
        align > 0,
        curr_num + align - 1 <= usize::MAX,
    ensures
        r == next_aligned(curr_num as nat, align as nat),
{
    proof {
        lemma_next_aligned(curr_num as nat, align as nat);
    }
    let q = (curr_num + (align - 1)) / align;
    assert(q * align == next_aligned(curr_num as nat, align as nat));
    q * align
}

// ---------------------------------------------------------------------------
// Decimal and hexadecimal text

pub open spec fn is_decimal_digit(b: u8) -> bool {
    0x30 <= b <= 0x39
}

/// Reads decimal digits from the left, starting from `acc`, as the standard
/// integer parser does: the first byte that is no digit, or the first step
/// that passes `max`, ends the reading with its error.
pub open spec fn decimal_fold(s: Seq<u8>, acc: nat, max: nat) -> Result<nat, ParseIntErrorKind>
    decreases s.len(),
{
    if s.len() == 0 {
        Ok(acc)
    } else if !is_decimal_digit(s[0]) {
        Err(ParseIntErrorKind::InvalidDigit)
    } else {
        let next = acc * 10 + (s[0] - 0x30) as nat;
        if next > max {
            Err(ParseIntErrorKind::PosOverflow)
        } else {
            decimal_fold(s.drop_first(), next, max)
        }
    }
}

/// What a run of bytes means as an unsigned decimal number of at most `max`:
/// one optional `+`, then at least one digit.
pub open spec fn decimal_number(s: Seq<u8>, max: nat) -> Result<nat, ParseIntErrorKind> {
    if s.len() == 0 {
        Err(ParseIntErrorKind::Empty)
    } else {
        let digits = if s[0] == 0x2bu8 {
            s.drop_first()
        } else {
            s
        };
        if digits.len() == 0 {
            Err(ParseIntErrorKind::InvalidDigit)
        } else {
            decimal_fold(digits, 0, max)
        }
    }
}

/// A decimal identifier of up to 128 bits, with the error an identifier type reports.
pub open spec fn decimal_id(s: Seq<u8>) -> Result<u128, CommonError> {
    match decimal_number(s, u128::MAX as nat) {
        Ok(v) => Ok(v as u128),
        Err(kind) => Err(CommonError::ParseIntErr(kind)),
    }
}

/// Parses an unsigned decimal number no larger than `max`.
pub fn parse_decimal(input: &[u8], max: u128) -> (r: Result<u128, ParseIntErrorKind>)
    ensures
        r matches Ok(v) ==> v <= max && decimal_number(input@, max as nat) == Ok::<
            nat,
            ParseIntErrorKind,
        >(v as nat),
        r matches Err(kind) ==> decimal_number(input@, max as nat) == Err::<nat, ParseIntErrorKind>(kind),
{
    if input.len() == 0 {
        return Err(ParseIntErrorKind::Empty);
    }
    let start: usize = if input[0] == 0x2b { 1 } else { 0 };
    if start == input.len() {
        return Err(ParseIntErrorKind::InvalidDigit);
    }
    let ghost digits = input@.subrange(start as int, input@.len() as int);
    assert(digits =~= if input@[0] == 0x2bu8 { input@.drop_first() } else { input@ });
    let mut acc: u128 = 0;
    let mut i: usize = start;
    while i < input.len()
        invariant
            start <= i <= input.len(),
            digits == input@.subrange(start as int, input@.len() as int),
            acc <= max,
            decimal_number(input@, max as nat) == decimal_fold(digits, 0, max as nat),
            decimal_fold(digits, 0, max as nat) == decimal_fold(
                input@.subrange(i as int, input@.len() as int),
                acc as nat,
                max as nat,
            ),
        decreases input.len() - i,
    {
        let b = input[i];
        let ghost rest = input@.subrange(i as int, input@.len() as int);
        assert(rest[0] == b);
        assert(rest.drop_first() =~= input@.subrange(i + 1, input@.len() as int));
        if b < 0x30 || b > 0x39 {
            assert(!is_decimal_digit(rest[0]));
            assert(decimal_fold(rest, acc as nat, max as nat) == Err::<nat, ParseIntErrorKind>(
                ParseIntErrorKind::InvalidDigit,
            ));
            return Err(ParseIntErrorKind::InvalidDigit);
        }
        let d: u128 = (b - 0x30) as u128;
        if d > max || acc > (max - d) / 10 {
            assert(acc * 10 + d > max);
            assert(decimal_fold(rest, acc as nat, max as nat) == Err::<nat, ParseIntErrorKind>(
                ParseIntErrorKind::PosOverflow,
            ));
            return Err(ParseIntErrorKind::PosOverflow);
        }
        assert(acc * 10 + d <= max);
        assert(decimal_fold(rest, acc as nat, max as nat) == decimal_fold(
            rest.drop_first(),
            (acc * 10 + d) as nat,
            max as nat,
        ));
        acc = acc * 10 + d;
        i = i + 1;
    }
    assert(input@.subrange(i as int, input@.len() as int).len() == 0);
    Ok(acc)
}


/// The value of one hexadecimal digit, in either case.
pub open spec fn hex_digit(b: u8) -> Option<u8> {
    if 0x30 <= b <= 0x39 {
        Some((b - 0x30) as u8)
    } else if 0x61 <= b <= 0x66 {
        Some((b - 0x61 + 10) as u8)
    } else if 0x41 <= b <= 0x46 {
        Some((b - 0x41 + 10) as u8)
    } else {
        None
    }
}

/// The byte that two characters spell in hexadecimal. As in the standard
/// radix parser, a `+` may stand in the place of the first digit.
pub open spec fn hex_pair(a: u8, b: u8) -> Option<u8> {
    match (hex_digit(a), hex_digit(b)) {
        (Some(hi), Some(lo)) => Some((hi * 16 + lo) as u8),
        (None, Some(lo)) => if a == 0x2bu8 {
            Some(lo)
        } else {
            None
        },
        _ => None,
    }
}

/// Output byte `j` of a hex string: the pair at `j` counted from the front
/// for big-endian input, from the back for little-endian input.
pub open spec fn hex_byte(s: Seq<u8>, endian: Endian, j: int) -> Option<u8> {
    let k = match endian {
        Endian::Big => j,
        Endian::Little => s.len() / 2 - 1 - j,
    };
    hex_pair(s[2 * k], s[2 * k + 1])
}

/// What a hex string decodes to: an odd length is refused with that length,
/// a pair that spells no byte with an invalid digit; otherwise one byte per pair.
pub open spec fn hex_string(s: Seq<u8>, endian: Endian) -> Result<Seq<u8>, CommonError> {
    if s.len() % 2 != 0 {
        Err(CommonError::OddLenHexStr(s.len() as usize))
    } else if exists|j: int| 0 <= j < s.len() / 2 && hex_byte(s, endian, j) is None {
        Err(CommonError::ParseIntErr(ParseIntErrorKind::InvalidDigit))
    } else {
        Ok(Seq::new(s.len() / 2, |j: int| hex_byte(s, endian, j).unwrap()))
    }
}

fn hex_digit_value(b: u8) -> (r: Option<u8>)
    ensures
        r == hex_digit(b),
{
    if 0x30 <= b && b <= 0x39 {
        Some(b - 0x30)
    } else if 0x61 <= b && b <= 0x66 {
        Some(b - 0x61 + 10)
    } else if 0x41 <= b && b <= 0x46 {
        Some(b - 0x41 + 10)
    } else {
        None
    }
}

fn hex_pair_value(a: u8, b: u8) -> (r: Option<u8>)
    ensures
        r == hex_pair(a, b),
{
    match (hex_digit_value(a), hex_digit_value(b)) {
        (Some(hi), Some(lo)) => Some(hi * 16 + lo),
        (None, Some(lo)) => if a == 0x2b {
            Some(lo)
        } else {
            None
        },
        _ => None,
    }
}

/// Decodes a string of hexadecimal pairs into bytes. Little-endian input
/// gives its bytes in reverse order.
pub fn parse_hex_str(input: &str, endian: Endian) -> (r: Result<Vec<u8>, CommonError>)
    ensures
        r matches Ok(v) ==> hex_string(input.spec_bytes(), endian) == Ok::<Seq<u8>, CommonError>(v@),
        r matches Err(e) ==> hex_string(input.spec_bytes(), endian) == Err::<Seq<u8>, CommonError>(e),
{
    parse_hex_bytes(input.as_bytes(), endian)
}

/// [`parse_hex_str`] on text held as bytes.
pub fn parse_hex_bytes(input: &[u8], endian: Endian) -> (r: Result<Vec<u8>, CommonError>)
    ensures
        r matches Ok(v) ==> hex_string(input@, endian) == Ok::<Seq<u8>, CommonError>(v@),
        r matches Err(e) ==> hex_string(input@, endian) == Err::<Seq<u8>, CommonError>(e),
{
    let len = input.len();
    if len % 2 != 0 {
        return Err(CommonError::OddLenHexStr(len));
    }
    let pairs = len / 2;
    let mut out: Vec<u8> = Vec::new();
    let mut j: usize = 0;
    while j < pairs
        invariant
            j <= pairs,
            pairs == input@.len() / 2,
            input@.len() % 2 == 0,
            out@.len() == j,
            len == input@.len(),
            forall|i: int|
                0 <= i < j ==> #[trigger] hex_byte(input@, endian, i) == Some(out@[i]),
        decreases pairs - j,
    {
        let k = match endian {
            Endian::Big => j,
            Endian::Little => pairs - 1 - j,
        };
        match hex_pair_value(input[2 * k], input[2 * k + 1]) {
            Some(byte) => {
                out.push(byte);
            },
            None => {
                assert(hex_byte(input@, endian, j as int) is None);
                return Err(CommonError::ParseIntErr(ParseIntErrorKind::InvalidDigit));
            },
        }
        j = j + 1;
    }
    assert(out@ =~= Seq::new(input@.len() / 2, |j: int| hex_byte(input@, endian, j).unwrap()));
    Ok(out)
}

// ---------------------------------------------------------------------------
// Addresses

/// An IPv4 or IPv6 address, held as the number its bytes spell in network order.
#[derive(Clone, Copy, Debug, PartialEq, Eq, Structural, Hash)]
pub enum IpAddress {
    V4(u32),
    V6(u128),
}

impl IpAddress {
    /// Whether this is the all-zero address of its family, which a socket
    /// that is unbound or listening shows.
    pub fn is_unspecified(&self) -> (r: bool)
        ensures
            r == (*self == IpAddress::V4(0) || *self == IpAddress::V6(0)),
    {
        match self {
            IpAddress::V4(bits) => *bits == 0,
            IpAddress::V6(bits) => *bits == 0,
        }
    }
}

/// Whether `addr` lies in the network of `net_addr` under `net_mask`: the three
/// must be of one family, and `addr` and `net_addr` agree on every bit of the mask.
pub open spec fn in_network(addr: IpAddress, net_addr: IpAddress, net_mask: IpAddress) -> Result<
    bool,
    (),
> {
    match (addr, net_addr, net_mask) {
        (IpAddress::V4(a), IpAddress::V4(n), IpAddress::V4(m)) => Ok(a & m == n & m),
        (IpAddress::V6(a), IpAddress::V6(n), IpAddress::V6(m)) => Ok(a & m == n & m),
        _ => Err(()),
    }
}

pub fn addr_in_network(addr: &IpAddress, net_addr: &IpAddress, net_mask: &IpAddress) -> (r: Result<
    bool,
    (),
>)
    ensures
        r == in_network(*addr, *net_addr, *net_mask),
{
    match (addr, net_addr, net_mask) {
        (IpAddress::V4(a), IpAddress::V4(n), IpAddress::V4(m)) => Ok(*a & *m == *n & *m),
        (IpAddress::V6(a), IpAddress::V6(n), IpAddress::V6(m)) => Ok(*a & *m == *n & *m),
        _ => Err(()),
    }
}


// ---------------------------------------------------------------------------
// Decimal text of a number

/// The character of one decimal digit.
pub open spec fn digit_char(d: nat) -> char {
    if d == 0 {
        '0'
    } else if d == 1 {
        '1'
    } else if d == 2 {
        '2'
    } else if d == 3 {
        '3'
    } else if d == 4 {
        '4'
    } else if d == 5 {
        '5'
    } else if d == 6 {
        '6'
    } else if d == 7 {
        '7'
    } else if d == 8 {
        '8'
    } else {
        '9'
    }
}

/// A number in decimal: its digits from the highest on, without leading zeros.
pub open spec fn decimal_chars(n: nat) -> Seq<char>
    decreases n,
{
    if n < 10 {
        seq![digit_char(n)]
    } else {
        decimal_chars(n / 10).push(digit_char(n % 10))
    }
}

fn digit_text(d: u8) -> (r: &'static str)
    requires
        d < 10,
    ensures
        r@ == seq![digit_char(d as nat)],
{
    proof {
        reveal_strlit("0");
        reveal_strlit("1");
        reveal_strlit("2");
        reveal_strlit("3");
        reveal_strlit("4");
        reveal_strlit("5");
        reveal_strlit("6");
        reveal_strlit("7");
        reveal_strlit("8");
        reveal_strlit("9");
    }
    let text = if d == 0 {
        "0"
    } else if d == 1 {
        "1"
    } else if d == 2 {
        "2"
    } else if d == 3 {
        "3"
    } else if d == 4 {
        "4"
    } else if d == 5 {
        "5"
    } else if d == 6 {
        "6"
    } else if d == 7 {
        "7"
    } else if d == 8 {
        "8"
    } else {
        "9"
    };
    assert(text@ =~= seq![digit_char(d as nat)]);
    text
}

/// Writes a number in decimal.
pub fn decimal_text(n: u128) -> (r: String)
    ensures
        r@ == decimal_chars(n as nat),
    decreases n,
{
    if n < 10 {
        digit_text(n as u8).to_owned()
    } else {
        let mut text = decimal_text(n / 10);
        text.append(digit_text((n % 10) as u8));
        assert(text@ =~= decimal_chars((n / 10) as nat).push(digit_char((n % 10) as nat)));
        text
    }
}

/// Reading digits that have one more digit at their end: what the digits
/// before it gave, times ten, and the last digit, unless that passes `max`.
proof fn lemma_decimal_fold_push(s: Seq<u8>, d: nat, acc: nat, max: nat)
    requires
        d < 10,
    ensures
        decimal_fold(s.push((0x30 + d) as u8), acc, max) == (match decimal_fold(s, acc, max) {
            Err(kind) => Err::<nat, ParseIntErrorKind>(kind),
            Ok(v) => if v * 10 + d > max {
                Err::<nat, ParseIntErrorKind>(ParseIntErrorKind::PosOverflow)
            } else {
                Ok::<nat, ParseIntErrorKind>(v * 10 + d)
            },
        }),
    decreases s.len(),
{
    let b = (0x30 + d) as u8;
    let t = s.push(b);
    assert((b - 0x30) as nat == d);
    if s.len() == 0 {
        assert(t.drop_first() =~= Seq::<u8>::empty());
        assert(t[0] == b);
        assert(decimal_fold(s, acc, max) == Ok::<nat, ParseIntErrorKind>(acc));
        if acc * 10 + d <= max {
            assert(decimal_fold(t.drop_first(), acc * 10 + d, max) == Ok::<nat, ParseIntErrorKind>(
                acc * 10 + d,
            ));
        }
    } else {
        let next = acc * 10 + (s[0] - 0x30) as nat;
        assert(t[0] == s[0]);
        assert(t.drop_first() =~= s.drop_first().push(b));
        if is_decimal_digit(s[0]) && next <= max {
            lemma_decimal_fold_push(s.drop_first(), d, next, max);
            assert(decimal_fold(s, acc, max) == decimal_fold(s.drop_first(), next, max));
            assert(decimal_fold(t, acc, max) == decimal_fold(t.drop_first(), next, max));
        }
    }
}

/// The text of a number is read back as the number: what an identifier
/// shows is what it parses from.
pub proof fn lemma_decimal_text_round_trip(n: nat, max: nat)
    requires
        n <= max,
    ensures
        decimal_number(encode_utf8(decimal_chars(n)), max) == Ok::<nat, ParseIntErrorKind>(n),
{
    lemma_decimal_chars(n);
    let chars = decimal_chars(n);
    is_ascii_chars_encode_utf8(chars);
    let bytes = encode_utf8(chars);
    assert(bytes =~= decimal_digits(n)) by {
        assert forall|i: int| 0 <= i < bytes.len() implies bytes[i] == decimal_digits(n)[i] by {
            assert(chars[i] as u8 == bytes[i]);
        }
    }
    lemma_decimal_digits_fold(n, max);
    lemma_decimal_digits_head(n);
}

/// The digits of a number as bytes.
pub open spec fn decimal_digits(n: nat) -> Seq<u8>
    decreases n,
{
    if n < 10 {
        seq![(0x30 + n) as u8]
    } else {
        decimal_digits(n / 10).push((0x30 + n % 10) as u8)
    }
}

proof fn lemma_decimal_chars(n: nat)
    ensures
        is_ascii_chars(decimal_chars(n)),
        decimal_chars(n).len() == decimal_digits(n).len(),
        forall|i: int|
            0 <= i < decimal_chars(n).len() ==> (#[trigger] decimal_chars(n)[i]) as u8
                == decimal_digits(n)[i],
    decreases n,
{
    if n >= 10 {
        lemma_decimal_chars(n / 10);
    }
}

proof fn lemma_decimal_digits_head(n: nat)
    ensures
        decimal_digits(n).len() > 0,
        is_decimal_digit(decimal_digits(n)[0]),
    decreases n,
{
    if n >= 10 {
        lemma_decimal_digits_head(n / 10);
    }
}

proof fn lemma_decimal_digits_fold(n: nat, max: nat)
    requires
        n <= max,
    ensures
        decimal_fold(decimal_digits(n), 0, max) == Ok::<nat, ParseIntErrorKind>(n),
    decreases n,
{
    if n < 10 {
        lemma_decimal_fold_push(Seq::<u8>::empty(), n, 0, max);
        assert(Seq::<u8>::empty().push((0x30 + n) as u8) =~= decimal_digits(n));
    } else {
        lemma_decimal_digits_fold(n / 10, max);
        lemma_decimal_fold_push(decimal_digits(n / 10), n % 10, 0, max);
    }
}

} // verus!
