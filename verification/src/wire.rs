//! Unsigned integers as runs of bytes, in either byte order.
use crate::common::Endian;
use vstd::prelude::*;

verus! {

/// 256 to the power `n`.
pub open spec fn pow256(n: nat) -> nat
    decreases n,
{
    if n == 0 {
        1
    } else {
        256 * pow256((n - 1) as nat)
    }
}

/// The number whose little-endian digits in base 256 are `s`.
pub open spec fn le_value(s: Seq<u8>) -> nat
    decreases s.len(),
{
    if s.len() == 0 {
        0
    } else {
        s[0] as nat + 256 * le_value(s.drop_first())
    }
}

/// The `n` low little-endian digits of `x` in base 256.
pub open spec fn le_bytes(x: nat, n: nat) -> Seq<u8>
    decreases n,
{
    if n == 0 {
        Seq::empty()
    } else {
        seq![(x % 256) as u8] + le_bytes(x / 256, (n - 1) as nat)
    }
}

/// The number that `s` holds in the given byte order.
pub open spec fn uint_value(s: Seq<u8>, endian: Endian) -> nat {
    match endian {
        Endian::Little => le_value(s),
        Endian::Big => le_value(s.reverse()),
    }
}

/// The `n` bytes that hold `x` in the given byte order.
pub open spec fn uint_bytes(x: nat, n: nat, endian: Endian) -> Seq<u8> {
    match endian {
        Endian::Little => le_bytes(x, n),
        Endian::Big => le_bytes(x, n).reverse(),
    }
}

pub proof fn lemma_pow256_values()
    ensures
        pow256(0) == 1,
        pow256(1) == 0x100,
        pow256(2) == 0x1_0000,
        pow256(4) == 0x1_0000_0000,
        pow256(8) == 0x1_0000_0000_0000_0000,
        pow256(16) == 0x1_0000_0000_0000_0000_0000_0000_0000_0000,
{
    reveal_with_fuel(pow256, 17);
}

pub proof fn lemma_le_bytes_len(x: nat, n: nat)
    ensures
        le_bytes(x, n).len() == n,
    decreases n,
{
    if n > 0 {
        lemma_le_bytes_len(x / 256, (n - 1) as nat);
    }
}

/// A run of `n` bytes holds a number below 256 to the `n`.
pub proof fn lemma_le_value_bound(s: Seq<u8>)
    ensures
        le_value(s) < pow256(s.len()),
    decreases s.len(),
{
    if s.len() > 0 {
        lemma_le_value_bound(s.drop_first());
    }
}

/// Reading back the bytes of a number that fits gives the number.
pub proof fn lemma_le_value_of_bytes(x: nat, n: nat)
    requires
        x < pow256(n),
    ensures
        le_value(le_bytes(x, n)) == x,
    decreases n,
{
    if n > 0 {
        let rest = le_bytes(x / 256, (n - 1) as nat);
        lemma_le_value_of_bytes(x / 256, (n - 1) as nat);
        assert(le_bytes(x, n).drop_first() =~= rest);
        assert(le_bytes(x, n)[0] == (x % 256) as u8);
    }
}

/// Writing the number that a run of bytes holds gives the bytes back.
pub proof fn lemma_le_bytes_of_value(s: Seq<u8>)
    ensures
        le_bytes(le_value(s), s.len()) == s,
    decreases s.len(),
{
    if s.len() > 0 {
        lemma_le_bytes_of_value(s.drop_first());
        let v = le_value(s);
        assert(v % 256 == s[0] as nat);
        assert(v / 256 == le_value(s.drop_first()));
        assert(le_bytes(v, s.len()) =~= s);
    }
}

/// Decoding what was encoded, in one byte order, gives the number back.
pub proof fn lemma_uint_round_trip(x: nat, n: nat, endian: Endian)
    requires
        x < pow256(n),
    ensures
        uint_bytes(x, n, endian).len() == n,
        uint_value(uint_bytes(x, n, endian), endian) == x,
{
    lemma_le_bytes_len(x, n);
    lemma_le_value_of_bytes(x, n);
    assert(le_bytes(x, n).reverse().reverse() =~= le_bytes(x, n));
}

/// Encoding what was decoded, in one byte order, gives the bytes back.
pub proof fn lemma_bytes_round_trip(s: Seq<u8>, endian: Endian)
    ensures
        uint_bytes(uint_value(s, endian), s.len(), endian) == s,
        uint_value(s, endian) < pow256(s.len()),
{
    lemma_le_bytes_of_value(s);
    lemma_le_bytes_of_value(s.reverse());
    lemma_le_value_bound(s);
    lemma_le_value_bound(s.reverse());
    assert(s.reverse().reverse() =~= s);
}

/// Reads the `n` bytes at `at` as one unsigned number.
pub fn read_uint(data: &[u8], at: usize, n: usize, endian: Endian) -> (r: u128)
    requires
        n <= 16,
        at + n <= data.len(),
    ensures
        r == uint_value(data@.subrange(at as int, at + n), endian),
        r < pow256(n as nat),
{
    let ghost field = data@.subrange(at as int, at + n);
    let mut acc: u128 = 0;
    let mut i: usize = 0;
    proof {
        lemma_pow256_values();
    }
    match endian {
        Endian::Big => {
            while i < n
                invariant
                    i <= n <= 16,
                    at + n <= data.len(),
                    acc == le_value(data@.subrange(at as int, at + i).reverse()),
                    acc < pow256(i as nat),
                    pow256(16) == 0x1_0000_0000_0000_0000_0000_0000_0000_0000,
                decreases n - i,
            {
                let ghost before = data@.subrange(at as int, at + i).reverse();
                let ghost after = data@.subrange(at as int, at + i + 1).reverse();
                proof {
                    assert(after.drop_first() =~= before);
                    assert(after[0] == data@[at + i]);
                    lemma_pow256_mono((i + 1) as nat, 16);
                }
                acc = acc * 256 + data[at + i] as u128;
                i = i + 1;
            }
        },
        Endian::Little => {
            while i < n
                invariant
                    i <= n <= 16,
                    at + n <= data.len(),
                    acc == le_value(data@.subrange(at + n - i, at + n)),
                    acc < pow256(i as nat),
                    pow256(16) == 0x1_0000_0000_0000_0000_0000_0000_0000_0000,
                decreases n - i,
            {
                let ghost before = data@.subrange(at + n - i, at + n);
                let ghost after = data@.subrange(at + n - i - 1, at + n);
                proof {
                    assert(after.drop_first() =~= before);
                    assert(after[0] == data@[at + n - i - 1]);
                    lemma_pow256_mono((i + 1) as nat, 16);
                }
                acc = acc * 256 + data[at + n - i - 1] as u128;
                i = i + 1;
            }
        },
    }
    acc
}

pub proof fn lemma_pow256_mono(a: nat, b: nat)
    requires
        a <= b,
    ensures
        pow256(a) <= pow256(b),
        pow256(a) >= 1,
    decreases b,
{
    if a < b {
        lemma_pow256_mono(a, (b - 1) as nat);
    } else if a > 0 {
        lemma_pow256_mono((a - 1) as nat, (b - 1) as nat);
    }
}

/// Appends `x` to `buf` as `n` bytes. A number too wide for `n` bytes loses its high part.
pub fn append_uint(buf: &mut Vec<u8>, x: u128, n: usize, endian: Endian)
    requires
        n <= 16,
    ensures
        final(buf)@ == old(buf)@ + uint_bytes(x as nat, n as nat, endian),
{
    let ghost before = buf@;
    let mut digits: Vec<u8> = Vec::new();
    let mut v: u128 = x;
    let mut i: usize = 0;
    while i < n
        invariant
            i <= n,
            digits@.len() == i,
            digits@ + le_bytes(v as nat, (n - i) as nat) == le_bytes(x as nat, n as nat),
        decreases n - i,
    {
        let ghost tail = le_bytes((v / 256) as nat, (n - i - 1) as nat);
        proof {
            assert(le_bytes(v as nat, (n - i) as nat) == seq![(v % 256) as u8] + tail);
            assert(digits@.push((v % 256) as u8) + tail =~= digits@ + (seq![(v % 256) as u8]
                + tail));
        }
        digits.push((v % 256) as u8);
        v = v / 256;
        i = i + 1;
    }
    assert(digits@ =~= le_bytes(x as nat, n as nat));
    match endian {
        Endian::Little => {
            let mut j: usize = 0;
            while j < n
                invariant
                    j <= n,
                    digits@.len() == n,
                    buf@ == before + digits@.subrange(0, j as int),
                decreases n - j,
            {
                buf.push(digits[j]);
                assert(digits@.subrange(0, j + 1) =~= digits@.subrange(0, j as int).push(
                    digits@[j as int],
                ));
                assert(buf@ =~= before + digits@.subrange(0, j + 1));
                j = j + 1;
            }
            assert(digits@.subrange(0, n as int) =~= digits@);
        },
        Endian::Big => {
            let mut j: usize = 0;
            while j < n
                invariant
                    j <= n,
                    digits@.len() == n,
                    buf@ == before + digits@.reverse().subrange(0, j as int),
                decreases n - j,
            {
                buf.push(digits[n - 1 - j]);
                assert(digits@.reverse().subrange(0, j + 1) =~= digits@.reverse().subrange(
                    0,
                    j as int,
                ).push(digits@[n - 1 - j]));
                assert(buf@ =~= before + digits@.reverse().subrange(0, j + 1));
                j = j + 1;
            }
            assert(digits@.reverse().subrange(0, n as int) =~= digits@.reverse());
        },
    }
}

/// `std`'s `u16::to_ne_bytes`: the two bytes of `x` in the order of the machine
/// that runs this, which is one of the two orders.
#[verifier::external_body]
fn native_u16_bytes(x: u16) -> (r: [u8; 2])
    ensures
        r@ == uint_bytes(x as nat, 2, Endian::Little) || r@ == uint_bytes(x as nat, 2, Endian::Big),
{
    x.to_ne_bytes()
}

/// The byte order of the machine that runs this. The kernel speaks netlink in it.
pub fn host_endian() -> Endian {
    let probe = native_u16_bytes(1);
    endian_shown_by(&probe)
}

/// The byte order that the two bytes of the number one show: little-endian
/// where the first byte is the one, big-endian otherwise. Bytes that are the
/// number one in either order are the number one in the order returned.
pub fn endian_shown_by(probe: &[u8; 2]) -> (r: Endian)
    ensures
        r == (if probe@[0] == 1 {
            Endian::Little
        } else {
            Endian::Big
        }),
        probe@ == uint_bytes(1, 2, Endian::Little) || probe@ == uint_bytes(1, 2, Endian::Big)
            ==> probe@ == uint_bytes(1, 2, r),
{
    proof {
        reveal_with_fuel(le_bytes, 3);
        assert(uint_bytes(1, 2, Endian::Little) =~= seq![1u8, 0u8]);
        assert(uint_bytes(1, 2, Endian::Big) =~= seq![0u8, 1u8]);
    }
    if probe[0] == 1 {
        Endian::Little
    } else {
        Endian::Big
    }
}


/// The big-endian number in the `n` bytes of `s` at `at`.
pub open spec fn be_at(s: Seq<u8>, at: int, n: int) -> nat {
    uint_value(s.subrange(at, at + n), Endian::Big)
}

/// Reads a big-endian 16-bit number at `at`.
pub fn read_be16(data: &[u8], at: usize) -> (r: u16)
    requires
        at + 2 <= data.len(),
    ensures
        r == be_at(data@, at as int, 2),
{
    proof {
        lemma_pow256_values();
    }
    read_uint(data, at, 2, Endian::Big) as u16
}

/// Reads a big-endian 32-bit number at `at`.
pub fn read_be32(data: &[u8], at: usize) -> (r: u32)
    requires
        at + 4 <= data.len(),
    ensures
        r == be_at(data@, at as int, 4),
{
    proof {
        lemma_pow256_values();
    }
    read_uint(data, at, 4, Endian::Big) as u32
}

/// Reads a big-endian 128-bit number at `at`.
pub fn read_be128(data: &[u8], at: usize) -> (r: u128)
    requires
        at + 16 <= data.len(),
    ensures
        r == be_at(data@, at as int, 16),
{
    read_uint(data, at, 16, Endian::Big)
}


/// The bytes of a record of unsigned fields, one after the other: field `i`
/// holds `values[i]` in `widths[i]` bytes.
pub open spec fn fields_wire(values: Seq<nat>, widths: Seq<nat>, endian: Endian) -> Seq<u8>
    recommends
        values.len() == widths.len(),
    decreases widths.len(),
{
    if widths.len() == 0 {
        Seq::empty()
    } else {
        uint_bytes(values[0], widths[0], endian) + fields_wire(
            values.drop_first(),
            widths.drop_first(),
            endian,
        )
    }
}

/// The number of bytes that fields of the given widths take together.
pub open spec fn fields_len(widths: Seq<nat>) -> nat
    decreases widths.len(),
{
    if widths.len() == 0 {
        0
    } else {
        widths[0] + fields_len(widths.drop_first())
    }
}

/// The values of the fields of the given widths that `buf` starts with.
pub open spec fn fields_parsed(buf: Seq<u8>, widths: Seq<nat>, endian: Endian) -> Seq<nat>
    decreases widths.len(),
{
    if widths.len() == 0 {
        Seq::empty()
    } else {
        seq![uint_value(buf.subrange(0, widths[0] as int), endian)] + fields_parsed(
            buf.subrange(widths[0] as int, buf.len() as int),
            widths.drop_first(),
            endian,
        )
    }
}

/// Each value fits the width of its field.
pub open spec fn fields_fit(values: Seq<nat>, widths: Seq<nat>) -> bool {
    &&& values.len() == widths.len()
    &&& forall|i: int| 0 <= i < values.len() ==> (#[trigger] values[i]) < pow256(widths[i])
}

pub proof fn lemma_fields_wire_len(values: Seq<nat>, widths: Seq<nat>, endian: Endian)
    requires
        values.len() == widths.len(),
    ensures
        fields_wire(values, widths, endian).len() == fields_len(widths),
    decreases widths.len(),
{
    if widths.len() > 0 {
        lemma_le_bytes_len(values[0], widths[0]);
        lemma_fields_wire_len(values.drop_first(), widths.drop_first(), endian);
    }
}

/// Fields that were written are read back as they were, whatever follows them.
pub proof fn lemma_fields_round_trip(values: Seq<nat>, widths: Seq<nat>, tail: Seq<u8>, endian: Endian)
    requires
        fields_fit(values, widths),
    ensures
        fields_parsed(fields_wire(values, widths, endian) + tail, widths, endian) == values,
    decreases widths.len(),
{
    let buf = fields_wire(values, widths, endian) + tail;
    if widths.len() > 0 {
        let first = uint_bytes(values[0], widths[0], endian);
        let rest = fields_wire(values.drop_first(), widths.drop_first(), endian);
        lemma_uint_round_trip(values[0], widths[0], endian);
        assert(buf.subrange(0, widths[0] as int) =~= first);
        assert(buf.subrange(widths[0] as int, buf.len() as int) =~= rest + tail);
        assert(fields_fit(values.drop_first(), widths.drop_first())) by {
            assert forall|i: int| 0 <= i < values.drop_first().len() implies (#[trigger] values.drop_first()[i])
                < pow256(widths.drop_first()[i]) by {
                assert(values.drop_first()[i] == values[i + 1]);
            }
        }
        lemma_fields_round_trip(values.drop_first(), widths.drop_first(), tail, endian);
        assert(seq![values[0]] + values.drop_first() =~= values);
    } else {
        assert(values =~= Seq::<nat>::empty());
    }
}

/// The numbers of a list as mathematical integers.
pub open spec fn as_nats(values: Seq<u128>) -> Seq<nat> {
    values.map_values(|v: u128| v as nat)
}

/// The widths of a list as mathematical integers.
pub open spec fn as_widths(widths: Seq<usize>) -> Seq<nat> {
    widths.map_values(|w: usize| w as nat)
}

/// Appends a record of fields to `buf`.
pub fn append_fields(buf: &mut Vec<u8>, values: &Vec<u128>, widths: &Vec<usize>, endian: Endian)
    requires
        values@.len() == widths@.len(),
        forall|i: int| 0 <= i < widths@.len() ==> (#[trigger] widths@[i]) <= 16,
    ensures
        final(buf)@ == old(buf)@ + fields_wire(as_nats(values@), as_widths(widths@), endian),
{
    let ghost before = buf@;
    let ghost vals = as_nats(values@);
    let ghost wids = as_widths(widths@);
    let mut i: usize = 0;
    assert(vals.subrange(0, vals.len() as int) =~= vals);
    assert(wids.subrange(0, wids.len() as int) =~= wids);
    while i < widths.len()
        invariant
            i <= widths@.len(),
            values@.len() == widths@.len(),
            vals == as_nats(values@),
            wids == as_widths(widths@),
            forall|j: int| 0 <= j < widths@.len() ==> (#[trigger] widths@[j]) <= 16,
            buf@ + fields_wire(
                vals.subrange(i as int, vals.len() as int),
                wids.subrange(i as int, wids.len() as int),
                endian,
            ) == before + fields_wire(vals, wids, endian),
        decreases widths.len() - i,
    {
        let ghost left_v = vals.subrange(i as int, vals.len() as int);
        let ghost left_w = wids.subrange(i as int, wids.len() as int);
        let ghost prior = buf@;
        append_uint(buf, values[i], widths[i], endian);
        proof {
            assert(left_v[0] == values@[i as int] as nat);
            assert(left_w[0] == widths@[i as int] as nat);
            assert(left_v.drop_first() =~= vals.subrange(i + 1, vals.len() as int));
            assert(left_w.drop_first() =~= wids.subrange(i + 1, wids.len() as int));
            let rest = fields_wire(left_v.drop_first(), left_w.drop_first(), endian);
            assert(buf@ + rest =~= prior + (uint_bytes(left_v[0], left_w[0], endian) + rest));
        }
        i = i + 1;
    }
    assert(vals.subrange(vals.len() as int, vals.len() as int) =~= Seq::<nat>::empty());
    assert(wids.subrange(wids.len() as int, wids.len() as int) =~= Seq::<nat>::empty());
    assert(buf@ =~= before + fields_wire(vals, wids, endian));
}

/// Reads a record of fields from `data` at `at`.
pub fn read_fields(data: &[u8], at: usize, widths: &Vec<usize>, endian: Endian) -> (r: Vec<u128>)
    requires
        at + fields_len(as_widths(widths@)) <= data@.len(),
        forall|i: int| 0 <= i < widths@.len() ==> (#[trigger] widths@[i]) <= 16,
    ensures
        as_nats(r@) == fields_parsed(
            data@.subrange(at as int, data@.len() as int),
            as_widths(widths@),
            endian,
        ),
        r@.len() == widths@.len(),
        forall|i: int| 0 <= i < r@.len() ==> (#[trigger] r@[i]) < pow256(widths@[i] as nat),
{
    let ghost wids = as_widths(widths@);
    let ghost source = data@.subrange(at as int, data@.len() as int);
    let mut out: Vec<u128> = Vec::new();
    let mut pos: usize = at;
    let mut i: usize = 0;
    let total = data.len();
    assert(wids.subrange(0, wids.len() as int) =~= wids);
    assert(as_nats(out@) + fields_parsed(source, wids, endian) =~= fields_parsed(
        source,
        wids,
        endian,
    ));
    while i < widths.len()
        invariant
            i <= widths@.len(),
            wids == as_widths(widths@),
            source == data@.subrange(at as int, data@.len() as int),
            forall|j: int| 0 <= j < widths@.len() ==> (#[trigger] widths@[j]) <= 16,
            at <= pos,
            total == data@.len(),
            pos + fields_len(wids.subrange(i as int, wids.len() as int)) <= data@.len(),
            out@.len() == i,
            forall|j: int| 0 <= j < i ==> (#[trigger] out@[j]) < pow256(widths@[j] as nat),
            as_nats(out@) + fields_parsed(
                data@.subrange(pos as int, data@.len() as int),
                wids.subrange(i as int, wids.len() as int),
                endian,
            ) == fields_parsed(source, wids, endian),
        decreases widths.len() - i,
    {
        let ghost left_w = wids.subrange(i as int, wids.len() as int);
        let ghost here = data@.subrange(pos as int, data@.len() as int);
        let ghost seen = as_nats(out@);
        let width = widths[i];
        assert(left_w[0] == width as nat);
        assert(fields_len(left_w) == left_w[0] + fields_len(left_w.drop_first()));
        assert(pos + width <= data@.len());
        let value = read_uint(data, pos, width, endian);
        proof {
            assert(here.subrange(0, width as int) =~= data@.subrange(pos as int, pos + width));
            assert(here.subrange(width as int, here.len() as int) =~= data@.subrange(
                pos + width,
                data@.len() as int,
            ));
            assert(left_w.drop_first() =~= wids.subrange(i + 1, wids.len() as int));
        }
        out.push(value);
        proof {
            let rest = fields_parsed(
                data@.subrange(pos + width, data@.len() as int),
                left_w.drop_first(),
                endian,
            );
            assert(as_nats(out@) =~= seen.push(value as nat));
            assert(seen.push(value as nat) + rest =~= seen + (seq![value as nat] + rest));
        }
        pos = pos + width;
        i = i + 1;
    }
    proof {
        assert(wids.subrange(wids.len() as int, wids.len() as int) =~= Seq::<nat>::empty());
        assert(as_nats(out@) + Seq::<nat>::empty() =~= as_nats(out@));
    }
    out
}

} // verus!
