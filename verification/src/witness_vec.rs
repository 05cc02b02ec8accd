use vstd::prelude::*;

use crate::field_element::FieldElement;

verus! {

/// The compact witness vector: a flat, layout-independent snapshot of one
/// proving attempt's witness data. `all_values[i]` is the resolved value of
/// raw location `i` and is meaningful for every location below the
/// assembly's next available index; any placement-map location that is not a
/// placeholder must be a valid index into it. Used to persist or transmit
/// witness data and to replay full dense columns elsewhere.
#[derive(Debug)]
pub struct WitnessVec {
    pub public_inputs_locations: Vec<(usize, usize)>,
    pub all_values: Vec<FieldElement>,
    pub multiplicities: Vec<u32>,
}

/// Decoding a compact witness vector from bytes crosses a process or storage
/// boundary where corruption is plausible, so a malformed stream is a
/// recoverable error for the caller, never an abort.
#[derive(Clone, Copy, PartialEq, Eq, Structural, Debug)]
pub enum SerializationError {
    Malformed,
}

/// `256^n`, the number of values a little-endian field of `n` bytes can hold.
pub open spec fn pow256(n: nat) -> nat
    decreases n,
{
    if n == 0 {
        1
    } else {
        256 * pow256((n - 1) as nat)
    }
}

/// The `n`-byte little-endian encoding of `v` (truncating above `256^n`).
pub open spec fn le_bytes(v: nat, n: nat) -> Seq<u8>
    decreases n,
{
    if n == 0 {
        Seq::empty()
    } else {
        seq![(v % 256) as u8] + le_bytes(v / 256, (n - 1) as nat)
    }
}

/// The value of a little-endian byte sequence.
pub open spec fn le_val(s: Seq<u8>) -> nat
    decreases s.len(),
{
    if s.len() == 0 {
        0
    } else {
        (s[0] as nat) + 256 * le_val(s.drop_first())
    }
}

pub proof fn lemma_pow256_pos(n: nat)
    ensures
        pow256(n) >= 1,
    decreases n,
{
    if n > 0 {
        lemma_pow256_pos((n - 1) as nat);
    }
}

pub proof fn lemma_pow256_monotonic(a: nat, b: nat)
    requires
        a <= b,
    ensures
        pow256(a) <= pow256(b),
    decreases b,
{
    if a < b {
        lemma_pow256_monotonic(a, (b - 1) as nat);
        lemma_pow256_pos((b - 1) as nat);
    }
}

/// The concrete widths this format uses.
pub proof fn lemma_pow256_values()
    ensures
        pow256(4) == 0x1_0000_0000,
        pow256(7) == 0x100_0000_0000_0000,
        pow256(8) == 0x1_0000_0000_0000_0000,
{
    assert(pow256(0) == 1);
    assert(pow256(1) == 256);
    assert(pow256(2) == 0x1_0000);
    assert(pow256(3) == 0x100_0000);
    assert(pow256(4) == 0x1_0000_0000);
    assert(pow256(5) == 0x100_0000_0000);
    assert(pow256(6) == 0x1_0000_0000_0000);
    assert(pow256(7) == 0x100_0000_0000_0000);
    assert(pow256(8) == 0x1_0000_0000_0000_0000);
}

pub proof fn lemma_le_bytes_len(v: nat, n: nat)
    ensures
        le_bytes(v, n).len() == n,
    decreases n,
{
    if n > 0 {
        lemma_le_bytes_len(v / 256, (n - 1) as nat);
    }
}

/// Reading back an `n`-byte little-endian field recovers the value written.
pub proof fn lemma_le_val_le_bytes(v: nat, n: nat)
    requires
        v < pow256(n),
    ensures
        le_val(le_bytes(v, n)) == v,
    decreases n,
{
    if n > 0 {
        lemma_le_bytes_len(v / 256, (n - 1) as nat);
        assert(le_bytes(v, n).drop_first() =~= le_bytes(v / 256, (n - 1) as nat));
        assert(v / 256 < pow256((n - 1) as nat)) by (nonlinear_arith)
            requires
                v < 256 * pow256((n - 1) as nat),
        ;
        lemma_le_val_le_bytes(v / 256, (n - 1) as nat);
        assert(v % 256 + 256 * (v / 256) == v) by (nonlinear_arith);
    }
}

/// Re-encoding the value of an `n`-byte field reproduces the bytes.
pub proof fn lemma_le_bytes_le_val(s: Seq<u8>)
    ensures
        le_bytes(le_val(s), s.len()) == s,
    decreases s.len(),
{
    if s.len() > 0 {
        let s0 = s[0] as nat;
        let rest = le_val(s.drop_first());
        let v = le_val(s);
        assert(v % 256 == s0 && v / 256 == rest) by (nonlinear_arith)
            requires
                v == s0 + 256 * rest,
                0 <= s0 < 256,
                rest >= 0,
        ;
        lemma_le_bytes_le_val(s.drop_first());
        assert(le_bytes(v, s.len()) =~= s);
    }
}

/// Byte position `i` of an `n`-byte little-endian field.
pub proof fn lemma_le_bytes_index(v: nat, n: nat, i: int)
    requires
        0 <= i < n,
    ensures
        le_bytes(v, n).len() == n,
        le_bytes(v, n)[i] == (((v / pow256(i as nat)) % 256) as u8),
    decreases n,
{
    lemma_le_bytes_len(v, n);
    if i == 0 {
        assert(v / pow256(0) == v) by (nonlinear_arith)
            requires
                pow256(0) == 1,
        ;
    } else {
        lemma_le_bytes_len(v / 256, (n - 1) as nat);
        assert(le_bytes(v, n)[i] == le_bytes(v / 256, (n - 1) as nat)[i - 1]);
        lemma_le_bytes_index(v / 256, (n - 1) as nat, i - 1);
        lemma_pow256_pos((i - 1) as nat);
        vstd::arithmetic::div_mod::lemma_div_denominator(
            v as int,
            256,
            pow256((i - 1) as nat) as int,
        );
        assert(pow256(i as nat) == 256 * pow256((i - 1) as nat));
    }
}

/// One encoded (column, row) public-input position: two 8-byte fields.
pub open spec fn enc_pair(p: (usize, usize)) -> Seq<u8> {
    le_bytes(p.0 as nat, 8) + le_bytes(p.1 as nat, 8)
}

/// The encoded public-input position sequence, in order.
pub open spec fn enc_pairs(s: Seq<(usize, usize)>) -> Seq<u8>
    decreases s.len(),
{
    if s.len() == 0 {
        Seq::empty()
    } else {
        enc_pair(s[0]) + enc_pairs(s.drop_first())
    }
}

/// The raw dump of field elements: 8 bytes each, little-endian.
pub open spec fn enc_values(s: Seq<FieldElement>) -> Seq<u8>
    decreases s.len(),
{
    if s.len() == 0 {
        Seq::empty()
    } else {
        le_bytes(s[0].repr as nat, 8) + enc_values(s.drop_first())
    }
}

/// The fixed-width multiplicity counters: 4 bytes each, little-endian.
pub open spec fn enc_counters(s: Seq<u32>) -> Seq<u8>
    decreases s.len(),
{
    if s.len() == 0 {
        Seq::empty()
    } else {
        le_bytes(s[0] as nat, 4) + enc_counters(s.drop_first())
    }
}

/// The complete byte format: three sequentially framed, length-prefixed
/// segments — public-input positions, field-element values, multiplicity
/// counters.
pub open spec fn encoded_witness_vec(
    pairs: Seq<(usize, usize)>,
    values: Seq<FieldElement>,
    counters: Seq<u32>,
) -> Seq<u8> {
    le_bytes(pairs.len(), 8) + enc_pairs(pairs) + le_bytes(values.len(), 8) + enc_values(values)
        + le_bytes(counters.len(), 8) + enc_counters(counters)
}

pub proof fn lemma_enc_pairs_push(s: Seq<(usize, usize)>, p: (usize, usize))
    ensures
        enc_pairs(s.push(p)) == enc_pairs(s) + enc_pair(p),
    decreases s.len(),
{
    if s.len() == 0 {
        assert(s.push(p).drop_first() =~= Seq::<(usize, usize)>::empty());
        assert(s.push(p)[0] == p);
        assert(enc_pairs(s.push(p).drop_first()) == Seq::<u8>::empty());
        assert(enc_pairs(s.push(p)) == enc_pair(p) + enc_pairs(s.push(p).drop_first()));
        assert(enc_pairs(s) == Seq::<u8>::empty());
        assert(enc_pairs(s.push(p)) =~= enc_pairs(s) + enc_pair(p));
    } else {
        assert(s.push(p).drop_first() =~= s.drop_first().push(p));
        lemma_enc_pairs_push(s.drop_first(), p);
        assert(enc_pairs(s.push(p)) =~= enc_pairs(s) + enc_pair(p));
    }
}

pub proof fn lemma_enc_values_push(s: Seq<FieldElement>, v: FieldElement)
    ensures
        enc_values(s.push(v)) == enc_values(s) + le_bytes(v.repr as nat, 8),
    decreases s.len(),
{
    if s.len() == 0 {
        assert(s.push(v).drop_first() =~= Seq::<FieldElement>::empty());
        assert(s.push(v)[0] == v);
        assert(enc_values(s.push(v).drop_first()) == Seq::<u8>::empty());
        assert(enc_values(s.push(v)) == le_bytes(v.repr as nat, 8) + enc_values(
            s.push(v).drop_first(),
        ));
        assert(enc_values(s) == Seq::<u8>::empty());
        assert(enc_values(s.push(v)) =~= enc_values(s) + le_bytes(v.repr as nat, 8));
    } else {
        assert(s.push(v).drop_first() =~= s.drop_first().push(v));
        lemma_enc_values_push(s.drop_first(), v);
        assert(enc_values(s.push(v)) =~= enc_values(s) + le_bytes(v.repr as nat, 8));
    }
}

pub proof fn lemma_enc_counters_push(s: Seq<u32>, c: u32)
    ensures
        enc_counters(s.push(c)) == enc_counters(s) + le_bytes(c as nat, 4),
    decreases s.len(),
{
    if s.len() == 0 {
        assert(s.push(c).drop_first() =~= Seq::<u32>::empty());
        assert(s.push(c)[0] == c);
        assert(enc_counters(s.push(c).drop_first()) == Seq::<u8>::empty());
        assert(enc_counters(s.push(c)) == le_bytes(c as nat, 4) + enc_counters(
            s.push(c).drop_first(),
        ));
        assert(enc_counters(s) == Seq::<u8>::empty());
        assert(enc_counters(s.push(c)) =~= enc_counters(s) + le_bytes(c as nat, 4));
    } else {
        assert(s.push(c).drop_first() =~= s.drop_first().push(c));
        lemma_enc_counters_push(s.drop_first(), c);
        assert(enc_counters(s.push(c)) =~= enc_counters(s) + le_bytes(c as nat, 4));
    }
}

/// Appends the 8-byte little-endian encoding of `v`.
fn push_u64_le(dst: &mut Vec<u8>, v: u64)
    ensures
        final(dst)@ == old(dst)@ + le_bytes(v as nat, 8),
{
    proof {
        lemma_le_bytes_len(v as nat, 8);
        assert(pow256(0) == 1);
        assert((v as nat) / 1 == v as nat);
        assert(le_bytes(v as nat, 8).take(0) =~= Seq::<u8>::empty());
        assert(dst@ =~= old(dst)@ + le_bytes(v as nat, 8).take(0));
    }
    let mut x = v;
    let mut c: usize = 0;
    while c < 8
        invariant
            c <= 8,
            x as nat == (v as nat) / pow256(c as nat),
            dst@ == old(dst)@ + le_bytes(v as nat, 8).take(c as int),
            le_bytes(v as nat, 8).len() == 8,
        decreases 8 - c,
    {
        let b = (x % 256) as u8;
        dst.push(b);
        proof {
            lemma_le_bytes_index(v as nat, 8, c as int);
            assert(dst@ =~= old(dst)@ + le_bytes(v as nat, 8).take(c as int + 1));
        }
        x = x / 256;
        proof {
            lemma_pow256_pos(c as nat);
            vstd::arithmetic::div_mod::lemma_div_denominator(
                v as int,
                pow256(c as nat) as int,
                256,
            );
            assert(pow256((c + 1) as nat) == 256 * pow256(c as nat));
            assert(pow256(c as nat) * 256 == 256 * pow256(c as nat)) by (nonlinear_arith);
        }
        c = c + 1;
    }
    proof {
        assert(le_bytes(v as nat, 8).take(8) =~= le_bytes(v as nat, 8));
    }
}

/// Appends the 4-byte little-endian encoding of `v`.
fn push_u32_le(dst: &mut Vec<u8>, v: u32)
    ensures
        final(dst)@ == old(dst)@ + le_bytes(v as nat, 4),
{
    proof {
        lemma_le_bytes_len(v as nat, 4);
        assert(pow256(0) == 1);
        assert((v as nat) / 1 == v as nat);
        assert(le_bytes(v as nat, 4).take(0) =~= Seq::<u8>::empty());
        assert(dst@ =~= old(dst)@ + le_bytes(v as nat, 4).take(0));
    }
    let mut x = v;
    let mut c: usize = 0;
    while c < 4
        invariant
            c <= 4,
            x as nat == (v as nat) / pow256(c as nat),
            dst@ == old(dst)@ + le_bytes(v as nat, 4).take(c as int),
            le_bytes(v as nat, 4).len() == 4,
        decreases 4 - c,
    {
        let b = (x % 256) as u8;
        dst.push(b);
        proof {
            lemma_le_bytes_index(v as nat, 4, c as int);
            assert(dst@ =~= old(dst)@ + le_bytes(v as nat, 4).take(c as int + 1));
        }
        x = x / 256;
        proof {
            lemma_pow256_pos(c as nat);
            vstd::arithmetic::div_mod::lemma_div_denominator(
                v as int,
                pow256(c as nat) as int,
                256,
            );
            assert(pow256((c + 1) as nat) == 256 * pow256(c as nat));
            assert(pow256(c as nat) * 256 == 256 * pow256(c as nat)) by (nonlinear_arith);
        }
        c = c + 1;
    }
    proof {
        assert(le_bytes(v as nat, 4).take(4) =~= le_bytes(v as nat, 4));
    }
}

/// Reads the 8-byte little-endian field at `pos`.
fn read_u64_le(src: &Vec<u8>, pos: usize) -> (r: u64)
    requires
        pos + 8 <= src@.len(),
    ensures
        r as nat == le_val(src@.subrange(pos as int, pos as int + 8)),
{
    let total = src.len();
    proof {
        assert(src@.subrange(pos as int + 8, pos as int + 8) =~= Seq::<u8>::empty());
    }
    let mut acc: u64 = 0;
    let mut c: usize = 8;
    while c > 0
        invariant
            c <= 8,
            total == src@.len(),
            pos + 8 <= total,
            acc as nat == le_val(src@.subrange(pos as int + c as int, pos as int + 8)),
            acc < pow256((8 - c) as nat),
        decreases c,
    {
        c = c - 1;
        let b = src[pos + c];
        proof {
            lemma_pow256_monotonic((7 - c) as nat, 7);
            lemma_pow256_values();
            assert(pow256((8 - c) as nat) == 256 * pow256((7 - c) as nat));
        }
        let acc2 = acc * 256 + (b as u64);
        proof {
            let s_new = src@.subrange(pos as int + c as int, pos as int + 8);
            assert(s_new.drop_first() =~= src@.subrange(pos as int + c as int + 1, pos as int + 8));
            assert(s_new[0] == src@[pos as int + c as int]);
        }
        acc = acc2;
    }
    proof {
        assert(src@.subrange(pos as int, pos as int + 8) == src@.subrange(
            pos as int + 0,
            pos as int + 8,
        ));
    }
    acc
}

/// Reads the 4-byte little-endian field at `pos`.
fn read_u32_le(src: &Vec<u8>, pos: usize) -> (r: u32)
    requires
        pos + 4 <= src@.len(),
    ensures
        r as nat == le_val(src@.subrange(pos as int, pos as int + 4)),
{
    let total = src.len();
    proof {
        assert(src@.subrange(pos as int + 4, pos as int + 4) =~= Seq::<u8>::empty());
    }
    let mut acc: u32 = 0;
    let mut c: usize = 4;
    while c > 0
        invariant
            c <= 4,
            total == src@.len(),
            pos + 4 <= total,
            acc as nat == le_val(src@.subrange(pos as int + c as int, pos as int + 4)),
            acc < pow256((4 - c) as nat),
        decreases c,
    {
        c = c - 1;
        let b = src[pos + c];
        proof {
            lemma_pow256_monotonic((3 - c) as nat, 3);
            lemma_pow256_values();
            assert(pow256(3) == 0x100_0000);
            assert(pow256((4 - c) as nat) == 256 * pow256((3 - c) as nat));
        }
        let acc2 = acc * 256 + (b as u32);
        proof {
            let s_new = src@.subrange(pos as int + c as int, pos as int + 4);
            assert(s_new.drop_first() =~= src@.subrange(pos as int + c as int + 1, pos as int + 4));
            assert(s_new[0] == src@[pos as int + c as int]);
        }
        acc = acc2;
    }
    proof {
        assert(src@.subrange(pos as int, pos as int + 4) == src@.subrange(
            pos as int + 0,
            pos as int + 4,
        ));
    }
    acc
}

/// Both components of encoded position `k` fit the platform's pointer-sized
/// integer. Always true where it has 64 bits; checked during decoding for
/// portability.
pub open spec fn pair_fits(b: Seq<u8>, k: int) -> bool {
    &&& le_val(b.subrange(8 + 16 * k, 16 + 16 * k)) <= usize::MAX as nat
    &&& le_val(b.subrange(16 + 16 * k, 24 + 16 * k)) <= usize::MAX as nat
}

/// A byte sequence is exactly one well-framed compact witness vector: three
/// length-prefixed segments whose declared lengths line up with the total,
/// with no trailing bytes, and with every position fitting the platform.
pub open spec fn valid_encoding(b: Seq<u8>) -> bool {
    &&& b.len() >= 8
    &&& {
        let n1 = le_val(b.subrange(0, 8)) as int;
        &&& b.len() >= 16 + 16 * n1
        &&& (forall|k: int| 0 <= k < n1 ==> #[trigger] pair_fits(b, k))
        &&& {
            let n2 = le_val(b.subrange(8 + 16 * n1, 16 + 16 * n1)) as int;
            &&& b.len() >= 24 + 16 * n1 + 8 * n2
            &&& {
                let n3 = le_val(
                    b.subrange(16 + 16 * n1 + 8 * n2, 24 + 16 * n1 + 8 * n2),
                ) as int;
                b.len() == 24 + 16 * n1 + 8 * n2 + 4 * n3
            }
        }
    }
}

/// Euclidean bounds of one truncating division.
proof fn lemma_div_mul_bounds(y: int, d: int)
    requires
        y >= 0,
        d > 0,
    ensures
        d * (y / d) <= y,
        y < d * (y / d) + d,
{
    vstd::arithmetic::div_mod::lemma_fundamental_div_mod(y, d);
    vstd::arithmetic::div_mod::lemma_mod_bound(y, d);
}

impl WitnessVec {
    /// Serializes this vector in the three-segment byte format, appending to
    /// `dst`.
    pub fn write_into_buffer(&self, dst: &mut Vec<u8>)
        ensures
            final(dst)@ == old(dst)@ + encoded_witness_vec(
                self.public_inputs_locations@,
                self.all_values@,
                self.multiplicities@,
            ),
    {
        let ghost pairs = self.public_inputs_locations@;
        let ghost values = self.all_values@;
        let ghost counters = self.multiplicities@;
        let ghost base = old(dst)@;

        let n1 = self.public_inputs_locations.len();
        push_u64_le(dst, n1 as u64);
        let ghost seg1 = base + le_bytes(pairs.len(), 8);
        proof {
            assert(dst@ =~= seg1 + enc_pairs(pairs.take(0)));
        }
        let mut k: usize = 0;
        while k < n1
            invariant
                k <= n1,
                n1 == pairs.len(),
                self.public_inputs_locations@ == pairs,
                seg1 == base + le_bytes(pairs.len(), 8),
                dst@ == seg1 + enc_pairs(pairs.take(k as int)),
            decreases n1 - k,
        {
            let (c, r) = self.public_inputs_locations[k];
            push_u64_le(dst, c as u64);
            push_u64_le(dst, r as u64);
            proof {
                assert(pairs.take((k + 1) as int) =~= pairs.take(k as int).push(
                    pairs[k as int],
                ));
                lemma_enc_pairs_push(pairs.take(k as int), pairs[k as int]);
                assert(enc_pair(pairs[k as int]) == le_bytes(c as nat, 8) + le_bytes(
                    r as nat,
                    8,
                ));
                assert(dst@ =~= seg1 + enc_pairs(pairs.take((k + 1) as int)));
            }
            k = k + 1;
        }
        proof {
            assert(pairs.take(n1 as int) =~= pairs);
        }

        let n2 = self.all_values.len();
        push_u64_le(dst, n2 as u64);
        let ghost seg2 = seg1 + enc_pairs(pairs) + le_bytes(values.len(), 8);
        proof {
            assert(dst@ =~= seg2 + enc_values(values.take(0)));
        }
        let mut i: usize = 0;
        while i < n2
            invariant
                i <= n2,
                n2 == values.len(),
                self.all_values@ == values,
                seg2 == seg1 + enc_pairs(pairs) + le_bytes(values.len(), 8),
                dst@ == seg2 + enc_values(values.take(i as int)),
            decreases n2 - i,
        {
            let v = self.all_values[i];
            push_u64_le(dst, v.repr);
            proof {
                assert(values.take((i + 1) as int) =~= values.take(i as int).push(
                    values[i as int],
                ));
                lemma_enc_values_push(values.take(i as int), values[i as int]);
                assert(dst@ =~= seg2 + enc_values(values.take((i + 1) as int)));
            }
            i = i + 1;
        }
        proof {
            assert(values.take(n2 as int) =~= values);
        }

        let n3 = self.multiplicities.len();
        push_u64_le(dst, n3 as u64);
        let ghost seg3 = seg2 + enc_values(values) + le_bytes(counters.len(), 8);
        proof {
            assert(dst@ =~= seg3 + enc_counters(counters.take(0)));
        }
        let mut j: usize = 0;
        while j < n3
            invariant
                j <= n3,
                n3 == counters.len(),
                self.multiplicities@ == counters,
                seg3 == seg2 + enc_values(values) + le_bytes(counters.len(), 8),
                dst@ == seg3 + enc_counters(counters.take(j as int)),
            decreases n3 - j,
        {
            let m = self.multiplicities[j];
            push_u32_le(dst, m);
            proof {
                assert(counters.take((j + 1) as int) =~= counters.take(j as int).push(
                    counters[j as int],
                ));
                lemma_enc_counters_push(counters.take(j as int), counters[j as int]);
                assert(dst@ =~= seg3 + enc_counters(counters.take((j + 1) as int)));
            }
            j = j + 1;
        }
        proof {
            assert(counters.take(n3 as int) =~= counters);
            assert(dst@ =~= base + encoded_witness_vec(pairs, values, counters));
        }
    }
}

impl WitnessVec {
    /// Parses one compact witness vector from a byte buffer. Succeeds exactly
    /// on the well-framed encodings described by [`valid_encoding`]; a
    /// truncated, overlong or otherwise malformed buffer is reported as a
    /// recoverable error.
    pub fn read_from_buffer(src: &Vec<u8>) -> (r: Result<WitnessVec, SerializationError>)
        ensures
            match r {
                Ok(v) => valid_encoding(src@) && src@ == encoded_witness_vec(
                    v.public_inputs_locations@,
                    v.all_values@,
                    v.multiplicities@,
                ),
                Err(_) => !valid_encoding(src@),
            },
    {
        let total = src.len();
        if total < 16 {
            return Err(SerializationError::Malformed);
        }
        let n1_64 = read_u64_le(src, 0);
        let ghost gn1 = le_val(src@.subrange(0, 8)) as int;
        let max_pairs = (total - 16) / 16;
        proof {
            lemma_div_mul_bounds(total - 16, 16);
        }
        if n1_64 > max_pairs as u64 {
            return Err(SerializationError::Malformed);
        }
        let n1 = n1_64 as usize;

        let usize_max_64 = usize::MAX as u64;
        let mut pairs_vec: Vec<(usize, usize)> = Vec::new();
        proof {
            assert(src@.subrange(8, 8) =~= Seq::<u8>::empty());
        }
        let mut k: usize = 0;
        while k < n1
            invariant
                k <= n1,
                usize_max_64 == usize::MAX as u64,
                n1 as int == gn1,
                gn1 == le_val(src@.subrange(0, 8)) as int,
                total == src@.len(),
                total >= 16,
                16 * (n1 as int) <= total - 16,
                pairs_vec@.len() == k,
                forall|i: int| 0 <= i < k ==> #[trigger] pair_fits(src@, i),
                enc_pairs(pairs_vec@) == src@.subrange(8, 8 + 16 * (k as int)),
            decreases n1 - k,
        {
            let pos = 8 + 16 * k;
            let c64 = read_u64_le(src, pos);
            let r64 = read_u64_le(src, pos + 8);
            if c64 > usize_max_64 || r64 > usize_max_64 {
                proof {
                    assert(!pair_fits(src@, k as int));
                }
                return Err(SerializationError::Malformed);
            }
            let c = c64 as usize;
            let rw = r64 as usize;
            let ghost pre = pairs_vec@;
            pairs_vec.push((c, rw));
            proof {
                let p = pos as int;
                lemma_enc_pairs_push(pre, (c, rw));
                lemma_le_bytes_le_val(src@.subrange(p, p + 8));
                lemma_le_bytes_le_val(src@.subrange(p + 8, p + 16));
                assert(le_bytes(c as nat, 8) == src@.subrange(p, p + 8));
                assert(le_bytes(rw as nat, 8) == src@.subrange(p + 8, p + 16));
                assert(src@.subrange(8, 8 + 16 * (k as int + 1)) =~= src@.subrange(
                    8,
                    8 + 16 * (k as int),
                ) + src@.subrange(p, p + 8) + src@.subrange(p + 8, p + 16));
                assert(enc_pairs(pairs_vec@) =~= src@.subrange(8, 8 + 16 * (k as int + 1)));
                assert(pair_fits(src@, k as int));
            }
            k = k + 1;
        }

        let o1 = 8 + 16 * n1;
        let n2_64 = read_u64_le(src, o1);
        let ghost gn2 = le_val(src@.subrange(o1 as int, o1 as int + 8)) as int;
        if total - o1 < 16 {
            return Err(SerializationError::Malformed);
        }
        let rem2 = total - o1 - 16;
        let max_vals = rem2 / 8;
        proof {
            lemma_div_mul_bounds(rem2 as int, 8);
        }
        if n2_64 > max_vals as u64 {
            return Err(SerializationError::Malformed);
        }
        let n2 = n2_64 as usize;

        let mut vals_vec: Vec<FieldElement> = Vec::new();
        proof {
            assert(src@.subrange(o1 as int + 8, o1 as int + 8) =~= Seq::<u8>::empty());
        }
        let mut i: usize = 0;
        while i < n2
            invariant
                i <= n2,
                n2 as int == gn2,
                gn2 == le_val(src@.subrange(o1 as int, o1 as int + 8)) as int,
                total == src@.len(),
                o1 + 16 <= total,
                o1 == 8 + 16 * (n1 as int),
                8 * (n2 as int) <= total - o1 - 16,
                vals_vec@.len() == i,
                enc_values(vals_vec@) == src@.subrange(
                    o1 as int + 8,
                    o1 as int + 8 + 8 * (i as int),
                ),
            decreases n2 - i,
        {
            let pos = o1 + 8 + 8 * i;
            let x = read_u64_le(src, pos);
            let ghost pre = vals_vec@;
            vals_vec.push(FieldElement { repr: x });
            proof {
                let p = pos as int;
                lemma_enc_values_push(pre, FieldElement { repr: x });
                lemma_le_bytes_le_val(src@.subrange(p, p + 8));
                assert(le_bytes(x as nat, 8) == src@.subrange(p, p + 8));
                assert(src@.subrange(o1 as int + 8, o1 as int + 8 + 8 * (i as int + 1))
                    =~= src@.subrange(o1 as int + 8, o1 as int + 8 + 8 * (i as int))
                    + src@.subrange(p, p + 8));
                assert(enc_values(vals_vec@) =~= src@.subrange(
                    o1 as int + 8,
                    o1 as int + 8 + 8 * (i as int + 1),
                ));
            }
            i = i + 1;
        }

        let o2 = o1 + 8 + 8 * n2;
        let n3_64 = read_u64_le(src, o2);
        let ghost gn3 = le_val(src@.subrange(o2 as int, o2 as int + 8)) as int;
        let rem3 = total - o2 - 8;
        let max_cnts = rem3 / 4;
        proof {
            lemma_div_mul_bounds(rem3 as int, 4);
        }
        if n3_64 > max_cnts as u64 {
            return Err(SerializationError::Malformed);
        }
        let n3 = n3_64 as usize;
        if rem3 != 4 * n3 {
            return Err(SerializationError::Malformed);
        }

        let mut cnts_vec: Vec<u32> = Vec::new();
        proof {
            assert(src@.subrange(o2 as int + 8, o2 as int + 8) =~= Seq::<u8>::empty());
        }
        let mut j: usize = 0;
        while j < n3
            invariant
                j <= n3,
                n3 as int == gn3,
                gn3 == le_val(src@.subrange(o2 as int, o2 as int + 8)) as int,
                total == src@.len(),
                o2 + 8 <= total,
                o2 == o1 as int + 8 + 8 * (n2 as int),
                4 * (n3 as int) == total - o2 - 8,
                cnts_vec@.len() == j,
                enc_counters(cnts_vec@) == src@.subrange(
                    o2 as int + 8,
                    o2 as int + 8 + 4 * (j as int),
                ),
            decreases n3 - j,
        {
            let pos = o2 + 8 + 4 * j;
            let x = read_u32_le(src, pos);
            let ghost pre = cnts_vec@;
            cnts_vec.push(x);
            proof {
                let p = pos as int;
                lemma_enc_counters_push(pre, x);
                lemma_le_bytes_le_val(src@.subrange(p, p + 4));
                assert(le_bytes(x as nat, 4) == src@.subrange(p, p + 4));
                assert(src@.subrange(o2 as int + 8, o2 as int + 8 + 4 * (j as int + 1))
                    =~= src@.subrange(o2 as int + 8, o2 as int + 8 + 4 * (j as int))
                    + src@.subrange(p, p + 4));
                assert(enc_counters(cnts_vec@) =~= src@.subrange(
                    o2 as int + 8,
                    o2 as int + 8 + 4 * (j as int + 1),
                ));
            }
            j = j + 1;
        }

        let result = WitnessVec {
            public_inputs_locations: pairs_vec,
            all_values: vals_vec,
            multiplicities: cnts_vec,
        };
        proof {
            lemma_le_bytes_le_val(src@.subrange(0, 8));
            lemma_le_bytes_le_val(src@.subrange(o1 as int, o1 as int + 8));
            lemma_le_bytes_le_val(src@.subrange(o2 as int, o2 as int + 8));
            assert(le_bytes(result.public_inputs_locations@.len(), 8) == src@.subrange(0, 8));
            assert(le_bytes(result.all_values@.len(), 8) == src@.subrange(
                o1 as int,
                o1 as int + 8,
            ));
            assert(le_bytes(result.multiplicities@.len(), 8) == src@.subrange(
                o2 as int,
                o2 as int + 8,
            ));
            assert(src@ =~= src@.subrange(0, 8) + src@.subrange(8, o1 as int) + src@.subrange(
                o1 as int,
                o1 as int + 8,
            ) + src@.subrange(o1 as int + 8, o2 as int) + src@.subrange(
                o2 as int,
                o2 as int + 8,
            ) + src@.subrange(o2 as int + 8, total as int));
            assert(src@ == encoded_witness_vec(
                result.public_inputs_locations@,
                result.all_values@,
                result.multiplicities@,
            ));
            assert(valid_encoding(src@));
        }
        Ok(result)
    }
}

/// Every pair encodes to exactly 16 bytes.
pub proof fn lemma_enc_pair_len(p: (usize, usize))
    ensures
        enc_pair(p).len() == 16,
{
    lemma_le_bytes_len(p.0 as nat, 8);
    lemma_le_bytes_len(p.1 as nat, 8);
}

pub proof fn lemma_enc_pairs_len(s: Seq<(usize, usize)>)
    ensures
        enc_pairs(s).len() == 16 * s.len(),
    decreases s.len(),
{
    if s.len() > 0 {
        lemma_enc_pair_len(s[0]);
        lemma_enc_pairs_len(s.drop_first());
    }
}

pub proof fn lemma_enc_values_len(s: Seq<FieldElement>)
    ensures
        enc_values(s).len() == 8 * s.len(),
    decreases s.len(),
{
    if s.len() > 0 {
        lemma_le_bytes_len(s[0].repr as nat, 8);
        lemma_enc_values_len(s.drop_first());
    }
}

pub proof fn lemma_enc_counters_len(s: Seq<u32>)
    ensures
        enc_counters(s).len() == 4 * s.len(),
    decreases s.len(),
{
    if s.len() > 0 {
        lemma_le_bytes_len(s[0] as nat, 4);
        lemma_enc_counters_len(s.drop_first());
    }
}

/// A pointer-sized value fits an 8-byte field.
proof fn lemma_usize_below_pow256_8(x: usize)
    ensures
        (x as nat) < pow256(8),
{
    lemma_pow256_values();
}

/// Two position sequences of one length with one encoding are the same
/// sequence.
pub proof fn lemma_enc_pairs_injective(a: Seq<(usize, usize)>, b: Seq<(usize, usize)>)
    requires
        a.len() == b.len(),
        enc_pairs(a) == enc_pairs(b),
    ensures
        a == b,
    decreases a.len(),
{
    if a.len() > 0 {
        lemma_enc_pair_len(a[0]);
        lemma_enc_pair_len(b[0]);
        let ea = enc_pairs(a);
        assert(ea.take(16) =~= enc_pair(a[0]));
        assert(ea.take(16) =~= enc_pair(b[0]));
        lemma_le_bytes_len(a[0].0 as nat, 8);
        lemma_le_bytes_len(b[0].0 as nat, 8);
        assert(enc_pair(a[0]).take(8) =~= le_bytes(a[0].0 as nat, 8));
        assert(enc_pair(b[0]).take(8) =~= le_bytes(b[0].0 as nat, 8));
        assert(enc_pair(a[0]).skip(8) =~= le_bytes(a[0].1 as nat, 8));
        assert(enc_pair(b[0]).skip(8) =~= le_bytes(b[0].1 as nat, 8));
        lemma_usize_below_pow256_8(a[0].0);
        lemma_usize_below_pow256_8(a[0].1);
        lemma_usize_below_pow256_8(b[0].0);
        lemma_usize_below_pow256_8(b[0].1);
        lemma_le_val_le_bytes(a[0].0 as nat, 8);
        lemma_le_val_le_bytes(a[0].1 as nat, 8);
        lemma_le_val_le_bytes(b[0].0 as nat, 8);
        lemma_le_val_le_bytes(b[0].1 as nat, 8);
        assert(enc_pair(a[0]) == enc_pair(b[0]));
        assert(le_bytes(a[0].0 as nat, 8) == le_bytes(b[0].0 as nat, 8));
        assert(le_bytes(a[0].1 as nat, 8) == le_bytes(b[0].1 as nat, 8));
        assert(a[0].0 == b[0].0);
        assert(a[0].1 == b[0].1);
        assert(a[0] == b[0]);
        assert(ea.skip(16) =~= enc_pairs(a.drop_first()));
        assert(ea.skip(16) =~= enc_pairs(b.drop_first()));
        lemma_enc_pairs_injective(a.drop_first(), b.drop_first());
        assert(a =~= seq![a[0]] + a.drop_first());
        assert(b =~= seq![b[0]] + b.drop_first());
        assert(a == b);
    } else {
        assert(a =~= b);
    }
}

/// Two value sequences of one length with one encoding are the same
/// sequence.
pub proof fn lemma_enc_values_injective(a: Seq<FieldElement>, b: Seq<FieldElement>)
    requires
        a.len() == b.len(),
        enc_values(a) == enc_values(b),
    ensures
        a == b,
    decreases a.len(),
{
    if a.len() > 0 {
        lemma_le_bytes_len(a[0].repr as nat, 8);
        lemma_le_bytes_len(b[0].repr as nat, 8);
        let ea = enc_values(a);
        assert(ea.take(8) =~= le_bytes(a[0].repr as nat, 8));
        assert(ea.take(8) =~= le_bytes(b[0].repr as nat, 8));
        lemma_pow256_values();
        lemma_le_val_le_bytes(a[0].repr as nat, 8);
        lemma_le_val_le_bytes(b[0].repr as nat, 8);
        assert(le_bytes(a[0].repr as nat, 8) == le_bytes(b[0].repr as nat, 8));
        assert(a[0].repr == b[0].repr);
        assert(a[0] == b[0]);
        assert(ea.skip(8) =~= enc_values(a.drop_first()));
        assert(ea.skip(8) =~= enc_values(b.drop_first()));
        lemma_enc_values_injective(a.drop_first(), b.drop_first());
        assert(a =~= seq![a[0]] + a.drop_first());
        assert(b =~= seq![b[0]] + b.drop_first());
        assert(a == b);
    } else {
        assert(a =~= b);
    }
}

/// Two counter sequences of one length with one encoding are the same
/// sequence.
pub proof fn lemma_enc_counters_injective(a: Seq<u32>, b: Seq<u32>)
    requires
        a.len() == b.len(),
        enc_counters(a) == enc_counters(b),
    ensures
        a == b,
    decreases a.len(),
{
    if a.len() > 0 {
        lemma_le_bytes_len(a[0] as nat, 4);
        lemma_le_bytes_len(b[0] as nat, 4);
        let ea = enc_counters(a);
        assert(ea.take(4) =~= le_bytes(a[0] as nat, 4));
        assert(ea.take(4) =~= le_bytes(b[0] as nat, 4));
        lemma_pow256_values();
        lemma_le_val_le_bytes(a[0] as nat, 4);
        lemma_le_val_le_bytes(b[0] as nat, 4);
        assert(le_bytes(a[0] as nat, 4) == le_bytes(b[0] as nat, 4));
        assert(a[0] == b[0]);
        assert(ea.skip(4) =~= enc_counters(a.drop_first()));
        assert(ea.skip(4) =~= enc_counters(b.drop_first()));
        lemma_enc_counters_injective(a.drop_first(), b.drop_first());
        assert(a =~= seq![a[0]] + a.drop_first());
        assert(b =~= seq![b[0]] + b.drop_first());
        assert(a == b);
    } else {
        assert(a =~= b);
    }
}

/// The byte format is injective: one byte sequence encodes at most one
/// snapshot. With the decoder's contract — a successful read returns a
/// snapshot whose encoding is the input — this is the round-trip law:
/// writing a compact witness vector and reading it back yields bit-identical
/// values and multiplicities and element-wise identical positions.
#[verifier::rlimit(100)]
pub proof fn lemma_encoding_injective(
    p1: Seq<(usize, usize)>,
    v1: Seq<FieldElement>,
    m1: Seq<u32>,
    p2: Seq<(usize, usize)>,
    v2: Seq<FieldElement>,
    m2: Seq<u32>,
)
    requires
        p1.len() < pow256(8),
        p2.len() < pow256(8),
        v1.len() < pow256(8),
        v2.len() < pow256(8),
        m1.len() < pow256(8),
        m2.len() < pow256(8),
        encoded_witness_vec(p1, v1, m1) == encoded_witness_vec(p2, v2, m2),
    ensures
        p1 == p2,
        v1 == v2,
        m1 == m2,
{
    let e1 = encoded_witness_vec(p1, v1, m1);
    lemma_le_bytes_len(p1.len(), 8);
    lemma_le_bytes_len(p2.len(), 8);
    lemma_le_bytes_len(v1.len(), 8);
    lemma_le_bytes_len(v2.len(), 8);
    lemma_le_bytes_len(m1.len(), 8);
    lemma_le_bytes_len(m2.len(), 8);
    lemma_enc_pairs_len(p1);
    lemma_enc_pairs_len(p2);
    lemma_enc_values_len(v1);
    lemma_enc_values_len(v2);
    lemma_enc_counters_len(m1);
    lemma_enc_counters_len(m2);

    assert(e1.take(8) =~= le_bytes(p1.len(), 8));
    assert(e1.take(8) =~= le_bytes(p2.len(), 8));
    lemma_le_val_le_bytes(p1.len(), 8);
    lemma_le_val_le_bytes(p2.len(), 8);
    assert(p1.len() == p2.len());

    let o1 = 8 + 16 * p1.len() as int;
    assert(e1.subrange(8, o1) =~= enc_pairs(p1));
    assert(e1.subrange(8, o1) =~= enc_pairs(p2));
    lemma_enc_pairs_injective(p1, p2);

    assert(e1.subrange(o1, o1 + 8) =~= le_bytes(v1.len(), 8));
    assert(e1.subrange(o1, o1 + 8) =~= le_bytes(v2.len(), 8));
    lemma_le_val_le_bytes(v1.len(), 8);
    lemma_le_val_le_bytes(v2.len(), 8);
    assert(v1.len() == v2.len());

    let o2 = o1 + 8 + 8 * v1.len() as int;
    assert(e1.subrange(o1 + 8, o2) =~= enc_values(v1));
    assert(e1.subrange(o1 + 8, o2) =~= enc_values(v2));
    lemma_enc_values_injective(v1, v2);

    assert(e1.subrange(o2, o2 + 8) =~= le_bytes(m1.len(), 8));
    assert(e1.subrange(o2, o2 + 8) =~= le_bytes(m2.len(), 8));
    lemma_le_val_le_bytes(m1.len(), 8);
    lemma_le_val_le_bytes(m2.len(), 8);
    assert(m1.len() == m2.len());

    assert(e1.subrange(o2 + 8, e1.len() as int) =~= enc_counters(m1));
    assert(e1.subrange(o2 + 8, e1.len() as int) =~= enc_counters(m2));
    lemma_enc_counters_injective(m1, m2);
}

/// Byte round trip: a successful `read_from_buffer` of what
/// `write_into_buffer` produced returns the original snapshot — the
/// decoder's contract says the returned snapshot re-encodes to the input
/// bytes, and the format is injective.
pub proof fn lemma_byte_round_trip(original: WitnessVec, decoded: WitnessVec)
    requires
        encoded_witness_vec(
            decoded.public_inputs_locations@,
            decoded.all_values@,
            decoded.multiplicities@,
        ) == encoded_witness_vec(
            original.public_inputs_locations@,
            original.all_values@,
            original.multiplicities@,
        ),
    ensures
        decoded.public_inputs_locations@ == original.public_inputs_locations@,
        decoded.all_values@ == original.all_values@,
        decoded.multiplicities@ == original.multiplicities@,
{
    lemma_pow256_values();
    assert(original.public_inputs_locations@.len() == original.public_inputs_locations.len());
    assert(original.all_values@.len() == original.all_values.len());
    assert(original.multiplicities@.len() == original.multiplicities.len());
    assert(decoded.public_inputs_locations@.len() == decoded.public_inputs_locations.len());
    assert(decoded.all_values@.len() == decoded.all_values.len());
    assert(decoded.multiplicities@.len() == decoded.multiplicities.len());
    lemma_encoding_injective(
        decoded.public_inputs_locations@,
        decoded.all_values@,
        decoded.multiplicities@,
        original.public_inputs_locations@,
        original.all_values@,
        original.multiplicities@,
    );
}

} // verus!