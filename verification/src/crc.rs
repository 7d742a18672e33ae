use vstd::prelude::*;

verus! {

/// The reflected CRC-32 polynomial (IEEE 802.3), as used by ZIP.
pub const CRC32_POLY: u32 = 0xedb8_8320;

/// One bit of the bitwise CRC-32 register update.
pub open spec fn crc_bit_step(v: u32) -> u32 {
    if v & 1 != 0 {
        (v >> 1) ^ CRC32_POLY
    } else {
        v >> 1
    }
}

/// `n` bit steps applied to the register `v`.
pub open spec fn crc_rounds(v: u32, n: nat) -> u32
    decreases n,
{
    if n == 0 {
        v
    } else {
        crc_bit_step(crc_rounds(v, (n - 1) as nat))
    }
}

/// The register after one more byte `b`.
pub open spec fn crc_byte(state: u32, b: u8) -> u32 {
    crc_rounds(state ^ (b as u32), 8)
}

/// The register after feeding `bytes`, in order, starting from `state`.
pub open spec fn crc_fold(state: u32, bytes: Seq<u8>) -> u32
    decreases bytes.len(),
{
    if bytes.len() == 0 {
        state
    } else {
        crc_byte(crc_fold(state, bytes.drop_last()), bytes.last())
    }
}

/// The CRC-32 checksum (ZIP / IEEE 802.3) of `bytes`.
pub open spec fn crc32(bytes: Seq<u8>) -> u32 {
    !crc_fold(0xffff_ffff, bytes)
}

/// Feeding `a` then `b` leaves the register where feeding `a + b` at once does.
pub proof fn lemma_crc_fold_concat(state: u32, a: Seq<u8>, b: Seq<u8>)
    ensures
        crc_fold(state, a + b) == crc_fold(crc_fold(state, a), b),
    decreases b.len(),
{
    if b.len() == 0 {
        assert(a + b == a);
    } else {
        assert((a + b).drop_last() == a + b.drop_last());
        assert((a + b).last() == b.last());
        lemma_crc_fold_concat(state, a, b.drop_last());
    }
}

/// A running CRC-32 computation over bytes fed in chunks.
pub struct Crc32 {
    value: u32,
    fed: Ghost<Seq<u8>>,
}

impl Crc32 {
    #[verifier::type_invariant]
    spec fn register_matches(&self) -> bool {
        self.value == crc_fold(0xffff_ffff, self.fed@)
    }

    /// All bytes fed so far, in order.
    pub closed spec fn fed(&self) -> Seq<u8> {
        self.fed@
    }

    /// The 32-bit register.
    pub closed spec fn register(&self) -> u32 {
        self.value
    }

    /// A computation that has been fed nothing yet: its register is all ones.
    pub fn new() -> (c: Self)
        ensures
            c.fed() == Seq::<u8>::empty(),
            c.register() == 0xffff_ffff,
    {
        Crc32 { value: 0xffff_ffff, fed: Ghost(Seq::empty()) }
    }

    /// Feeds `bytes` after everything fed so far, updating the register byte by
    /// byte.
    pub fn update(&mut self, bytes: &[u8])
        ensures
            final(self).fed() == old(self).fed() + bytes@,
            final(self).register() == crc_fold(old(self).register(), bytes@),
    {
        proof {
            use_type_invariant(&*self);
        }
        let ghost start = self.fed@;
        let mut v: u32 = self.value;
        let mut i: usize = 0;
        while i < bytes.len()
            invariant
                i <= bytes.len(),
                v == crc_fold(0xffff_ffff, start + bytes@.take(i as int)),
            decreases bytes.len() - i,
        {
            let x: u32 = v ^ (bytes[i] as u32);
            let mut w: u32 = x;
            let mut k: u32 = 0;
            while k < 8
                invariant
                    k <= 8,
                    w == crc_rounds(x, k as nat),
                decreases 8 - k,
            {
                if w & 1 != 0 {
                    w = (w >> 1) ^ CRC32_POLY;
                } else {
                    w = w >> 1;
                }
                k = k + 1;
            }
            proof {
                let prev = start + bytes@.take(i as int);
                let next = start + bytes@.take(i + 1);
                assert(next.drop_last() == prev);
                assert(next.last() == bytes@[i as int]);
            }
            v = w;
            i = i + 1;
        }
        assert(bytes@.take(bytes.len() as int) == bytes@);
        proof {
            lemma_crc_fold_concat(0xffff_ffff, start, bytes@);
        }
        *self = Crc32 { value: v, fed: Ghost(start + bytes@) };
    }

    /// The CRC-32 of everything fed: the register with every bit flipped.
    pub fn finalize(self) -> (crc: u32)
        ensures
            crc == crc32(self.fed()),
            crc == !self.register(),
    {
        proof {
            use_type_invariant(&self);
        }
        !self.value
    }
}

/// The CRC-32 of `bytes`, computed in one go.
pub fn crc32_bytes(bytes: &[u8]) -> (crc: u32)
    ensures
        crc == crc32(bytes@),
{
    let mut c = Crc32::new();
    c.update(bytes);
    assert(Seq::<u8>::empty() + bytes@ == bytes@);
    c.finalize()
}

/// Feeding the bytes in chunks gives the checksum of the whole: for any split of
/// the input into `a` and `b`, the register after `a` then `b` finalizes to the
/// CRC-32 of `a + b`.
pub proof fn law_chunked_crc_is_whole_crc(a: Seq<u8>, b: Seq<u8>)
    ensures
        !crc_fold(crc_fold(0xffff_ffff, a), b) == crc32(a + b),
{
    lemma_crc_fold_concat(0xffff_ffff, a, b);
}

/// The register does not care how its input is cut: from any register value,
/// feeding `a` then `b` gives what feeding `a + b` at once gives, and feeding
/// nothing leaves the register as it was.
pub proof fn law_register_ignores_chunking(start: u32, a: Seq<u8>, b: Seq<u8>)
    ensures
        crc_fold(crc_fold(start, a), b) == crc_fold(start, a + b),
        crc_fold(start, Seq::<u8>::empty()) == start,
{
    lemma_crc_fold_concat(start, a, b);
}

/// Eight bit steps of the register, written out.
spec fn eight_steps(x: u32) -> u32 {
    crc_bit_step(
        crc_bit_step(
            crc_bit_step(
                crc_bit_step(crc_bit_step(crc_bit_step(crc_bit_step(crc_bit_step(x))))),
            ),
        ),
    )
}

proof fn lemma_eight_steps(x: u32)
    ensures
        crc_rounds(x, 8) == eight_steps(x),
{
    reveal_with_fuel(crc_rounds, 9);
}

/// A byte enters the register as the standard CRC-32 takes it: it is combined
/// with the low 8 bits only (the high 24 bits of `state ^ b` are those of
/// `state`), and the register after the byte is the old register shifted down
/// by 8, combined with the eight bit steps of its low byte combined with `b`
/// (the table-driven form of CRC-32, whose table entry for `i` is eight bit steps
/// of `i`).
pub proof fn law_byte_touches_low_bits_only(state: u32, b: u8)
    ensures
        (state ^ (b as u32)) >> 8u32 == state >> 8u32,
        crc_byte(state, b) == (state >> 8u32) ^ crc_rounds((state ^ (b as u32)) & 0xffu32, 8),
{
    let x: u32 = state ^ (b as u32);
    lemma_eight_steps(x);
    lemma_eight_steps(x & 0xffu32);
    assert(x >> 8u32 == state >> 8u32) by (bit_vector)
        requires
            x == state ^ (b as u32),
    ;
    assert(eight_steps(x) == (x >> 8u32) ^ eight_steps(x & 0xffu32)) by (bit_vector);
}

proof fn lemma_crc_fold_push(state: u32, s: Seq<u8>, b: u8)
    ensures
        crc_fold(state, s.push(b)) == crc_byte(crc_fold(state, s), b),
{
    assert(s.push(b).drop_last() =~= s);
    assert(s.push(b).last() == b);
}

/// Check values of the IEEE CRC-32 (as zlib computes it) on bytes with the top
/// bit set: `80` gives `3FBA6CAD`, and the JPEG start `FF D8 FF E0` gives
/// `4FF5A26F`.
pub proof fn law_crc32_check_values()
    ensures
        crc32(seq![0x80u8]) == 0x3FBA_6CADu32,
        crc32(seq![0xFFu8, 0xD8u8, 0xFFu8, 0xE0u8]) == 0x4FF5_A26Fu32,
{
    let e = Seq::<u8>::empty();
    let init = 0xffff_ffffu32;
    assert(crc_fold(init, e) == init);
    lemma_crc_fold_push(init, e, 0x80u8);
    assert(e.push(0x80u8) =~= seq![0x80u8]);
    lemma_eight_steps(init ^ 0x80u32);
    assert(!eight_steps(0xffff_ffffu32 ^ 0x80u32) == 0x3FBA_6CADu32) by (bit_vector);

    let s1 = e.push(0xFFu8);
    let s2 = s1.push(0xD8u8);
    let s3 = s2.push(0xFFu8);
    let s4 = s3.push(0xE0u8);
    lemma_crc_fold_push(init, e, 0xFFu8);
    lemma_crc_fold_push(init, s1, 0xD8u8);
    lemma_crc_fold_push(init, s2, 0xFFu8);
    lemma_crc_fold_push(init, s3, 0xE0u8);
    assert(s4 =~= seq![0xFFu8, 0xD8u8, 0xFFu8, 0xE0u8]);
    lemma_eight_steps(init ^ 0xFFu32);
    lemma_eight_steps(0x00ff_ffffu32 ^ 0xD8u32);
    lemma_eight_steps(0xa50a_4a94u32 ^ 0xFFu32);
    lemma_eight_steps(0xdac5_b29au32 ^ 0xE0u32);
    assert(eight_steps(0xffff_ffffu32 ^ 0xFFu32) == 0x00ff_ffffu32) by (bit_vector);
    assert(eight_steps(0x00ff_ffffu32 ^ 0xD8u32) == 0xa50a_4a94u32) by (bit_vector);
    assert(eight_steps(0xa50a_4a94u32 ^ 0xFFu32) == 0xdac5_b29au32) by (bit_vector);
    assert(eight_steps(0xdac5_b29au32 ^ 0xE0u32) == 0xb00a_5d90u32) by (bit_vector);
    assert(!0xb00a_5d90u32 == 0x4FF5_A26Fu32) by (bit_vector);
}

} // verus!
