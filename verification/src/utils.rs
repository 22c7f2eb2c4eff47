//! Byte-level primitives shared by the EXT2 and FAT16 engines: bounds-checked
//! little-endian integer extraction and storage, bitmap bit clearing, byte
//! range zeroing, byte-string comparison, and the power-of test used by the
//! sparse-superblock rule.

use vstd::prelude::*;
use vstd::arithmetic::div_mod::{
    lemma_div_multiples_vanish, lemma_fundamental_div_mod, lemma_mod_multiples_basic,
};
use vstd::arithmetic::power::{lemma_pow_positive, pow};

verus! {

/// Clamp an integer to be non-negative; used in `decreases` measures.
pub open spec fn clip0(x: int) -> int {
    if x < 0 {
        0
    } else {
        x
    }
}

// ---------- little-endian models ----------

/// The 16-bit little-endian value stored at byte offset `off`.
pub open spec fn le16(d: Seq<u8>, off: int) -> u16
    recommends
        0 <= off,
        off + 2 <= d.len(),
{
    (d[off] + 256 * d[off + 1]) as u16
}

/// The 32-bit little-endian value stored at byte offset `off`.
pub open spec fn le32(d: Seq<u8>, off: int) -> u32
    recommends
        0 <= off,
        off + 4 <= d.len(),
{
    (d[off] + 256 * d[off + 1] + 65536 * d[off + 2] + 16777216 * d[off + 3]) as u32
}

/// The buffer after storing `v` little-endian over the two bytes at `off`.
pub open spec fn spec_save_u16(d: Seq<u8>, off: int, v: u16) -> Seq<u8>
    recommends
        0 <= off,
        off + 2 <= d.len(),
{
    d.update(off, (v % 256) as u8).update(off + 1, (v / 256) as u8)
}

/// The buffer after storing `v` little-endian over the four bytes at `off`.
pub open spec fn spec_save_u32(d: Seq<u8>, off: int, v: u32) -> Seq<u8>
    recommends
        0 <= off,
        off + 4 <= d.len(),
{
    d.update(off, (v % 256) as u8).update(off + 1, ((v / 256) % 256) as u8).update(
        off + 2,
        ((v / 65536) % 256) as u8,
    ).update(off + 3, ((v / 16777216) % 256) as u8)
}

// ---------- bitmap bits ----------

/// Whether bit `k` (0 = least significant) of byte `b` is set.
pub open spec fn bit_of(b: u8, k: u8) -> bool
    recommends
        k < 8,
{
    (b >> k) & 1 == 1
}

/// Byte `b` with bit `k` forced to zero.
pub open spec fn clear_bit_byte(b: u8, k: u8) -> u8
    recommends
        k < 8,
{
    b & !(1u8 << k)
}

/// Clearing one bit leaves every other bit of the byte unchanged.
pub proof fn lemma_clear_bit_byte(b: u8, k: u8, j: u8)
    requires
        k < 8,
        j < 8,
    ensures
        bit_of(clear_bit_byte(b, k), j) == (j != k && bit_of(b, j)),
{
    assert((((b & !(1u8 << k)) >> j) & 1 == 1) == (j != k && ((b >> j) & 1 == 1)))
        by (bit_vector)
        requires
            k < 8,
            j < 8,
    ;
}

// ---------- executable extraction and storage ----------

pub fn extract_u16(data: &Vec<u8>, base: usize) -> (r: u16)
    requires
        base + 2 <= data.len(),
    ensures
        r == le16(data@, base as int),
{
    let lo = data[base];
    let hi = data[base + 1];
    lo as u16 + 256 * (hi as u16)
}

pub fn extract_u32(data: &Vec<u8>, base: usize) -> (r: u32)
    requires
        base + 4 <= data.len(),
    ensures
        r == le32(data@, base as int),
{
    let b0 = data[base];
    let b1 = data[base + 1];
    let b2 = data[base + 2];
    let b3 = data[base + 3];
    b0 as u32 + 256 * (b1 as u32) + 65536 * (b2 as u32) + 16777216 * (b3 as u32)
}

pub fn save_u16(data: &mut Vec<u8>, base: usize, v: u16)
    requires
        base + 2 <= old(data).len(),
    ensures
        final(data)@ == spec_save_u16(old(data)@, base as int, v),
        final(data)@.len() == old(data)@.len(),
        le16(final(data)@, base as int) == v,
{
    let b0 = (v % 256) as u8;
    let b1 = (v / 256) as u8;
    data[base] = b0;
    data[base + 1] = b1;
    proof {
        lemma_fundamental_div_mod(v as int, 256);
    }
}

pub fn save_u32(data: &mut Vec<u8>, base: usize, v: u32)
    requires
        base + 4 <= old(data).len(),
    ensures
        final(data)@ == spec_save_u32(old(data)@, base as int, v),
        final(data)@.len() == old(data)@.len(),
        le32(final(data)@, base as int) == v,
{
    let b0 = (v % 256) as u8;
    let b1 = ((v / 256) % 256) as u8;
    let b2 = ((v / 65536) % 256) as u8;
    let b3 = ((v / 16777216) % 256) as u8;
    data[base] = b0;
    data[base + 1] = b1;
    data[base + 2] = b2;
    data[base + 3] = b3;
    proof {
        lemma_le32_of_bytes(v);
    }
}

/// Decomposing a 32-bit value into four base-256 digits and recombining them
/// little-endian gives the value back.
proof fn lemma_le32_of_bytes(v: u32)
    ensures
        v % 256 + 256 * ((v / 256) % 256) + 65536 * ((v / 65536) % 256) + 16777216 * ((v
            / 16777216) % 256) == v,
{
    lemma_fundamental_div_mod(v as int, 256);
    lemma_fundamental_div_mod(v as int / 256, 256);
    lemma_fundamental_div_mod(v as int / 65536, 256);
    assert(v as int / 256 / 256 == v as int / 65536) by (nonlinear_arith);
    assert(v as int / 65536 / 256 == v as int / 16777216) by (nonlinear_arith);
    assert(v as int / 16777216 % 256 == v as int / 16777216) by {
        assert(v as int / 16777216 < 256) by (nonlinear_arith)
            requires
                v <= 0xffff_ffff,
        ;
    }
}

/// Force one bitmap bit to zero (0 = free in the on-disk convention).
pub fn clear_bit(data: &mut Vec<u8>, base: usize, bit_number: u8)
    requires
        base < old(data).len(),
        bit_number < 8,
    ensures
        final(data)@ == old(data)@.update(
            base as int,
            clear_bit_byte(old(data)@[base as int], bit_number),
        ),
{
    let b = data[base];
    data[base] = b & !(1u8 << bit_number);
}

// ---------- byte ranges ----------

/// The buffer with every byte in `[start, end)` forced to zero.
pub open spec fn zero_range(d: Seq<u8>, start: int, end: int) -> Seq<u8> {
    Seq::new(d.len(), |i: int| if start <= i < end { 0u8 } else { d[i] })
}

pub fn zero_bytes(data: &mut Vec<u8>, start: usize, end: usize)
    requires
        start <= end,
        end <= old(data).len(),
    ensures
        final(data)@ == zero_range(old(data)@, start as int, end as int),
{
    let mut j: usize = start;
    while j < end
        invariant
            start <= j <= end,
            end <= data.len(),
            data@.len() == old(data)@.len(),
            forall|i: int|
                0 <= i < data@.len() ==> data@[i] == (if start <= i < j {
                    0u8
                } else {
                    old(data)@[i]
                }),
        decreases end - j,
    {
        data[j] = 0;
        j = j + 1;
    }
    proof {
        assert(data@ =~= zero_range(old(data)@, start as int, end as int));
    }
}

/// Whether the `pat.len()` bytes of `data` starting at `off` equal `pat`.
pub fn bytes_match(data: &Vec<u8>, off: usize, pat: &Vec<u8>) -> (r: bool)
    requires
        off + pat.len() <= data.len(),
    ensures
        r == (data@.subrange(off as int, off as int + pat@.len() as int) == pat@),
{
    let n = pat.len();
    let ghost sub = data@.subrange(off as int, off as int + pat@.len() as int);
    let mut j: usize = 0;
    while j < n
        invariant
            j <= n,
            off + n <= data.len(),
            n == pat.len(),
            sub == data@.subrange(off as int, off as int + pat@.len() as int),
            forall|i: int| 0 <= i < j ==> data@[off + i] == pat@[i],
        decreases n - j,
    {
        if data[off + j] != pat[j] {
            proof {
                assert(sub[j as int] == data@[off + j]);
                assert(sub != pat@);
            }
            return false;
        }
        j = j + 1;
    }
    proof {
        assert(sub =~= pat@);
    }
    true
}

/// Whether two byte vectors hold the same bytes.
pub fn vec_eq(a: &Vec<u8>, b: &Vec<u8>) -> (r: bool)
    ensures
        r == (a@ == b@),
{
    if a.len() != b.len() {
        proof {
            assert(a@.len() != b@.len());
        }
        return false;
    }
    let r = bytes_match(a, 0, b);
    proof {
        assert(a@.subrange(0, a@.len() as int) =~= a@);
    }
    r
}

// ---------- powers ----------

/// Whether `x` is `y` raised to some non-negative integer power.
pub open spec fn spec_is_power(x: nat, y: nat) -> bool {
    exists|k: nat| x == pow(y as int, k)
}

/// Dividing one factor of `y` out of `x` preserves whether it is a power of
/// `y`, as long as `y` divides `x`.
proof fn lemma_is_power_step(x: nat, y: nat)
    requires
        1 <= x,
        2 <= y,
        x % y == 0,
    ensures
        spec_is_power(x, y) == spec_is_power((x / y) as nat, y),
{
    reveal(pow);
    if spec_is_power(x, y) {
        let k = choose|k: nat| x == pow(y as int, k);
        if k == 0 {
            assert(pow(y as int, 0) == 1);
            assert(x == 1);
            lemma_small_mod_ne(x, y);
            assert(false);
        } else {
            assert(pow(y as int, k) == y * pow(y as int, (k - 1) as nat));
            lemma_pow_positive(y as int, (k - 1) as nat);
            lemma_div_multiples_vanish(pow(y as int, (k - 1) as nat), y as int);
            assert(x / y == pow(y as int, (k - 1) as nat));
            assert(spec_is_power((x / y) as nat, y));
        }
    }
    if spec_is_power((x / y) as nat, y) {
        let k = choose|k: nat| (x / y) as nat == pow(y as int, k);
        lemma_fundamental_div_mod(x as int, y as int);
        assert(x == y * (x as int / y as int));
        assert(pow(y as int, k + 1) == y * pow(y as int, k));
        assert(x == pow(y as int, k + 1));
        assert(spec_is_power(x, y));
    }
}

/// `1 % y` is `1`, not `0`, once `y` is at least `2`.
proof fn lemma_small_mod_ne(x: nat, y: nat)
    requires
        x == 1,
        2 <= y,
    ensures
        x % y != 0,
{
    vstd::arithmetic::div_mod::lemma_small_mod(x, y);
}

/// A value that is neither `1` nor a multiple of `y` is no power of `y`.
proof fn lemma_not_power(x: nat, y: nat)
    requires
        2 <= y,
        x != 1,
        x % y != 0,
    ensures
        !spec_is_power(x, y),
{
    reveal(pow);
    if spec_is_power(x, y) {
        let k = choose|k: nat| x == pow(y as int, k);
        if k == 0 {
            assert(x == 1);
        } else {
            assert(pow(y as int, k) == y * pow(y as int, (k - 1) as nat));
            lemma_pow_positive(y as int, (k - 1) as nat);
            lemma_mod_multiples_basic(pow(y as int, (k - 1) as nat), y as int);
            assert((pow(y as int, (k - 1) as nat) * (y as int)) % (y as int) == 0);
            assert(pow(y as int, (k - 1) as nat) * (y as int) == y * pow(y as int, (k - 1) as nat))
                by (nonlinear_arith);
            assert(x % y == 0);
        }
        assert(false);
    }
}

/// Whether `x` is a power of `y`: repeatedly divide `y` out and see whether
/// `1` remains.
pub fn is_power(x: usize, y: u64) -> (r: bool)
    requires
        1 <= x,
        2 <= y,
        y <= usize::MAX,
    ensures
        r == spec_is_power(x as nat, y as nat),
{
    let yz: usize = y as usize;
    let mut cur: usize = x;
    while cur % yz == 0
        invariant
            1 <= cur,
            2 <= yz,
            yz == y,
            spec_is_power(x as nat, y as nat) == spec_is_power(cur as nat, y as nat),
        decreases cur,
    {
        proof {
            lemma_is_power_step(cur as nat, yz as nat);
            assert(cur >= yz) by {
                if cur < yz {
                    vstd::arithmetic::div_mod::lemma_small_mod(cur as nat, yz as nat);
                }
            }
        }
        let ghost c0 = cur as int;
        cur = cur / yz;
        proof {
            vstd::arithmetic::div_mod::lemma_div_non_zero(c0, yz as int);
            vstd::arithmetic::div_mod::lemma_div_is_strictly_smaller(c0, yz as int);
        }
    }
    proof {
        reveal(pow);
        if cur == 1 {
            assert(pow(y as int, 0) == 1);
            assert(spec_is_power(cur as nat, y as nat));
        } else {
            lemma_not_power(cur as nat, y as nat);
        }
    }
    cur == 1
}

/// A fresh vector holding the `count` bytes of `data` starting at `start`.
pub fn copy_range(data: &Vec<u8>, start: usize, count: usize) -> (r: Vec<u8>)
    requires
        start + count <= data.len(),
    ensures
        r@ == data@.subrange(start as int, start as int + count as int),
{
    let mut out: Vec<u8> = Vec::new();
    let mut j: usize = 0;
    while j < count
        invariant
            j <= count,
            start + count <= data.len(),
            out@.len() == j as int,
            forall|i: int| 0 <= i < j ==> out@[i] == data@[start + i],
        decreases count - j,
    {
        out.push(data[start + j]);
        j = j + 1;
    }
    proof {
        assert(out@ =~= data@.subrange(start as int, start as int + count as int));
    }
    out
}

// ---------- wall clock ----------

/// Relies on std::time::SystemTime::now for the wall-clock time written into
/// a deleted inode's delete-time field: seconds since the Unix epoch at the
/// moment of the call, truncated to 32 bits, or 0 if the clock reads earlier
/// than the epoch.  Nothing is promised of the value: it depends on the
/// machine's clock.
#[verifier::external_body]
pub(crate) fn current_time() -> u32 {
    match std::time::SystemTime::now().duration_since(std::time::UNIX_EPOCH) {
        Ok(d) => d.as_secs() as u32,
        Err(_) => 0u32,
    }
}

} // verus!
