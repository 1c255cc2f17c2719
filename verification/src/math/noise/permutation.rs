//! The seeded lookup table behind the noise field.

use vstd::arithmetic::div_mod::*;
use vstd::prelude::*;

verus! {

/// Number of entries of the lookup table; a power of two.
pub const PSIZE: usize = 2048;

/// Mask that reduces a lattice coordinate to a table slot.
pub const PMASK: usize = 2047;

/// Multiplier of the 64-bit linear congruential generator.
pub const LCG_MULTIPLIER: i64 = 6364136223846793005;

/// Increment of the 64-bit linear congruential generator.
pub const LCG_INCREMENT: i64 = 1442695040888963407;

/// The one seed whose table holds every index at its own place.
pub const IDENTITY_SEED: i64 = -32;

/// Reduction of an integer into the signed 64-bit range, as two's
/// complement arithmetic performs it.
pub open spec fn wrap64(v: int) -> int {
    let m = v % 0x1_0000_0000_0000_0000;
    if m >= 0x8000_0000_0000_0000 {
        m - 0x1_0000_0000_0000_0000
    } else {
        m
    }
}

/// The generator state that follows `s`.
pub open spec fn spec_lcg_step(s: i64) -> int {
    wrap64(s * LCG_MULTIPLIER + LCG_INCREMENT)
}

/// The number every table entry is reduced from: `seed + 31` in wrapping
/// 64-bit arithmetic.
pub open spec fn shifted_seed(seed: i64) -> int {
    wrap64(seed + 31)
}

/// Entry `i` of the table of `seed`: the shifted seed reduced into `0..=i`.
pub open spec fn table_entry(seed: i64, i: int) -> int {
    shifted_seed(seed) % (i + 1)
}

/// The whole table of `seed`.
pub open spec fn seed_table(seed: i64) -> Seq<usize> {
    Seq::new(PSIZE as nat, |i: int| table_entry(seed, i) as usize)
}

/// A table is usable when it has `PSIZE` entries that are all table slots.
pub open spec fn in_range(table: Seq<usize>) -> bool {
    &&& table.len() == PSIZE
    &&& forall|i: int| 0 <= i < PSIZE ==> #[trigger] table[i] < PSIZE
}

/// Slot `v` is the entry at some index of the table.
pub open spec fn occurs(table: Seq<usize>, v: int) -> bool {
    exists|i: int| 0 <= i < PSIZE && #[trigger] table[i] == v
}

/// A table is a bijection on `0..PSIZE` when it is usable, no slot occurs
/// twice and every slot occurs.
pub open spec fn is_bijection(table: Seq<usize>) -> bool {
    &&& in_range(table)
    &&& forall|i: int, j: int| 0 <= i < j < PSIZE ==> table[i] != table[j]
    &&& forall|v: int| 0 <= v < PSIZE ==> #[trigger] occurs(table, v)
}

/// Euclidean remainder from the truncated one.
proof fn lemma_truncated_rem(x: int, d: int)
    requires
        x < 0,
        d > 0,
    ensures
        (-x) % d == 0 ==> x % d == 0,
        (-x) % d != 0 ==> x % d == d - (-x) % d,
{
    let q = (-x) / d;
    let m = (-x) % d;
    lemma_fundamental_div_mod(-x, d);
    assert(-x == d * q + m);
    if m == 0 {
        assert(x == (-q) * d + 0) by (nonlinear_arith)
            requires
                -x == d * q + m,
                m == 0,
        ;
        lemma_fundamental_div_mod_converse(x, d, -q, 0);
    } else {
        assert(x == (-q - 1) * d + (d - m)) by (nonlinear_arith)
            requires
                -x == d * q + m,
        ;
        lemma_fundamental_div_mod_converse(x, d, -q - 1, d - m);
    }
}

proof fn lemma_wrap64_identity(v: int)
    requires
        i64::MIN <= v <= i64::MAX,
    ensures
        wrap64(v) == v,
{
    if v >= 0 {
        lemma_small_mod(v as nat, 0x1_0000_0000_0000_0000);
    } else {
        lemma_small_mod((v + 0x1_0000_0000_0000_0000) as nat, 0x1_0000_0000_0000_0000);
        lemma_mod_add_multiples_vanish(v, 0x1_0000_0000_0000_0000);
    }
}

proof fn lemma_wrap64_shift(v: int, k: int)
    ensures
        wrap64(v + k * 0x1_0000_0000_0000_0000) == wrap64(v),
{
    lemma_mod_multiples_vanish(k, v, 0x1_0000_0000_0000_0000);
}

/// Advances the linear congruential generator by one step.
pub fn lcg_step(s: i64) -> (next: i64)
    ensures
        next == spec_lcg_step(s),
{
    let product: i64 = s.wrapping_mul(LCG_MULTIPLIER);
    let next: i64 = product.wrapping_add(LCG_INCREMENT);
    proof {
        let k = lemma_wrap_mul(s, LCG_MULTIPLIER);
        lemma_wrap_add(product, LCG_INCREMENT);
        lemma_wrap64_shift(s * LCG_MULTIPLIER + LCG_INCREMENT, k);
    }
    next
}

proof fn lemma_wrap_add(a: i64, b: i64)
    ensures
        vstd::wrapping::i64_specs::wrapping_add(a, b) == wrap64(a + b),
{
    let v = a + b;
    if v > i64::MAX {
        lemma_wrap64_identity(v - 0x1_0000_0000_0000_0000);
        lemma_wrap64_shift(v - 0x1_0000_0000_0000_0000, 1);
    } else if v < i64::MIN {
        lemma_wrap64_identity(v + 0x1_0000_0000_0000_0000);
        lemma_wrap64_shift(v + 0x1_0000_0000_0000_0000, -1);
    } else {
        lemma_wrap64_identity(v);
    }
}

proof fn lemma_wrap_mul(a: i64, b: i64) -> (k: int)
    ensures
        vstd::wrapping::i64_specs::wrapping_mul(a, b) == wrap64(a * b),
        wrap64(a * b) == a * b + k * 0x1_0000_0000_0000_0000,
{
    let v = a * b;
    let m = v % 0x1_0000_0000_0000_0000;
    lemma_fundamental_div_mod(v, 0x1_0000_0000_0000_0000);
    let q = v / 0x1_0000_0000_0000_0000;
    if m >= 0x8000_0000_0000_0000 {
        -q - 1
    } else {
        -q
    }
}

/// Reduces `value` into `0..modulus`.
fn reduce(value: i64, modulus: i64) -> (r: i64)
    requires
        0 < modulus <= PSIZE,
    ensures
        r == (value as int) % (modulus as int),
        0 <= r < modulus,
{
    let mut r: i64 = value % modulus;
    proof {
        lemma_mod_bound(value as int, modulus as int);
        if value < 0 {
            lemma_truncated_rem(value as int, modulus as int);
            lemma_mod_bound(-(value as int), modulus as int);
        }
    }
    if r < 0 {
        r = r + modulus;
    }
    r
}

/// The shifted seed is the seed plus 31, taken down by the size of the
/// 64-bit range where that sum exceeds the largest 64-bit number.
pub proof fn lemma_shifted_seed(seed: i64)
    ensures
        seed + 31 <= i64::MAX ==> shifted_seed(seed) == seed + 31,
        seed + 31 > i64::MAX ==> shifted_seed(seed) == seed + 31 - 0x1_0000_0000_0000_0000,
{
    lemma_wrap_add(seed, 31);
}

/// Every entry of the table of a seed is at most its own index.
pub proof fn lemma_seed_table_entries(seed: i64)
    ensures
        seed_table(seed).len() == PSIZE,
        forall|i: int|
            0 <= i < PSIZE ==> 0 <= (#[trigger] table_entry(seed, i)) && table_entry(seed, i) <= i,
        forall|i: int| 0 <= i < PSIZE ==> #[trigger] seed_table(seed)[i] == table_entry(seed, i),
        in_range(seed_table(seed)),
{
    assert forall|i: int| 0 <= i < PSIZE implies 0 <= (#[trigger] table_entry(seed, i))
        && table_entry(seed, i) <= i by {
        lemma_mod_bound(shifted_seed(seed), i + 1);
    }
}

/// Builds the lookup table of `seed`.
///
/// The rounds run from the last index down. Each advances the generator
/// state and stores the shifted seed reduced into `0..=i` at index `i`. No
/// entry is drawn from the state and none is removed from the pool once
/// used, so the table is a function of the seed alone and a slot may occur
/// more than once.
pub fn build_permutation(seed: i64) -> (perm: [usize; PSIZE])
    ensures
        perm@ == seed_table(seed),
        in_range(perm@),
{
    let mut perm: [usize; PSIZE] = [0usize; PSIZE];
    let mut source: [usize; PSIZE] = [0usize; PSIZE];
    let mut j: usize = 0;
    while j < PSIZE
        invariant
            j <= PSIZE,
            forall|k: int| 0 <= k < j ==> source[k] == k,
        decreases PSIZE - j,
    {
        source[j] = j;
        j = j + 1;
    }
    let base: i64 = seed.wrapping_add(31);
    proof {
        lemma_wrap_add(seed, 31);
        lemma_seed_table_entries(seed);
    }
    let mut s: i64 = seed;
    let mut i: usize = PSIZE;
    while i > 0
        invariant
            i <= PSIZE,
            base == shifted_seed(seed),
            forall|k: int| 0 <= k < PSIZE ==> source[k] == k,
            forall|k: int| i <= k < PSIZE ==> perm[k] == table_entry(seed, k),
        decreases i,
    {
        i = i - 1;
        s = lcg_step(s);
        let r: i64 = reduce(base, (i + 1) as i64);
        perm[i] = source[r as usize];
    }
    assert(perm@ =~= seed_table(seed));
    perm
}

/// Tells whether every entry of `table` is a table slot.
pub fn table_in_range(table: &[usize; PSIZE]) -> (ok: bool)
    ensures
        ok == in_range(table@),
{
    let mut i: usize = 0;
    while i < PSIZE
        invariant
            i <= PSIZE,
            forall|k: int| 0 <= k < i ==> table[k] < PSIZE,
        decreases PSIZE - i,
    {
        if table[i] >= PSIZE {
            return false;
        }
        i = i + 1;
    }
    true
}

/// Tells whether `table` is a bijection on `0..PSIZE`.
pub fn is_permutation(table: &[usize; PSIZE]) -> (ok: bool)
    ensures
        ok == is_bijection(table@),
{
    let mut seen: [bool; PSIZE] = [false; PSIZE];
    let mut i: usize = 0;
    while i < PSIZE
        invariant
            i <= PSIZE,
            forall|k: int| 0 <= k < i ==> table[k] < PSIZE,
            forall|k: int, l: int| 0 <= k < l < i ==> table[k] != table[l],
            forall|v: int|
                0 <= v < PSIZE ==> (#[trigger] seen[v] <==> exists|k: int|
                    0 <= k < i && #[trigger] table[k] == v),
        decreases PSIZE - i,
    {
        let v: usize = table[i];
        if v >= PSIZE {
            return false;
        }
        if seen[v] {
            proof {
                let k = choose|k: int| 0 <= k < i && #[trigger] table[k] == v;
                assert(table[k] == table[i as int]);
            }
            return false;
        }
        let ghost before = seen;
        seen[v] = true;
        proof {
            assert forall|w: int| 0 <= w < PSIZE implies (#[trigger] seen[w] <==> exists|k: int|
                0 <= k < i + 1 && #[trigger] table[k] == w) by {
                if w == v {
                    assert(table[i as int] == w);
                } else {
                    assert(seen[w] == before[w]);
                    if before[w] {
                        let k = choose|k: int| 0 <= k < i && #[trigger] table[k] == w;
                        assert(0 <= k < i + 1 && table[k] == w);
                    }
                }
            }
        }
        i = i + 1;
    }
    let mut v: usize = 0;
    while v < PSIZE
        invariant
            v <= PSIZE,
            forall|w: int|
                0 <= w < PSIZE ==> (#[trigger] seen[w] <==> exists|k: int|
                    0 <= k < PSIZE && #[trigger] table[k] == w),
            forall|w: int| 0 <= w < v ==> seen[w],
        decreases PSIZE - v,
    {
        if !seen[v] {
            proof {
                assert(!occurs(table@, v as int));
            }
            return false;
        }
        v = v + 1;
    }
    proof {
        assert forall|w: int| 0 <= w < PSIZE implies #[trigger] occurs(table@, w) by {
            assert(seen[w]);
            let k = choose|k: int| 0 <= k < PSIZE && #[trigger] table[k] == w;
            assert(0 <= k < PSIZE && table@[k] == w);
        }
    }
    true
}

/// The table of `IDENTITY_SEED` holds every index at its own place, so it
/// is a bijection.
pub proof fn lemma_identity_table()
    ensures
        forall|i: int| 0 <= i < PSIZE ==> #[trigger] seed_table(IDENTITY_SEED)[i] == i,
        is_bijection(seed_table(IDENTITY_SEED)),
{
    let t = seed_table(IDENTITY_SEED);
    lemma_wrap64_identity(-1);
    assert forall|i: int| 0 <= i < PSIZE implies #[trigger] t[i] == i by {
        lemma_small_mod(i as nat, (i + 1) as nat);
        lemma_mod_add_multiples_vanish(-1, i + 1);
        assert(-1 + (i + 1) == i);
    }
    assert forall|v: int| 0 <= v < PSIZE implies #[trigger] occurs(t, v) by {
        assert(t[v] == v);
    }
}

/// In a bijective table whose entries never exceed their index, every entry
/// from `n` on equals its index.
proof fn lemma_fixed_from(table: Seq<usize>, n: int)
    requires
        is_bijection(table),
        forall|i: int| 0 <= i < PSIZE ==> #[trigger] table[i] <= i,
        0 <= n <= PSIZE,
    ensures
        forall|i: int| n <= i < PSIZE ==> #[trigger] table[i] == i,
    decreases PSIZE - n,
{
    if n < PSIZE {
        lemma_fixed_from(table, n + 1);
        assert(occurs(table, n));
        let k = choose|k: int| 0 <= k < PSIZE && #[trigger] table[k] == n;
        assert(table[k] <= k);
        if k > n {
            assert(table[k] == k);
        }
        assert(k == n);
    }
}

/// A number divisible by two moduli is divisible by their product, given a
/// certificate `s * p == 1 + k * d` that the two share no factor.
proof fn lemma_coprime_product(m: int, p: int, d: int, s: int, k: int)
    requires
        p > 0,
        d > 0,
        m % p == 0,
        m % d == 0,
        s * p == 1 + k * d,
    ensures
        m % (p * d) == 0,
{
    let a = m / p;
    let b = m / d;
    lemma_fundamental_div_mod(m, p);
    lemma_fundamental_div_mod(m, d);
    assert(m == p * a);
    assert(m == d * b);
    let c = s * b - k * a;
    assert(a == d * c) by (nonlinear_arith)
        requires
            m == p * a,
            m == d * b,
            s * p == 1 + k * d,
            c == s * b - k * a,
    {
        assert(s * m == s * (p * a));
        assert(s * (p * a) == (s * p) * a);
        assert((s * p) * a == a + (k * d) * a);
        assert(s * m == s * (d * b));
    }
    assert(m == c * (p * d)) by (nonlinear_arith)
        requires
            m == p * a,
            a == d * c,
    ;
    assert(p * d > 0) by (nonlinear_arith)
        requires
            p > 0,
            d > 0,
    ;
    lemma_fundamental_div_mod_converse(m, p * d, c, 0);
}

/// A 65-bit number divisible by each of six pairwise coprime moduli below
/// the table size is zero: their product exceeds its magnitude.
proof fn lemma_only_zero_divisible(m: int)
    requires
        -0x1_0000_0000_0000_0000 < m < 0x1_0000_0000_0000_0000,
        m % 2048 == 0,
        m % 2047 == 0,
        m % 2045 == 0,
        m % 2043 == 0,
        m % 2041 == 0,
        m % 2039 == 0,
    ensures
        m == 0,
{
    lemma_coprime_product(m, 2048, 2047, 1, 1);
    lemma_coprime_product(m, 4192256, 2045, 341, 699051);
    lemma_coprime_product(m, 8573163520, 2043, 664, 2786383053);
    lemma_coprime_product(m, 17514973071360, 2041, 1306, 11207523190199);
    lemma_coprime_product(m, 35748060038645760, 2039, 1544, 27069644286252601);
    let product: int = 72890294418798704640;
    assert(m % product == 0);
    lemma_fundamental_div_mod(m, product);
    let q = m / product;
    assert(m == product * q);
    assert(q == 0) by (nonlinear_arith)
        requires
            m == product * q,
            product == 72890294418798704640,
            -0x1_0000_0000_0000_0000 < m < 0x1_0000_0000_0000_0000,
    ;
}

/// A remainder one short of the modulus means the successor is divisible.
proof fn lemma_successor_divisible(x: int, d: int)
    requires
        d > 0,
        x % d == d - 1,
    ensures
        (x + 1) % d == 0,
{
    lemma_fundamental_div_mod(x, d);
    let q = x / d;
    assert(x + 1 == (q + 1) * d + 0) by (nonlinear_arith)
        requires
            x == d * q + (d - 1),
    ;
    lemma_fundamental_div_mod_converse(x + 1, d, q + 1, 0);
}

/// The table of a seed is a bijection on `0..PSIZE` for `IDENTITY_SEED` and
/// for no other seed.
///
/// Entry `i` never exceeds `i`, so a bijective table holds every index at
/// its own place. That makes the shifted seed plus one divisible by every
/// number up to `PSIZE`, which among 64-bit numbers only zero is.
pub proof fn lemma_bijection_seed(seed: i64)
    ensures
        is_bijection(seed_table(seed)) <==> seed == IDENTITY_SEED,
{
    if seed == IDENTITY_SEED {
        lemma_identity_table();
    }
    if is_bijection(seed_table(seed)) {
        let t = seed_table(seed);
        lemma_seed_table_entries(seed);
        assert forall|i: int| 0 <= i < PSIZE implies #[trigger] t[i] <= i by {
            assert(t[i] == table_entry(seed, i));
        }
        lemma_fixed_from(t, 0);
        let x = shifted_seed(seed);
        let m = x + 1;
        assert(m % 2048 == 0) by {
            assert(t[2047] == table_entry(seed, 2047));
            lemma_successor_divisible(x, 2048);
        }
        assert(m % 2047 == 0) by {
            assert(t[2046] == table_entry(seed, 2046));
            lemma_successor_divisible(x, 2047);
        }
        assert(m % 2045 == 0) by {
            assert(t[2044] == table_entry(seed, 2044));
            lemma_successor_divisible(x, 2045);
        }
        assert(m % 2043 == 0) by {
            assert(t[2042] == table_entry(seed, 2042));
            lemma_successor_divisible(x, 2043);
        }
        assert(m % 2041 == 0) by {
            assert(t[2040] == table_entry(seed, 2040));
            lemma_successor_divisible(x, 2041);
        }
        assert(m % 2039 == 0) by {
            assert(t[2038] == table_entry(seed, 2038));
            lemma_successor_divisible(x, 2039);
        }
        lemma_wrap_add(seed, 31);
        lemma_only_zero_divisible(m);
    }
}

} // verus!
