//! The noise field: a seeded table and the gradient it assigns to every
//! lattice vertex.

use crate::math::noise::permutation::{
    build_permutation, in_range, is_bijection, seed_table, table_in_range, PMASK, PSIZE,
};
use crate::math::noise::simplex2::Vertex2;
use crate::math::noise::simplex3::Vertex3;
use vstd::prelude::*;

verus! {

/// Number of gradient directions in the plane.
pub const GRADIENTS_2D: usize = 24;

/// Number of gradient directions in space.
pub const GRADIENTS_3D: usize = 48;

/// The table slot of a lattice coordinate: its low eleven bits.
pub open spec fn slot(c: int) -> int {
    c % 2048
}

/// The slot that mixes two lattice coordinates: the table entry of the
/// first, exclusive-or the slot of the second.
pub open spec fn hash2(table: Seq<usize>, x: int, y: int) -> usize {
    table[slot(x)] ^ (slot(y) as usize)
}

/// The slot that mixes three lattice coordinates: the table entry of the
/// first two mixed, exclusive-or the slot of the third.
pub open spec fn hash3(table: Seq<usize>, x: int, y: int, z: int) -> usize {
    table[hash2(table, x, y) as int] ^ (slot(z) as usize)
}

/// Index of the gradient direction at a vertex of the plane.
pub open spec fn gradient2_of(table: Seq<usize>, x: int, y: int) -> int {
    table[hash2(table, x, y) as int] as int % 24
}

/// Index of the gradient direction at a vertex of space.
pub open spec fn gradient3_of(table: Seq<usize>, x: int, y: int, z: int) -> int {
    table[hash3(table, x, y, z) as int] as int % 48
}

/// The exclusive-or of two slots is a slot.
pub proof fn lemma_xor_slot(a: usize, b: usize)
    requires
        a < 2048,
        b < 2048,
    ensures
        a ^ b < 2048,
{
    assert(a ^ b < 2048) by (bit_vector)
        requires
            a < 2048,
            b < 2048,
    ;
}

/// On a usable table both hashes are slots and both gradient indices are
/// within their lists.
pub proof fn lemma_hash_bounds(table: Seq<usize>, x: int, y: int, z: int)
    requires
        in_range(table),
    ensures
        hash2(table, x, y) < PSIZE,
        hash3(table, x, y, z) < PSIZE,
        0 <= gradient2_of(table, x, y) < GRADIENTS_2D,
        0 <= gradient3_of(table, x, y, z) < GRADIENTS_3D,
{
    assert(table[slot(x)] < PSIZE);
    lemma_xor_slot(table[slot(x)], slot(y) as usize);
    let h2 = hash2(table, x, y);
    assert(table[h2 as int] < PSIZE);
    lemma_xor_slot(table[h2 as int], slot(z) as usize);
    let h3 = hash3(table, x, y, z);
    assert(table[h3 as int] < PSIZE);
}

/// The exclusive-or with one slot, on either side, maps different slots to
/// different slots.
pub proof fn lemma_xor_injective(a: usize, b: usize, c: usize)
    ensures
        a ^ c == b ^ c ==> a == b,
        c ^ a == c ^ b ==> a == b,
{
    assert(a ^ c == b ^ c ==> a == b) by (bit_vector);
    assert(c ^ a == c ^ b ==> a == b) by (bit_vector);
}

/// On a bijective table the hash of the plane sends lattice points of
/// different slots along one axis, and the same slot along the other, to
/// different slots: no two neighbours along an axis share a hash.
pub proof fn lemma_hash2_injective(table: Seq<usize>, x: int, y: int, u: int, v: int)
    requires
        is_bijection(table),
        (slot(x) != slot(u) && slot(y) == slot(v)) || (slot(x) == slot(u) && slot(y) != slot(v)),
    ensures
        hash2(table, x, y) != hash2(table, u, v),
{
    if hash2(table, x, y) == hash2(table, u, v) {
        if slot(y) == slot(v) {
            lemma_xor_injective(table[slot(x)], table[slot(u)], slot(y) as usize);
            if slot(x) < slot(u) {
                assert(table[slot(x)] != table[slot(u)]);
            } else {
                assert(table[slot(u)] != table[slot(x)]);
            }
        } else {
            lemma_xor_injective(slot(y) as usize, slot(v) as usize, table[slot(x)]);
        }
    }
}

/// The gradient at a vertex repeats with the table size along every axis.
pub proof fn lemma_gradient_period(table: Seq<usize>, x: int, y: int, z: int, k: int)
    ensures
        gradient2_of(table, x + k * 2048, y) == gradient2_of(table, x, y),
        gradient2_of(table, x, y + k * 2048) == gradient2_of(table, x, y),
        gradient3_of(table, x + k * 2048, y, z) == gradient3_of(table, x, y, z),
        gradient3_of(table, x, y + k * 2048, z) == gradient3_of(table, x, y, z),
        gradient3_of(table, x, y, z + k * 2048) == gradient3_of(table, x, y, z),
{
    vstd::arithmetic::div_mod::lemma_mod_multiples_vanish(k, x, 2048);
    vstd::arithmetic::div_mod::lemma_mod_multiples_vanish(k, y, 2048);
    vstd::arithmetic::div_mod::lemma_mod_multiples_vanish(k, z, 2048);
    assert(slot(x + k * 2048) == slot(x));
    assert(slot(y + k * 2048) == slot(y));
    assert(slot(z + k * 2048) == slot(z));
}

/// Computes the slot of the lattice coordinate `step` cells from `base`.
fn lattice_slot(base: i32, step: i32) -> (s: usize)
    ensures
        s == slot(base + step),
        s < PSIZE,
{
    let c: i64 = base as i64 + step as i64;
    let low: u64 = (c as u64) & (PMASK as u64);
    assert(low == (c as int) % 2048 && low < 2048) by (bit_vector)
        requires
            low == (c as u64) & 2047u64,
    ;
    low as usize
}

/// A coherent noise field.
///
/// It owns a lookup table of `PSIZE` slots and, derived from it, the index
/// of a gradient direction for every slot: one among `GRADIENTS_2D` for the
/// plane and one among `GRADIENTS_3D` for space. Nothing changes after
/// construction.
pub struct OpenSimplex {
    seed: i64,
    perm: [usize; PSIZE],
    perm2d: [usize; PSIZE],
    perm3d: [usize; PSIZE],
}

impl OpenSimplex {
    /// The lookup table of the field.
    pub closed spec fn table(&self) -> Seq<usize> {
        self.perm@
    }

    /// The seed the field was made with; zero for a field made from a table.
    pub closed spec fn seed_value(&self) -> i64 {
        self.seed
    }

    /// The table is usable and the gradient indices are derived from it.
    pub closed spec fn wf(&self) -> bool {
        &&& in_range(self.perm@)
        &&& forall|i: int| 0 <= i < PSIZE ==> #[trigger] self.perm2d[i] == self.perm[i] % 24
        &&& forall|i: int| 0 <= i < PSIZE ==> #[trigger] self.perm3d[i] == self.perm[i] % 48
    }

    #[verifier::type_invariant]
    spec fn inv(&self) -> bool {
        self.wf()
    }

    /// Makes the field of `seed`.
    pub fn new(seed: i64) -> (field: Self)
        ensures
            field.wf(),
            field.seed_value() == seed,
            field.table() == seed_table(seed),
    {
        let perm = build_permutation(seed);
        let (perm2d, perm3d) = Self::getperms(&perm);
        Self { seed, perm, perm2d, perm3d }
    }

    /// Makes a field from a given table, with seed zero.
    pub fn new_from_perm(perm: [usize; PSIZE]) -> (field: Self)
        requires
            in_range(perm@),
        ensures
            field.wf(),
            field.seed_value() == 0,
            field.table() == perm@,
    {
        let (perm2d, perm3d) = Self::getperms(&perm);
        Self { seed: 0, perm, perm2d, perm3d }
    }

    /// Makes a field from a given table if every entry of it is a slot.
    pub fn checked_from_perm(perm: [usize; PSIZE]) -> (field: Option<Self>)
        ensures
            field is Some <==> in_range(perm@),
            field matches Some(f) ==> f.wf() && f.seed_value() == 0 && f.table() == perm@,
    {
        if table_in_range(&perm) {
            Some(Self::new_from_perm(perm))
        } else {
            None
        }
    }

    /// Returns the seed of the field.
    pub fn get_seed(&self) -> (seed: i64)
        ensures
            seed == self.seed_value(),
    {
        self.seed
    }

    /// Returns the lookup table of the field.
    pub fn permutation(&self) -> (perm: &[usize; PSIZE])
        ensures
            perm@ == self.table(),
    {
        &self.perm
    }

    /// Derives the gradient index of every slot: the table entry reduced
    /// modulo the number of directions.
    pub fn getperms(permtable: &[usize; PSIZE]) -> (tables: ([usize; PSIZE], [usize; PSIZE]))
        ensures
            forall|i: int| 0 <= i < PSIZE ==> #[trigger] tables.0[i] == permtable[i] % 24,
            forall|i: int| 0 <= i < PSIZE ==> #[trigger] tables.1[i] == permtable[i] % 48,
    {
        let mut perm2d: [usize; PSIZE] = [0usize; PSIZE];
        let mut i: usize = 0;
        while i < PSIZE
            invariant
                i <= PSIZE,
                forall|k: int| 0 <= k < i ==> #[trigger] perm2d[k] == permtable[k] % 24,
            decreases PSIZE - i,
        {
            perm2d[i] = permtable[i] % GRADIENTS_2D;
            i = i + 1;
        }
        let mut perm3d: [usize; PSIZE] = [0usize; PSIZE];
        let mut i: usize = 0;
        while i < PSIZE
            invariant
                i <= PSIZE,
                forall|k: int| 0 <= k < i ==> #[trigger] perm3d[k] == permtable[k] % 48,
            decreases PSIZE - i,
        {
            perm3d[i] = permtable[i] % GRADIENTS_3D;
            i = i + 1;
        }
        (perm2d, perm3d)
    }

    /// Finds the gradient direction at the vertex `v` of the cell based at
    /// `(xsb, ysb)`.
    pub fn gradient2(&self, xsb: i32, ysb: i32, v: Vertex2) -> (g: usize)
        ensures
            g == gradient2_of(self.table(), xsb + v.x, ysb + v.y),
            g < GRADIENTS_2D,
    {
        proof {
            use_type_invariant(self);
            lemma_hash_bounds(self.table(), xsb + v.x, ysb + v.y, 0);
        }
        let xs: usize = lattice_slot(xsb, v.x);
        let ys: usize = lattice_slot(ysb, v.y);
        self.perm2d[self.perm[xs] ^ ys]
    }

    /// Finds the gradient direction at the vertex `v` of the cell based at
    /// `(xsb, ysb, zsb)`.
    pub fn gradient3(&self, xsb: i32, ysb: i32, zsb: i32, v: Vertex3) -> (g: usize)
        ensures
            g == gradient3_of(
                self.table(),
                xsb + v.x.cells,
                ysb + v.y.cells,
                zsb + v.z.cells,
            ),
            g < GRADIENTS_3D,
    {
        proof {
            use_type_invariant(self);
            lemma_hash_bounds(self.table(), xsb + v.x.cells, ysb + v.y.cells, zsb + v.z.cells);
        }
        let xs: usize = lattice_slot(xsb, v.x.cells);
        let ys: usize = lattice_slot(ysb, v.y.cells);
        let zs: usize = lattice_slot(zsb, v.z.cells);
        self.perm3d[self.perm[self.perm[xs] ^ ys] ^ zs]
    }
}

/// Two fields made of the same seed hold the same table and so give the
/// same gradient at every vertex.
pub proof fn lemma_same_seed(a: OpenSimplex, b: OpenSimplex, seed: i64, x: int, y: int, z: int)
    requires
        a.table() == seed_table(seed),
        b.table() == seed_table(seed),
    ensures
        a.table() == b.table(),
        gradient2_of(a.table(), x, y) == gradient2_of(b.table(), x, y),
        gradient3_of(a.table(), x, y, z) == gradient3_of(b.table(), x, y, z),
{
}

} // verus!
