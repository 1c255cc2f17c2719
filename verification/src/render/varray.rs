//! The layout of a vertex buffer: which components each vertex holds, and
//! where in the vertex each of them starts.

use vstd::prelude::*;

verus! {

/// Code of 32-bit floating-point components.
pub const FLOAT: u32 = 0x1406;

/// Code of 32-bit unsigned integer components.
pub const UNSIGNED_INT: u32 = 0x1405;

/// Code of 8-bit unsigned integer components.
pub const UNSIGNED_BYTE: u32 = 0x1401;

/// Code of the boolean false.
pub const FALSE: u8 = 0;

/// The size in bytes of one component of type `etype`; zero for a type that
/// the layout does not know.
pub open spec fn spec_type_size(etype: u32) -> int {
    if etype == FLOAT || etype == UNSIGNED_INT {
        4
    } else if etype == UNSIGNED_BYTE {
        1
    } else {
        0
    }
}

/// One attribute of a vertex: `count` components of one type.
#[derive(Clone, Copy, Debug, PartialEq, Eq, Structural)]
pub struct VbElements {
    etype: u32,
    count: i32,
    normalized: u8,
}

impl VbElements {
    /// The type of the components.
    pub closed spec fn spec_etype(self) -> u32 {
        self.etype
    }

    /// The number of components.
    pub closed spec fn spec_count(self) -> i32 {
        self.count
    }

    /// Whether the components are to be normalized.
    pub closed spec fn spec_normalized(self) -> u8 {
        self.normalized
    }

    /// The bytes that the attribute takes in a vertex.
    pub open spec fn spec_size(self) -> int {
        self.spec_count() * spec_type_size(self.spec_etype())
    }

    /// Makes an attribute.
    pub fn new(etype: u32, count: i32, normalized: u8) -> (e: Self)
        ensures
            e.spec_etype() == etype,
            e.spec_count() == count,
            e.spec_normalized() == normalized,
    {
        Self { etype: etype, count: count, normalized: normalized }
    }

    /// Returns the size in bytes of one component of type `etype`.
    pub fn get_type_size(etype: u32) -> (size: u32)
        ensures
            size == spec_type_size(etype),
    {
        if etype == FLOAT {
            4
        } else if etype == UNSIGNED_INT {
            4
        } else if etype == UNSIGNED_BYTE {
            1
        } else {
            0
        }
    }

    /// Returns the type of the components.
    pub fn etype(&self) -> (t: u32)
        ensures
            t == self.spec_etype(),
    {
        self.etype
    }

    /// Returns the number of components.
    pub fn count(&self) -> (n: i32)
        ensures
            n == self.spec_count(),
    {
        self.count
    }

    /// Returns whether the components are to be normalized.
    pub fn normalized(&self) -> (n: u8)
        ensures
            n == self.spec_normalized(),
    {
        self.normalized
    }
}

/// The bytes that a run of attributes takes.
pub open spec fn total_size(elements: Seq<VbElements>) -> int
    decreases elements.len(),
{
    if elements.len() == 0 {
        0
    } else {
        total_size(elements.drop_last()) + elements.last().spec_size()
    }
}

/// What the driver is told of one attribute.
#[derive(Clone, Copy, Debug, PartialEq, Eq, Structural)]
pub struct Attribute {
    /// Place of the attribute in the layout.
    pub index: u32,
    pub count: i32,
    pub etype: u32,
    pub normalized: u8,
    /// Bytes from one vertex to the next.
    pub stride: i32,
    /// Bytes from the start of the vertex to the attribute.
    pub offset: u32,
}

/// The attributes of a vertex, in order, with the size of the vertex.
pub struct VbLayout {
    elements: Vec<VbElements>,
    stride: i32,
}

impl View for VbLayout {
    type V = Seq<VbElements>;

    closed spec fn view(&self) -> Seq<VbElements> {
        self.elements@
    }
}

impl VbLayout {
    /// The size of a vertex in bytes.
    pub closed spec fn spec_stride(&self) -> i32 {
        self.stride
    }

    /// No attribute has a negative count, the stride is what the
    /// attributes take together, and their places fit in 32 bits.
    pub open spec fn wf(&self) -> bool {
        &&& forall|i: int| 0 <= i < self@.len() ==> (#[trigger] self@[i]).spec_count() >= 0
        &&& self.spec_stride() == total_size(self@)
        &&& self@.len() <= u32::MAX
    }

    /// What the driver is told of attribute `i`.
    pub open spec fn spec_attribute(&self, i: int) -> Attribute {
        Attribute {
            index: i as u32,
            count: self@[i].spec_count(),
            etype: self@[i].spec_etype(),
            normalized: self@[i].spec_normalized(),
            stride: self.spec_stride(),
            offset: total_size(self@.take(i)) as u32,
        }
    }

    /// Makes a layout without attributes.
    pub fn new() -> (layout: Self)
        ensures
            layout.wf(),
            layout@ == Seq::<VbElements>::empty(),
            layout.spec_stride() == 0,
    {
        Self { elements: Vec::new(), stride: 0 }
    }

    /// Appends `count` components of type `etype`.
    fn push(&mut self, etype: u32, count: i32)
        requires
            old(self).wf(),
            count >= 0,
            old(self).spec_stride() + count * spec_type_size(etype) <= i32::MAX,
            old(self)@.len() < u32::MAX,
        ensures
            final(self).wf(),
            final(self)@.len() == old(self)@.len() + 1,
            final(self)@.drop_last() == old(self)@,
            final(self)@.last().spec_etype() == etype,
            final(self)@.last().spec_count() == count,
            final(self)@.last().spec_normalized() == FALSE,
            final(self).spec_stride() == old(self).spec_stride() + count * spec_type_size(etype),
    {
        let size: u32 = VbElements::get_type_size(etype);
        let before: i32 = self.stride;
        proof {
            lemma_total_size_nonnegative(old(self)@);
            assert(0 <= count * size <= i32::MAX) by (nonlinear_arith)
                requires
                    count >= 0,
                    0 <= size,
                    before >= 0,
                    before + count * size <= i32::MAX,
            ;
        }
        let bytes: u32 = count as u32 * size;
        self.elements.push(VbElements::new(etype, count, FALSE));
        self.stride = self.stride + bytes as i32;
        proof {
            assert(self@.drop_last() =~= old(self)@);
            assert(self@.last().spec_size() == count * size);
            assert forall|i: int| 0 <= i < self@.len() implies (#[trigger] self@[i]).spec_count()
                >= 0 by {
                if i < old(self)@.len() {
                    assert(self@[i] == old(self)@[i]);
                }
            }
        }
    }

    /// Appends `count` 32-bit floating-point components.
    pub fn push_f32(&mut self, count: i32)
        requires
            old(self).wf(),
            count >= 0,
            old(self).spec_stride() + count * 4 <= i32::MAX,
            old(self)@.len() < u32::MAX,
        ensures
            final(self).wf(),
            final(self)@.len() == old(self)@.len() + 1,
            final(self)@.drop_last() == old(self)@,
            final(self)@.last().spec_etype() == FLOAT,
            final(self)@.last().spec_count() == count,
            final(self)@.last().spec_normalized() == FALSE,
            final(self).spec_stride() == old(self).spec_stride() + count * 4,
    {
        self.push(FLOAT, count);
    }

    /// Appends `count` 32-bit unsigned integer components.
    pub fn push_u32(&mut self, count: i32)
        requires
            old(self).wf(),
            count >= 0,
            old(self).spec_stride() + count * 4 <= i32::MAX,
            old(self)@.len() < u32::MAX,
        ensures
            final(self).wf(),
            final(self)@.len() == old(self)@.len() + 1,
            final(self)@.drop_last() == old(self)@,
            final(self)@.last().spec_etype() == UNSIGNED_INT,
            final(self)@.last().spec_count() == count,
            final(self)@.last().spec_normalized() == FALSE,
            final(self).spec_stride() == old(self).spec_stride() + count * 4,
    {
        self.push(UNSIGNED_INT, count);
    }

    /// Appends `count` 8-bit unsigned integer components.
    pub fn push_u8(&mut self, count: i32)
        requires
            old(self).wf(),
            count >= 0,
            old(self).spec_stride() + count <= i32::MAX,
            old(self)@.len() < u32::MAX,
        ensures
            final(self).wf(),
            final(self)@.len() == old(self)@.len() + 1,
            final(self)@.drop_last() == old(self)@,
            final(self)@.last().spec_etype() == UNSIGNED_BYTE,
            final(self)@.last().spec_count() == count,
            final(self)@.last().spec_normalized() == FALSE,
            final(self).spec_stride() == old(self).spec_stride() + count,
    {
        self.push(UNSIGNED_BYTE, count);
    }

    /// Tells whether `count` components of `size` bytes each can still be
    /// appended.
    pub fn has_room(&self, count: i32, size: u32) -> (ok: bool)
        requires
            self.wf(),
            size <= 4,
        ensures
            ok == (count >= 0 && self.spec_stride() + count * size <= i32::MAX && self@.len()
                < u32::MAX),
    {
        proof {
            lemma_total_size_bounds(self@, self@.len() as int);
        }
        if count < 0 || self.elements.len() >= u32::MAX as usize {
            return false;
        }
        assert(0 <= count * size <= 4 * i32::MAX) by (nonlinear_arith)
            requires
                0 <= count <= i32::MAX,
                0 <= size <= 4,
        ;
        let need: i64 = self.stride as i64 + (count as i64) * (size as i64);
        need <= i32::MAX as i64
    }

    /// Returns the size of a vertex in bytes.
    pub fn stride(&self) -> (s: i32)
        ensures
            s == self.spec_stride(),
    {
        self.stride
    }

    /// Returns the attributes, in order.
    pub fn elements(&self) -> (es: &Vec<VbElements>)
        ensures
            es@ == self@,
    {
        &self.elements
    }

    /// Works out what the driver is told of each attribute, in order: every
    /// attribute starts where the one before it ends.
    pub fn attributes(&self) -> (attrs: Vec<Attribute>)
        requires
            self.wf(),
        ensures
            attrs@.len() == self@.len(),
            forall|i: int| 0 <= i < self@.len() ==> #[trigger] attrs@[i] == self.spec_attribute(i),
    {
        let mut attrs: Vec<Attribute> = Vec::new();
        let mut offset: u32 = 0;
        let mut elems_count: u32 = 0;
        let mut i: usize = 0;
        while i < self.elements.len()
            invariant
                self.wf(),
                i <= self@.len(),
                elems_count == i,
                offset == total_size(self@.take(i as int)),
                attrs@.len() == i,
                forall|k: int| 0 <= k < i ==> #[trigger] attrs@[k] == self.spec_attribute(k),
            decreases self@.len() - i,
        {
            let element = self.elements[i];
            attrs.push(
                Attribute {
                    index: elems_count,
                    count: element.count,
                    etype: element.etype,
                    normalized: element.normalized,
                    stride: self.stride,
                    offset,
                },
            );
            proof {
                lemma_total_size_bounds(self@, i as int + 1);
                assert(self@.take(i as int + 1).drop_last() =~= self@.take(i as int));
                assert(self@.take(i as int + 1).last() == self@[i as int]);
                assert(element.spec_size() >= 0) by (nonlinear_arith)
                    requires
                        element.spec_count() >= 0,
                        spec_type_size(element.spec_etype()) >= 0,
                        element.spec_size() == element.spec_count() * spec_type_size(
                            element.spec_etype(),
                        ),
                ;
            }
            elems_count = elems_count + 1;
            offset = offset + element.count as u32 * VbElements::get_type_size(element.etype);
            i = i + 1;
        }
        attrs
    }
}

/// The first `n` attributes of a layout take no more than all of them,
/// and no less than nothing.
pub proof fn lemma_total_size_bounds(elements: Seq<VbElements>, n: int)
    requires
        forall|i: int| 0 <= i < elements.len() ==> (#[trigger] elements[i]).spec_count() >= 0,
        0 <= n <= elements.len(),
    ensures
        0 <= total_size(elements.take(n)) <= total_size(elements),
    decreases elements.len() - n,
{
    if n == elements.len() {
        assert(elements.take(n) =~= elements);
        lemma_total_size_nonnegative(elements);
    } else {
        lemma_total_size_bounds(elements, n + 1);
        assert(elements.take(n + 1).drop_last() =~= elements.take(n));
        assert(elements.take(n + 1).last() == elements[n]);
        assert(elements[n].spec_size() >= 0) by (nonlinear_arith)
            requires
                elements[n].spec_count() >= 0,
                spec_type_size(elements[n].spec_etype()) >= 0,
                elements[n].spec_size() == elements[n].spec_count() * spec_type_size(
                    elements[n].spec_etype(),
                ),
        ;
        lemma_total_size_nonnegative(elements.take(n));
    }
}

/// Attributes without negative counts take no less than nothing.
pub proof fn lemma_total_size_nonnegative(elements: Seq<VbElements>)
    requires
        forall|i: int| 0 <= i < elements.len() ==> (#[trigger] elements[i]).spec_count() >= 0,
    ensures
        total_size(elements) >= 0,
    decreases elements.len(),
{
    if elements.len() > 0 {
        lemma_total_size_nonnegative(elements.drop_last());
        let last = elements.last();
        assert(last.spec_size() >= 0) by (nonlinear_arith)
            requires
                last.spec_count() >= 0,
                spec_type_size(last.spec_etype()) >= 0,
                last.spec_size() == last.spec_count() * spec_type_size(last.spec_etype()),
        ;
    }
}

/// Every attribute of a layout lies within the vertex: it ends no later
/// than the stride.
pub proof fn lemma_attribute_fits(layout: VbLayout, i: int)
    requires
        layout.wf(),
        0 <= i < layout@.len(),
    ensures
        0 <= layout.spec_attribute(i).offset,
        layout.spec_attribute(i).offset + layout@[i].spec_size() <= layout.spec_stride(),
        layout.spec_attribute(i).offset == total_size(layout@.take(i)),
{
    lemma_total_size_bounds(layout@, i);
    lemma_total_size_bounds(layout@, i + 1);
    assert(layout@.take(i + 1).drop_last() =~= layout@.take(i));
    assert(layout@.take(i + 1).last() == layout@[i]);
}

} // verus!
