//! Shapes placed on layers, their draw order, and their grouping by material.
use vstd::prelude::*;

use vstd::multiset::Multiset;

use crate::layer::LayerId;
use crate::linalg::{all_in_unit_range, all_positive, vec4_splat};
use crate::opacity::ONE_BITS;

verus! {

broadcast use vstd::seq_lib::group_to_multiset_ensures;

/// Identifier of a shape.
pub type ShapeId = u64;

/// How a shape is filled; shapes of one material are drawn together.
#[derive(Debug, Clone, Copy, PartialEq, Eq, Hash, Structural)]
pub enum MaterialType {
    SolidColor,
    Textured,
}

/// A rectangle-shaped element on a layer.
#[derive(Debug, Clone)]
pub struct Shape {
    pub id: ShapeId,
    pub layer_id: LayerId,
    pub position: glam::Vec2,
    pub size: glam::Vec2,
    pub color: glam::Vec4,
    pub z_order: i32,
    pub material: MaterialType,
}

/// `a` is drawn no later than `b`: by z-order, then by id.
pub open spec fn shape_order_le(a: Shape, b: Shape) -> bool {
    a.z_order < b.z_order || (a.z_order == b.z_order && a.id <= b.id)
}

/// `s` is in draw order.
pub open spec fn shapes_sorted(s: Seq<Shape>) -> bool {
    forall|i: int, j: int| 0 <= i < j < s.len() ==> shape_order_le(s[i], s[j])
}

/// The shapes of `s` with material `m`, in their order in `s`.
pub open spec fn of_material(s: Seq<Shape>, m: MaterialType) -> Seq<Shape>
    decreases s.len(),
{
    if s.len() == 0 {
        Seq::empty()
    } else if s.last().material == m {
        of_material(s.drop_last(), m).push(s.last())
    } else {
        of_material(s.drop_last(), m)
    }
}

/// The shapes that a sequence of references points at.
pub open spec fn pointed(s: Seq<&Shape>) -> Seq<Shape> {
    s.map_values(|x: &Shape| *x)
}

impl Shape {
    /// A white solid-color shape at z-order 0. The size must be positive in
    /// both directions.
    pub fn new(id: ShapeId, layer_id: LayerId, position: glam::Vec2, size: glam::Vec2) -> (r:
        Shape)
        requires
            all_positive(size),
        ensures
            r.id == id,
            r.layer_id == layer_id,
            r.position == position,
            r.size == size,
            r.color == vec4_splat(ONE_BITS),
            all_in_unit_range(r.color),
            r.z_order == 0,
            r.material == MaterialType::SolidColor,
    {
        Shape {
            id,
            layer_id,
            position,
            size,
            color: crate::linalg::opaque_white(),
            z_order: 0,
            material: MaterialType::SolidColor,
        }
    }

    /// `Shape::new` when the size is positive in both directions, else `None`.
    pub fn try_new(id: ShapeId, layer_id: LayerId, position: glam::Vec2, size: glam::Vec2) -> (r:
        Option<Shape>)
        ensures
            r.is_some() <==> all_positive(size),
            r.is_some() ==> {
                let s = r.unwrap();
                &&& s.id == id
                &&& s.layer_id == layer_id
                &&& s.position == position
                &&& s.size == size
                &&& s.color == vec4_splat(ONE_BITS)
                &&& all_in_unit_range(s.color)
                &&& s.z_order == 0
                &&& s.material == MaterialType::SolidColor
            },
    {
        if crate::linalg::is_positive_size(size) {
            Some(Shape::new(id, layer_id, position, size))
        } else {
            None
        }
    }

    /// Sets the RGBA color; every component must lie in `[0.0, 1.0]`.
    pub fn set_color(&mut self, color: glam::Vec4)
        requires
            all_in_unit_range(color),
        ensures
            *final(self) == (Shape { color, ..*old(self) }),
    {
        self.color = color;
    }

    /// Sets the RGBA color if every component lies in `[0.0, 1.0]`; reports
    /// whether it did.
    pub fn try_set_color(&mut self, color: glam::Vec4) -> (r: bool)
        ensures
            r == all_in_unit_range(color),
            r ==> *final(self) == (Shape { color, ..*old(self) }),
            !r ==> *final(self) == *old(self),
    {
        if crate::linalg::is_unit_color(color) {
            self.set_color(color);
            true
        } else {
            false
        }
    }

    /// The corners of the shape: its position, and its position plus its size.
    pub fn bounding_box(&self) -> (r: (glam::Vec2, glam::Vec2))
        ensures
            r.0 == self.position,
    {
        (self.position, crate::linalg::add_vec2(self.position, self.size))
    }
}

/// In draw order, shapes that share a z-order appear by ascending id.
pub proof fn lemma_equal_z_order_by_id(s: Seq<Shape>)
    requires
        shapes_sorted(s),
    ensures
        forall|i: int, j: int|
            0 <= i < j < s.len() && s[i].z_order == s[j].z_order ==> s[i].id <= s[j].id,
{
    assert forall|i: int, j: int|
        0 <= i < j < s.len() && s[i].z_order == s[j].z_order implies s[i].id <= s[j].id by {
        assert(shape_order_le(s[i], s[j]));
    }
}

/// Position of the first shape in the sorted `s` that is not drawn before
/// `x`.
fn lower_bound(s: &Vec<Shape>, x: &Shape) -> (pos: usize)
    requires
        shapes_sorted(s@),
    ensures
        pos <= s@.len(),
        forall|i: int| 0 <= i < pos ==> !shape_order_le(*x, s@[i]),
        forall|i: int| pos <= i < s@.len() ==> shape_order_le(*x, s@[i]),
{
    let mut pos: usize = 0;
    while pos < s.len() && !(x.z_order < s[pos].z_order || (x.z_order == s[pos].z_order && x.id
        <= s[pos].id))
        invariant
            pos <= s@.len(),
            shapes_sorted(s@),
            forall|i: int| 0 <= i < pos ==> !shape_order_le(*x, s@[i]),
        decreases s@.len() - pos,
    {
        pos += 1;
    }
    proof {
        assert forall|i: int| pos <= i < s@.len() implies shape_order_le(*x, s@[i]) by {
            assert(shape_order_le(s@[pos as int], s@[i]) || i == pos);
        }
    }
    pos
}

/// `a` and `b` share z-order and id.
pub open spec fn same_rank(a: Shape, b: Shape) -> bool {
    a.z_order == b.z_order && a.id == b.id
}

/// `out` rearranges `input`: `p[i]` is the position in `input` of `out[i]`,
/// no position is taken twice, and shapes of the same rank keep their order.
pub open spec fn stable_rearrangement(input: Seq<Shape>, out: Seq<Shape>, p: Seq<int>) -> bool {
    &&& p.len() == out.len()
    &&& out.len() == input.len()
    &&& forall|i: int| #![trigger p[i]] 0 <= i < p.len() ==> 0 <= p[i] < input.len() && out[i] == input[p[i]]
    &&& forall|i: int, j: int| 0 <= i < j < p.len() ==> p[i] != p[j]
    &&& forall|i: int, j: int|
        0 <= i < j < p.len() && same_rank(out[i], out[j]) ==> p[i] < p[j]
}

/// The part of the sort already done: `sorted` is in draw order and holds
/// the shapes of `input` from position `lo` on, taken from the positions in
/// `idx`, with shapes of the same rank in their input order.
spec fn sorted_suffix(input: Seq<Shape>, sorted: Seq<Shape>, idx: Seq<int>, lo: int) -> bool {
    &&& shapes_sorted(sorted)
    &&& idx.len() == sorted.len()
    &&& sorted.len() + lo == input.len()
    &&& forall|i: int| #![trigger idx[i]] 0 <= i < idx.len() ==> lo <= idx[i] < input.len() && sorted[i] == input[idx[i]]
    &&& forall|i: int, j: int| 0 <= i < j < idx.len() ==> idx[i] != idx[j]
    &&& forall|i: int, j: int|
        0 <= i < j < idx.len() && same_rank(sorted[i], sorted[j]) ==> idx[i] < idx[j]
}

/// Inserting the shape at position `lo - 1` of `input` at its lower bound
/// extends the sorted part by one.
proof fn lemma_insert_at_lower_bound(
    input: Seq<Shape>,
    olds: Seq<Shape>,
    oidx: Seq<int>,
    lo: int,
    pos: int,
)
    requires
        1 <= lo,
        sorted_suffix(input, olds, oidx, lo),
        0 <= pos <= olds.len(),
        forall|i: int| 0 <= i < pos ==> !shape_order_le(input[lo - 1], olds[i]),
        forall|i: int| pos <= i < olds.len() ==> shape_order_le(input[lo - 1], olds[i]),
    ensures
        sorted_suffix(input, olds.insert(pos, input[lo - 1]), oidx.insert(pos, lo - 1), lo - 1),
{
    let x = input[lo - 1];
    let news = olds.insert(pos, x);
    let nidx = oidx.insert(pos, lo - 1);
    assert forall|i: int, j: int| 0 <= i < j < news.len() implies shape_order_le(
        news[i],
        news[j],
    ) by {
        if j < pos {
            assert(news[i] == olds[i] && news[j] == olds[j]);
        } else if j == pos {
            assert(news[i] == olds[i]);
        } else if i < pos {
            assert(news[i] == olds[i] && news[j] == olds[j - 1]);
        } else if i == pos {
            assert(news[j] == olds[j - 1]);
        } else {
            assert(news[i] == olds[i - 1] && news[j] == olds[j - 1]);
        }
    }
    assert forall|i: int| #![trigger nidx[i]] 0 <= i < nidx.len() implies lo - 1 <= nidx[i]
        < input.len() && news[i] == input[nidx[i]] by {
        if i < pos {
            assert(nidx[i] == oidx[i] && news[i] == olds[i]);
        } else if i > pos {
            assert(nidx[i] == oidx[i - 1] && news[i] == olds[i - 1]);
        }
    }
    assert forall|i: int, j: int| 0 <= i < j < nidx.len() implies nidx[i] != nidx[j] && (
    same_rank(news[i], news[j]) ==> nidx[i] < nidx[j]) by {
        if j < pos {
            assert(nidx[i] == oidx[i] && nidx[j] == oidx[j]);
            assert(news[i] == olds[i] && news[j] == olds[j]);
        } else if j == pos {
            assert(nidx[i] == oidx[i] && news[i] == olds[i]);
            assert(!shape_order_le(x, olds[i]));
        } else if i < pos {
            assert(nidx[i] == oidx[i] && nidx[j] == oidx[j - 1]);
            assert(news[i] == olds[i] && news[j] == olds[j - 1]);
        } else if i == pos {
            assert(nidx[j] == oidx[j - 1]);
        } else {
            assert(nidx[i] == oidx[i - 1] && nidx[j] == oidx[j - 1]);
            assert(news[i] == olds[i - 1] && news[j] == olds[j - 1]);
        }
    }
}

/// Puts the shapes in draw order: by z-order, then by id. Shapes that share
/// both keep their relative order.
pub fn sort_by_z_order(shapes: &mut Vec<Shape>)
    ensures
        final(shapes)@.to_multiset() == old(shapes)@.to_multiset(),
        shapes_sorted(final(shapes)@),
        exists|p: Seq<int>| stable_rearrangement(old(shapes)@, final(shapes)@, p),
{
    let mut rest: Vec<Shape> = Vec::new();
    std::mem::swap(shapes, &mut rest);
    let ghost input = rest@;
    let mut sorted: Vec<Shape> = Vec::new();
    let ghost mut idx: Seq<int> = Seq::empty();
    while rest.len() > 0
        invariant
            rest@ == input.take(rest@.len() as int),
            sorted_suffix(input, sorted@, idx, rest@.len() as int),
            rest@.to_multiset().add(sorted@.to_multiset()) == input.to_multiset(),
        decreases rest@.len(),
    {
        let ghost before = rest@;
        let x = rest.pop().unwrap();
        proof {
            assert(before == rest@.push(x));
            assert(rest@ =~= input.take(rest@.len() as int));
        }
        let pos = lower_bound(&sorted, &x);
        proof {
            lemma_insert_at_lower_bound(input, sorted@, idx, rest@.len() + 1int, pos as int);
            idx = idx.insert(pos as int, rest@.len() as int);
        }
        sorted.insert(pos, x);
    }
    proof {
        assert(rest@.to_multiset() =~= Multiset::empty());
        assert(stable_rearrangement(input, sorted@, idx));
    }
    *shapes = sorted;
}

/// The shapes split by material, each group in the order of `shapes`: solid
/// color first, then textured.
pub fn group_by_material(shapes: &[Shape]) -> (r: Vec<Vec<&Shape>>)
    ensures
        r@.len() == 2,
        pointed(r@[0]@) == of_material(shapes@, MaterialType::SolidColor),
        pointed(r@[1]@) == of_material(shapes@, MaterialType::Textured),
{
    let mut solid_color: Vec<&Shape> = Vec::new();
    let mut textured: Vec<&Shape> = Vec::new();
    let mut i: usize = 0;
    while i < shapes.len()
        invariant
            i <= shapes@.len(),
            pointed(solid_color@) == of_material(shapes@.take(i as int), MaterialType::SolidColor),
            pointed(textured@) == of_material(shapes@.take(i as int), MaterialType::Textured),
        decreases shapes@.len() - i,
    {
        let shape = &shapes[i];
        let ghost (old_solid, old_textured) = (solid_color@, textured@);
        proof {
            assert(shapes@.take(i as int + 1).drop_last() =~= shapes@.take(i as int));
            assert(shapes@.take(i as int + 1).last() == *shape);
        }
        match shape.material {
            MaterialType::SolidColor => {
                solid_color.push(shape);
                proof {
                    assert(pointed(solid_color@) =~= pointed(old_solid).push(*shape));
                }
            },
            MaterialType::Textured => {
                textured.push(shape);
                proof {
                    assert(pointed(textured@) =~= pointed(old_textured).push(*shape));
                }
            },
        }
        i += 1;
    }
    proof {
        assert(shapes@.take(i as int) =~= shapes@);
    }
    let mut groups: Vec<Vec<&Shape>> = Vec::new();
    groups.push(solid_color);
    groups.push(textured);
    groups
}

} // verus!
