//! The bounding volume hierarchy: a binary tree of boxes over primitives.
use crate::aabb::lemma_contains_transitive;
use crate::aabb::lemma_surrounding_box_contains;
use crate::aabb::spec_surrounding_box;
use crate::aabb::surrounding_box;
use crate::aabb::AxisAlignedBoundingBoxes;
use crate::hittable::lemma_scan_append;
use crate::hittable::lemma_scan_cutoff;
use crate::hittable::lemma_scan_order_free;
use crate::hittable::lemma_scan_order_free_without_ties;
use crate::hittable::spec_all_consistent;
use crate::hittable::spec_closest;
use crate::hittable::spec_consistent;
use crate::hittable::spec_cut_off;
use crate::hittable::spec_no_ties;
use crate::hittable::spec_scan;
use crate::hittable::HitRecord;
use crate::hittable::Hittable;
use crate::hittable::HittableList;
use crate::hittable::Primitive;
use crate::hittable_sphere::lemma_sphere_consistent;
use crate::ray::Ray;
use crate::scalar::RayTracingFloat;
use crate::utils::random_int;
use std::rc::Rc;
use vstd::prelude::*;
use vstd::seq_lib::lemma_multiset_commutative;
use vstd::seq_lib::to_multiset_build;

verus! {

/// A node of the hierarchy: two children and a box around both.
#[allow(non_camel_case_types)]
pub struct BVH_Node<T: RayTracingFloat> {
    pub left: Rc<Primitive<T>>,
    pub right: Rc<Primitive<T>>,
    pub bounding_box: AxisAlignedBoundingBoxes<T>,
}

/// Why a hierarchy could not be built.
#[derive(Clone, Copy, Debug, PartialEq, Eq, Structural)]
pub enum BvhError {
    /// The span ends behind the last object.
    SpanOutOfRange,
    /// The span holds no object.
    EmptySpan,
    /// An object of the span has no bounding box.
    MissingBoundingBox,
    /// The draws that were handed in do not suffice for every node.
    NotEnoughDraws,
}

/// Whether every one of `objects` has a box between `time0` and `time1`.
pub open spec fn spec_boxed<T: RayTracingFloat>(
    objects: Seq<Rc<Primitive<T>>>,
    time0: T,
    time1: T,
) -> bool {
    forall|i: int|
        0 <= i < objects.len() ==> (#[trigger] objects[i]).bounding_box_spec(time0, time1) is Some
}

/// Whether every one of `objects` has a box between `time0` and `time1`
/// whose coordinates are numbers.
pub open spec fn spec_boxed_numeric<T: RayTracingFloat>(
    objects: Seq<Rc<Primitive<T>>>,
    time0: T,
    time1: T,
) -> bool {
    forall|i: int|
        0 <= i < objects.len() ==> match (#[trigger] objects[i]).bounding_box_spec(time0, time1) {
            Some(b) => b.is_numeric(),
            None => false,
        }
}

/// The number by which a primitive is placed along `axis`: the minimum of
/// its box there.
pub open spec fn spec_sort_key<T: RayTracingFloat>(
    o: Primitive<T>,
    axis: int,
    time0: T,
    time1: T,
) -> T {
    o.bounding_box_spec(time0, time1).unwrap().minimum.axis(axis)
}

/// Whether `a` comes strictly before `b` along `axis`.
pub open spec fn spec_box_less<T: RayTracingFloat>(
    a: Primitive<T>,
    b: Primitive<T>,
    axis: int,
    time0: T,
    time1: T,
) -> bool {
    spec_sort_key(a, axis, time0, time1).lt_spec(spec_sort_key(b, axis, time0, time1))
}

/// Whether the shared object `a` comes strictly before `b` along `axis`.
pub open spec fn spec_comes_before<T: RayTracingFloat>(
    a: Rc<Primitive<T>>,
    b: Rc<Primitive<T>>,
    axis: int,
    time0: T,
    time1: T,
) -> bool {
    spec_box_less(*a, *b, axis, time0, time1)
}

/// Whether no object of `s` comes strictly before the one in front of it.
pub open spec fn spec_ordered<T: RayTracingFloat>(
    s: Seq<Rc<Primitive<T>>>,
    axis: int,
    time0: T,
    time1: T,
) -> bool {
    forall|k: int|
        0 <= k && k + 1 < s.len() ==> !spec_box_less(*s[k + 1], *(#[trigger] s[k]), axis, time0, time1)
}

/// `s` with `x` put in behind the last object that `x` does not come
/// strictly before.
pub open spec fn spec_insert_sorted<T: RayTracingFloat>(
    s: Seq<Rc<Primitive<T>>>,
    x: Rc<Primitive<T>>,
    axis: int,
    time0: T,
    time1: T,
) -> Seq<Rc<Primitive<T>>>
    decreases s.len(),
{
    if s.len() > 0 && spec_comes_before(x, s.last(), axis, time0, time1) {
        spec_insert_sorted(s.drop_last(), x, axis, time0, time1).push(s.last())
    } else {
        s.push(x)
    }
}

/// `s` in order along `axis`: its objects are put in one after the other,
/// each behind the last object that it does not come strictly before. So
/// objects that do not differ along the axis keep their order.
pub open spec fn spec_sorted<T: RayTracingFloat>(
    s: Seq<Rc<Primitive<T>>>,
    axis: int,
    time0: T,
    time1: T,
) -> Seq<Rc<Primitive<T>>>
    decreases s.len(),
{
    if s.len() == 0 {
        s
    } else {
        spec_insert_sorted(spec_sorted(s.drop_last(), axis, time0, time1), s.last(), axis, time0, time1)
    }
}

/// Putting an object in adds it once and keeps the others, keeps an order
/// that was there, and keeps the boxes.
pub proof fn lemma_insert_sorted<T: RayTracingFloat>(
    s: Seq<Rc<Primitive<T>>>,
    x: Rc<Primitive<T>>,
    axis: int,
    time0: T,
    time1: T,
)
    ensures
        spec_insert_sorted(s, x, axis, time0, time1).to_multiset() == s.to_multiset().insert(x),
        spec_insert_sorted(s, x, axis, time0, time1).len() == s.len() + 1,
        spec_ordered(s, axis, time0, time1) ==> spec_ordered(
            spec_insert_sorted(s, x, axis, time0, time1),
            axis,
            time0,
            time1,
        ),
        spec_boxed(s, time0, time1) && x.bounding_box_spec(time0, time1) is Some ==> spec_boxed(
            spec_insert_sorted(s, x, axis, time0, time1),
            time0,
            time1,
        ),
        ({
            let out = spec_insert_sorted(s, x, axis, time0, time1);
            out.last() == x || (s.len() > 0 && out.last() == s.last())
        }),
    decreases s.len(),
{
    let out = spec_insert_sorted(s, x, axis, time0, time1);
    if s.len() > 0 && spec_comes_before(x, s.last(), axis, time0, time1) {
        // `x` goes in among the objects before the last one, which stays last.
        let rest = s.drop_last();
        let inner = spec_insert_sorted(rest, x, axis, time0, time1);
        lemma_insert_sorted(rest, x, axis, time0, time1);
        to_multiset_build(inner, s.last());
        to_multiset_build(rest, s.last());
        assert(rest.push(s.last()) == s);
        if spec_ordered(s, axis, time0, time1) {
            assert(spec_ordered(rest, axis, time0, time1));
            assert forall|k: int| 0 <= k && k + 1 < out.len() implies !spec_box_less(
                *out[k + 1],
                *(#[trigger] out[k]),
                axis,
                time0,
                time1,
            ) by {
                if k + 1 == inner.len() && inner.last() == x {
                    // `x` is strictly before the last object, so the last
                    // object is not strictly before `x`.
                    let kx = spec_sort_key(*x, axis, time0, time1);
                    let ks = spec_sort_key(*s.last(), axis, time0, time1);
                    if ks.lt_spec(kx) {
                        T::lemma_lt_transitive(kx, ks, kx);
                        T::lemma_lt_irreflexive(kx);
                    }
                }
            }
        }
        if spec_boxed(s, time0, time1) && x.bounding_box_spec(time0, time1) is Some {
            assert(spec_boxed(rest, time0, time1));
            assert(spec_boxed(out, time0, time1));
        }
    } else {
        // `x` goes to the end.
        to_multiset_build(s, x);
        if spec_ordered(s, axis, time0, time1) {
            assert(spec_ordered(out, axis, time0, time1));
        }
        if spec_boxed(s, time0, time1) && x.bounding_box_spec(time0, time1) is Some {
            assert(spec_boxed(out, time0, time1));
        }
    }
}

/// Putting objects in order keeps the objects, each as often as it was
/// there, and leaves no object strictly before the one in front of it.
pub proof fn lemma_sorted<T: RayTracingFloat>(
    s: Seq<Rc<Primitive<T>>>,
    axis: int,
    time0: T,
    time1: T,
)
    ensures
        spec_sorted(s, axis, time0, time1).to_multiset() == s.to_multiset(),
        spec_sorted(s, axis, time0, time1).len() == s.len(),
        spec_ordered(spec_sorted(s, axis, time0, time1), axis, time0, time1),
        spec_boxed(s, time0, time1) ==> spec_boxed(spec_sorted(s, axis, time0, time1), time0, time1),
    decreases s.len(),
{
    if s.len() > 0 {
        let rest = s.drop_last();
        lemma_sorted(rest, axis, time0, time1);
        lemma_insert_sorted(spec_sorted(rest, axis, time0, time1), s.last(), axis, time0, time1);
        to_multiset_build(rest, s.last());
        assert(rest.push(s.last()) == s);
        if spec_boxed(s, time0, time1) {
            assert(spec_boxed(rest, time0, time1));
        }
    }
}

/// The number of draws that a hierarchy over `n` objects uses: one for
/// each node. A node over one or two objects has no node below it; a node
/// over more has one over half of the objects, rounded down, and one over
/// the rest.
pub open spec fn spec_draws_needed(n: nat) -> nat
    decreases n,
{
    if n <= 2 {
        1
    } else {
        1 + spec_draws_needed(n / 2) + spec_draws_needed((n - n / 2) as nat)
    }
}

/// A hierarchy over `n` objects uses fewer than `2 n` draws.
pub proof fn lemma_draws_needed_bound(n: nat)
    requires
        n >= 1,
    ensures
        1 <= spec_draws_needed(n) <= 2 * n - 1,
    decreases n,
{
    if n > 2 {
        lemma_draws_needed_bound(n / 2);
        lemma_draws_needed_bound((n - n / 2) as nat);
    }
}

/// The axis for a draw from 0 to 2: the draw itself, and `z` for any other.
pub open spec fn spec_pick_axis(draw: i32) -> usize {
    if draw == 0 {
        0
    } else if draw == 1 {
        1
    } else {
        2
    }
}

pub fn pick_axis(draw: i32) -> (axis: usize)
    ensures
        axis == spec_pick_axis(draw),
        axis < 3,
{
    if draw == 0 {
        0
    } else if draw == 1 {
        1
    } else {
        2
    }
}

fn box_less<T: RayTracingFloat>(a: &Primitive<T>, b: &Primitive<T>, axis: usize, time0: &T, time1: &T) -> (r:
    bool)
    requires
        axis < 3,
        a.bounding_box_spec(*time0, *time1) is Some,
        b.bounding_box_spec(*time0, *time1) is Some,
    ensures
        r == spec_box_less(*a, *b, axis as int, *time0, *time1),
{
    let box_a = a.bounding_box(time0, time1).unwrap();
    let box_b = b.bounding_box(time0, time1).unwrap();
    box_a.minimum.get(axis).lt(&box_b.minimum.get(axis))
}

/// The objects from `start` up to `end`, put in order along `axis`.
pub fn sort_by_axis<T: RayTracingFloat>(
    objects: &Vec<Rc<Primitive<T>>>,
    start: usize,
    end: usize,
    axis: usize,
    time0: &T,
    time1: &T,
) -> (sorted: Vec<Rc<Primitive<T>>>)
    requires
        start <= end <= objects.len(),
        axis < 3,
        spec_boxed(objects@.subrange(start as int, end as int), *time0, *time1),
    ensures
        sorted@ == spec_sorted(
            objects@.subrange(start as int, end as int),
            axis as int,
            *time0,
            *time1,
        ),
{
    let mut sorted: Vec<Rc<Primitive<T>>> = Vec::new();
    let mut i: usize = start;
    while i < end
        invariant
            start <= i <= end <= objects.len(),
            axis < 3,
            spec_boxed(objects@.subrange(start as int, end as int), *time0, *time1),
            sorted@ == spec_sorted(
                objects@.subrange(start as int, i as int),
                axis as int,
                *time0,
                *time1,
            ),
        decreases end - i,
    {
        let x = objects[i].clone();
        let ghost before = sorted@;
        let ghost prefix = objects@.subrange(start as int, i as int);
        proof {
            // `x` and the objects in order so far have boxes.
            assert(x == objects@.subrange(start as int, end as int)[i - start]);
            assert(spec_boxed(prefix, *time0, *time1));
            lemma_sorted(prefix, axis as int, *time0, *time1);
            assert(before.take(before.len() as int) == before);
        }
        // Walk back over the objects that `x` comes strictly before.
        let mut p: usize = sorted.len();
        while p > 0 && box_less(&x, &sorted[p - 1], axis, time0, time1)
            invariant
                p <= sorted.len(),
                axis < 3,
                sorted@ == before,
                x.bounding_box_spec(*time0, *time1) is Some,
                spec_boxed(sorted@, *time0, *time1),
                spec_insert_sorted(before, x, axis as int, *time0, *time1) == spec_insert_sorted(
                    before.take(p as int),
                    x,
                    axis as int,
                    *time0,
                    *time1,
                ) + before.skip(p as int),
            decreases p,
        {
            assert(before.take(p as int).drop_last() == before.take(p - 1));
            p -= 1;
        }
        assert(objects@.subrange(start as int, i + 1).drop_last() == prefix);
        sorted.insert(p, x);
        i += 1;
    }
    sorted
}

impl<T: RayTracingFloat> BVH_Node<T> {
    /// Whether both children are nodes themselves.
    pub open spec fn spec_inner(self) -> bool {
        *self.left is Bvh && *self.right is Bvh
    }

    /// The left child, where it is a node.
    pub open spec fn spec_left_node(self) -> BVH_Node<T> {
        match *self.left {
            Primitive::Bvh(l) => l,
            _ => self,
        }
    }

    /// The right child, where it is a node.
    pub open spec fn spec_right_node(self) -> BVH_Node<T> {
        match *self.right {
            Primitive::Bvh(r) => r,
            _ => self,
        }
    }

    /// Whether the node is the root of a hierarchy over `n` objects, built
    /// for the times from `time0` to `time1`.
    ///
    /// Both children have a box there and the node's box is the box around
    /// the two. Over one object both children are that object. Over three
    /// or more the children are hierarchies themselves, the left one over
    /// half of the objects, rounded down, the right one over the rest.
    pub open spec fn wf(self, n: nat, time0: T, time1: T) -> bool
        decreases n,
    {
        &&& n >= 1
        &&& self.left.bounding_box_spec(time0, time1) is Some
        &&& self.right.bounding_box_spec(time0, time1) is Some
        &&& self.bounding_box == spec_surrounding_box(
            self.left.bounding_box_spec(time0, time1).unwrap(),
            self.right.bounding_box_spec(time0, time1).unwrap(),
        )
        &&& n == 1 ==> self.left == self.right
        &&& n >= 3 ==> {
            &&& self.spec_inner()
            &&& self.spec_left_node().wf(n / 2, time0, time1)
            &&& self.spec_right_node().wf((n - n / 2) as nat, time0, time1)
        }
    }

    /// The objects at the leaves of a hierarchy over `n` objects, from left
    /// to right.
    pub open spec fn spec_leaves(self, n: nat) -> Seq<Rc<Primitive<T>>>
        decreases n,
    {
        if n <= 1 {
            seq![self.left]
        } else if n == 2 {
            seq![self.left, self.right]
        } else {
            self.spec_left_node().spec_leaves(n / 2) + self.spec_right_node().spec_leaves(
                (n - n / 2) as nat,
            )
        }
    }

    /// Whether the box of the node is the box around its two children,
    /// both of which have a box between `time0` and `time1`.
    pub open spec fn spec_box_joined(self, time0: T, time1: T) -> bool {
        &&& self.left.bounding_box_spec(time0, time1) is Some
        &&& self.right.bounding_box_spec(time0, time1) is Some
        &&& self.bounding_box == spec_surrounding_box(
            self.left.bounding_box_spec(time0, time1).unwrap(),
            self.right.bounding_box_spec(time0, time1).unwrap(),
        )
    }

    /// Whether the node is the node over a span of one or two objects
    /// along `axis`: the one object on both sides, or the two objects, the
    /// first one on the left where it comes strictly before the second
    /// along the axis, else on the right.
    pub open spec fn spec_small(
        self,
        span: Seq<Rc<Primitive<T>>>,
        axis: int,
        time0: T,
        time1: T,
    ) -> bool {
        &&& 1 <= span.len() <= 2
        &&& self.spec_box_joined(time0, time1)
        &&& if span.len() == 1 {
            self.left == span[0] && self.right == span[0]
        } else if spec_comes_before(span[0], span[1], axis, time0, time1) {
            self.left == span[0] && self.right == span[1]
        } else {
            self.left == span[1] && self.right == span[0]
        }
    }

    /// Whether the node is a hierarchy that the construction can make of
    /// `span`, whatever axes are drawn.
    ///
    /// Over one object both children are that object. Over two, the
    /// children are the two objects, the first one on the left where it
    /// comes strictly before the second along the axis drawn, else on the
    /// right. Over more, the span is put in order along the axis drawn and
    /// split in the middle, the shorter half to the left where the halves
    /// differ; the children are hierarchies over the two halves. The box of
    /// every node is the box around its children.
    #[verifier::opaque]
    pub open spec fn spec_built_from(self, span: Seq<Rc<Primitive<T>>>, time0: T, time1: T) -> bool
        decreases span.len(),
    {
        &&& span.len() >= 1
        &&& self.spec_box_joined(time0, time1)
        &&& if span.len() == 1 {
            self.left == span[0] && self.right == span[0]
        } else if span.len() == 2 {
            exists|axis: int|
                0 <= axis < 3 && if #[trigger] spec_comes_before(
                    span[0],
                    span[1],
                    axis,
                    time0,
                    time1,
                ) {
                    self.left == span[0] && self.right == span[1]
                } else {
                    self.left == span[1] && self.right == span[0]
                }
        } else {
            exists|axis: int|
                {
                    let sorted = #[trigger] spec_sorted(span, axis, time0, time1);
                    let mid = (span.len() / 2) as int;
                    let lo = sorted.take(mid);
                    let hi = sorted.skip(mid);
                    &&& 0 <= axis < 3
                    &&& self.spec_inner()
                    &&& lo.len() < span.len()
                    &&& hi.len() < span.len()
                    &&& self.spec_left_node().spec_built_from(lo, time0, time1)
                    &&& self.spec_right_node().spec_built_from(hi, time0, time1)
                }
        }
    }

    /// Whether the node is the hierarchy that the construction makes of
    /// `span` when the draws are `draws`, in this order: `draws[0]` gives
    /// the axis of the node itself (see [`spec_pick_axis`]), the draws
    /// behind it serve the left child and everything below it, and the
    /// draws behind those the right child. A node over `n` objects uses
    /// [`spec_draws_needed`] of `n` draws in all.
    ///
    /// This is [`BVH_Node::spec_built_from`] with the axes named, and it
    /// leaves no choice: it fixes both children, all the way down, and the
    /// boxes.
    #[verifier::opaque]
    pub open spec fn spec_built_with(
        self,
        span: Seq<Rc<Primitive<T>>>,
        draws: Seq<i32>,
        time0: T,
        time1: T,
    ) -> bool
        decreases span.len(),
    {
        let axis = spec_pick_axis(draws[0]) as int;
        &&& span.len() >= 1
        &&& self.spec_box_joined(time0, time1)
        &&& if span.len() == 1 {
            self.left == span[0] && self.right == span[0]
        } else if span.len() == 2 {
            if spec_comes_before(span[0], span[1], axis, time0, time1) {
                self.left == span[0] && self.right == span[1]
            } else {
                self.left == span[1] && self.right == span[0]
            }
        } else {
            let sorted = spec_sorted(span, axis, time0, time1);
            let mid = (span.len() / 2) as int;
            let lo = sorted.take(mid);
            let hi = sorted.skip(mid);
            &&& self.spec_inner()
            &&& lo.len() < span.len()
            &&& hi.len() < span.len()
            &&& self.spec_left_node().spec_built_with(lo, draws.skip(1), time0, time1)
            &&& self.spec_right_node().spec_built_with(
                hi,
                draws.skip(1 + spec_draws_needed(lo.len()) as int),
                time0,
                time1,
            )
        }
    }

    /// Whether no box of the hierarchy hides a hit of the ray `r` above
    /// `t_min`: wherever the ray misses the box of a node, whatever the
    /// upper bound, a scan of the objects below that node finds nothing.
    pub open spec fn spec_hides_nothing(self, n: nat, r: Ray<T>, t_min: T) -> bool
        decreases n,
    {
        &&& forall|t_max: T|
            !(#[trigger] self.bounding_box.spec_hit(r, t_min, t_max)) ==> spec_scan(
                self.spec_leaves(n),
                r,
                t_min,
                t_max,
            ) is None
        &&& n >= 3 ==> {
            &&& self.spec_left_node().spec_hides_nothing(n / 2, r, t_min)
            &&& self.spec_right_node().spec_hides_nothing((n - n / 2) as nat, r, t_min)
        }
    }

    /// The hierarchy over all objects of `list`.
    pub fn new_from_hittable_list(list: HittableList<T>, time0: &T, time1: &T) -> (r: Result<
        Self,
        BvhError,
    >)
        ensures
            match r {
                Ok(node) => {
                    &&& list.objects@.len() > 0
                    &&& spec_boxed(list.objects@, *time0, *time1)
                    &&& node.spec_built_from(list.objects@, *time0, *time1)
                },
                Err(BvhError::SpanOutOfRange) => false,
                Err(BvhError::EmptySpan) => list.objects@.len() == 0,
                Err(BvhError::MissingBoundingBox) => {
                    &&& list.objects@.len() > 0
                    &&& !spec_boxed(list.objects@, *time0, *time1)
                },
                Err(BvhError::NotEnoughDraws) => false,
            },
    {
        let n = list.objects.len();
        assert(list.objects@.subrange(0, n as int) == list.objects@);
        Self::new(&list.objects, &0, &n, time0, time1)
    }

    /// The hierarchy over the objects from `start` up to `end`.
    ///
    /// It is built whenever the span lies within `src_objects`, holds an
    /// object, and every object of it has a box between `time0` and
    /// `time1`; each other case has its error. The axis along which a node
    /// splits its objects is drawn at random, so two calls may return
    /// different trees: each of them is one that
    /// [`BVH_Node::spec_built_from`] describes. For a tree that can be
    /// built again, hand the draws in: see [`BVH_Node::new_with_draws`].
    pub fn new(
        src_objects: &Vec<Rc<Primitive<T>>>,
        start: &usize,
        end: &usize,
        time0: &T,
        time1: &T,
    ) -> (r: Result<Self, BvhError>)
        ensures
            match r {
                Ok(node) => {
                    &&& *start < *end <= src_objects.len()
                    &&& spec_boxed(
                        src_objects@.subrange(*start as int, *end as int),
                        *time0,
                        *time1,
                    )
                    &&& node.spec_built_from(
                        src_objects@.subrange(*start as int, *end as int),
                        *time0,
                        *time1,
                    )
                },
                Err(BvhError::SpanOutOfRange) => *end > src_objects.len(),
                Err(BvhError::EmptySpan) => *end <= src_objects.len() && *start >= *end,
                Err(BvhError::MissingBoundingBox) => {
                    &&& *start < *end <= src_objects.len()
                    &&& !spec_boxed(
                        src_objects@.subrange(*start as int, *end as int),
                        *time0,
                        *time1,
                    )
                },
                Err(BvhError::NotEnoughDraws) => false,
            },
    {
        match Self::check_span(src_objects, *start, *end, time0, time1) {
            Err(e) => Err(e),
            Ok(()) => match Self::build(src_objects, *start, *end, time0, time1, None, 0) {
                Some((node, _)) => Ok(node),
                None => Err(BvhError::NotEnoughDraws),
            },
        }
    }

    /// The hierarchy over the objects from `start` up to `end`, with the
    /// axes taken from `draws` and not drawn at random.
    ///
    /// The same spans are refused as by [`BVH_Node::new`]. On a span that
    /// is not refused, the hierarchy is built whenever `draws` holds a draw
    /// for every node, which is [`spec_draws_needed`] of the number of
    /// objects and fewer than twice that number. The tree is then the one
    /// that [`BVH_Node::spec_built_with`] fixes: the same draws on the same
    /// objects give the same tree. Draws that are left over are not looked at.
    pub fn new_with_draws(
        src_objects: &Vec<Rc<Primitive<T>>>,
        start: &usize,
        end: &usize,
        time0: &T,
        time1: &T,
        draws: &Vec<i32>,
    ) -> (r: Result<Self, BvhError>)
        ensures
            match r {
                Ok(node) => {
                    &&& *start < *end <= src_objects.len()
                    &&& spec_boxed(
                        src_objects@.subrange(*start as int, *end as int),
                        *time0,
                        *time1,
                    )
                    &&& draws.len() >= spec_draws_needed((*end - *start) as nat)
                    &&& node.spec_built_with(
                        src_objects@.subrange(*start as int, *end as int),
                        draws@,
                        *time0,
                        *time1,
                    )
                },
                Err(BvhError::SpanOutOfRange) => *end > src_objects.len(),
                Err(BvhError::EmptySpan) => *end <= src_objects.len() && *start >= *end,
                Err(BvhError::MissingBoundingBox) => {
                    &&& *start < *end <= src_objects.len()
                    &&& !spec_boxed(
                        src_objects@.subrange(*start as int, *end as int),
                        *time0,
                        *time1,
                    )
                },
                Err(BvhError::NotEnoughDraws) => {
                    &&& *start < *end <= src_objects.len()
                    &&& spec_boxed(
                        src_objects@.subrange(*start as int, *end as int),
                        *time0,
                        *time1,
                    )
                    &&& draws.len() < spec_draws_needed((*end - *start) as nat)
                },
            },
    {
        match Self::check_span(src_objects, *start, *end, time0, time1) {
            Err(e) => Err(e),
            Ok(()) => {
                assert(draws@.skip(0) == draws@);
                match Self::build(src_objects, *start, *end, time0, time1, Some(draws), 0) {
                    Some((node, _)) => Ok(node),
                    None => Err(BvhError::NotEnoughDraws),
                }
            },
        }
    }

    /// Refuses a span that no hierarchy can be built over.
    fn check_span(
        src_objects: &Vec<Rc<Primitive<T>>>,
        start: usize,
        end: usize,
        time0: &T,
        time1: &T,
    ) -> (r: Result<(), BvhError>)
        ensures
            match r {
                Ok(_) => {
                    &&& start < end <= src_objects.len()
                    &&& spec_boxed(src_objects@.subrange(start as int, end as int), *time0, *time1)
                },
                Err(BvhError::SpanOutOfRange) => end > src_objects.len(),
                Err(BvhError::EmptySpan) => end <= src_objects.len() && start >= end,
                Err(BvhError::MissingBoundingBox) => {
                    &&& start < end <= src_objects.len()
                    &&& !spec_boxed(
                        src_objects@.subrange(start as int, end as int),
                        *time0,
                        *time1,
                    )
                },
                Err(BvhError::NotEnoughDraws) => false,
            },
    {
        if end > src_objects.len() {
            return Err(BvhError::SpanOutOfRange);
        }
        if start >= end {
            return Err(BvhError::EmptySpan);
        }
        let ghost span = src_objects@.subrange(start as int, end as int);
        let mut i: usize = start;
        while i < end
            invariant
                start <= i <= end <= src_objects.len(),
                span == src_objects@.subrange(start as int, end as int),
                forall|k: int|
                    0 <= k < i - start ==> (#[trigger] span[k]).bounding_box_spec(
                        *time0,
                        *time1,
                    ) is Some,
            decreases end - i,
        {
            if src_objects[i].bounding_box(time0, time1).is_none() {
                assert(span[i - start] == src_objects@[i as int]);
                return Err(BvhError::MissingBoundingBox);
            }
            i += 1;
        }
        Ok(())
    }

    /// The axis for the node that is built next: drawn at random where no
    /// draws were handed in, else taken from draw number `next`, if there
    /// is one.
    fn next_axis(draws: Option<&Vec<i32>>, next: usize) -> (r: Option<usize>)
        ensures
            match draws {
                None => r is Some,
                Some(d) => r == (if next < d.len() {
                    Some(spec_pick_axis(d@[next as int]))
                } else {
                    None
                }),
            },
            r matches Some(axis) ==> axis < 3,
    {
        match draws {
            None => Some(pick_axis(random_int(0, 2))),
            Some(d) => if next < d.len() {
                Some(pick_axis(d[next]))
            } else {
                None
            },
        }
    }

    /// The hierarchy over a span whose objects all have boxes: over one
    /// object, a node with that object on both sides; over two, a node with
    /// the two in order along the axis of the node; over more, the span is
    /// put in order along that axis and split in the middle, and each half
    /// becomes a hierarchy of its own.
    ///
    /// The axes are drawn at random where `draws` is `None`. Else the draws
    /// from number `next` on are used, one for each node: first the node
    /// itself, then all of its left side, then its right side. The result
    /// is the node and the number of the first draw that was not used, or
    /// nothing where the draws run out.
    fn build(
        src_objects: &Vec<Rc<Primitive<T>>>,
        start: usize,
        end: usize,
        time0: &T,
        time1: &T,
        draws: Option<&Vec<i32>>,
        next: usize,
    ) -> (r: Option<(Self, usize)>)
        requires
            start < end <= src_objects.len(),
            spec_boxed(src_objects@.subrange(start as int, end as int), *time0, *time1),
        ensures
            draws is None ==> r is Some,
            match r {
                Some((node, after)) => {
                    &&& node.spec_built_from(
                        src_objects@.subrange(start as int, end as int),
                        *time0,
                        *time1,
                    )
                    &&& draws matches Some(d) ==> {
                        &&& after == next + spec_draws_needed((end - start) as nat)
                        &&& after <= d.len()
                        &&& node.spec_built_with(
                            src_objects@.subrange(start as int, end as int),
                            d@.skip(next as int),
                            *time0,
                            *time1,
                        )
                    }
                },
                None => draws matches Some(d) && d.len() < next + spec_draws_needed(
                    (end - start) as nat,
                ),
            },
        decreases end - start,
    {
        let axis = match Self::next_axis(draws, next) {
            Some(axis) => axis,
            None => {
                return None;
            },
        };
        // With draws handed in, the node has used draw number `next`.
        let below = match draws {
            Some(_) => next + 1,
            None => next,
        };
        let ghost span = src_objects@.subrange(start as int, end as int);
        let ghost given = match draws {
            Some(d) => d@.skip(next as int),
            None => seq![axis as i32],
        };
        assert(spec_pick_axis(given[0]) == axis);
        if end - start <= 2 {
            let node = Self::small(src_objects, start, end, axis, time0, time1);
            proof {
                lemma_small_built(node, span, given, *time0, *time1);
            }
            return Some((node, below));
        }
        let objects = sort_by_axis(src_objects, start, end, axis, time0, time1);
        let mid = objects.len() / 2;
        proof {
            // The span in order holds the objects of the span, so both
            // halves are shorter than the span and have boxes.
            lemma_sorted(span, axis as int, *time0, *time1);
            assert(objects@.subrange(0, mid as int) == objects@.take(mid as int));
            assert(objects@.subrange(mid as int, objects@.len() as int) == objects@.skip(
                mid as int,
            ));
            lemma_halves_boxed(objects@, mid as int, *time0, *time1);
        }
        let (l, after_left) = match Self::build(&objects, 0, mid, time0, time1, draws, below) {
            Some(built) => built,
            None => {
                return None;
            },
        };
        let (r, after_right) = match Self::build(
            &objects,
            mid,
            objects.len(),
            time0,
            time1,
            draws,
            after_left,
        ) {
            Some(built) => built,
            None => {
                return None;
            },
        };
        let node = Self::join(Rc::new(Primitive::Bvh(l)), Rc::new(Primitive::Bvh(r)), time0, time1);
        proof {
            match draws {
                Some(d) => {
                    // The draws behind the first are those from `next + 1`
                    // on, and the right side starts where the left side ended.
                    assert(given.skip(1) == d@.skip(next + 1));
                    assert(given.skip(1 + spec_draws_needed(mid as nat) as int) == d@.skip(
                        after_left as int,
                    ));
                    lemma_split_built_with(node, span, given, *time0, *time1);
                },
                None => {},
            }
            lemma_split_built_from(node, span, axis as int, *time0, *time1);
        }
        Some((node, after_right))
    }

    /// The node over a span of one or two objects: the one object on both
    /// sides, or the two in order along `axis`.
    fn small(
        src_objects: &Vec<Rc<Primitive<T>>>,
        start: usize,
        end: usize,
        axis: usize,
        time0: &T,
        time1: &T,
    ) -> (node: Self)
        requires
            start < end <= src_objects.len(),
            end - start <= 2,
            axis < 3,
            spec_boxed(src_objects@.subrange(start as int, end as int), *time0, *time1),
        ensures
            node.spec_small(
                src_objects@.subrange(start as int, end as int),
                axis as int,
                *time0,
                *time1,
            ),
    {
        let ghost span = src_objects@.subrange(start as int, end as int);
        assert(span[0] == src_objects@[start as int]);
        if end - start == 1 {
            Self::join(src_objects[start].clone(), src_objects[start].clone(), time0, time1)
        } else {
            assert(span[1] == src_objects@[start + 1]);
            if box_less(&src_objects[start], &src_objects[start + 1], axis, time0, time1) {
                Self::join(
                    src_objects[start].clone(),
                    src_objects[start + 1].clone(),
                    time0,
                    time1,
                )
            } else {
                Self::join(
                    src_objects[start + 1].clone(),
                    src_objects[start].clone(),
                    time0,
                    time1,
                )
            }
        }
    }

    /// The node over two children that have boxes.
    fn join(left: Rc<Primitive<T>>, right: Rc<Primitive<T>>, time0: &T, time1: &T) -> (node: Self)
        requires
            left.bounding_box_spec(*time0, *time1) is Some,
            right.bounding_box_spec(*time0, *time1) is Some,
        ensures
            node.left == left,
            node.right == right,
            node.bounding_box == spec_surrounding_box(
                left.bounding_box_spec(*time0, *time1).unwrap(),
                right.bounding_box_spec(*time0, *time1).unwrap(),
            ),
    {
        let box_left = left.bounding_box(time0, time1).unwrap();
        let box_right = right.bounding_box(time0, time1).unwrap();
        BVH_Node { left: left, right: right, bounding_box: surrounding_box(&box_left, &box_right) }
    }
}

impl<T: RayTracingFloat> Hittable<T> for BVH_Node<T> {
    /// Nothing where the ray misses the box. Else the left child is tested,
    /// then the right child up to the hit of the left one, so that the
    /// right hit replaces the left one only where it is strictly nearer.
    open spec fn hit_spec(&self, r: Ray<T>, t_min: T, t_max: T) -> Option<HitRecord<T>>
        decreases self, 1int,
    {
        if !self.bounding_box.spec_hit(r, t_min, t_max) {
            None
        } else {
            let hit_left = self.left.hit_spec(r, t_min, t_max);
            match self.right.hit_spec(r, t_min, spec_closest(hit_left, t_max)) {
                Some(h) => Some(h),
                None => hit_left,
            }
        }
    }

    open spec fn bounding_box_spec(&self, time0: T, time1: T) -> Option<AxisAlignedBoundingBoxes<T>> {
        Some(self.bounding_box)
    }

    fn hit(&self, r: &Ray<T>, t_min: &T, t_max: &T) -> (rec: Option<HitRecord<T>>)
        decreases self, 1int,
    {
        if !self.bounding_box.hit(r, t_min, t_max) {
            return None;
        }
        let hit_left = self.left.hit(r, t_min, t_max);
        let right_t_max = match &hit_left {
            Some(h) => h.t,
            None => *t_max,
        };
        match self.right.hit(r, t_min, &right_t_max) {
            Some(h) => Some(h),
            None => hit_left,
        }
    }

    fn bounding_box(&self, time0: &T, time1: &T) -> (b: Option<AxisAlignedBoundingBoxes<T>>) {
        Some(self.bounding_box)
    }
}

/// Both halves of a sequence of objects with boxes have boxes.
proof fn lemma_halves_boxed<T: RayTracingFloat>(
    objects: Seq<Rc<Primitive<T>>>,
    mid: int,
    time0: T,
    time1: T,
)
    requires
        0 <= mid <= objects.len(),
        spec_boxed(objects, time0, time1),
    ensures
        spec_boxed(objects.subrange(0, mid), time0, time1),
        spec_boxed(objects.subrange(mid, objects.len() as int), time0, time1),
{
    let lo = objects.subrange(0, mid);
    let hi = objects.subrange(mid, objects.len() as int);
    assert forall|k: int| 0 <= k < lo.len() implies (#[trigger] lo[k]).bounding_box_spec(
        time0,
        time1,
    ) is Some by {
        assert(lo[k] == objects[k]);
    }
    assert forall|k: int| 0 <= k < hi.len() implies (#[trigger] hi[k]).bounding_box_spec(
        time0,
        time1,
    ) is Some by {
        assert(hi[k] == objects[k + mid]);
    }
}

/// The node over one or two objects along the axis of the first draw is
/// what the construction makes of them, with that draw and at all.
proof fn lemma_small_built<T: RayTracingFloat>(
    node: BVH_Node<T>,
    span: Seq<Rc<Primitive<T>>>,
    draws: Seq<i32>,
    time0: T,
    time1: T,
)
    requires
        node.spec_small(span, spec_pick_axis(draws[0]) as int, time0, time1),
    ensures
        node.spec_built_with(span, draws, time0, time1),
        node.spec_built_from(span, time0, time1),
{
    reveal(BVH_Node::spec_built_with);
    reveal(BVH_Node::spec_built_from);
    let axis = spec_pick_axis(draws[0]) as int;
    if span.len() == 2 {
        assert(spec_comes_before(span[0], span[1], axis, time0, time1) || !spec_comes_before(
            span[0],
            span[1],
            axis,
            time0,
            time1,
        ));
    }
}

/// A node over hierarchies that the construction can make of the two
/// halves of a span, put in order along an axis, is one that the
/// construction can make of the span.
proof fn lemma_split_built_from<T: RayTracingFloat>(
    node: BVH_Node<T>,
    span: Seq<Rc<Primitive<T>>>,
    axis: int,
    time0: T,
    time1: T,
)
    requires
        span.len() >= 3,
        0 <= axis < 3,
        node.spec_box_joined(time0, time1),
        node.spec_inner(),
        node.spec_left_node().spec_built_from(
            spec_sorted(span, axis, time0, time1).take((span.len() / 2) as int),
            time0,
            time1,
        ),
        node.spec_right_node().spec_built_from(
            spec_sorted(span, axis, time0, time1).skip((span.len() / 2) as int),
            time0,
            time1,
        ),
    ensures
        node.spec_built_from(span, time0, time1),
{
    reveal(BVH_Node::spec_built_from);
    lemma_sorted(span, axis, time0, time1);
    let sorted = spec_sorted(span, axis, time0, time1);
    assert(sorted.take((span.len() / 2) as int).len() < span.len());
    assert(sorted.skip((span.len() / 2) as int).len() < span.len());
}

/// A node over the hierarchies that given draws make of the two halves of
/// a span, put in order along the axis of the first draw, is the one that
/// the draws make of the span.
proof fn lemma_split_built_with<T: RayTracingFloat>(
    node: BVH_Node<T>,
    span: Seq<Rc<Primitive<T>>>,
    draws: Seq<i32>,
    time0: T,
    time1: T,
)
    requires
        span.len() >= 3,
        node.spec_box_joined(time0, time1),
        node.spec_inner(),
        node.spec_left_node().spec_built_with(
            spec_sorted(span, spec_pick_axis(draws[0]) as int, time0, time1).take(
                (span.len() / 2) as int,
            ),
            draws.skip(1),
            time0,
            time1,
        ),
        node.spec_right_node().spec_built_with(
            spec_sorted(span, spec_pick_axis(draws[0]) as int, time0, time1).skip(
                (span.len() / 2) as int,
            ),
            draws.skip(1 + spec_draws_needed(span.len() / 2) as int),
            time0,
            time1,
        ),
    ensures
        node.spec_built_with(span, draws, time0, time1),
{
    reveal(BVH_Node::spec_built_with);
    let axis = spec_pick_axis(draws[0]) as int;
    lemma_sorted(span, axis, time0, time1);
    let sorted = spec_sorted(span, axis, time0, time1);
    assert(sorted.take((span.len() / 2) as int).len() == span.len() / 2);
    assert(sorted.skip((span.len() / 2) as int).len() < span.len());
}

/// The hierarchy that given draws make of a span is one of those that the
/// construction can make of it.
pub proof fn lemma_built_with<T: RayTracingFloat>(
    node: BVH_Node<T>,
    span: Seq<Rc<Primitive<T>>>,
    draws: Seq<i32>,
    time0: T,
    time1: T,
)
    requires
        node.spec_built_with(span, draws, time0, time1),
    ensures
        node.spec_built_from(span, time0, time1),
    decreases span.len(),
{
    reveal(BVH_Node::spec_built_with);
    reveal(BVH_Node::spec_built_from);
    let axis = spec_pick_axis(draws[0]) as int;
    if span.len() == 2 {
        assert(spec_comes_before(span[0], span[1], axis, time0, time1) || !spec_comes_before(
            span[0],
            span[1],
            axis,
            time0,
            time1,
        ));
    } else if span.len() > 2 {
        let sorted = spec_sorted(span, axis, time0, time1);
        let mid = (span.len() / 2) as int;
        let lo = sorted.take(mid);
        let hi = sorted.skip(mid);
        lemma_built_with(node.spec_left_node(), lo, draws.skip(1), time0, time1);
        lemma_built_with(
            node.spec_right_node(),
            hi,
            draws.skip(1 + spec_draws_needed(lo.len()) as int),
            time0,
            time1,
        );
    }
}

/// Given draws leave no choice: two hierarchies that the same draws make
/// of the same span are the same.
pub proof fn lemma_built_with_unique<T: RayTracingFloat>(
    a: BVH_Node<T>,
    b: BVH_Node<T>,
    span: Seq<Rc<Primitive<T>>>,
    draws: Seq<i32>,
    time0: T,
    time1: T,
)
    requires
        a.spec_built_with(span, draws, time0, time1),
        b.spec_built_with(span, draws, time0, time1),
    ensures
        a == b,
    decreases span.len(),
{
    reveal(BVH_Node::spec_built_with);
    if span.len() > 2 {
        let axis = spec_pick_axis(draws[0]) as int;
        let sorted = spec_sorted(span, axis, time0, time1);
        let mid = (span.len() / 2) as int;
        let lo = sorted.take(mid);
        let hi = sorted.skip(mid);
        lemma_built_with_unique(
            a.spec_left_node(),
            b.spec_left_node(),
            lo,
            draws.skip(1),
            time0,
            time1,
        );
        lemma_built_with_unique(
            a.spec_right_node(),
            b.spec_right_node(),
            hi,
            draws.skip(1 + spec_draws_needed(lo.len()) as int),
            time0,
            time1,
        );
        assert(*a.left == *b.left);
        assert(*a.right == *b.right);
    }
}

/// What the construction makes of a span is well formed and has the objects
/// of the span at its leaves, each as often as the span holds it.
pub proof fn lemma_built_from<T: RayTracingFloat>(
    node: BVH_Node<T>,
    span: Seq<Rc<Primitive<T>>>,
    time0: T,
    time1: T,
)
    requires
        node.spec_built_from(span, time0, time1),
    ensures
        node.wf(span.len(), time0, time1),
        node.spec_leaves(span.len()).to_multiset() == span.to_multiset(),
    decreases span.len(),
{
    reveal(BVH_Node::spec_built_from);
    let n = span.len();
    if n == 1 {
        assert(node.spec_leaves(n) == span);
    } else if n == 2 {
        let a = seq![span[0]];
        let b = seq![span[1]];
        assert(a + b == span);
        vstd::seq_lib::lemma_seq_union_to_multiset_commutative(a, b);
        assert(node.spec_leaves(n) == a + b || node.spec_leaves(n) == b + a);
    } else {
        let mid = (n / 2) as int;
        let axis = choose|axis: int|
            {
                let sorted = #[trigger] spec_sorted(span, axis, time0, time1);
                let lo = sorted.take(mid);
                let hi = sorted.skip(mid);
                &&& 0 <= axis < 3
                &&& node.spec_inner()
                &&& lo.len() < span.len()
                &&& hi.len() < span.len()
                &&& node.spec_left_node().spec_built_from(lo, time0, time1)
                &&& node.spec_right_node().spec_built_from(hi, time0, time1)
            };
        let sorted = spec_sorted(span, axis, time0, time1);
        let lo = sorted.take(mid);
        let hi = sorted.skip(mid);
        lemma_sorted(span, axis, time0, time1);
        lemma_built_from(node.spec_left_node(), lo, time0, time1);
        lemma_built_from(node.spec_right_node(), hi, time0, time1);
        assert(lo + hi == sorted);
        lemma_multiset_commutative(lo, hi);
        lemma_multiset_commutative(
            node.spec_left_node().spec_leaves(lo.len()),
            node.spec_right_node().spec_leaves(hi.len()),
        );
    }
}

/// A hierarchy whose boxes hide nothing finds what a scan of its leaves
/// finds, from left to right, when the objects at the leaves are consistent.
pub proof fn lemma_hierarchy_matches_scan<T: RayTracingFloat>(
    node: BVH_Node<T>,
    n: nat,
    time0: T,
    time1: T,
    r: Ray<T>,
    t_min: T,
    t_max: T,
)
    requires
        node.wf(n, time0, time1),
        node.spec_hides_nothing(n, r, t_min),
        spec_all_consistent(node.spec_leaves(n), r, t_min),
    ensures
        node.hit_spec(r, t_min, t_max) == spec_scan(node.spec_leaves(n), r, t_min, t_max),
    decreases n,
{
    let leaves = node.spec_leaves(n);
    if node.bounding_box.spec_hit(r, t_min, t_max) {
        let hit_left = node.left.hit_spec(r, t_min, t_max);
        let bound = spec_closest(hit_left, t_max);
        let empty = Seq::<Rc<Primitive<T>>>::empty();
        assert(spec_scan(empty, r, t_min, t_max) is None);
        if n == 1 {
            // The one object is asked twice; the second time, up to its own
            // hit, it has nothing to add.
            assert(leaves.drop_last() == empty);
            match hit_left {
                Some(h) => {
                    T::lemma_lt_irreflexive(h.t);
                    assert(node.left.hit_spec(r, t_min, h.t) is None);
                },
                None => {},
            }
        } else if n == 2 {
            // The node does what a scan of its two objects does.
            let first = seq![node.left];
            assert(leaves.drop_last() == first);
            assert(first.drop_last() == empty);
            assert(spec_scan(first, r, t_min, t_max) == hit_left);
        } else {
            // Each child does what a scan of its leaves does, and the right
            // one is asked up to the hit of the left one.
            let l = node.spec_left_node();
            let rt = node.spec_right_node();
            let ll = l.spec_leaves(n / 2);
            let lr = rt.spec_leaves((n - n / 2) as nat);
            lemma_wf_leaves_len(l, n / 2, time0, time1);
            lemma_wf_leaves_len(rt, (n - n / 2) as nat, time0, time1);
            assert forall|i: int| 0 <= i < ll.len() implies spec_consistent(
                *(#[trigger] ll[i]),
                r,
                t_min,
            ) by {
                assert(ll[i] == leaves[i]);
            }
            assert forall|i: int| 0 <= i < lr.len() implies spec_consistent(
                *(#[trigger] lr[i]),
                r,
                t_min,
            ) by {
                assert(lr[i] == leaves[i + ll.len()]);
            }
            lemma_hierarchy_matches_scan(l, n / 2, time0, time1, r, t_min, t_max);
            lemma_hierarchy_matches_scan(rt, (n - n / 2) as nat, time0, time1, r, t_min, bound);
            lemma_scan_append(ll, lr, r, t_min, t_max);
        }
    }
}

/// A hierarchy whose boxes hide nothing, over consistent objects, is
/// consistent itself.
pub proof fn lemma_hierarchy_consistent<T: RayTracingFloat>(
    node: BVH_Node<T>,
    n: nat,
    time0: T,
    time1: T,
    r: Ray<T>,
    t_min: T,
)
    requires
        node.wf(n, time0, time1),
        node.spec_hides_nothing(n, r, t_min),
        spec_all_consistent(node.spec_leaves(n), r, t_min),
    ensures
        spec_consistent(Primitive::Bvh(node), r, t_min),
{
    let o = Primitive::Bvh(node);
    assert forall|t1: T, t2: T|
        #![trigger o.hit_spec(r, t_min, t1), o.hit_spec(r, t_min, t2)]
        spec_cut_off(o, r, t_min, t1, t2) by {
        lemma_hierarchy_matches_scan(node, n, time0, time1, r, t_min, t1);
        lemma_hierarchy_matches_scan(node, n, time0, time1, r, t_min, t2);
        lemma_scan_cutoff(node.spec_leaves(n), r, t_min, t1, t2);
    }
}

/// A hierarchy over `n` objects has `n` leaves.
pub proof fn lemma_wf_leaves_len<T: RayTracingFloat>(node: BVH_Node<T>, n: nat, time0: T, time1: T)
    requires
        node.wf(n, time0, time1),
    ensures
        node.spec_leaves(n).len() == n,
    decreases n,
{
    if n >= 3 {
        lemma_wf_leaves_len(node.spec_left_node(), n / 2, time0, time1);
        lemma_wf_leaves_len(node.spec_right_node(), (n - n / 2) as nat, time0, time1);
    }
}

/// Traversal of a hierarchy agrees with a scan of the objects it was built
/// over, in the order in which they were handed in: both find nothing, or
/// they find hits of which neither is nearer than the other. This holds for
/// a ray for which no box of the hierarchy hides a hit and the objects are
/// consistent.
pub proof fn lemma_hierarchy_matches_objects<T: RayTracingFloat>(
    node: BVH_Node<T>,
    objects: Seq<Rc<Primitive<T>>>,
    time0: T,
    time1: T,
    r: Ray<T>,
    t_min: T,
    t_max: T,
)
    requires
        node.spec_built_from(objects, time0, time1),
        node.spec_hides_nothing(objects.len(), r, t_min),
        spec_all_consistent(objects, r, t_min),
    ensures
        match (node.hit_spec(r, t_min, t_max), spec_scan(objects, r, t_min, t_max)) {
            (None, None) => true,
            (Some(found), Some(expected)) => !found.t.lt_spec(expected.t) && !expected.t.lt_spec(
                found.t,
            ),
            _ => false,
        },
{
    let leaves = node.spec_leaves(objects.len());
    lemma_built_from(node, objects, time0, time1);
    lemma_scan_order_free(objects, leaves, r, t_min, t_max);
    lemma_hierarchy_matches_scan(node, objects.len(), time0, time1, r, t_min, t_max);
}

/// Where no two hits are at the same distance, traversal of a hierarchy
/// finds the very hit that a scan of the objects finds, with the same
/// material. This holds for a ray for which no box of the hierarchy hides a
/// hit and the objects are consistent.
pub proof fn lemma_hierarchy_same_hit<T: RayTracingFloat>(
    node: BVH_Node<T>,
    objects: Seq<Rc<Primitive<T>>>,
    time0: T,
    time1: T,
    r: Ray<T>,
    t_min: T,
    t_max: T,
)
    requires
        node.spec_built_from(objects, time0, time1),
        node.spec_hides_nothing(objects.len(), r, t_min),
        spec_all_consistent(objects, r, t_min),
        spec_no_ties(objects, r, t_min, t_max),
    ensures
        node.hit_spec(r, t_min, t_max) == spec_scan(objects, r, t_min, t_max),
{
    let leaves = node.spec_leaves(objects.len());
    lemma_built_from(node, objects, time0, time1);
    lemma_scan_order_free(objects, leaves, r, t_min, t_max);
    lemma_scan_order_free_without_ties(objects, leaves, r, t_min, t_max);
    lemma_hierarchy_matches_scan(node, objects.len(), time0, time1, r, t_min, t_max);
}

/// Over spheres, traversal of a hierarchy agrees with a scan of the spheres
/// for every ray that has a direction and for which no box hides a hit:
/// both find nothing, or they find hits of which neither is nearer than
/// the other.
pub proof fn lemma_hierarchy_of_spheres<T: RayTracingFloat>(
    node: BVH_Node<T>,
    objects: Seq<Rc<Primitive<T>>>,
    time0: T,
    time1: T,
    r: Ray<T>,
    t_min: T,
    t_max: T,
)
    requires
        node.spec_built_from(objects, time0, time1),
        node.spec_hides_nothing(objects.len(), r, t_min),
        forall|i: int| 0 <= i < objects.len() ==> *(#[trigger] objects[i]) is Sphere,
        T::from_int_spec(0).lt_spec(r.dir.spec_length_squared()),
    ensures
        match (node.hit_spec(r, t_min, t_max), spec_scan(objects, r, t_min, t_max)) {
            (None, None) => true,
            (Some(found), Some(expected)) => !found.t.lt_spec(expected.t) && !expected.t.lt_spec(
                found.t,
            ),
            _ => false,
        },
{
    assert forall|i: int| 0 <= i < objects.len() implies spec_consistent(
        *(#[trigger] objects[i]),
        r,
        t_min,
    ) by {
        let s = match *objects[i] {
            Primitive::Sphere(s) => s,
            _ => arbitrary(),
        };
        lemma_sphere_consistent(s, r, t_min);
    }
    lemma_hierarchy_matches_objects(node, objects, time0, time1, r, t_min, t_max);
}

/// The box of a hierarchy contains the box of every object at its leaves,
/// whenever the coordinates of those boxes are numbers; and its own
/// coordinates are numbers again.
pub proof fn lemma_hierarchy_box_contains_leaves<T: RayTracingFloat>(
    node: BVH_Node<T>,
    n: nat,
    time0: T,
    time1: T,
)
    requires
        node.wf(n, time0, time1),
        spec_boxed_numeric(node.spec_leaves(n), time0, time1),
    ensures
        node.bounding_box.is_numeric(),
        forall|i: int|
            0 <= i < node.spec_leaves(n).len() ==> node.bounding_box.contains(
                (#[trigger] node.spec_leaves(n)[i]).bounding_box_spec(time0, time1).unwrap(),
            ),
    decreases n,
{
    let leaves = node.spec_leaves(n);
    let box_left = node.left.bounding_box_spec(time0, time1).unwrap();
    let box_right = node.right.bounding_box_spec(time0, time1).unwrap();
    if n <= 2 {
        // The leaves are the children themselves.
        assert(leaves[0] == node.left);
        lemma_surrounding_box_contains(box_left, box_right);
    } else {
        // The box contains the boxes of the children, which contain the
        // boxes of their leaves.
        let l = node.spec_left_node();
        let rt = node.spec_right_node();
        let ll = l.spec_leaves(n / 2);
        let lr = rt.spec_leaves((n - n / 2) as nat);
        lemma_wf_leaves_len(l, n / 2, time0, time1);
        lemma_wf_leaves_len(rt, (n - n / 2) as nat, time0, time1);
        assert forall|i: int| 0 <= i < ll.len() implies match (#[trigger] ll[i]).bounding_box_spec(
            time0,
            time1,
        ) {
            Some(b) => b.is_numeric(),
            None => false,
        } by {
            assert(ll[i] == leaves[i]);
        }
        assert forall|i: int| 0 <= i < lr.len() implies match (#[trigger] lr[i]).bounding_box_spec(
            time0,
            time1,
        ) {
            Some(b) => b.is_numeric(),
            None => false,
        } by {
            assert(lr[i] == leaves[i + ll.len()]);
        }
        lemma_hierarchy_box_contains_leaves(l, n / 2, time0, time1);
        lemma_hierarchy_box_contains_leaves(rt, (n - n / 2) as nat, time0, time1);
        lemma_surrounding_box_contains(box_left, box_right);
        assert forall|i: int| 0 <= i < leaves.len() implies node.bounding_box.contains(
            (#[trigger] leaves[i]).bounding_box_spec(time0, time1).unwrap(),
        ) by {
            if i < ll.len() {
                lemma_contains_transitive(
                    node.bounding_box,
                    box_left,
                    ll[i].bounding_box_spec(time0, time1).unwrap(),
                );
            } else {
                lemma_contains_transitive(
                    node.bounding_box,
                    box_right,
                    lr[i - ll.len()].bounding_box_spec(time0, time1).unwrap(),
                );
            }
        }
    }
}

} // verus!
