use raytracer::bvh::{pick_axis, sort_by_axis, BvhError, BVH_Node};
use raytracer::hittable::{Hittable, HittableList, Primitive};
use raytracer::hittable_sphere::Sphere;
use raytracer::material::{Lambertian, MaterialKind};
use raytracer::ray::Ray;
use raytracer::scalar::{RayTracingFloat, Sqrt, Vec3Elem};
use raytracer::vec3::Vec3;
use std::rc::Rc;

#[derive(Clone, Copy, Debug, PartialEq, PartialOrd)]
struct F(f64);

impl Sqrt for F {
    fn sqrt_spec(self) -> Self {
        F(self.0.sqrt())
    }
    fn square_root(&self) -> Self {
        F(self.0.sqrt())
    }
}

impl Vec3Elem for F {
    fn neg_spec(self) -> Self {
        F(-self.0)
    }
    fn add_spec(self, rhs: Self) -> Self {
        F(self.0 + rhs.0)
    }
    fn sub_spec(self, rhs: Self) -> Self {
        F(self.0 - rhs.0)
    }
    fn mul_spec(self, rhs: Self) -> Self {
        F(self.0 * rhs.0)
    }
    fn div_spec(self, rhs: Self) -> Self {
        F(self.0 / rhs.0)
    }
    fn neg(self) -> Self {
        F(-self.0)
    }
    fn add(self, rhs: Self) -> Self {
        F(self.0 + rhs.0)
    }
    fn sub(self, rhs: Self) -> Self {
        F(self.0 - rhs.0)
    }
    fn mul(self, rhs: Self) -> Self {
        F(self.0 * rhs.0)
    }
    fn div(self, rhs: Self) -> Self {
        F(self.0 / rhs.0)
    }
}

impl RayTracingFloat for F {
    fn lt_spec(self, rhs: Self) -> bool {
        self.0 < rhs.0
    }
    fn le_spec(self, rhs: Self) -> bool {
        self.0 <= rhs.0
    }
    fn is_number(self) -> bool {
        !self.0.is_nan()
    }
    fn from_int_spec(n: usize) -> Self {
        F(n as f64)
    }
    fn to_u8_spec(self) -> u8 {
        self.0 as u8
    }
    fn abs_spec(self) -> Self {
        F(self.0.abs())
    }
    fn infinity_spec() -> Self {
        F(f64::INFINITY)
    }
    fn pi_spec() -> Self {
        F(std::f64::consts::PI)
    }
    fn sin_spec(self) -> Self {
        F(libm::sin(self.0))
    }
    fn cos_spec(self) -> Self {
        F(libm::cos(self.0))
    }
    fn tan_spec(self) -> Self {
        F(libm::tan(self.0))
    }
    fn acos_spec(self) -> Self {
        F(libm::acos(self.0))
    }
    fn atan2_spec(self, x: Self) -> Self {
        F(libm::atan2(self.0, x.0))
    }
    fn lt(&self, rhs: &Self) -> bool {
        self.0 < rhs.0
    }
    fn le(&self, rhs: &Self) -> bool {
        self.0 <= rhs.0
    }
    fn from_int(n: usize) -> Self {
        F(n as f64)
    }
    fn to_u8(self) -> u8 {
        self.0 as u8
    }
    fn abs(self) -> Self {
        F(self.0.abs())
    }
    fn infinity() -> Self {
        F(f64::INFINITY)
    }
    fn pi() -> Self {
        F(std::f64::consts::PI)
    }
    fn sin(self) -> Self {
        F(libm::sin(self.0))
    }
    fn cos(self) -> Self {
        F(libm::cos(self.0))
    }
    fn tan(self) -> Self {
        F(libm::tan(self.0))
    }
    fn acos(self) -> Self {
        F(libm::acos(self.0))
    }
    fn atan2(self, x: Self) -> Self {
        F(libm::atan2(self.0, x.0))
    }
    fn lemma_lt_irreflexive(_a: Self) {}
    fn lemma_lt_transitive(_a: Self, _b: Self, _c: Self) {}
    fn lemma_le_lt(_a: Self, _b: Self) {}
    fn lemma_le_transitive(_a: Self, _b: Self, _c: Self) {}
    fn lemma_number(_a: Self, _b: Self) {}
    fn lemma_total(_a: Self, _b: Self) {}
    fn lemma_abs_zero() {}
    fn lemma_sqrt_not_negative(_a: Self) {}
    fn lemma_add_sub_order(_a: Self, _s: Self) {}
    fn lemma_div_monotone(_a: Self, _b: Self, _d: Self) {}
    fn lemma_positive_ratio(_n: usize, _d: usize) {}
}

fn v(x: f64, y: f64, z: f64) -> Vec3<F> {
    Vec3::new(F(x), F(y), F(z))
}

fn xyz(p: &Vec3<F>) -> (f64, f64, f64) {
    (p.x.0, p.y.0, p.z.0)
}

const INF: F = F(f64::INFINITY);

fn grey() -> Rc<MaterialKind<F>> {
    Rc::new(MaterialKind::Lambertian(Lambertian::new(v(0.5, 0.5, 0.5))))
}

fn sphere(x: f64, y: f64, z: f64, radius: f64) -> Rc<Primitive<F>> {
    Rc::new(Primitive::Sphere(Sphere::new(v(x, y, z), F(radius), grey())))
}

fn unbounded() -> Rc<Primitive<F>> {
    Rc::new(Primitive::List(HittableList::new_empty()))
}

/// A small generator with a fixed seed, so that every run sees the same scene.
struct Lcg(u64);

impl Lcg {
    fn next(&mut self) -> f64 {
        self.0 = self.0.wrapping_mul(6364136223846793005).wrapping_add(1442695040888963407);
        ((self.0 >> 11) as f64) / ((1u64 << 53) as f64)
    }

    fn between(&mut self, lo: f64, hi: f64) -> f64 {
        lo + (hi - lo) * self.next()
    }
}

/// `n` spheres that do not touch: one in each cell of a grid.
fn scene(n: usize, rng: &mut Lcg) -> Vec<Rc<Primitive<F>>> {
    let mut objects = Vec::new();
    for i in 0..n {
        let cell = (i % 6, (i / 6) % 6, i / 36);
        let radius = rng.between(0.2, 0.9);
        objects.push(sphere(
            3.0 * cell.0 as f64 + rng.between(-0.5, 0.5),
            3.0 * cell.1 as f64 + rng.between(-0.5, 0.5),
            3.0 * cell.2 as f64 + rng.between(-0.5, 0.5),
            radius,
        ));
    }
    objects
}

fn brute_force(objects: &Vec<Rc<Primitive<F>>>, r: &Ray<F>) -> Option<(f64, Rc<MaterialKind<F>>)> {
    let mut best: Option<(f64, Rc<MaterialKind<F>>)> = None;
    for o in objects {
        if let Some(rec) = o.hit(r, &F(0.001), &INF) {
            if best.as_ref().map_or(true, |b| rec.t.0 < b.0) {
                best = Some((rec.t.0, rec.mat.clone()));
            }
        }
    }
    best
}

#[test]
fn pick_axis_maps_the_draw_to_an_axis() {
    assert_eq!(pick_axis(0), 0);
    assert_eq!(pick_axis(1), 1);
    assert_eq!(pick_axis(2), 2);
    assert_eq!(pick_axis(7), 2);
    assert_eq!(pick_axis(-1), 2);
}

#[test]
fn empty_span_is_refused() {
    let objects: Vec<Rc<Primitive<F>>> = Vec::new();
    assert_eq!(BVH_Node::new(&objects, &0, &0, &F(0.0), &F(1.0)).err(), Some(BvhError::EmptySpan));
    let objects = vec![sphere(0.0, 0.0, 0.0, 1.0)];
    assert_eq!(BVH_Node::new(&objects, &1, &1, &F(0.0), &F(1.0)).err(), Some(BvhError::EmptySpan));
    assert_eq!(BVH_Node::new(&objects, &1, &0, &F(0.0), &F(1.0)).err(), Some(BvhError::EmptySpan));
    let empty = HittableList::<F>::new_empty();
    assert_eq!(
        BVH_Node::new_from_hittable_list(empty, &F(0.0), &F(1.0)).err(),
        Some(BvhError::EmptySpan)
    );
}

#[test]
fn span_behind_the_objects_is_refused() {
    let objects = vec![sphere(0.0, 0.0, 0.0, 1.0)];
    assert_eq!(
        BVH_Node::new(&objects, &0, &2, &F(0.0), &F(1.0)).err(),
        Some(BvhError::SpanOutOfRange)
    );
    assert_eq!(
        BVH_Node::new(&objects, &5, &2, &F(0.0), &F(1.0)).err(),
        Some(BvhError::SpanOutOfRange)
    );
}

#[test]
fn object_without_a_box_is_reported() {
    let objects = vec![sphere(0.0, 0.0, 0.0, 1.0), unbounded(), sphere(3.0, 0.0, 0.0, 1.0)];
    assert_eq!(
        BVH_Node::new(&objects, &0, &3, &F(0.0), &F(1.0)).err(),
        Some(BvhError::MissingBoundingBox)
    );
    assert_eq!(
        BVH_Node::new(&objects, &1, &2, &F(0.0), &F(1.0)).err(),
        Some(BvhError::MissingBoundingBox)
    );
    assert!(BVH_Node::new(&objects, &0, &1, &F(0.0), &F(1.0)).is_ok());
    assert!(BVH_Node::new(&objects, &2, &3, &F(0.0), &F(1.0)).is_ok());
}

#[test]
fn node_over_one_object_has_it_on_both_sides() {
    let objects = vec![sphere(1.0, 2.0, 3.0, 1.0)];
    let node = BVH_Node::new(&objects, &0, &1, &F(0.0), &F(1.0)).unwrap();
    assert!(Rc::ptr_eq(&node.left, &objects[0]));
    assert!(Rc::ptr_eq(&node.right, &objects[0]));
    let b = node.bounding_box(&F(0.0), &F(1.0)).unwrap();
    assert_eq!(xyz(b.min()), (0.0, 1.0, 2.0));
    assert_eq!(xyz(b.max()), (2.0, 3.0, 4.0));
    let rec = node.hit(&Ray::new(v(1.0, 2.0, -5.0), v(0.0, 0.0, 1.0), F(0.0)), &F(0.001), &INF);
    assert_eq!(rec.unwrap().t, F(7.0));
}

#[test]
fn node_over_two_objects_orders_them_along_a_drawn_axis() {
    let objects = vec![sphere(0.0, 10.0, 0.0, 1.0), sphere(10.0, 0.0, 0.0, 1.0)];
    let mut in_order = 0;
    let mut swapped = 0;
    for _ in 0..300 {
        let node = BVH_Node::new(&objects, &0, &2, &F(0.0), &F(1.0)).unwrap();
        if Rc::ptr_eq(&node.left, &objects[0]) {
            assert!(Rc::ptr_eq(&node.right, &objects[1]));
            in_order += 1;
        } else {
            assert!(Rc::ptr_eq(&node.left, &objects[1]));
            assert!(Rc::ptr_eq(&node.right, &objects[0]));
            swapped += 1;
        }
        let b = node.bounding_box(&F(0.0), &F(1.0)).unwrap();
        assert_eq!(xyz(b.min()), (-1.0, -1.0, -1.0));
        assert_eq!(xyz(b.max()), (11.0, 11.0, 1.0));
    }
    // Along x the first sphere comes first, along y and z it does not.
    assert!(in_order > 0);
    assert!(swapped > 0);
}

#[test]
fn sort_by_axis_orders_the_span_and_keeps_its_objects() {
    let objects = vec![
        sphere(5.0, 0.0, 2.0, 1.0),
        sphere(1.0, 9.0, 2.0, 1.0),
        sphere(3.0, 4.0, 2.0, 1.0),
        sphere(2.0, 7.0, 2.0, 1.0),
        sphere(4.0, 1.0, 2.0, 1.0),
    ];
    let order = |sorted: &Vec<Rc<Primitive<F>>>| -> Vec<usize> {
        sorted.iter().map(|s| objects.iter().position(|o| Rc::ptr_eq(o, s)).unwrap()).collect()
    };
    let by_x = sort_by_axis(&objects, 0, 5, 0, &F(0.0), &F(1.0));
    assert_eq!(order(&by_x), vec![1, 3, 2, 4, 0]);
    let by_y = sort_by_axis(&objects, 0, 5, 1, &F(0.0), &F(1.0));
    assert_eq!(order(&by_y), vec![0, 4, 2, 3, 1]);
    let by_z = sort_by_axis(&objects, 0, 5, 2, &F(0.0), &F(1.0));
    assert_eq!(order(&by_z), vec![0, 1, 2, 3, 4]);
    let part = sort_by_axis(&objects, 1, 4, 0, &F(0.0), &F(1.0));
    assert_eq!(order(&part), vec![1, 3, 2]);
    assert!(sort_by_axis(&objects, 2, 2, 0, &F(0.0), &F(1.0)).is_empty());
}

#[test]
fn hierarchy_box_is_the_box_around_all_objects() {
    let mut rng = Lcg(7);
    let objects = scene(40, &mut rng);
    let mut list = HittableList::new_empty();
    for o in &objects {
        list.add(o.clone());
    }
    let expected = list.bounding_box(&F(0.0), &F(1.0)).unwrap();
    let node = BVH_Node::new(&objects, &0, &40, &F(0.0), &F(1.0)).unwrap();
    let b = node.bounding_box(&F(0.0), &F(1.0)).unwrap();
    assert_eq!(xyz(b.min()), xyz(expected.min()));
    assert_eq!(xyz(b.max()), xyz(expected.max()));
}

#[test]
fn hierarchy_finds_the_same_nearest_hit_as_a_scan() {
    let mut rng = Lcg(42);
    for n in [1usize, 2, 3, 4, 5, 7, 8, 16, 33, 100, 200] {
        let objects = scene(n, &mut rng);
        let node = BVH_Node::new(&objects, &0, &n, &F(0.0), &F(1.0)).unwrap();
        let mut hits = 0;
        for _ in 0..300 {
            let origin = v(rng.between(-10.0, 25.0), rng.between(-10.0, 25.0), rng.between(-20.0, -5.0));
            let target = v(rng.between(-1.0, 16.0), rng.between(-1.0, 16.0), rng.between(-1.0, 16.0));
            let r = Ray::new(origin, target.minus(origin), F(0.0));
            let expected = brute_force(&objects, &r);
            let found = node.hit(&r, &F(0.001), &INF);
            match (expected, found) {
                (None, None) => {},
                (Some((t, mat)), Some(rec)) => {
                    assert!((rec.t.0 - t).abs() < 1e-12);
                    assert!(Rc::ptr_eq(&rec.mat, &mat));
                    hits += 1;
                },
                (e, f) => panic!("scan found {:?}, hierarchy found {:?}", e.map(|x| x.0), f.map(|x| x.t.0)),
            }
        }
        assert!(n < 16 || hits > 0);
    }
}

#[test]
fn hierarchy_over_a_list_matches_the_list() {
    let mut rng = Lcg(3);
    let objects = scene(25, &mut rng);
    let mut list = HittableList::new_empty();
    let mut copy = HittableList::new_empty();
    for o in &objects {
        list.add(o.clone());
        copy.add(o.clone());
    }
    let node = BVH_Node::new_from_hittable_list(copy, &F(0.0), &F(1.0)).unwrap();
    let world = Primitive::Bvh(node);
    for _ in 0..200 {
        let origin = v(rng.between(-10.0, 25.0), rng.between(-10.0, 25.0), -10.0);
        let target = v(rng.between(-1.0, 16.0), rng.between(-1.0, 16.0), 0.0);
        let r = Ray::new(origin, target.minus(origin), F(0.0));
        let a = list.hit(&r, &F(0.001), &INF).map(|rec| rec.t.0);
        let b = world.hit(&r, &F(0.001), &INF).map(|rec| rec.t.0);
        assert_eq!(a, b);
    }
}

fn inner(p: &Rc<Primitive<F>>) -> &BVH_Node<F> {
    match &**p {
        Primitive::Bvh(node) => node,
        _ => panic!("the child is no node"),
    }
}

fn five() -> Vec<Rc<Primitive<F>>> {
    vec![
        sphere(5.0, 0.0, 3.0, 0.5),
        sphere(1.0, 9.0, 1.0, 0.5),
        sphere(3.0, 4.0, 5.0, 0.5),
        sphere(2.0, 7.0, 2.0, 0.5),
        sphere(4.0, 1.0, 4.0, 0.5),
    ]
}

#[test]
fn given_draws_fix_the_order_of_two_objects() {
    let objects = vec![sphere(0.0, 10.0, 0.0, 1.0), sphere(10.0, 0.0, 0.0, 1.0)];
    let along_x = BVH_Node::new_with_draws(&objects, &0, &2, &F(0.0), &F(1.0), &vec![0]).unwrap();
    assert!(Rc::ptr_eq(&along_x.left, &objects[0]));
    assert!(Rc::ptr_eq(&along_x.right, &objects[1]));
    for draw in [1, 2, 7, -3] {
        let node = BVH_Node::new_with_draws(&objects, &0, &2, &F(0.0), &F(1.0), &vec![draw]).unwrap();
        assert!(Rc::ptr_eq(&node.left, &objects[1]));
        assert!(Rc::ptr_eq(&node.right, &objects[0]));
    }
}

#[test]
fn given_draws_fix_the_whole_tree() {
    let o = five();
    let root = BVH_Node::new_with_draws(&o, &0, &5, &F(0.0), &F(1.0), &vec![0, 1, 2, 0, 1]).unwrap();
    // Along x the order is 1, 3, 2, 4, 0: two objects to the left, three to the right.
    let left = inner(&root.left);
    assert!(Rc::ptr_eq(&left.left, &o[3]));
    assert!(Rc::ptr_eq(&left.right, &o[1]));
    // Along z the three are 0, 4, 2: one object to the left, two to the right.
    let right = inner(&root.right);
    let single = inner(&right.left);
    assert!(Rc::ptr_eq(&single.left, &o[0]));
    assert!(Rc::ptr_eq(&single.right, &o[0]));
    let pair = inner(&right.right);
    assert!(Rc::ptr_eq(&pair.left, &o[4]));
    assert!(Rc::ptr_eq(&pair.right, &o[2]));
    let b = root.bounding_box(&F(0.0), &F(1.0)).unwrap();
    assert_eq!(xyz(b.min()), (0.5, -0.5, 0.5));
    assert_eq!(xyz(b.max()), (5.5, 9.5, 5.5));
    let b = right.bounding_box(&F(0.0), &F(1.0)).unwrap();
    assert_eq!(xyz(b.min()), (2.5, -0.5, 2.5));
    assert_eq!(xyz(b.max()), (5.5, 4.5, 5.5));
}

#[test]
fn other_draws_give_another_tree() {
    let o = five();
    let root = BVH_Node::new_with_draws(&o, &0, &5, &F(0.0), &F(1.0), &vec![1, 0, 0, 2, 2]).unwrap();
    // Along y the order is 0, 4, 2, 3, 1.
    let left = inner(&root.left);
    assert!(Rc::ptr_eq(&left.left, &o[4]));
    assert!(Rc::ptr_eq(&left.right, &o[0]));
    // Along x the three are 1, 3, 2.
    let right = inner(&root.right);
    assert!(Rc::ptr_eq(&inner(&right.left).left, &o[1]));
    let pair = inner(&right.right);
    // Along z object 3 comes before object 2.
    assert!(Rc::ptr_eq(&pair.left, &o[3]));
    assert!(Rc::ptr_eq(&pair.right, &o[2]));
}

#[test]
fn the_same_draws_give_the_same_tree() {
    let mut rng = Lcg(5);
    let objects = scene(37, &mut rng);
    let draws: Vec<i32> = (0..80).map(|_| (rng.next() * 3.0) as i32).collect();
    let a = BVH_Node::new_with_draws(&objects, &0, &37, &F(0.0), &F(1.0), &draws).unwrap();
    let b = BVH_Node::new_with_draws(&objects, &0, &37, &F(0.0), &F(1.0), &draws).unwrap();
    fn same(a: &BVH_Node<F>, b: &BVH_Node<F>) -> bool {
        let side = |x: &Rc<Primitive<F>>, y: &Rc<Primitive<F>>| match (&**x, &**y) {
            (Primitive::Bvh(p), Primitive::Bvh(q)) => same(p, q),
            (Primitive::Bvh(_), _) | (_, Primitive::Bvh(_)) => false,
            _ => Rc::ptr_eq(x, y),
        };
        side(&a.left, &b.left) && side(&a.right, &b.right)
    }
    assert!(same(&a, &b));
    for _ in 0..200 {
        let origin = v(rng.between(-10.0, 25.0), rng.between(-10.0, 25.0), -10.0);
        let target = v(rng.between(-1.0, 16.0), rng.between(-1.0, 16.0), 0.0);
        let r = Ray::new(origin, target.minus(origin), F(0.0));
        let expected = brute_force(&objects, &r).map(|x| x.0);
        assert_eq!(a.hit(&r, &F(0.001), &INF).map(|rec| rec.t.0), expected);
    }
}

#[test]
fn every_node_needs_a_draw() {
    let o = five();
    for few in 0..5 {
        let draws = vec![0; few];
        assert_eq!(
            BVH_Node::new_with_draws(&o, &0, &5, &F(0.0), &F(1.0), &draws).err(),
            Some(BvhError::NotEnoughDraws)
        );
    }
    assert!(BVH_Node::new_with_draws(&o, &0, &5, &F(0.0), &F(1.0), &vec![0; 5]).is_ok());
    assert!(BVH_Node::new_with_draws(&o, &0, &5, &F(0.0), &F(1.0), &vec![0; 9]).is_ok());
    // Four objects make three nodes, one object makes one.
    assert_eq!(
        BVH_Node::new_with_draws(&o, &0, &4, &F(0.0), &F(1.0), &vec![0, 0]).err(),
        Some(BvhError::NotEnoughDraws)
    );
    assert!(BVH_Node::new_with_draws(&o, &0, &4, &F(0.0), &F(1.0), &vec![0, 0, 0]).is_ok());
    assert_eq!(
        BVH_Node::new_with_draws(&o, &2, &3, &F(0.0), &F(1.0), &vec![]).err(),
        Some(BvhError::NotEnoughDraws)
    );
    let one = BVH_Node::new_with_draws(&o, &2, &3, &F(0.0), &F(1.0), &vec![1]).unwrap();
    assert!(Rc::ptr_eq(&one.left, &o[2]) && Rc::ptr_eq(&one.right, &o[2]));
}

#[test]
fn given_draws_do_not_change_which_spans_are_refused() {
    let objects = vec![sphere(0.0, 0.0, 0.0, 1.0), unbounded(), sphere(3.0, 0.0, 0.0, 1.0)];
    let none = vec![];
    assert_eq!(
        BVH_Node::new_with_draws(&objects, &0, &4, &F(0.0), &F(1.0), &none).err(),
        Some(BvhError::SpanOutOfRange)
    );
    assert_eq!(
        BVH_Node::new_with_draws(&objects, &2, &2, &F(0.0), &F(1.0), &none).err(),
        Some(BvhError::EmptySpan)
    );
    assert_eq!(
        BVH_Node::new_with_draws(&objects, &0, &3, &F(0.0), &F(1.0), &none).err(),
        Some(BvhError::MissingBoundingBox)
    );
    assert_eq!(
        BVH_Node::new_with_draws(&objects, &0, &3, &F(0.0), &F(1.0), &vec![0; 9]).err(),
        Some(BvhError::MissingBoundingBox)
    );
}
