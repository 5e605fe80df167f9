use vstd::prelude::*;

verus! {

/// An additive color with one byte per channel.
#[derive(Clone, Copy, Debug, PartialEq, Eq, Structural)]
pub struct Color {
    pub red: u8,
    pub green: u8,
    pub blue: u8,
}

impl Color {
    pub fn new(red: u8, green: u8, blue: u8) -> (r: Color)
        ensures
            r == (Color { red, green, blue }),
    {
        Color { red, green, blue }
    }
}

/// A point of the plane, in integer scene units.
#[derive(Clone, Copy, Debug, PartialEq, Eq, Structural)]
pub struct Point2 {
    pub x: i64,
    pub y: i64,
}

/// One part in a thousand: the fixed-point unit of material fractions.
pub const PER_MILLE_ONE: u16 = 1000;

/// Why a scene part was rejected at construction.
#[derive(Clone, Copy, Debug, PartialEq, Eq, Structural)]
pub enum SceneError {
    /// A diffusion above one (1000 per mille).
    DiffusionOutOfRange,
    /// An opacity above one (1000 per mille).
    OpacityOutOfRange,
    /// A circle of radius zero.
    DegenerateCircle,
    /// A polygon with fewer than three vertices.
    DegeneratePolygon,
    /// An object whose id the scene already holds.
    DuplicateId,
}

/// The geometric form of an object.
#[derive(Debug)]
pub enum Shape {
    Circle { center: Point2, radius: u32 },
    ClosedPolygon { vertices: Vec<Point2> },
}

/// Whether a shape's parameters describe a proper figure.
pub open spec fn shape_valid(s: Shape) -> bool {
    match s {
        Shape::Circle { radius, .. } => radius > 0,
        Shape::ClosedPolygon { vertices } => vertices@.len() >= 3,
    }
}

/// The point from which a shape emits and at which it is hit.
pub open spec fn anchor(s: Shape) -> Point2 {
    match s {
        Shape::Circle { center, .. } => center,
        Shape::ClosedPolygon { vertices } => if vertices@.len() > 0 {
            vertices@[0]
        } else {
            Point2 { x: 0, y: 0 }
        },
    }
}

impl Shape {
    /// The shape's anchor point.
    pub fn anchor(&self) -> (r: Point2)
        ensures
            r == anchor(*self),
    {
        match self {
            Shape::Circle { center, .. } => *center,
            Shape::ClosedPolygon { vertices } => if vertices.len() > 0 {
                vertices[0]
            } else {
                Point2 { x: 0, y: 0 }
            },
        }
    }
}

/// How a collider treats light, its fractions in parts per thousand.
#[derive(Clone, Copy, Debug, PartialEq, Eq, Structural)]
pub struct Material {
    reflects: Color,
    diffusion: u16,
    opacity: u16,
    index_of_refraction: u32,
}

impl Material {
    /// Diffusion and opacity are fractions of at most one.
    #[verifier::type_invariant]
    spec fn inv(self) -> bool {
        self.diffusion <= PER_MILLE_ONE && self.opacity <= PER_MILLE_ONE
    }

    /// Builds a material. Diffusion and opacity are fractions in [0, 1], given
    /// in parts per thousand. Opacity is the part of the light reaching the
    /// collider that it stops rather than lets through: 0 is fully
    /// transparent, 1000 fully opaque.
    pub fn new(reflects: Color, diffusion: u16, opacity: u16, index_of_refraction: u32) -> (r: Result<Material, SceneError>)
        ensures
            diffusion > PER_MILLE_ONE ==> r == Err::<Material, SceneError>(SceneError::DiffusionOutOfRange),
            diffusion <= PER_MILLE_ONE && opacity > PER_MILLE_ONE ==> r == Err::<Material, SceneError>(SceneError::OpacityOutOfRange),
            diffusion <= PER_MILLE_ONE && opacity <= PER_MILLE_ONE ==> (r matches Ok(m) && m.reflects() == reflects
                && m.diffusion() == diffusion && m.opacity() == opacity
                && m.index_of_refraction() == index_of_refraction),
    {
        if diffusion > PER_MILLE_ONE {
            Err(SceneError::DiffusionOutOfRange)
        } else if opacity > PER_MILLE_ONE {
            Err(SceneError::OpacityOutOfRange)
        } else {
            Ok(Material { reflects, diffusion, opacity, index_of_refraction })
        }
    }

    pub closed spec fn reflects(self) -> Color {
        self.reflects
    }

    pub closed spec fn diffusion(self) -> u16 {
        self.diffusion
    }

    pub closed spec fn opacity(self) -> u16 {
        self.opacity
    }

    pub closed spec fn index_of_refraction(self) -> u32 {
        self.index_of_refraction
    }

    /// The fraction of each channel that is reflected.
    pub fn get_reflects(&self) -> (r: Color)
        ensures
            r == self.reflects(),
    {
        self.reflects
    }

    /// Angular scatter, in parts per thousand.
    pub fn get_diffusion(&self) -> (r: u16)
        ensures
            r == self.diffusion(),
    {
        self.diffusion
    }

    /// Opacity, in parts per thousand.
    pub fn get_opacity(&self) -> (r: u16)
        ensures
            r == self.opacity(),
            r <= PER_MILLE_ONE,
    {
        proof {
            use_type_invariant(self);
        }
        self.opacity
    }

    /// Index of refraction, in thousandths.
    pub fn get_index_of_refraction(&self) -> (r: u32)
        ensures
            r == self.index_of_refraction(),
    {
        self.index_of_refraction
    }
}

/// Whether an object emits light or interacts with it.
#[derive(Clone, Copy, Debug, PartialEq, Eq, Structural)]
pub enum LightInteraction {
    Emitter(Color),
    Collider(Material),
}

/// One object of a scene.
#[derive(Debug)]
pub struct Object {
    id: u64,
    shape: Shape,
    light_interaction: LightInteraction,
}

impl Object {
    /// Builds an object, rejecting a degenerate shape.
    pub fn new(id: u64, shape: Shape, light_interaction: LightInteraction) -> (r: Result<Object, SceneError>)
        ensures
            shape_valid(shape) ==> (r matches Ok(o) && o.id() == id && o.shape() == shape
                && o.light_interaction() == light_interaction),
            !shape_valid(shape) ==> r == Err::<Object, SceneError>(match shape {
                Shape::Circle { .. } => SceneError::DegenerateCircle,
                Shape::ClosedPolygon { .. } => SceneError::DegeneratePolygon,
            }),
    {
        match &shape {
            Shape::Circle { radius, .. } => if *radius == 0 {
                return Err(SceneError::DegenerateCircle);
            },
            Shape::ClosedPolygon { vertices } => if vertices.len() < 3 {
                return Err(SceneError::DegeneratePolygon);
            },
        }
        Ok(Object { id, shape, light_interaction })
    }

    pub closed spec fn id(self) -> u64 {
        self.id
    }

    pub closed spec fn shape(self) -> Shape {
        self.shape
    }

    pub closed spec fn light_interaction(self) -> LightInteraction {
        self.light_interaction
    }

    pub fn get_id(&self) -> (r: u64)
        ensures
            r == self.id(),
    {
        self.id
    }

    pub fn get_shape(&self) -> (r: &Shape)
        ensures
            *r == self.shape(),
    {
        &self.shape
    }

    pub fn get_light_interaction(&self) -> (r: LightInteraction)
        ensures
            r == self.light_interaction(),
    {
        self.light_interaction
    }
}

/// Whether some object of `objs` has the id `id`.
pub open spec fn has_id(objs: Seq<Object>, id: u64) -> bool {
    exists|i: int| 0 <= i < objs.len() && #[trigger] objs[i].id() == id
}

/// Whether the ids of `objs` are pairwise distinct.
pub open spec fn ids_unique(objs: Seq<Object>) -> bool {
    forall|i: int, j: int|
        0 <= i < j < objs.len() ==> #[trigger] objs[i].id() != #[trigger] objs[j].id()
}

/// A snapshot of emitters and colliders, keyed by object id.
pub struct Scene {
    objects: Vec<Object>,
}

impl View for Scene {
    type V = Seq<Object>;

    /// The objects, in the order in which they were added.
    closed spec fn view(&self) -> Seq<Object> {
        self.objects@
    }
}

impl Scene {
    /// Ids are unique.
    pub closed spec fn wf(&self) -> bool {
        ids_unique(self.objects@)
    }

    /// The empty scene.
    pub fn new() -> (r: Scene)
        ensures
            r.wf(),
            r@ == Seq::<Object>::empty(),
    {
        Scene { objects: Vec::new() }
    }

    /// Adds an object, unless the scene already holds one with the same id.
    pub fn insert(&mut self, object: Object) -> (r: Result<(), SceneError>)
        requires
            old(self).wf(),
        ensures
            final(self).wf(),
            has_id(old(self)@, object.id()) ==> r == Err::<(), SceneError>(SceneError::DuplicateId)
                && final(self)@ == old(self)@,
            !has_id(old(self)@, object.id()) ==> r is Ok && final(self)@ == old(self)@.push(object),
    {
        let mut i: usize = 0;
        while i < self.objects.len()
            invariant
                0 <= i <= self.objects@.len(),
                self.wf(),
                self.objects@ == old(self).objects@,
                forall|k: int| 0 <= k < i ==> #[trigger] self.objects@[k].id() != object.id(),
            decreases self.objects@.len() - i,
        {
            if self.objects[i].id == object.id {
                assert(self.objects@[i as int].id() == object.id());
                return Err(SceneError::DuplicateId);
            }
            i = i + 1;
        }
        self.objects.push(object);
        Ok(())
    }

    /// The number of objects.
    pub fn len(&self) -> (r: usize)
        ensures
            r == self@.len(),
    {
        self.objects.len()
    }

    /// The object with the given id, if any.
    pub fn get(&self, id: u64) -> (r: Option<&Object>)
        requires
            self.wf(),
        ensures
            !has_id(self@, id) ==> r is None,
            has_id(self@, id) ==> (r matches Some(o) && o.id() == id && self@.contains(*o)),
    {
        let mut i: usize = 0;
        while i < self.objects.len()
            invariant
                0 <= i <= self.objects@.len(),
                forall|k: int| 0 <= k < i ==> #[trigger] self.objects@[k].id() != id,
            decreases self.objects@.len() - i,
        {
            if self.objects[i].id == id {
                assert(self.objects@[i as int].id() == id);
                return Some(&self.objects[i]);
            }
            i = i + 1;
        }
        None
    }

    /// The object at position `i`, in the order of insertion.
    pub fn object(&self, i: usize) -> (r: &Object)
        requires
            i < self@.len(),
        ensures
            *r == self@[i as int],
    {
        &self.objects[i]
    }
}

} // verus!
