//! A renderable model assembled from CPU-side model data: one part per
//! triangle primitive, each carrying its material assignment and its named
//! key-frame animation tracks.
//!
//! The graphics side (mesh upload, material instantiation, the per-frame
//! transformation a track evaluates to) lives with the rendering layer; this
//! module holds the data the assembly and animation-selection rules read.

use vstd::prelude::*;

verus! {

/// One key-frame animation track, identified by its optional name.
#[derive(Debug)]
pub struct AnimationTrack {
    pub name: Option<String>,
}

/// CPU-side material data; parts refer to materials by index.
pub struct CpuMaterial {
    pub name: String,
}

/// One CPU-side primitive of a model.
pub struct CpuPrimitive {
    pub name: String,
    /// Index into the model's material list; `None` selects the default
    /// material.
    pub material_index: Option<usize>,
    /// Whether the primitive's geometry is a triangle mesh; only those
    /// become parts of the assembled model.
    pub is_triangles: bool,
    pub animations: Vec<AnimationTrack>,
}

/// CPU-side model data: materials plus primitives.
pub struct CpuModel {
    pub materials: Vec<CpuMaterial>,
    pub geometries: Vec<CpuPrimitive>,
}

/// The error raised when a primitive names a material the model lacks.
#[derive(Debug)]
pub enum ModelError {
    MissingMaterial { material_index: usize, primitive_name: String },
}

/// One part of an assembled model.
#[derive(Debug)]
pub struct ModelPart {
    /// The material chosen at assembly: the primitive's index, or `None` for
    /// the default material.
    pub material_index: Option<usize>,
    pub animations: Vec<AnimationTrack>,
    /// The track currently playing, as an index into `animations`; `None`
    /// when the part's animation is stopped.
    pub active_animation: Option<usize>,
}

/// A model: the parts assembled from a [`CpuModel`]'s triangle primitives.
#[derive(Debug)]
pub struct Model {
    pub parts: Vec<ModelPart>,
}

/// A primitive is acceptable when any material it names exists.
pub open spec fn prim_ok(p: CpuPrimitive, nmat: int) -> bool {
    p.is_triangles ==> (p.material_index matches Some(k) ==> k < nmat)
}

/// The positions of the triangle primitives of `gs`, in order.
pub open spec fn triangle_indices(gs: Seq<CpuPrimitive>) -> Seq<int>
    decreases gs.len(),
{
    if gs.len() == 0 {
        Seq::empty()
    } else {
        let rest = triangle_indices(gs.drop_last());
        if gs.last().is_triangles {
            rest.push(gs.len() - 1)
        } else {
            rest
        }
    }
}

proof fn lemma_triangle_indices_take_step(gs: Seq<CpuPrimitive>, i: int)
    requires
        0 <= i < gs.len(),
    ensures
        gs[i].is_triangles ==> triangle_indices(gs.take(i + 1)) == triangle_indices(
            gs.take(i),
        ).push(i),
        !gs[i].is_triangles ==> triangle_indices(gs.take(i + 1)) == triangle_indices(gs.take(i)),
{
    assert(gs.take(i + 1).drop_last() =~= gs.take(i));
    assert(gs.take(i + 1).last() == gs[i]);
}

/// How an assembled part relates to the primitive it came from.
pub open spec fn part_matches(part: ModelPart, p: CpuPrimitive) -> bool {
    &&& part.material_index == p.material_index
    &&& part.animations@ == p.animations@
    &&& part.active_animation is None
}

/// Whether `e` reports the first primitive of `gs` whose material is missing.
pub open spec fn reports_first_missing(
    gs: Seq<CpuPrimitive>,
    nmat: int,
    e: ModelError,
    i: int,
) -> bool {
    &&& 0 <= i < gs.len()
    &&& !prim_ok(gs[i], nmat)
    &&& forall|j: int| 0 <= j < i ==> prim_ok(gs[j], nmat)
    &&& e matches ModelError::MissingMaterial { material_index, primitive_name }
    &&& gs[i].material_index == Some(material_index)
    &&& primitive_name@ == gs[i].name@
}

/// Whether `e` reports the first primitive of `gs` whose material is missing,
/// wherever that primitive stands.
pub open spec fn reports_some_first_missing(gs: Seq<CpuPrimitive>, nmat: int, e: ModelError) -> bool {
    exists|i: int| reports_first_missing(gs, nmat, e, i)
}

/// Name equality of animation tracks: both unnamed, or equal names.
pub open spec fn name_eq(a: Option<String>, b: Option<String>) -> bool {
    match (a, b) {
        (Option::None, Option::None) => true,
        (Option::Some(x), Option::Some(y)) => x@ == y@,
        _ => false,
    }
}

/// The position of the first track of `ts` from position `k` on whose name
/// equals `name`.
pub open spec fn first_match_from(ts: Seq<AnimationTrack>, name: Option<String>, k: int) -> Option<
    int,
>
    decreases ts.len() - k,
{
    if k < 0 || k >= ts.len() {
        None
    } else if name_eq(ts[k].name, name) {
        Some(k)
    } else {
        first_match_from(ts, name, k + 1)
    }
}

/// The position of the first track of `ts` whose name equals `name`.
pub open spec fn first_match(ts: Seq<AnimationTrack>, name: Option<String>) -> Option<int> {
    first_match_from(ts, name, 0)
}

/// The active-animation field selected from a found track position.
pub open spec fn selected(m: Option<int>) -> Option<usize> {
    match m {
        Option::Some(i) => Some(i as usize),
        Option::None => None,
    }
}

fn name_matches(a: &Option<String>, b: &Option<String>) -> (r: bool)
    ensures
        r == name_eq(*a, *b),
{
    match (a, b) {
        (Option::None, Option::None) => true,
        (Option::Some(x), Option::Some(y)) => *x == *y,
        _ => false,
    }
}

fn clone_track(t: &AnimationTrack) -> (r: AnimationTrack)
    ensures
        r == *t,
{
    match &t.name {
        Option::None => AnimationTrack { name: None },
        Option::Some(s) => AnimationTrack { name: Some(s.clone()) },
    }
}

fn clone_tracks(ts: &Vec<AnimationTrack>) -> (r: Vec<AnimationTrack>)
    ensures
        r@ == ts@,
{
    let n = ts.len();
    let mut r: Vec<AnimationTrack> = Vec::new();
    let mut i: usize = 0;
    while i < n
        invariant
            0 <= i <= n,
            n == ts@.len(),
            r@ == ts@.take(i as int),
        decreases n - i,
    {
        r.push(clone_track(&ts[i]));
        proof {
            assert(r@ =~= ts@.take(i + 1));
        }
        i = i + 1;
    }
    proof {
        assert(ts@.take(n as int) =~= ts@);
    }
    r
}

fn find_track(tracks: &Vec<AnimationTrack>, name: &Option<String>) -> (r: Option<usize>)
    ensures
        r == selected(first_match(tracks@, *name)),
{
    let n = tracks.len();
    let mut i: usize = 0;
    while i < n
        invariant
            0 <= i <= n,
            n == tracks@.len(),
            first_match(tracks@, *name) == first_match_from(tracks@, *name, i as int),
        decreases n - i,
    {
        if name_matches(&tracks[i].name, name) {
            return Some(i);
        }
        i = i + 1;
    }
    None
}

impl Model {
    /// Assembles a model from CPU-side model data: one part per triangle
    /// primitive, in order, each holding the primitive's material assignment
    /// (its index, or the default when it names none) and its animation
    /// tracks, with no animation playing yet. Fails with `MissingMaterial`
    /// at the first triangle primitive whose material index is out of range.
    pub fn new(cpu_model: &CpuModel) -> (r: Result<Model, ModelError>)
        ensures
            r is Ok <==> (forall|i: int|
                0 <= i < cpu_model.geometries@.len() ==> prim_ok(
                    cpu_model.geometries@[i],
                    cpu_model.materials@.len() as int,
                )),
            r matches Ok(m) ==> {
                let idx = triangle_indices(cpu_model.geometries@);
                &&& m.parts@.len() == idx.len()
                &&& forall|j: int|
                    0 <= j < idx.len() ==> part_matches(m.parts@[j], cpu_model.geometries@[idx[j]])
            },
            r matches Err(e) ==> reports_some_first_missing(
                cpu_model.geometries@,
                cpu_model.materials@.len() as int,
                e,
            ),
    {
        let nmat = cpu_model.materials.len();
        let ngeo = cpu_model.geometries.len();
        let mut parts: Vec<ModelPart> = Vec::new();
        let mut i: usize = 0;
        while i < ngeo
            invariant
                0 <= i <= ngeo,
                ngeo == cpu_model.geometries@.len(),
                nmat == cpu_model.materials@.len(),
                forall|j: int|
                    0 <= j < i ==> prim_ok(
                        cpu_model.geometries@[j],
                        cpu_model.materials@.len() as int,
                    ),
                parts@.len() == triangle_indices(cpu_model.geometries@.take(i as int)).len(),
                forall|j: int|
                    0 <= j < triangle_indices(cpu_model.geometries@.take(i as int)).len() ==> 0
                        <= #[trigger] triangle_indices(cpu_model.geometries@.take(i as int))[j]
                        < i,
                forall|j: int|
                    0 <= j < triangle_indices(cpu_model.geometries@.take(i as int)).len()
                        ==> part_matches(
                        parts@[j],
                        cpu_model.geometries@[triangle_indices(
                            cpu_model.geometries@.take(i as int),
                        )[j]],
                    ),
            decreases ngeo - i,
        {
            let p = &cpu_model.geometries[i];
            if p.is_triangles {
                let bad = match &p.material_index {
                    Option::Some(mi) => *mi >= nmat,
                    Option::None => false,
                };
                if bad {
                    let mi = match &p.material_index {
                        Option::Some(mi) => *mi,
                        Option::None => 0,
                    };
                    let e = ModelError::MissingMaterial {
                        material_index: mi,
                        primitive_name: p.name.clone(),
                    };
                    proof {
                        assert(reports_first_missing(
                            cpu_model.geometries@,
                            cpu_model.materials@.len() as int,
                            e,
                            i as int,
                        ));
                        assert(!prim_ok(
                            cpu_model.geometries@[i as int],
                            cpu_model.materials@.len() as int,
                        ));
                        assert(reports_some_first_missing(
                            cpu_model.geometries@,
                            cpu_model.materials@.len() as int,
                            e,
                        ));
                    }
                    return Err(e);
                }
                parts.push(
                    ModelPart {
                        material_index: p.material_index,
                        animations: clone_tracks(&p.animations),
                        active_animation: None,
                    },
                );
            }
            proof {
                lemma_triangle_indices_take_step(cpu_model.geometries@, i as int);
            }
            i = i + 1;
        }
        proof {
            assert(cpu_model.geometries@.take(ngeo as int) =~= cpu_model.geometries@);
        }
        Ok(Model { parts })
    }

    /// Starts the named animation on every part that has a track of that
    /// name, picking the first such track; parts without one stop animating.
    /// Passing `None` selects each part's first unnamed track instead.
    pub fn start_animation(&mut self, animation_name: Option<String>)
        ensures
            final(self).parts@.len() == old(self).parts@.len(),
            forall|k: int|
                0 <= k < old(self).parts@.len() ==> {
                    &&& final(self).parts@[k].material_index == old(
                        self,
                    ).parts@[k].material_index
                    &&& final(self).parts@[k].animations@ == old(self).parts@[k].animations@
                    &&& final(self).parts@[k].active_animation == selected(
                        first_match(old(self).parts@[k].animations@, animation_name),
                    )
                },
    {
        let ghost pre = self.parts@;
        let n = self.parts.len();
        let mut updated: Vec<ModelPart> = Vec::new();
        let mut k: usize = 0;
        while k < n
            invariant
                0 <= k <= n,
                n == pre.len(),
                self.parts@ == pre,
                updated@.len() == k,
                forall|j: int|
                    0 <= j < k ==> {
                        &&& updated@[j].material_index == pre[j].material_index
                        &&& updated@[j].animations@ == pre[j].animations@
                        &&& updated@[j].active_animation == selected(
                            first_match(pre[j].animations@, animation_name),
                        )
                    },
            decreases n - k,
        {
            let part = &self.parts[k];
            let found = find_track(&part.animations, &animation_name);
            updated.push(
                ModelPart {
                    material_index: part.material_index,
                    animations: clone_tracks(&part.animations),
                    active_animation: found,
                },
            );
            k = k + 1;
        }
        self.parts = updated;
    }
}

} // verus!
