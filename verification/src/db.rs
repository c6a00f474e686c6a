//! The scene database held by the coordinator: the two most recent snapshots
//! and a ledger of the graphics resources that have been created for them.

use crate::command::ObjectKey;
use std::collections::BTreeSet;
use vstd::prelude::*;

verus! {

broadcast use vstd::std_specs::btree::group_btree_axioms;

/// The built-in shader programs.
#[derive(Clone, Copy, Debug, PartialEq, Eq, Structural)]
pub enum ShaderSlot {
    RainbowNormal,
    RainbowTexture,
    Ovr,
    Flat,
}

/// Which of the built-in shader programs exist.
#[derive(Clone, Copy, Debug, PartialEq, Eq, Structural)]
pub struct ShaderSet {
    pub rainbow_normal: bool,
    pub rainbow_texture: bool,
    pub ovr: bool,
    pub flat: bool,
}

impl ShaderSet {
    pub open spec fn none() -> ShaderSet {
        ShaderSet { rainbow_normal: false, rainbow_texture: false, ovr: false, flat: false }
    }

    pub open spec fn all() -> ShaderSet {
        ShaderSet { rainbow_normal: true, rainbow_texture: true, ovr: true, flat: true }
    }

    pub open spec fn has(self, slot: ShaderSlot) -> bool {
        match slot {
            ShaderSlot::RainbowNormal => self.rainbow_normal,
            ShaderSlot::RainbowTexture => self.rainbow_texture,
            ShaderSlot::Ovr => self.ovr,
            ShaderSlot::Flat => self.flat,
        }
    }

    /// The programs that do not exist yet, in the order in which they are
    /// compiled.
    pub open spec fn missing(self) -> Seq<ShaderSlot> {
        let a = if self.rainbow_normal {
            Seq::<ShaderSlot>::empty()
        } else {
            seq![ShaderSlot::RainbowNormal]
        };
        let b = if self.rainbow_texture {
            a
        } else {
            a.push(ShaderSlot::RainbowTexture)
        };
        let c = if self.ovr {
            b
        } else {
            b.push(ShaderSlot::Ovr)
        };
        if self.flat {
            c
        } else {
            c.push(ShaderSlot::Flat)
        }
    }
}

/// The keys of `walked` that need a vertex buffer: those that have none in
/// `resident`, each once, in the order of their first occurrence.
pub open spec fn missing_vertex(resident: Set<ObjectKey>, walked: Seq<ObjectKey>) -> Seq<ObjectKey>
    decreases walked.len(),
{
    if walked.len() == 0 {
        Seq::empty()
    } else {
        let earlier = missing_vertex(resident, walked.drop_last());
        let key = walked.last();
        if resident.contains(key) || walked.drop_last().contains(key) {
            earlier
        } else {
            earlier.push(key)
        }
    }
}

/// `resident` with every key of `walked` added.
pub open spec fn with_keys(resident: Set<ObjectKey>, walked: Seq<ObjectKey>) -> Set<ObjectKey> {
    Set::new(|key: ObjectKey| resident.contains(key) || walked.contains(key))
}

/// What a `Graphics` holds.
pub struct GraphicsState<S> {
    /// The snapshot that `current` replaced.
    pub last: S,
    /// The latest snapshot.
    pub current: S,
    /// The objects whose vertex buffers exist.
    pub vertex: Set<ObjectKey>,
    /// The shader programs that exist.
    pub shaders: ShaderSet,
}

impl<S> GraphicsState<S> {
    /// A new snapshot arrives: the current one becomes the last one.
    pub open spec fn update(self, db: S) -> GraphicsState<S> {
        GraphicsState { last: self.current, current: db, ..self }
    }

    /// Every geometry in `walked` and every shader program is made resident.
    pub open spec fn load(self, walked: Seq<ObjectKey>) -> GraphicsState<S> {
        GraphicsState {
            vertex: with_keys(self.vertex, walked),
            shaders: ShaderSet::all(),
            ..self
        }
    }
}

/// The resources that `Graphics::load` found missing. The caller creates
/// them; the ledger already counts them as resident.
pub struct LoadPlan {
    /// Objects that need a vertex buffer.
    pub vertex: Vec<ObjectKey>,
    /// Shader programs to compile.
    pub shaders: Vec<ShaderSlot>,
}

/// A two-slot ring of scene snapshots with the ledger of resident resources.
pub struct Graphics<S> {
    last: S,
    current: S,
    vertex: BTreeSet<ObjectKey>,
    shaders: ShaderSet,
}

impl<S> View for Graphics<S> {
    type V = GraphicsState<S>;

    closed spec fn view(&self) -> GraphicsState<S> {
        GraphicsState {
            last: self.last,
            current: self.current,
            vertex: self.vertex@,
            shaders: self.shaders,
        }
    }
}

impl<S> Graphics<S> {
    /// Both slots start from `db`: `last` is `db` itself, `current` a clone.
    pub fn new(db: S) -> (g: Graphics<S>) where S: Clone
        ensures
            g@.last == db,
            cloned(db, g@.current),
            g@.vertex == Set::<ObjectKey>::empty(),
            g@.shaders == ShaderSet::none(),
    {
        let current = db.clone();
        Graphics {
            last: db,
            current,
            vertex: BTreeSet::new(),
            shaders: ShaderSet {
                rainbow_normal: false,
                rainbow_texture: false,
                ovr: false,
                flat: false,
            },
        }
    }

    /// Replaces the current snapshot by `db` and keeps the replaced one as
    /// `last`. The snapshot that was `last` is dropped.
    pub fn update(&mut self, db: S)
        ensures
            final(self)@ == old(self)@.update(db),
    {
        std::mem::swap(&mut self.last, &mut self.current);
        self.current = db;
    }

    pub fn current(&self) -> (db: &S)
        ensures
            *db == self@.current,
    {
        &self.current
    }

    pub fn last(&self) -> (db: &S)
        ensures
            *db == self@.last,
    {
        &self.last
    }

    /// Whether the object has a vertex buffer.
    pub fn has_vertex(&self, key: ObjectKey) -> (r: bool)
        ensures
            r == self@.vertex.contains(key),
    {
        self.vertex.contains(&key)
    }

    /// Whether the shader program exists.
    pub fn has_shader(&self, slot: ShaderSlot) -> (r: bool)
        ensures
            r == self@.shaders.has(slot),
    {
        match slot {
            ShaderSlot::RainbowNormal => self.shaders.rainbow_normal,
            ShaderSlot::RainbowTexture => self.shaders.rainbow_texture,
            ShaderSlot::Ovr => self.shaders.ovr,
            ShaderSlot::Flat => self.shaders.flat,
        }
    }

    fn load_vertex(&mut self, walked: &Vec<ObjectKey>) -> (missing: Vec<ObjectKey>)
        ensures
            missing@ == missing_vertex(old(self)@.vertex, walked@),
            final(self)@ == (GraphicsState {
                vertex: with_keys(old(self)@.vertex, walked@),
                ..old(self)@
            }),
    {
        let ghost resident = self.vertex@;
        let mut missing: Vec<ObjectKey> = Vec::new();
        let mut i: usize = 0;
        while i < walked.len()
            invariant
                i <= walked.len(),
                missing@ == missing_vertex(resident, walked@.take(i as int)),
                self.vertex@ == with_keys(resident, walked@.take(i as int)),
                self.last == old(self).last,
                self.current == old(self).current,
                self.shaders == old(self).shaders,
            decreases walked.len() - i,
        {
            let key = walked[i];
            proof {
                let before = walked@.take(i as int);
                let after = walked@.take(i + 1);
                assert(after.drop_last() == before);
                assert(after.last() == key);
                assert(with_keys(resident, after) == with_keys(resident, before).insert(key)) by {
                    assert forall|k: ObjectKey|
                        with_keys(resident, after).contains(k) == with_keys(
                            resident,
                            before,
                        ).insert(key).contains(k) by {
                        if before.contains(k) {
                            let j = choose|j: int| 0 <= j < before.len() && before[j] == k;
                            assert(after[j] == k);
                        }
                        if after.contains(k) && k != key {
                            let j = choose|j: int| 0 <= j < after.len() && after[j] == k;
                            assert(before[j] == k);
                        }
                        if k == key {
                            assert(after[i as int] == k);
                        }
                    }
                }
            }
            if !self.vertex.contains(&key) {
                self.vertex.insert(key);
                missing.push(key);
            }
            i += 1;
        }
        proof {
            assert(walked@.take(walked.len() as int) == walked@);
        }
        missing
    }

    fn load_shaders(&mut self) -> (missing: Vec<ShaderSlot>)
        ensures
            missing@ == old(self)@.shaders.missing(),
            final(self)@ == (GraphicsState { shaders: ShaderSet::all(), ..old(self)@ }),
    {
        let mut missing: Vec<ShaderSlot> = Vec::new();
        if !self.shaders.rainbow_normal {
            missing.push(ShaderSlot::RainbowNormal);
            self.shaders.rainbow_normal = true;
        }
        if !self.shaders.rainbow_texture {
            missing.push(ShaderSlot::RainbowTexture);
            self.shaders.rainbow_texture = true;
        }
        if !self.shaders.ovr {
            missing.push(ShaderSlot::Ovr);
            self.shaders.ovr = true;
        }
        if !self.shaders.flat {
            missing.push(ShaderSlot::Flat);
            self.shaders.flat = true;
        }
        missing
    }

    /// Decides which resources must be created so that every geometry the
    /// current scene reaches, listed in `walked`, and every built-in shader
    /// program is resident, and records them as resident.
    pub fn load(&mut self, walked: &Vec<ObjectKey>) -> (plan: LoadPlan)
        ensures
            plan.vertex@ == missing_vertex(old(self)@.vertex, walked@),
            plan.shaders@ == old(self)@.shaders.missing(),
            final(self)@ == old(self)@.load(walked@),
    {
        let vertex = self.load_vertex(walked);
        let shaders = self.load_shaders();
        LoadPlan { vertex, shaders }
    }
}

} // verus!
