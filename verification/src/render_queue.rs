//! How the render thread works through a batch of messages: only the last render request of a
//! batch is served, after every other message, and work is done only once what it needs is
//! there.
use vstd::prelude::*;

verus! {

/// The kinds of message the render thread takes.
#[derive(Clone, Copy, Debug, PartialEq, Eq, Structural)]
pub enum RenderMessageKind {
    SetDirectory,
    UpdateModelSettings,
    LoadModels,
    LoadMasks,
    UpdateOffsets,
    UpdateModel,
    Render,
    Exit,
}

/// The position of the last render request of a batch.
pub fn last_render_index(kinds: &[RenderMessageKind]) -> (r: Option<usize>)
    ensures
        match r {
            Some(i) => i < kinds@.len() && kinds@[i as int] == RenderMessageKind::Render && forall|j: int|
                i < j < kinds@.len() ==> kinds@[j] != RenderMessageKind::Render,
            None => forall|j: int| 0 <= j < kinds@.len() ==> kinds@[j] != RenderMessageKind::Render,
        },
{
    let mut i: usize = kinds.len();
    while i > 0
        invariant
            i <= kinds@.len(),
            forall|j: int| i <= j < kinds@.len() ==> kinds@[j] != RenderMessageKind::Render,
        decreases i,
    {
        i = i - 1;
        if kinds[i] == RenderMessageKind::Render {
            return Some(i);
        }
    }
    None
}

/// The messages among the first `n` of a batch that do work, by position: everything but
/// render requests and exit requests.
pub open spec fn work_upto(kinds: Seq<RenderMessageKind>, n: int) -> Seq<usize>
    decreases n,
{
    if n <= 0 {
        Seq::empty()
    } else if kinds[n - 1] == RenderMessageKind::Render || kinds[n - 1] == RenderMessageKind::Exit {
        work_upto(kinds, n - 1)
    } else {
        work_upto(kinds, n - 1).push((n - 1) as usize)
    }
}

/// How the render thread works through one batch of messages.
#[derive(Debug, PartialEq, Eq)]
pub struct BatchPlan {
    /// The messages handled, in order, by position.
    pub work: Vec<usize>,
    /// How many messages are looked at: all of them, or those before the first exit request.
    pub stop: usize,
    /// Whether the batch asks the thread to end.
    pub exit: bool,
    /// The render request served after the work, if any: the last of the batch, and none once
    /// the thread ends.
    pub render: Option<usize>,
}

/// Plans a batch: the last render request is set aside, the other messages are handled in
/// order up to the first exit request, which ends the thread; without one, the render request
/// set aside is served afterwards (once a scene is there).
pub fn batch_plan(kinds: &[RenderMessageKind]) -> (r: BatchPlan)
    ensures
        r.stop <= kinds@.len(),
        forall|i: int| 0 <= i < r.stop ==> kinds@[i] != RenderMessageKind::Exit,
        r.exit == (r.stop < kinds@.len()),
        r.exit ==> kinds@[r.stop as int] == RenderMessageKind::Exit,
        r.work@ == work_upto(kinds@, r.stop as int),
        match r.render {
            Some(i) => !r.exit && i < kinds@.len() && kinds@[i as int] == RenderMessageKind::Render && forall|j: int|
                i < j < kinds@.len() ==> kinds@[j] != RenderMessageKind::Render,
            None => r.exit || forall|j: int| 0 <= j < kinds@.len() ==> kinds@[j] != RenderMessageKind::Render,
        },
{
    let last = last_render_index(kinds);
    let mut work: Vec<usize> = Vec::new();
    let mut i: usize = 0;
    while i < kinds.len()
        invariant
            i <= kinds@.len(),
            forall|k: int| 0 <= k < i ==> kinds@[k] != RenderMessageKind::Exit,
            work@ == work_upto(kinds@, i as int),
        decreases kinds@.len() - i,
    {
        let kind = kinds[i];
        if kind == RenderMessageKind::Exit {
            return BatchPlan { work, stop: i, exit: true, render: None };
        }
        if kind != RenderMessageKind::Render {
            work.push(i);
        }
        i = i + 1;
    }
    BatchPlan { work, stop: i, exit: false, render: last }
}

/// What a model update is for: the piece, by name, and the view.
#[derive(Clone, Copy, Debug, PartialEq, Eq)]
pub struct UpdateModelArgs {
    pub track_section: &'static str,
    pub rotation: usize,
}

/// What the render thread holds: which of the inputs of a render it has.
#[derive(Clone, Copy, Debug, PartialEq, Eq, Structural)]
pub struct RenderSlots {
    pub directory: bool,
    pub model_settings: bool,
    pub models: bool,
    pub model_lengths: bool,
    pub masks: bool,
    pub scene: bool,
}

impl RenderSlots {
    /// A thread that holds nothing yet.
    pub fn new() -> (r: RenderSlots)
        ensures
            !r.directory && !r.model_settings && !r.models && !r.model_lengths && !r.masks && !r.scene,
    {
        RenderSlots {
            directory: false,
            model_settings: false,
            models: false,
            model_lengths: false,
            masks: false,
            scene: false,
        }
    }

    /// Models can be loaded once the directory and the model settings are known.
    pub fn can_load_models(&self) -> (r: bool)
        ensures
            r == (self.directory && self.model_settings),
    {
        self.directory && self.model_settings
    }

    /// The model can be built once settings, models and their lengths are there.
    pub fn can_update_model(&self) -> (r: bool)
        ensures
            r == (self.model_settings && self.models && self.model_lengths),
    {
        self.model_settings && self.models && self.model_lengths
    }

    /// A render request is served once a scene is built.
    pub fn can_render(&self) -> (r: bool)
        ensures
            r == self.scene,
    {
        self.scene
    }

    /// Records a message that was handled; `ok` says whether its work succeeded, and is not
    /// read for messages that do no work that can fail.
    pub fn handled(&mut self, kind: RenderMessageKind, ok: bool)
        ensures
            *final(self) == match kind {
                RenderMessageKind::SetDirectory => RenderSlots { directory: true, ..*old(self) },
                RenderMessageKind::UpdateModelSettings => RenderSlots {
                    model_settings: true,
                    model_lengths: old(self).model_lengths || old(self).models,
                    ..*old(self)
                },
                RenderMessageKind::LoadModels => if old(self).directory && old(self).model_settings
                    && ok {
                    RenderSlots { models: true, model_lengths: true, scene: false, ..*old(self) }
                } else {
                    *old(self)
                },
                RenderMessageKind::LoadMasks => RenderSlots { masks: ok, ..*old(self) },
                RenderMessageKind::UpdateOffsets => RenderSlots { scene: false, ..*old(self) },
                RenderMessageKind::UpdateModel => if old(self).model_settings && old(self).models
                    && old(self).model_lengths && ok {
                    RenderSlots { scene: true, ..*old(self) }
                } else {
                    *old(self)
                },
                _ => *old(self),
            },
    {
        match kind {
            RenderMessageKind::SetDirectory => self.directory = true,
            RenderMessageKind::UpdateModelSettings => {
                self.model_settings = true;
                if self.models {
                    self.model_lengths = true;
                }
            },
            RenderMessageKind::LoadModels => {
                if self.can_load_models() && ok {
                    self.scene = false;
                    self.models = true;
                    self.model_lengths = true;
                }
            },
            RenderMessageKind::LoadMasks => self.masks = ok,
            RenderMessageKind::UpdateOffsets => self.scene = false,
            RenderMessageKind::UpdateModel => {
                if self.can_update_model() && ok {
                    self.scene = true;
                }
            },
            _ => {},
        }
    }
}

/// Whether mesh `i` is among `ids`.
pub open spec fn listed(ids: Seq<usize>, i: int) -> bool {
    exists|k: int| 0 <= k < ids.len() && ids[k] as int == i
}

/// The mesh type of mesh `i` once the view's extrusions are applied: the meshes extruded ahead
/// take `ahead`, those extruded behind take `behind`, where the view gives one; the rest keep
/// their type. A mesh listed for both ends takes the type of the end ahead.
pub open spec fn extruded_type<T>(
    old: Seq<T>,
    behind_ids: Seq<usize>,
    behind: Option<T>,
    ahead_ids: Seq<usize>,
    ahead: Option<T>,
    i: int,
) -> T {
    if ahead is Some && listed(ahead_ids, i) {
        ahead->0
    } else if behind is Some && listed(behind_ids, i) {
        behind->0
    } else {
        old[i]
    }
}

fn set_mesh_types<T: Copy>(mesh_types: &mut Vec<T>, ids: &[usize], mesh_type: T)
    requires
        forall|k: int| 0 <= k < ids@.len() ==> #[trigger] ids@[k] < old(mesh_types)@.len(),
    ensures
        final(mesh_types)@.len() == old(mesh_types)@.len(),
        forall|i: int|
            0 <= i < old(mesh_types)@.len() ==> #[trigger] final(mesh_types)@[i] == if listed(ids@, i) {
                mesh_type
            } else {
                old(mesh_types)@[i]
            },
{
    let ghost start = mesh_types@;
    let mut k: usize = 0;
    while k < ids.len()
        invariant
            k <= ids@.len(),
            mesh_types@.len() == start.len(),
            forall|j: int| 0 <= j < ids@.len() ==> #[trigger] ids@[j] < start.len(),
            forall|i: int|
                0 <= i < start.len() ==> #[trigger] mesh_types@[i] == if listed(ids@.take(k as int), i) {
                    mesh_type
                } else {
                    start[i]
                },
        decreases ids@.len() - k,
    {
        let id = ids[k];
        let ghost before = mesh_types@;
        mesh_types.set(id, mesh_type);
        proof {
            let next = ids@.take(k + 1);
            let prev = ids@.take(k as int);
            assert(next =~= prev.push(id));
            assert forall|i: int| 0 <= i < start.len() implies #[trigger] mesh_types@[i] == if listed(next, i) {
                mesh_type
            } else {
                start[i]
            } by {
                if listed(prev, i) {
                    let w = choose|w: int| 0 <= w < prev.len() && prev[w] as int == i;
                    assert(next[w] == prev[w]);
                }
                if i == id as int {
                    assert(next[k as int] == id);
                } else {
                    assert(mesh_types@[i] == before[i]);
                    if listed(next, i) {
                        let w = choose|w: int| 0 <= w < next.len() && next[w] as int == i;
                        assert(w < k);
                        assert(prev[w] == next[w]);
                    }
                }
            }
        }
        k = k + 1;
    }
    assert(ids@.take(ids@.len() as int) =~= ids@);
}

/// Gives the meshes of a built scene the mesh types of the view's extrusions: `behind_ids` and
/// `ahead_ids` list the meshes extruded behind and ahead of the piece, `behind` and `ahead` the
/// types the view gives them.
pub fn apply_extrusion_types<T: Copy>(
    mesh_types: &mut Vec<T>,
    behind_ids: &[usize],
    behind: Option<T>,
    ahead_ids: &[usize],
    ahead: Option<T>,
)
    requires
        behind is Some ==> forall|k: int| 0 <= k < behind_ids@.len() ==> #[trigger] behind_ids@[k] < old(mesh_types)@.len(),
        ahead is Some ==> forall|k: int| 0 <= k < ahead_ids@.len() ==> #[trigger] ahead_ids@[k] < old(mesh_types)@.len(),
    ensures
        final(mesh_types)@.len() == old(mesh_types)@.len(),
        forall|i: int|
            0 <= i < old(mesh_types)@.len() ==> #[trigger] final(mesh_types)@[i] == extruded_type(
                old(mesh_types)@,
                behind_ids@,
                behind,
                ahead_ids@,
                ahead,
                i,
            ),
{
    if let Some(t) = behind {
        set_mesh_types(mesh_types, behind_ids, t);
    }
    if let Some(t) = ahead {
        set_mesh_types(mesh_types, ahead_ids, t);
    }
}

} // verus!
