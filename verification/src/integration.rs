//! The decisions of the engine integration: the scene-load request and its
//! extraction, the window table extracted each frame, which window gets the
//! renderer, and what the render world does on a frame.
use vstd::prelude::*;

verus! {

/// Which scene to load: a glTF path and a generation that grows with every
/// request, so that the render side reloads when it sees a new one.
pub struct SunrayScene {
    pub gltf_path: Option<String>,
    pub generation: u64,
}

impl SunrayScene {
    /// No scene requested.
    pub fn default() -> (s: Self)
        ensures
            s.gltf_path is None,
            s.generation == 0,
    {
        SunrayScene { gltf_path: None, generation: 0 }
    }

    /// Request that `path` be loaded, replacing any current scene.
    pub fn request(&mut self, path: String)
        requires
            old(self).generation < u64::MAX,
        ensures
            (final(self).gltf_path matches Some(p) && p@ == path@),
            final(self).generation == old(self).generation + 1,
    {
        self.gltf_path = Some(path);
        self.generation = self.generation + 1;
    }

    /// A scene resource that already asks for `path`.
    pub fn with_gltf(path: String) -> (s: Self)
        ensures
            (s.gltf_path matches Some(p) && p@ == path@),
            s.generation == 1,
    {
        SunrayScene { gltf_path: Some(path), generation: 1 }
    }
}

/// The render side's copy of the scene request.
pub struct ExtractedScene {
    pub gltf_path: Option<String>,
    pub generation: u64,
}

/// Copy the request into the render side when its generation changed.
pub fn extract_scene(out: &mut ExtractedScene, src: &SunrayScene)
    ensures
        final(out).generation == src.generation,
        src.generation != old(out).generation ==> match (final(out).gltf_path, src.gltf_path) {
            (Some(a), Some(b)) => a@ == b@,
            (None, None) => true,
            _ => false,
        },
        src.generation == old(out).generation ==> final(out).gltf_path == old(out).gltf_path,
{
    if src.generation != out.generation {
        out.gltf_path = match &src.gltf_path {
            Some(p) => {
                let c = p.clone();
                Some(c)
            },
            None => None,
        };
        out.generation = src.generation;
    }
}

/// A window as the render side sees it.
#[derive(Clone, Copy, Debug)]
pub struct SunrayWindowInfo {
    /// The window's entity.
    pub entity: u64,
    pub physical_size: (u32, u32),
    pub size_changed: bool,
    pub is_primary: bool,
}

/// A window reported by the engine this frame.
#[derive(Clone, Copy, Debug, PartialEq, Eq, Structural)]
pub struct WindowReport {
    pub entity: u64,
    pub physical_width: u32,
    pub physical_height: u32,
    pub is_primary: bool,
}

/// The size the renderer uses for a window: never 0 in either direction.
pub open spec fn clamped_size(r: WindowReport) -> (u32, u32) {
    (if r.physical_width > 0 { r.physical_width } else { 1u32 }, if r.physical_height > 0 { r.physical_height } else { 1u32 })
}

/// A window's size as the renderer keeps it is never 0 in either direction:
/// each side is the reported one when positive and 1 otherwise (a minimized
/// window reports 0 x 0).
pub proof fn lemma_window_size_never_zero(r: WindowReport)
    ensures
        clamped_size(r).0 >= 1,
        clamped_size(r).1 >= 1,
        r.physical_width > 0 ==> clamped_size(r).0 == r.physical_width,
        r.physical_height > 0 ==> clamped_size(r).1 == r.physical_height,
        r.physical_width == 0 ==> clamped_size(r).0 == 1,
        r.physical_height == 0 ==> clamped_size(r).1 == 1,
{
}

/// `j` is the first entry of `entity` in `table`.
pub open spec fn is_first_entry(table: Seq<SunrayWindowInfo>, entity: u64, j: int) -> bool {
    &&& 0 <= j < table.len()
    &&& table[j].entity == entity
    &&& forall|k: int| 0 <= k < j ==> table[k].entity != entity
}

/// The window a renderer is created for: the first primary one, else the
/// first one; none only when there is no window.
pub open spec fn is_chosen_window(table: Seq<SunrayWindowInfo>, r: Option<usize>) -> bool {
    match r {
        Some(i) => i < table.len() && ((table[i as int].is_primary
            && (forall|j: int| 0 <= j < i ==> !table[j].is_primary))
            || (i == 0 && (forall|j: int| 0 <= j < table.len() ==> !table[j].is_primary))),
        None => table.len() == 0,
    }
}

/// Find the entry of `entity`.
fn find_window(table: &Vec<SunrayWindowInfo>, entity: u64) -> (r: Option<usize>)
    ensures
        match r {
            Some(i) => is_first_entry(table@, entity, i as int),
            None => forall|j: int| 0 <= j < table@.len() ==> table@[j].entity != entity,
        },
{
    let mut i: usize = 0;
    while i < table.len()
        invariant
            i <= table@.len(),
            forall|j: int| 0 <= j < i ==> table@[j].entity != entity,
        decreases table@.len() - i,
    {
        if table[i].entity == entity {
            return Some(i);
        }
        i = i + 1;
    }
    None
}

/// The window table after this frame's reports: one entry per reported
/// window, in report order. A window seen before keeps its entry and has its
/// size updated (`size_changed` says whether the size differs from last
/// frame); a new window starts with `size_changed` false. Windows no longer
/// reported are dropped.
pub fn update_windows(table: &Vec<SunrayWindowInfo>, reports: &Vec<WindowReport>) -> (r: Vec<SunrayWindowInfo>)
    ensures
        r@.len() == reports@.len(),
        forall|i: int| 0 <= i < reports@.len() ==> {
            let w = (#[trigger] r@[i]).physical_size;
            &&& w.0 >= 1 && w.1 >= 1
            &&& (reports@[i].physical_width > 0 ==> w.0 == reports@[i].physical_width)
            &&& (reports@[i].physical_height > 0 ==> w.1 == reports@[i].physical_height)
        },
        forall|i: int| 0 <= i < reports@.len() ==> {
            let w = #[trigger] r@[i];
            let rep = reports@[i];
            &&& w.entity == rep.entity
            &&& w.physical_size == clamped_size(rep)
            &&& w.is_primary == rep.is_primary
            &&& w.size_changed == (exists|j: int| #[trigger] is_first_entry(table@, rep.entity, j)
                && table@[j].physical_size != clamped_size(rep))
        },
{
    let mut out: Vec<SunrayWindowInfo> = Vec::new();
    let mut i: usize = 0;
    while i < reports.len()
        invariant
            i <= reports@.len(),
            out@.len() == i,
            forall|k: int| 0 <= k < i ==> {
                let w = #[trigger] out@[k];
                let rep = reports@[k];
                &&& w.entity == rep.entity
                &&& w.physical_size == clamped_size(rep)
                &&& w.is_primary == rep.is_primary
                &&& w.size_changed == (exists|j: int| #[trigger] is_first_entry(table@, rep.entity, j)
                    && table@[j].physical_size != clamped_size(rep))
            },
        decreases reports@.len() - i,
    {
        let rep = reports[i];
        let w = if rep.physical_width > 0 { rep.physical_width } else { 1 };
        let h = if rep.physical_height > 0 { rep.physical_height } else { 1 };
        let size = (w, h);
        let changed = match find_window(table, rep.entity) {
            Some(j) => {
                let old_size = table[j].physical_size;
                let c = !(old_size.0 == size.0 && old_size.1 == size.1);
                proof {
                    assert(is_first_entry(table@, rep.entity, j as int));
                    if !c {
                        assert forall|j2: int| #[trigger] is_first_entry(table@, rep.entity, j2) implies
                            !(table@[j2].physical_size != clamped_size(rep)) by {
                            if j2 > j {
                                assert(table@[j as int].entity == rep.entity);
                            } else if j2 < j {
                                assert(table@[j2].entity != rep.entity);
                            }
                        }
                    }
                }
                c
            },
            None => false,
        };
        out.push(SunrayWindowInfo { entity: rep.entity, physical_size: size, size_changed: changed, is_primary: rep.is_primary });
        i = i + 1;
    }
    proof {
        assert forall|i: int| 0 <= i < reports@.len() implies {
            let w = (#[trigger] out@[i]).physical_size;
            &&& w.0 >= 1 && w.1 >= 1
            &&& (reports@[i].physical_width > 0 ==> w.0 == reports@[i].physical_width)
            &&& (reports@[i].physical_height > 0 ==> w.1 == reports@[i].physical_height)
        } by {
            lemma_window_size_never_zero(reports@[i]);
        }
    }
    out
}

/// The windows the renderer knows of, as extracted each frame.
pub struct SunrayWindows {
    pub windows: Vec<SunrayWindowInfo>,
}

impl SunrayWindows {
    pub fn new() -> (w: Self)
        ensures
            w.windows@.len() == 0,
    {
        SunrayWindows { windows: Vec::new() }
    }

    /// Take this frame's window reports (see `update_windows`).
    pub fn extract(&mut self, reports: &Vec<WindowReport>)
        ensures
            final(self).windows@.len() == reports@.len(),
            forall|i: int| 0 <= i < reports@.len() ==> {
                let w = #[trigger] final(self).windows@[i];
                let rep = reports@[i];
                &&& w.entity == rep.entity
                &&& w.physical_size == clamped_size(rep)
                &&& w.is_primary == rep.is_primary
                &&& w.size_changed == (exists|j: int| #[trigger] is_first_entry(old(self).windows@, rep.entity, j)
                    && old(self).windows@[j].physical_size != clamped_size(rep))
            },
    {
        let t = update_windows(&self.windows, reports);
        self.windows = t;
    }
}

/// One ray-traced instance of an acceleration structure of the loaded scene:
/// the index into the scene's list of acceleration structures. While such
/// instances exist they replace the scene's own instances for the frame.
#[derive(Clone, Copy, Debug, PartialEq, Eq, Structural)]
pub struct SunrayInstance {
    pub blas_index: usize,
}

/// The window to create the renderer for: the first primary one, else the
/// first one; `None` when there is no window.
pub fn choose_window(table: &Vec<SunrayWindowInfo>) -> (r: Option<usize>)
    ensures
        is_chosen_window(table@, r),
{
    let mut i: usize = 0;
    while i < table.len()
        invariant
            i <= table@.len(),
            forall|j: int| 0 <= j < i ==> !table@[j].is_primary,
        decreases table@.len() - i,
    {
        if table[i].is_primary {
            return Some(i);
        }
        i = i + 1;
    }
    if table.len() > 0 {
        Some(0)
    } else {
        None
    }
}

/// What the render world does this frame, before rendering.
#[derive(Clone, Copy, Debug)]
pub struct RenderWorldPlan {
    /// Create the renderer for the window at this table index.
    pub create_for: Option<usize>,
    /// Resize the renderer to this size.
    pub resize_to: Option<(u32, u32)>,
    /// The request's generation is new: it is taken as seen, whether or not
    /// it names a path.
    pub take_generation: bool,
    /// (Re)load the requested scene.
    pub load_scene: bool,
}

/// Decide the frame's setup: with no renderer yet, create one for the chosen
/// window; otherwise resize when the owning window's size changed. Then, when
/// a renderer exists (or is being created) and the request's generation is
/// new, take that generation as seen, and load the scene if the request names
/// a path.
pub fn plan_render_world(
    has_renderer: bool,
    owner: Option<u64>,
    table: &Vec<SunrayWindowInfo>,
    scene_generation: u64,
    scene_has_path: bool,
    loaded_generation: u64,
) -> (r: RenderWorldPlan)
    ensures
        !has_renderer ==> r.resize_to is None && is_chosen_window(table@, r.create_for),
        has_renderer ==> r.create_for is None,
        has_renderer ==> match owner {
            Some(e) => match r.resize_to {
                Some(s) => exists|j: int| #[trigger] is_first_entry(table@, e, j)
                    && table@[j].size_changed && table@[j].physical_size == s,
                None => forall|j: int| #[trigger] is_first_entry(table@, e, j) ==> !table@[j].size_changed,
            },
            None => r.resize_to is None,
        },
        r.take_generation == ((has_renderer || r.create_for is Some) && scene_generation != loaded_generation),
        r.load_scene == (r.take_generation && scene_has_path),
{
    let mut create_for: Option<usize> = None;
    let mut resize_to: Option<(u32, u32)> = None;
    if !has_renderer {
        create_for = choose_window(table);
    } else {
        match owner {
            Some(e) => {
                match find_window(table, e) {
                    Some(j) => {
                        if table[j].size_changed {
                            resize_to = Some(table[j].physical_size);
                        }
                    },
                    None => {},
                }
            },
            None => {},
        }
    }
    let ready = has_renderer || create_for.is_some();
    let take_generation = ready && scene_generation != loaded_generation;
    let load_scene = take_generation && scene_has_path;
    RenderWorldPlan { create_for, resize_to, take_generation, load_scene }
}

/// Adds the egui input and extraction layer; added after the render plugin.
pub struct SunrayEguiPlugin;

/// Replaces the engine's stock renderer with this one.
pub struct SunrayRenderPlugin {
    /// Raw Vulkan format of the renderer's images.
    pub image_format: i32,
}

impl SunrayRenderPlugin {
    /// `R8G8B8A8_SRGB`, as the stock examples use.
    pub fn default() -> (p: Self)
        ensures
            p.image_format == crate::renderer::FORMAT_R8G8B8A8_SRGB,
    {
        SunrayRenderPlugin { image_format: crate::renderer::FORMAT_R8G8B8A8_SRGB }
    }
}

} // verus!
