//! The demo programs' decisions: what a window event asks of a demo, the
//! triangle demo's swapchain-recreation state, its choice of physical device,
//! and the Vulkan instance setup (application name, layers, extensions).
use vstd::prelude::*;
use crate::error::SrError;

verus! {

/// A demo driven by a window's event loop. Only `render` must be provided;
/// the other hooks do nothing by default.
pub trait Demo {
    fn render(&mut self) -> Result<(), SrError>;

    fn on_suspend(&mut self) -> (r: Result<(), SrError>)
        default_ensures
            r is Ok,
    {
        Ok(())
    }

    fn on_resume(&mut self) -> (r: Result<(), SrError>)
        default_ensures
            r is Ok,
    {
        Ok(())
    }

    fn on_exit(&mut self) -> (r: Result<(), SrError>)
        default_ensures
            r is Ok,
    {
        Ok(())
    }

    fn on_resize(&mut self) -> (r: Result<(), SrError>)
        default_ensures
            r is Ok,
    {
        Ok(())
    }
}

/// The events of the demo loop that matter to a demo.
#[derive(Clone, Copy, Debug, PartialEq, Eq, Structural)]
pub enum DemoEvent {
    CloseRequested,
    /// A key was pressed; `escape` tells whether it was the Escape key.
    KeyPressed { escape: bool },
    AboutToWait,
    LoopExiting,
    Resumed,
    Suspended,
    Other,
}

/// What the loop does for an event.
#[derive(Clone, Copy, Debug, PartialEq, Eq, Structural)]
pub enum DemoAction {
    Exit,
    Render,
    OnExit,
    OnResume,
    OnSuspend,
    Ignore,
}

/// A close request or Escape exits; the loop going idle renders; the
/// lifecycle events reach their hooks; anything else is ignored.
pub fn demo_event_action(event: DemoEvent) -> (r: DemoAction)
    ensures
        r == match event {
            DemoEvent::CloseRequested => DemoAction::Exit,
            DemoEvent::KeyPressed { escape } => if escape { DemoAction::Exit } else { DemoAction::Ignore },
            DemoEvent::AboutToWait => DemoAction::Render,
            DemoEvent::LoopExiting => DemoAction::OnExit,
            DemoEvent::Resumed => DemoAction::OnResume,
            DemoEvent::Suspended => DemoAction::OnSuspend,
            DemoEvent::Other => DemoAction::Ignore,
        },
{
    match event {
        DemoEvent::CloseRequested => DemoAction::Exit,
        DemoEvent::KeyPressed { escape } => if escape { DemoAction::Exit } else { DemoAction::Ignore },
        DemoEvent::AboutToWait => DemoAction::Render,
        DemoEvent::LoopExiting => DemoAction::OnExit,
        DemoEvent::Resumed => DemoAction::OnResume,
        DemoEvent::Suspended => DemoAction::OnSuspend,
        DemoEvent::Other => DemoAction::Ignore,
    }
}

/// What the loop makes of a hook's result: go on, or stop on its error.
pub open spec fn hook_result(out: Result<(), SrError>) -> Result<bool, SrError> {
    match out {
        Ok(()) => Ok(false),
        Err(e) => Err(e),
    }
}

/// Run the hook `action` asks for on `demo` (`render`, `on_exit`,
/// `on_resume` or `on_suspend`), passing on its error; `Ok(true)` when the
/// loop must exit. Exiting and ignoring leave the demo untouched.
pub fn apply_demo_action<D: Demo>(demo: &mut D, action: DemoAction) -> (r: Result<bool, SrError>)
    ensures
        action == DemoAction::Exit ==> (r matches Ok(b) && b),
        action == DemoAction::Ignore ==> (r matches Ok(b) && !b),
        r matches Ok(b) && b ==> action == DemoAction::Exit,
        action == DemoAction::Exit || action == DemoAction::Ignore ==> *final(demo) == *old(demo),
        action == DemoAction::Render ==> exists|x: &mut D, out: Result<(), SrError>|
            #[trigger] call_ensures(D::render, (x,), out) && *x == *old(demo) && *final(x) == *final(demo)
            && r == hook_result(out),
        action == DemoAction::OnExit ==> exists|x: &mut D, out: Result<(), SrError>|
            #[trigger] call_ensures(D::on_exit, (x,), out) && *x == *old(demo) && *final(x) == *final(demo)
            && r == hook_result(out),
        action == DemoAction::OnResume ==> exists|x: &mut D, out: Result<(), SrError>|
            #[trigger] call_ensures(D::on_resume, (x,), out) && *x == *old(demo) && *final(x) == *final(demo)
            && r == hook_result(out),
        action == DemoAction::OnSuspend ==> exists|x: &mut D, out: Result<(), SrError>|
            #[trigger] call_ensures(D::on_suspend, (x,), out) && *x == *old(demo) && *final(x) == *final(demo)
            && r == hook_result(out),
{
    match action {
        DemoAction::Exit => Ok(true),
        DemoAction::Render => match (D::render)(demo) {
            Ok(()) => Ok(false),
            Err(e) => Err(e),
        },
        DemoAction::OnExit => match (D::on_exit)(demo) {
            Ok(()) => Ok(false),
            Err(e) => Err(e),
        },
        DemoAction::OnResume => match (D::on_resume)(demo) {
            Ok(()) => Ok(false),
            Err(e) => Err(e),
        },
        DemoAction::OnSuspend => match (D::on_suspend)(demo) {
            Ok(()) => Ok(false),
            Err(e) => Err(e),
        },
        DemoAction::Ignore => Ok(false),
    }
}

/// The triangle demo's frame state: frames drawn and whether the swapchain
/// must be rebuilt before the next draw.
pub struct TriangleFrameState {
    pub frame_counter: u64,
    pub recreate_swapchain: bool,
}

/// Outcome of acquiring a swapchain image.
#[derive(Clone, Copy, Debug, PartialEq, Eq, Structural)]
pub enum AcquireOutcome {
    Acquired { suboptimal: bool },
    OutOfDate,
    Failed,
}

/// Outcome of submitting and presenting a frame.
#[derive(Clone, Copy, Debug, PartialEq, Eq, Structural)]
pub enum FlushOutcome {
    Flushed,
    OutOfDate,
    Failed,
}

/// What the demo does with an acquired (or not) image.
#[derive(Clone, Copy, Debug, PartialEq, Eq, Structural)]
pub enum AcquireAction {
    Draw,
    SkipFrame,
    Abort,
}

impl TriangleFrameState {
    pub fn new() -> (s: Self)
        ensures
            s.frame_counter == 0 && !s.recreate_swapchain,
    {
        TriangleFrameState { frame_counter: 0, recreate_swapchain: false }
    }

    /// The window was resized: rebuild the swapchain before the next draw.
    pub fn on_resized(&mut self)
        ensures
            final(self).recreate_swapchain,
            final(self).frame_counter == old(self).frame_counter,
    {
        self.recreate_swapchain = true;
    }

    /// A redraw starts: count the frame; `true` when the swapchain must be
    /// rebuilt first.
    pub fn begin_redraw(&mut self) -> (rebuild: bool)
        requires
            old(self).frame_counter < u64::MAX,
        ensures
            rebuild == old(self).recreate_swapchain,
            final(self).frame_counter == old(self).frame_counter + 1,
            final(self).recreate_swapchain == old(self).recreate_swapchain,
    {
        self.frame_counter = self.frame_counter + 1;
        self.recreate_swapchain
    }

    /// The swapchain was rebuilt.
    pub fn swapchain_rebuilt(&mut self)
        ensures
            !final(self).recreate_swapchain,
            final(self).frame_counter == old(self).frame_counter,
    {
        self.recreate_swapchain = false;
    }

    /// An out-of-date swapchain skips the frame and asks for a rebuild; a
    /// suboptimal one is drawn to but rebuilt afterwards; any other failure
    /// aborts.
    pub fn on_acquire(&mut self, outcome: AcquireOutcome) -> (a: AcquireAction)
        ensures
            a == match outcome {
                AcquireOutcome::Acquired { .. } => AcquireAction::Draw,
                AcquireOutcome::OutOfDate => AcquireAction::SkipFrame,
                AcquireOutcome::Failed => AcquireAction::Abort,
            },
            final(self).recreate_swapchain == (old(self).recreate_swapchain || outcome == AcquireOutcome::OutOfDate
                || outcome == (AcquireOutcome::Acquired { suboptimal: true })),
            final(self).frame_counter == old(self).frame_counter,
    {
        match outcome {
            AcquireOutcome::Acquired { suboptimal } => {
                if suboptimal {
                    self.recreate_swapchain = true;
                }
                AcquireAction::Draw
            },
            AcquireOutcome::OutOfDate => {
                self.recreate_swapchain = true;
                AcquireAction::SkipFrame
            },
            AcquireOutcome::Failed => AcquireAction::Abort,
        }
    }

    /// An out-of-date swapchain at present asks for a rebuild (the pending
    /// frame is dropped); `false` when the failure is fatal.
    pub fn on_flush(&mut self, outcome: FlushOutcome) -> (ok: bool)
        ensures
            ok == (outcome != FlushOutcome::Failed),
            final(self).recreate_swapchain == (old(self).recreate_swapchain || outcome == FlushOutcome::OutOfDate),
            final(self).frame_counter == old(self).frame_counter,
    {
        match outcome {
            FlushOutcome::Flushed => true,
            FlushOutcome::OutOfDate => {
                self.recreate_swapchain = true;
                true
            },
            FlushOutcome::Failed => false,
        }
    }
}

/// Kinds of physical device, by how much the demo prefers them.
#[derive(Clone, Copy, Debug, PartialEq, Eq, Structural)]
pub enum PhysicalDeviceType {
    DiscreteGpu,
    IntegratedGpu,
    Cpu,
    Other,
    VirtualGpu,
}

/// Preference rank of a device type: lower is preferred.
pub open spec fn device_type_rank(t: PhysicalDeviceType) -> int {
    match t {
        PhysicalDeviceType::DiscreteGpu => 0,
        PhysicalDeviceType::IntegratedGpu => 1,
        PhysicalDeviceType::Cpu => 2,
        PhysicalDeviceType::Other => 3,
        PhysicalDeviceType::VirtualGpu => 4,
    }
}

fn device_type_rank_of(t: PhysicalDeviceType) -> (r: u8)
    ensures
        r == device_type_rank(t),
{
    match t {
        PhysicalDeviceType::DiscreteGpu => 0,
        PhysicalDeviceType::IntegratedGpu => 1,
        PhysicalDeviceType::Cpu => 2,
        PhysicalDeviceType::Other => 3,
        PhysicalDeviceType::VirtualGpu => 4,
    }
}

/// What the triangle demo knows of a physical device.
#[derive(Clone, Debug)]
pub struct CandidateDevice {
    /// The device supports the required extensions.
    pub supports_extensions: bool,
    /// Per queue family: graphics support and presentation support.
    pub queue_families: Vec<(bool, bool)>,
    pub device_type: PhysicalDeviceType,
}

/// The first queue family that does graphics and presents.
pub open spec fn first_present_family(fams: Seq<(bool, bool)>) -> Option<int> {
    if exists|i: int| 0 <= i < fams.len() && fams[i].0 && fams[i].1 {
        Some(choose|i: int| 0 <= i < fams.len() && fams[i].0 && fams[i].1
            && forall|j: int| 0 <= j < i ==> !(fams[j].0 && fams[j].1))
    } else {
        None
    }
}

/// A device the demo can use: it has the extensions and a graphics queue
/// family that presents.
pub open spec fn candidate_usable(d: CandidateDevice) -> bool {
    d.supports_extensions && exists|i: int| 0 <= i < d.queue_families@.len() && d.queue_families@[i].0 && d.queue_families@[i].1
}

fn first_graphics_present_family(fams: &Vec<(bool, bool)>) -> (r: Option<usize>)
    ensures
        match r {
            Some(i) => i < fams@.len() && fams@[i as int].0 && fams@[i as int].1
                && forall|j: int| 0 <= j < i ==> !(fams@[j].0 && fams@[j].1),
            None => forall|j: int| 0 <= j < fams@.len() ==> !(fams@[j].0 && fams@[j].1),
        },
{
    let mut i: usize = 0;
    while i < fams.len()
        invariant
            i <= fams@.len(),
            forall|j: int| 0 <= j < i ==> !(fams@[j].0 && fams@[j].1),
        decreases fams@.len() - i,
    {
        if fams[i].0 && fams[i].1 {
            return Some(i);
        }
        i = i + 1;
    }
    None
}

/// `r` picks, among the usable devices of `devs`, the first one of the most
/// preferred type, with its first queue family that supports both graphics
/// and the surface; `None` when no device is usable.
pub open spec fn is_device_choice(devs: Seq<CandidateDevice>, r: Option<(usize, u32)>) -> bool {
    match r {
        Some((d, q)) => {
            &&& d < devs.len()
            &&& candidate_usable(devs[d as int])
            &&& q < devs[d as int].queue_families@.len()
            &&& devs[d as int].queue_families@[q as int].0 && devs[d as int].queue_families@[q as int].1
            &&& forall|j: int| 0 <= j < q ==> !(devs[d as int].queue_families@[j].0 && devs[d as int].queue_families@[j].1)
            &&& forall|j: int| 0 <= j < devs.len() && candidate_usable(#[trigger] devs[j]) ==>
                    device_type_rank(devs[d as int].device_type) <= device_type_rank(devs[j].device_type)
            &&& forall|j: int| 0 <= j < d && candidate_usable(#[trigger] devs[j]) ==>
                    device_type_rank(devs[d as int].device_type) < device_type_rank(devs[j].device_type)
        },
        None => forall|j: int| 0 <= j < devs.len() ==> !candidate_usable(#[trigger] devs[j]),
    }
}

/// The kinds of device in the order the demo prefers them: a discrete GPU,
/// then an integrated GPU, then a CPU (software) device, then any other kind,
/// then a virtual GPU. A picked device is never of a kind after that of a
/// usable device; so when a usable integrated GPU exists no CPU device is
/// picked, and when a usable discrete GPU exists a discrete GPU is picked.
pub proof fn lemma_device_kind_preference(devs: Seq<CandidateDevice>, d: usize, q: u32, j: int)
    requires
        is_device_choice(devs, Some((d, q))),
        0 <= j < devs.len(),
        candidate_usable(devs[j]),
    ensures
        devs[j].device_type == PhysicalDeviceType::DiscreteGpu ==> devs[d as int].device_type == PhysicalDeviceType::DiscreteGpu,
        devs[j].device_type == PhysicalDeviceType::IntegratedGpu ==>
            devs[d as int].device_type == PhysicalDeviceType::DiscreteGpu
            || devs[d as int].device_type == PhysicalDeviceType::IntegratedGpu,
        devs[j].device_type == PhysicalDeviceType::Cpu ==>
            devs[d as int].device_type != PhysicalDeviceType::Other
            && devs[d as int].device_type != PhysicalDeviceType::VirtualGpu,
        devs[j].device_type == PhysicalDeviceType::Other ==> devs[d as int].device_type != PhysicalDeviceType::VirtualGpu,
{
    assert(candidate_usable(devs[j]));
}

/// Among the usable devices, the first one of the most preferred type, with
/// its first graphics queue family that presents; `None` when no device is
/// usable.
pub fn select_candidate_device(devs: &Vec<CandidateDevice>) -> (r: Option<(usize, u32)>)
    requires
        forall|i: int| 0 <= i < devs@.len() ==> (#[trigger] devs@[i]).queue_families@.len() <= u32::MAX,
    ensures
        is_device_choice(devs@, r),
{
    let mut best: Option<(usize, u32)> = None;
    let mut best_rank: u8 = 0;
    let mut i: usize = 0;
    while i < devs.len()
        invariant
            i <= devs@.len(),
            forall|k: int| 0 <= k < devs@.len() ==> (#[trigger] devs@[k]).queue_families@.len() <= u32::MAX,
            best is None ==> forall|j: int| 0 <= j < i ==> !candidate_usable(#[trigger] devs@[j]),
            best matches Some((d, q)) ==> {
                &&& d < i
                &&& candidate_usable(devs@[d as int])
                &&& best_rank == device_type_rank(devs@[d as int].device_type)
                &&& q < devs@[d as int].queue_families@.len()
                &&& devs@[d as int].queue_families@[q as int].0 && devs@[d as int].queue_families@[q as int].1
                &&& forall|j: int| 0 <= j < q ==> !(devs@[d as int].queue_families@[j].0 && devs@[d as int].queue_families@[j].1)
                &&& forall|j: int| 0 <= j < i && candidate_usable(#[trigger] devs@[j]) ==>
                        best_rank <= device_type_rank(devs@[j].device_type)
                &&& forall|j: int| 0 <= j < d && candidate_usable(#[trigger] devs@[j]) ==>
                        best_rank < device_type_rank(devs@[j].device_type)
            },
        decreases devs@.len() - i,
    {
        let dev = &devs[i];
        if dev.supports_extensions {
            match first_graphics_present_family(&dev.queue_families) {
                Some(q) => {
                    let rank = device_type_rank_of(dev.device_type);
                    let better = match best {
                        Some(_) => rank < best_rank,
                        None => true,
                    };
                    if better {
                        best = Some((i, q as u32));
                        best_rank = rank;
                    }
                },
                None => {},
            }
        }
        i = i + 1;
    }
    best
}

/// How the Vulkan instance of the demos is set up.
pub struct InstanceParams<'a> {
    /// Application name; empty means the crate's name.
    pub app_name: &'a str,
    /// Vulkan API version, as packed by `make_api_version`.
    pub vk_api_version: u32,
    /// Enable the validation layer and the debug-utils messenger.
    pub enable_debug_utils: bool,
}

impl<'a> InstanceParams<'a> {
    /// No application name, Vulkan 1.0.0, debug utilities on.
    pub fn default() -> (p: Self)
        ensures
            p.app_name@ == Seq::<char>::empty(),
            p.vk_api_version == crate::utils::api_version_spec(0, 1, 0, 0),
            p.enable_debug_utils,
    {
        proof {
            reveal_strlit("");
        }
        InstanceParams { app_name: "", vk_api_version: crate::utils::make_api_version(0, 1, 0, 0), enable_debug_utils: true }
    }
}

/// The application name to report: the given one, or `crate_name` when it is empty.
pub fn application_name<'a>(app_name: &'a str, crate_name: &'a str) -> (r: &'a str)
    ensures
        r@ == (if app_name@.len() == 0 { crate_name@ } else { app_name@ }),
{
    if app_name.unicode_len() == 0 {
        crate_name
    } else {
        app_name
    }
}

/// The windowing systems a surface can be created for.
#[derive(Clone, Copy, Debug, PartialEq, Eq, Structural)]
pub enum DisplayKind {
    Windows,
    Wayland,
    Xlib,
    Xcb,
    Android,
    AppKit,
    UiKit,
    Other,
}

/// `VK_ERROR_EXTENSION_NOT_PRESENT`.
pub const ERROR_EXTENSION_NOT_PRESENT: i32 = -7;

/// `ash::khr::surface::NAME`, the extension's name as text.
#[verifier::external_body]
fn khr_surface_name() -> (r: String)
    ensures
        r@ == "VK_KHR_surface"@,
{
    ash::khr::surface::NAME.to_string_lossy().into_owned()
}

/// `ash::khr::win32_surface::NAME`, the extension's name as text.
#[verifier::external_body]
fn khr_win32_surface_name() -> (r: String)
    ensures
        r@ == "VK_KHR_win32_surface"@,
{
    ash::khr::win32_surface::NAME.to_string_lossy().into_owned()
}

/// `ash::khr::wayland_surface::NAME`, the extension's name as text.
#[verifier::external_body]
fn khr_wayland_surface_name() -> (r: String)
    ensures
        r@ == "VK_KHR_wayland_surface"@,
{
    ash::khr::wayland_surface::NAME.to_string_lossy().into_owned()
}

/// `ash::khr::xlib_surface::NAME`, the extension's name as text.
#[verifier::external_body]
fn khr_xlib_surface_name() -> (r: String)
    ensures
        r@ == "VK_KHR_xlib_surface"@,
{
    ash::khr::xlib_surface::NAME.to_string_lossy().into_owned()
}

/// `ash::khr::xcb_surface::NAME`, the extension's name as text.
#[verifier::external_body]
fn khr_xcb_surface_name() -> (r: String)
    ensures
        r@ == "VK_KHR_xcb_surface"@,
{
    ash::khr::xcb_surface::NAME.to_string_lossy().into_owned()
}

/// `ash::khr::android_surface::NAME`, the extension's name as text.
#[verifier::external_body]
fn khr_android_surface_name() -> (r: String)
    ensures
        r@ == "VK_KHR_android_surface"@,
{
    ash::khr::android_surface::NAME.to_string_lossy().into_owned()
}

/// `ash::ext::metal_surface::NAME`, the extension's name as text.
#[verifier::external_body]
fn ext_metal_surface_name() -> (r: String)
    ensures
        r@ == "VK_EXT_metal_surface"@,
{
    ash::ext::metal_surface::NAME.to_string_lossy().into_owned()
}

/// The instance extensions a surface on this display needs:
/// `VK_KHR_surface` and the platform's surface extension; a display with no
/// Vulkan surface support is refused as a missing extension.
pub fn enumerate_required_extensions(kind: DisplayKind) -> (r: Result<[String; 2], SrError>)
    ensures
        kind == DisplayKind::Other <==> r is Err,
        r matches Err(e) ==> e.spec_source() == Some(crate::error::ErrorSource::Vulkan(ERROR_EXTENSION_NOT_PRESENT)),
        r matches Ok(names) ==> {
            &&& names[0]@ == "VK_KHR_surface"@
            &&& names[1]@ == match kind {
                DisplayKind::Windows => "VK_KHR_win32_surface"@,
                DisplayKind::Wayland => "VK_KHR_wayland_surface"@,
                DisplayKind::Xlib => "VK_KHR_xlib_surface"@,
                DisplayKind::Xcb => "VK_KHR_xcb_surface"@,
                DisplayKind::Android => "VK_KHR_android_surface"@,
                _ => "VK_EXT_metal_surface"@,
            }
        },
{
    let platform = match kind {
        DisplayKind::Windows => khr_win32_surface_name(),
        DisplayKind::Wayland => khr_wayland_surface_name(),
        DisplayKind::Xlib => khr_xlib_surface_name(),
        DisplayKind::Xcb => khr_xcb_surface_name(),
        DisplayKind::Android => khr_android_surface_name(),
        DisplayKind::AppKit | DisplayKind::UiKit => ext_metal_surface_name(),
        DisplayKind::Other => return Err(SrError::from_vk_result(ERROR_EXTENSION_NOT_PRESENT)),
    };
    Ok([khr_surface_name(), platform])
}

/// The layers the demo instance enables: the Khronos validation layer when
/// debug utilities are on, none otherwise.
pub fn instance_layers(enable_debug_utils: bool) -> (r: Vec<&'static str>)
    ensures
        enable_debug_utils ==> r@.len() == 1 && r@[0]@ == "VK_LAYER_KHRONOS_validation"@,
        !enable_debug_utils ==> r@.len() == 0,
{
    let mut layers: Vec<&'static str> = Vec::new();
    if enable_debug_utils {
        layers.push("VK_LAYER_KHRONOS_validation");
    }
    layers
}

} // verus!
