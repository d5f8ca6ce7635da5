//! Choices made when setting up Vulkan, over what the driver reported: the
//! physical device and queue family, the surface format, the present mode,
//! the swapchain image count and the memory type of an allocation.
use vstd::prelude::*;
use crate::error::SrError;

verus! {

/// What the driver reports of one queue family.
#[derive(Clone, Copy, Debug, PartialEq, Eq, Structural)]
pub struct QueueFamilyQuery {
    /// The family can present to the window surface.
    pub supports_surface: bool,
    /// The family supports graphics work.
    pub graphics: bool,
    pub queue_count: u32,
}

/// What the driver reports of one memory heap.
#[derive(Clone, Copy, Debug, PartialEq, Eq, Structural)]
pub struct MemoryHeapQuery {
    pub device_local: bool,
    pub size: u64,
}

/// What the driver reports of one physical device.
#[derive(Clone, Debug)]
pub struct DeviceQuery {
    pub queue_families: Vec<QueueFamilyQuery>,
    pub memory_heaps: Vec<MemoryHeapQuery>,
}

/// A family the renderer can use: it presents and does graphics.
pub open spec fn family_usable(f: QueueFamilyQuery) -> bool {
    f.supports_surface && f.graphics
}

/// `(index, queue count)` is the usable family with the most queues, the
/// first one among equals; a family with no queue is never chosen.
pub open spec fn is_best_family(fams: Seq<QueueFamilyQuery>, r: Option<(usize, u32)>) -> bool {
    match r {
        Some((q, c)) => {
            &&& q < fams.len()
            &&& family_usable(fams[q as int])
            &&& fams[q as int].queue_count == c
            &&& c > 0
            &&& forall|j: int| 0 <= j < fams.len() && family_usable(#[trigger] fams[j]) ==> fams[j].queue_count <= c
            &&& forall|j: int| 0 <= j < q && family_usable(#[trigger] fams[j]) ==> fams[j].queue_count < c
        },
        None => forall|j: int| 0 <= j < fams.len() && family_usable(#[trigger] fams[j]) ==> fams[j].queue_count == 0,
    }
}

/// The usable queue family with the most queues.
pub fn best_graphics_queue_family(fams: &Vec<QueueFamilyQuery>) -> (r: Option<(usize, u32)>)
    ensures
        is_best_family(fams@, r),
{
    let mut best: Option<(usize, u32)> = None;
    let mut best_size: u32 = 0;
    let mut i: usize = 0;
    while i < fams.len()
        invariant
            i <= fams@.len(),
            best matches Some((q, c)) ==> c == best_size,
            best is None ==> best_size == 0,
            is_best_family(fams@.take(i as int), best),
        decreases fams@.len() - i,
    {
        let f = fams[i];
        proof {
            assert(fams@.take(i + 1) =~= fams@.take(i as int).push(f));
        }
        if f.supports_surface && f.graphics {
            if best_size < f.queue_count {
                best_size = f.queue_count;
                best = Some((i, f.queue_count));
            }
        }
        i = i + 1;
    }
    proof {
        assert(fams@.take(fams@.len() as int) =~= fams@);
    }
    best
}

/// The largest device-local heap size among `heaps` (0 when there is none).
pub open spec fn device_local_max(heaps: Seq<MemoryHeapQuery>) -> u64
    decreases heaps.len(),
{
    if heaps.len() == 0 {
        0
    } else {
        let rest = device_local_max(heaps.drop_last());
        let h = heaps.last();
        if h.device_local && h.size > rest {
            h.size
        } else {
            rest
        }
    }
}

/// The largest device-local heap of a device.
pub fn max_device_local_heap_size(heaps: &Vec<MemoryHeapQuery>) -> (r: u64)
    ensures
        r == device_local_max(heaps@),
        forall|j: int| 0 <= j < heaps@.len() && (#[trigger] heaps@[j]).device_local ==> heaps@[j].size <= r,
        r == 0 || exists|j: int| 0 <= j < heaps@.len() && (#[trigger] heaps@[j]).device_local && heaps@[j].size == r,
{
    let mut m: u64 = 0;
    let mut i: usize = 0;
    while i < heaps.len()
        invariant
            i <= heaps@.len(),
            m == device_local_max(heaps@.take(i as int)),
            forall|j: int| 0 <= j < i && (#[trigger] heaps@[j]).device_local ==> heaps@[j].size <= m,
            m == 0 || exists|j: int| 0 <= j < i && (#[trigger] heaps@[j]).device_local && heaps@[j].size == m,
        decreases heaps@.len() - i,
    {
        let h = heaps[i];
        proof {
            assert(heaps@.take(i + 1).drop_last() =~= heaps@.take(i as int));
            assert(heaps@.take(i + 1).last() == h);
        }
        if h.device_local && h.size > m {
            m = h.size;
        }
        i = i + 1;
    }
    proof {
        assert(heaps@.take(heaps@.len() as int) =~= heaps@);
    }
    m
}

/// A device the renderer can use: one of its queue families is usable and has a queue.
pub open spec fn device_usable(d: DeviceQuery) -> bool {
    exists|r: Option<(usize, u32)>| is_best_family(d.queue_families@, r) && r is Some
}

/// The device, queue family and family size picked among the physical devices.
#[derive(Clone, Copy, Debug, PartialEq, Eq, Structural)]
pub struct DeviceSelection {
    pub device_index: usize,
    pub queue_family: usize,
    pub queue_count: u32,
}

/// Among the devices that have a usable queue family, the one with the
/// largest device-local heap (the first one among equals); a device whose
/// device-local memory is 0 is never picked. Its best queue family is used.
pub open spec fn is_device_selection(devs: Seq<DeviceQuery>, s: DeviceSelection) -> bool {
    let d = devs[s.device_index as int];
    &&& s.device_index < devs.len()
    &&& is_best_family(d.queue_families@, Some((s.queue_family, s.queue_count)))
    &&& device_local_max(d.memory_heaps@) > 0
    &&& forall|j: int| 0 <= j < devs.len() && device_usable(#[trigger] devs[j]) ==>
            device_local_max(devs[j].memory_heaps@) <= device_local_max(d.memory_heaps@)
    &&& forall|j: int| 0 <= j < s.device_index && device_usable(#[trigger] devs[j]) ==>
            device_local_max(devs[j].memory_heaps@) < device_local_max(d.memory_heaps@)
}

/// Best families are unique.
proof fn lemma_best_family_unique(fams: Seq<QueueFamilyQuery>, a: Option<(usize, u32)>, b: Option<(usize, u32)>)
    requires
        is_best_family(fams, a),
        is_best_family(fams, b),
    ensures
        a == b,
{
    if a is Some && b is Some {
        let (qa, ca) = a.unwrap();
        let (qb, cb) = b.unwrap();
        assert(fams[qa as int].queue_count <= cb);
        assert(fams[qb as int].queue_count <= ca);
        if qa < qb {
            assert(fams[qa as int].queue_count < cb);
        } else if qb < qa {
            assert(fams[qb as int].queue_count < ca);
        }
    } else if a is Some {
        let (qa, ca) = a.unwrap();
        assert(fams[qa as int].queue_count == 0);
    } else if b is Some {
        let (qb, cb) = b.unwrap();
        assert(fams[qb as int].queue_count == 0);
    }
}

/// Pick the physical device and queue family to render with; refused when no
/// device has a usable queue family and some device-local memory.
pub fn select_physical_device(devs: &Vec<DeviceQuery>) -> (r: Result<DeviceSelection, SrError>)
    ensures
        match r {
            Ok(s) => is_device_selection(devs@, s),
            Err(_) => forall|j: int| 0 <= j < devs@.len() && device_usable(#[trigger] devs@[j]) ==>
                device_local_max(devs@[j].memory_heaps@) == 0,
        },
{
    let mut selected: Option<DeviceSelection> = None;
    let mut selected_mem: u64 = 0;
    let mut i: usize = 0;
    while i < devs.len()
        invariant
            i <= devs@.len(),
            selected is None ==> selected_mem == 0,
            forall|j: int| 0 <= j < i && device_usable(#[trigger] devs@[j]) ==> device_local_max(devs@[j].memory_heaps@) <= selected_mem,
            selected matches Some(s) ==> {
                &&& s.device_index < i
                &&& selected_mem == device_local_max(devs@[s.device_index as int].memory_heaps@)
                &&& is_best_family(devs@[s.device_index as int].queue_families@, Some((s.queue_family, s.queue_count)))
                &&& selected_mem > 0
                &&& forall|j: int| 0 <= j < s.device_index && device_usable(#[trigger] devs@[j]) ==>
                        device_local_max(devs@[j].memory_heaps@) < selected_mem
            },
        decreases devs@.len() - i,
    {
        let d = &devs[i];
        let fam = best_graphics_queue_family(&d.queue_families);
        match fam {
            Some((qf, qc)) => {
                let mem = max_device_local_heap_size(&d.memory_heaps);
                if selected_mem < mem {
                    selected_mem = mem;
                    selected = Some(DeviceSelection { device_index: i, queue_family: qf, queue_count: qc });
                }
                proof {
                    assert(device_usable(devs@[i as int]));
                }
            },
            None => {
                proof {
                    if device_usable(devs@[i as int]) {
                        let w = choose|w: Option<(usize, u32)>| is_best_family(devs@[i as int].queue_families@, w) && w is Some;
                        lemma_best_family_unique(devs@[i as int].queue_families@, w, fam);
                    }
                }
            },
        }
        i = i + 1;
    }
    match selected {
        Some(s) => Ok(s),
        None => Err(SrError::new_custom("No suitable physical device detected!".to_string())),
    }
}

/// `VK_FORMAT_B8G8R8A8_SRGB`.
pub const FORMAT_B8G8R8A8_SRGB: i32 = 50;
/// `VK_COLOR_SPACE_SRGB_NONLINEAR_KHR`.
pub const COLOR_SPACE_SRGB_NONLINEAR: i32 = 0;
/// `VK_PRESENT_MODE_IMMEDIATE_KHR`.
pub const PRESENT_MODE_IMMEDIATE: i32 = 0;
/// `VK_PRESENT_MODE_MAILBOX_KHR`.
pub const PRESENT_MODE_MAILBOX: i32 = 1;
/// `VK_PRESENT_MODE_FIFO_KHR`.
pub const PRESENT_MODE_FIFO: i32 = 2;

/// A surface format: raw Vulkan format and color space.
#[derive(Clone, Copy, Debug, PartialEq, Eq, Structural)]
pub struct SurfaceFormat {
    pub format: i32,
    pub color_space: i32,
}

pub open spec fn is_preferred_format(f: SurfaceFormat) -> bool {
    f.format == FORMAT_B8G8R8A8_SRGB && f.color_space == COLOR_SPACE_SRGB_NONLINEAR
}

/// The surface format to use: the last `B8G8R8A8_SRGB` / sRGB non-linear
/// entry if there is one, else the first format reported.
pub fn choose_surface_format(formats: &Vec<SurfaceFormat>) -> (r: SurfaceFormat)
    requires
        formats@.len() > 0,
    ensures
        (exists|i: int| 0 <= i < formats@.len() && is_preferred_format(#[trigger] formats@[i])) ==> {
            exists|i: int| 0 <= i < formats@.len() && #[trigger] formats@[i] == r && is_preferred_format(r)
                && forall|j: int| i < j < formats@.len() ==> !is_preferred_format(#[trigger] formats@[j])
        },
        !(exists|i: int| 0 <= i < formats@.len() && is_preferred_format(#[trigger] formats@[i])) ==> r == formats@[0],
{
    let mut chosen = formats[0];
    let ghost mut at: int = -1;
    let mut i: usize = 0;
    while i < formats.len()
        invariant
            i <= formats@.len(),
            formats@.len() > 0,
            -1 <= at < i,
            at == -1 ==> chosen == formats@[0] && forall|j: int| 0 <= j < i ==> !is_preferred_format(#[trigger] formats@[j]),
            at >= 0 ==> formats@[at] == chosen && is_preferred_format(chosen)
                && forall|j: int| at < j < i ==> !is_preferred_format(#[trigger] formats@[j]),
        decreases formats@.len() - i,
    {
        let f = formats[i];
        if f.format == FORMAT_B8G8R8A8_SRGB && f.color_space == COLOR_SPACE_SRGB_NONLINEAR {
            chosen = f;
            proof {
                at = i as int;
            }
        }
        i = i + 1;
    }
    chosen
}

proof fn lemma_push_contains(s: Seq<i32>, x: i32, v: i32)
    ensures
        s.push(x).contains(v) == (s.contains(v) || x == v),
{
    let t = s.push(x);
    if s.contains(v) {
        let k = choose|k: int| 0 <= k < s.len() && s[k] == v;
        assert(t[k] == v);
    }
    if x == v {
        assert(t[s.len() as int] == v);
    }
    if t.contains(v) {
        let k = choose|k: int| 0 <= k < t.len() && t[k] == v;
        if k < s.len() {
            assert(s[k] == v);
        }
    }
}

/// The present mode to use: mailbox if available, else immediate, else FIFO
/// (which every surface supports).
pub fn choose_present_mode(modes: &Vec<i32>) -> (r: i32)
    ensures
        r == (if modes@.contains(PRESENT_MODE_MAILBOX) {
            PRESENT_MODE_MAILBOX
        } else if modes@.contains(PRESENT_MODE_IMMEDIATE) {
            PRESENT_MODE_IMMEDIATE
        } else {
            PRESENT_MODE_FIFO
        }),
{
    let mut has_mailbox = false;
    let mut has_immediate = false;
    let mut i: usize = 0;
    while i < modes.len()
        invariant
            i <= modes@.len(),
            has_mailbox == modes@.take(i as int).contains(PRESENT_MODE_MAILBOX),
            has_immediate == modes@.take(i as int).contains(PRESENT_MODE_IMMEDIATE),
        decreases modes@.len() - i,
    {
        proof {
            assert(modes@.take(i + 1) =~= modes@.take(i as int).push(modes@[i as int]));
            lemma_push_contains(modes@.take(i as int), modes@[i as int], PRESENT_MODE_MAILBOX);
            lemma_push_contains(modes@.take(i as int), modes@[i as int], PRESENT_MODE_IMMEDIATE);
        }
        if modes[i] == PRESENT_MODE_MAILBOX {
            has_mailbox = true;
        }
        if modes[i] == PRESENT_MODE_IMMEDIATE {
            has_immediate = true;
        }
        i = i + 1;
    }
    proof {
        assert(modes@.take(modes@.len() as int) =~= modes@);
    }
    if has_mailbox {
        PRESENT_MODE_MAILBOX
    } else if has_immediate {
        PRESENT_MODE_IMMEDIATE
    } else {
        PRESENT_MODE_FIFO
    }
}

/// Swapchain images to ask for: one more than the minimum, capped by the
/// maximum when the surface has one (a maximum of 0 means no limit).
pub fn swapchain_image_count(min_image_count: u32, max_image_count: u32) -> (r: u32)
    requires
        min_image_count < u32::MAX,
    ensures
        r == (if max_image_count != 0 && max_image_count < min_image_count + 1 {
            max_image_count
        } else {
            (min_image_count + 1) as u32
        }),
{
    let n = min_image_count + 1;
    if max_image_count != 0 && max_image_count < n {
        max_image_count
    } else {
        n
    }
}

/// Memory type `i` is allowed by `type_bits` and has every flag of `required`.
pub open spec fn memory_type_fits(type_bits: u32, flags: u32, required: u32, i: int) -> bool {
    &&& (type_bits >> (i as u32)) & 1u32 == 1u32
    &&& flags & required == required
}

/// The first memory type allowed by `type_bits` whose property flags include
/// all of `required`; `None` when there is none.
pub fn find_memory_type_index(type_bits: u32, type_flags: &Vec<u32>, required: u32) -> (r: Option<u32>)
    requires
        type_flags@.len() == 32,
    ensures
        match r {
            Some(i) => i < 32 && memory_type_fits(type_bits, type_flags@[i as int], required, i as int)
                && forall|j: int| 0 <= j < i ==> !memory_type_fits(type_bits, #[trigger] type_flags@[j], required, j),
            None => forall|j: int| 0 <= j < 32 ==> !memory_type_fits(type_bits, #[trigger] type_flags@[j], required, j),
        },
{
    let mut i: u32 = 0;
    while i < 32
        invariant
            i <= 32,
            type_flags@.len() == 32,
            forall|j: int| 0 <= j < i ==> !memory_type_fits(type_bits, #[trigger] type_flags@[j], required, j),
        decreases 32 - i,
    {
        let supported = (type_bits >> i) & 1 == 1;
        if supported && type_flags[i as usize] & required == required {
            return Some(i);
        }
        i = i + 1;
    }
    None
}

} // verus!
