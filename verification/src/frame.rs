//! Frame bookkeeping of the renderer: callbacks scheduled for a frame, the
//! rotation of frames in flight, and the ping-pong images of the temporal and
//! denoise passes.
use vstd::prelude::*;
use crate::MAX_FRAMES_IN_FLIGHT;

verus! {

/// The callbacks of `s` that are due at `t` (scheduled for a frame `<= t`), in
/// scheduling order.
pub open spec fn due_callbacks<T>(s: Seq<(u64, T)>, t: u64) -> Seq<T>
    decreases s.len(),
{
    if s.len() == 0 {
        Seq::empty()
    } else if s[0].0 <= t {
        seq![s[0].1] + due_callbacks(s.drop_first(), t)
    } else {
        due_callbacks(s.drop_first(), t)
    }
}

/// The entries of `s` that are not due at `t`, in scheduling order.
pub open spec fn pending_callbacks<T>(s: Seq<(u64, T)>, t: u64) -> Seq<(u64, T)>
    decreases s.len(),
{
    if s.len() == 0 {
        Seq::empty()
    } else if s[0].0 <= t {
        pending_callbacks(s.drop_first(), t)
    } else {
        seq![s[0]] + pending_callbacks(s.drop_first(), t)
    }
}

/// Callbacks tagged with the absolute frame on which they become due, kept in
/// the order they were scheduled.
pub struct FrameCallbacks<T> {
    entries: Vec<(u64, T)>,
}

impl<T> FrameCallbacks<T> {
    pub closed spec fn spec_entries(&self) -> Seq<(u64, T)> {
        self.entries@
    }

    pub fn new() -> (q: Self)
        ensures
            q.spec_entries() == Seq::<(u64, T)>::empty(),
    {
        FrameCallbacks { entries: Vec::new() }
    }

    pub fn len(&self) -> (r: usize)
        ensures
            r == self.spec_entries().len(),
    {
        self.entries.len()
    }

    /// Schedule `callback` for the frame after `current_frame`.
    pub fn schedule_next(&mut self, current_frame: u64, callback: T)
        requires
            current_frame < u64::MAX,
        ensures
            final(self).spec_entries() == old(self).spec_entries().push(((current_frame + 1) as u64, callback)),
    {
        self.entries.push((current_frame + 1, callback));
    }

    /// Schedule `callback` for frame `frame`.
    pub fn schedule_at(&mut self, frame: u64, callback: T)
        ensures
            final(self).spec_entries() == old(self).spec_entries().push((frame, callback)),
    {
        self.entries.push((frame, callback));
    }

    /// Remove and return, in scheduling order, the callbacks due at frame
    /// `threshold`; the others stay, in their order.
    pub fn take_due(&mut self, threshold: u64) -> (r: Vec<T>)
        ensures
            r@ == due_callbacks(old(self).spec_entries(), threshold),
            final(self).spec_entries() == pending_callbacks(old(self).spec_entries(), threshold),
    {
        let mut items: Vec<(u64, T)> = Vec::new();
        std::mem::swap(&mut items, &mut self.entries);
        let ghost orig = items@;
        let mut due: Vec<T> = Vec::new();
        let mut rest: Vec<(u64, T)> = Vec::new();
        while items.len() > 0
            invariant
                due@ + due_callbacks(items@, threshold) == due_callbacks(orig, threshold),
                rest@ + pending_callbacks(items@, threshold) == pending_callbacks(orig, threshold),
            decreases items@.len(),
        {
            let ghost before = items@;
            let (frame, cb) = items.remove(0);
            proof {
                assert(before.drop_first() == items@);
                assert(before[0] == (frame, cb));
            }
            if frame <= threshold {
                let ghost d0 = due@;
                due.push(cb);
                proof {
                    assert(due@ == d0 + seq![cb]);
                    assert(due_callbacks(before, threshold) == seq![cb] + due_callbacks(items@, threshold));
                    assert(d0 + (seq![cb] + due_callbacks(items@, threshold)) == due@ + due_callbacks(items@, threshold));
                    assert(pending_callbacks(before, threshold) == pending_callbacks(items@, threshold));
                }
            } else {
                let ghost r0 = rest@;
                rest.push((frame, cb));
                proof {
                    assert(rest@ == r0 + seq![(frame, cb)]);
                    assert(pending_callbacks(before, threshold) == seq![(frame, cb)] + pending_callbacks(items@, threshold));
                    assert(r0 + (seq![(frame, cb)] + pending_callbacks(items@, threshold)) == rest@ + pending_callbacks(items@, threshold));
                    assert(due_callbacks(before, threshold) == due_callbacks(items@, threshold));
                }
            }
        }
        proof {
            assert(due@ + due_callbacks(items@, threshold) == due@);
            assert(rest@ + pending_callbacks(items@, threshold) == rest@);
        }
        self.entries = rest;
        due
    }
}

/// Invoke every callback of `callbacks` once, first to last.
pub fn run_callbacks<F: FnOnce()>(callbacks: Vec<F>)
    requires
        forall|i: int| 0 <= i < callbacks@.len() ==> (#[trigger] callbacks@[i]).requires(()),
    ensures
        forall|i: int| 0 <= i < callbacks@.len() ==> call_ensures(#[trigger] callbacks@[i], (), ()),
{
    let ghost all = callbacks@;
    let mut rest = callbacks;
    let ghost mut n: int = 0;
    while rest.len() > 0
        invariant
            0 <= n <= all.len(),
            rest@ == all.subrange(n, all.len() as int),
            forall|i: int| 0 <= i < all.len() ==> (#[trigger] all[i]).requires(()),
            forall|i: int| 0 <= i < n ==> call_ensures(#[trigger] all[i], (), ()),
        decreases rest@.len(),
    {
        let ghost before = rest@;
        let f = rest.remove(0);
        proof {
            assert(f == all[n]);
        }
        f();
        proof {
            n = n + 1;
            assert(rest@ =~= all.subrange(n, all.len() as int));
        }
    }
}

/// A callback is due at `t` exactly when it was scheduled for a frame `<= t`:
/// every entry either runs now or stays pending, never both, and nothing is
/// lost (the counts add up).
pub proof fn lemma_callbacks_split<T>(s: Seq<(u64, T)>, t: u64)
    ensures
        due_callbacks(s, t).len() + pending_callbacks(s, t).len() == s.len(),
        forall|i: int| 0 <= i < pending_callbacks(s, t).len() ==> (#[trigger] pending_callbacks(s, t)[i]).0 > t,
    decreases s.len(),
{
    if s.len() > 0 {
        lemma_callbacks_split(s.drop_first(), t);
        let p = pending_callbacks(s, t);
        let q = pending_callbacks(s.drop_first(), t);
        if s[0].0 > t {
            assert forall|i: int| 0 <= i < p.len() implies (#[trigger] p[i]).0 > t by {
                if i > 0 {
                    assert(p[i] == q[i - 1]);
                }
            }
        }
    }
}

/// A callback scheduled for frame `f` (behind the entries `s`) is run by a
/// take at frame `t` exactly when `t >= f`: then it comes last among the
/// callbacks run, after every earlier one that is due, and is no longer
/// pending; before that it is not run and stays pending, last in line. So it
/// runs once, at the first take at or after its frame.
pub proof fn lemma_callback_runs_when_due<T>(s: Seq<(u64, T)>, f: u64, cb: T, t: u64)
    ensures
        t >= f ==> due_callbacks(s.push((f, cb)), t) == due_callbacks(s, t).push(cb)
            && pending_callbacks(s.push((f, cb)), t) == pending_callbacks(s, t),
        t < f ==> due_callbacks(s.push((f, cb)), t) == due_callbacks(s, t)
            && pending_callbacks(s.push((f, cb)), t) == pending_callbacks(s, t).push((f, cb)),
    decreases s.len(),
{
    let x = (f, cb);
    let sx = s.push(x);
    if s.len() == 0 {
        let e = Seq::<(u64, T)>::empty();
        assert(sx.drop_first() =~= e);
        assert(sx[0] == x);
        assert(due_callbacks(e, t) == Seq::<T>::empty());
        assert(pending_callbacks(e, t) == Seq::<(u64, T)>::empty());
        assert(due_callbacks(s, t) == Seq::<T>::empty());
        assert(pending_callbacks(s, t) == Seq::<(u64, T)>::empty());
        if t >= f {
            assert(due_callbacks(sx, t) == seq![cb] + due_callbacks(e, t));
            assert(seq![cb] + Seq::<T>::empty() =~= Seq::<T>::empty().push(cb));
            assert(pending_callbacks(sx, t) == pending_callbacks(e, t));
        } else {
            assert(pending_callbacks(sx, t) == seq![x] + pending_callbacks(e, t));
            assert(seq![x] + Seq::<(u64, T)>::empty() =~= Seq::<(u64, T)>::empty().push(x));
            assert(due_callbacks(sx, t) == due_callbacks(e, t));
        }
    } else {
        let r = s.drop_first();
        lemma_callback_runs_when_due(r, f, cb, t);
        assert(sx.drop_first() =~= r.push(x));
        assert(sx[0] == s[0]);
        if s[0].0 <= t {
            assert(due_callbacks(sx, t) == seq![s[0].1] + due_callbacks(r.push(x), t));
            assert(pending_callbacks(sx, t) == pending_callbacks(r.push(x), t));
            assert(due_callbacks(s, t) == seq![s[0].1] + due_callbacks(r, t));
            assert(pending_callbacks(s, t) == pending_callbacks(r, t));
            if t >= f {
                assert(seq![s[0].1] + due_callbacks(r, t).push(cb) =~= (seq![s[0].1] + due_callbacks(r, t)).push(cb));
            }
        } else {
            assert(due_callbacks(sx, t) == due_callbacks(r.push(x), t));
            assert(pending_callbacks(sx, t) == seq![s[0]] + pending_callbacks(r.push(x), t));
            assert(due_callbacks(s, t) == due_callbacks(r, t));
            assert(pending_callbacks(s, t) == seq![s[0]] + pending_callbacks(r, t));
            if t < f {
                assert(seq![s[0]] + pending_callbacks(r, t).push(x) =~= (seq![s[0]] + pending_callbacks(r, t)).push(x));
            }
        }
    }
}

/// Which in-flight slot a frame uses, and the frame each slot last rendered.
pub struct FrameSlots {
    frame_count: u64,
    rendered: [u64; 2],
}

impl FrameSlots {
    pub closed spec fn spec_frame_count(&self) -> u64 {
        self.frame_count
    }

    pub closed spec fn spec_rendered(&self) -> Seq<u64> {
        self.rendered@
    }

    /// No frame started; every slot's last frame is frame 0 (nothing).
    pub fn new() -> (s: Self)
        ensures
            s.spec_frame_count() == 0,
            s.spec_rendered() == seq![0u64, 0u64],
    {
        FrameSlots { frame_count: 0, rendered: [0, 0] }
    }

    /// Start a frame: its slot is the frame count modulo the frames in flight;
    /// the frame count advances. Returns the slot and the frame that last used
    /// it, which must complete before the slot is reused.
    pub fn begin_frame(&mut self) -> (r: (usize, u64))
        requires
            old(self).spec_frame_count() < u64::MAX,
            old(self).spec_rendered().len() == MAX_FRAMES_IN_FLIGHT,
        ensures
            r.0 == old(self).spec_frame_count() % (MAX_FRAMES_IN_FLIGHT as u64),
            r.1 == old(self).spec_rendered()[r.0 as int],
            final(self).spec_frame_count() == old(self).spec_frame_count() + 1,
            final(self).spec_rendered() == old(self).spec_rendered(),
    {
        let slot = (self.frame_count % (MAX_FRAMES_IN_FLIGHT as u64)) as usize;
        self.frame_count = self.frame_count + 1;
        (slot, self.rendered[slot])
    }

    /// Record that `slot` rendered frame `frame`.
    pub fn finish_frame(&mut self, slot: usize, frame: u64)
        requires
            slot < MAX_FRAMES_IN_FLIGHT,
            old(self).spec_rendered().len() == MAX_FRAMES_IN_FLIGHT,
        ensures
            final(self).spec_frame_count() == old(self).spec_frame_count(),
            final(self).spec_rendered() == old(self).spec_rendered().update(slot as int, frame),
    {
        self.rendered[slot] = frame;
    }
}

/// Consecutive frames use different slots, and a slot comes back every
/// `MAX_FRAMES_IN_FLIGHT` frames.
pub proof fn lemma_slot_rotation(n: u64)
    requires
        n < u64::MAX - 1,
    ensures
        n % (MAX_FRAMES_IN_FLIGHT as u64) != ((n + 1) as u64) % (MAX_FRAMES_IN_FLIGHT as u64),
        n % (MAX_FRAMES_IN_FLIGHT as u64) == ((n + 2) as u64) % (MAX_FRAMES_IN_FLIGHT as u64),
{
    assert(MAX_FRAMES_IN_FLIGHT as u64 == 2);
    assert(n % 2 == ((n + 2) as u64) % 2) by (nonlinear_arith)
        requires n < u64::MAX - 1;
}

/// The frame each slot last rendered after the frames `fs` ran one after the
/// other, frame `i` in slot `i % MAX_FRAMES_IN_FLIGHT` (what `begin_frame`
/// and `finish_frame` record); a slot never used holds frame 0.
pub open spec fn slots_after(fs: Seq<u64>) -> Seq<u64>
    decreases fs.len(),
{
    if fs.len() == 0 {
        seq![0u64, 0u64]
    } else {
        slots_after(fs.drop_last()).update((fs.len() - 1) % (MAX_FRAMES_IN_FLIGHT as int), fs.last())
    }
}

/// At most `MAX_FRAMES_IN_FLIGHT` frames are in flight: after the frames
/// `fs`, the next frame's slot holds the frame rendered two frames earlier
/// (frame 0, nothing, for the first two), which it waits for before reuse.
pub proof fn lemma_slot_waits_two_frames_back(fs: Seq<u64>)
    ensures
        slots_after(fs).len() == MAX_FRAMES_IN_FLIGHT,
        fs.len() >= 2 ==> slots_after(fs)[(fs.len() as int) % (MAX_FRAMES_IN_FLIGHT as int)] == fs[fs.len() - 2],
        fs.len() < 2 ==> slots_after(fs)[(fs.len() as int) % (MAX_FRAMES_IN_FLIGHT as int)] == 0,
    decreases fs.len(),
{
    let k = fs.len() as int;
    if k > 0 {
        lemma_slot_waits_two_frames_back(fs.drop_last());
        let f1 = fs.drop_last();
        if k >= 2 {
            let f2 = f1.drop_last();
            lemma_slot_waits_two_frames_back(f2);
            assert(slots_after(f1) == slots_after(f2).update((k - 2) % 2, f1.last()));
            assert(f1.last() == fs[k - 2]);
            assert(k % 2 == (k - 2) % 2);
            assert(k % 2 != (k - 1) % 2);
        } else {
            assert(k % 2 != (k - 1) % 2);
        }
    }
}

/// The temporal pass of frame `frame_count` writes accumulation image
/// `.0` and reads last frame's result from image `.1`.
pub fn accumulation_indices(frame_count: u32) -> (r: (usize, usize))
    requires
        frame_count < u32::MAX,
    ensures
        r.0 == frame_count % 2,
        r.1 == (frame_count + 1) % 2,
{
    ((frame_count % 2) as usize, ((frame_count + 1) % 2) as usize)
}

/// The image one a-trous denoise pass reads or writes.
#[derive(Clone, Copy, Debug, PartialEq, Eq, Structural)]
pub enum DenoiseImage {
    /// The temporal pass's output of this frame.
    Accumulated,
    /// Ping image.
    A,
    /// Pong image.
    B,
}

/// Number of a-trous denoise passes per frame.
pub const DENOISE_PASSES: u32 = 8;

/// What denoise pass `pass_index` reads and writes: the first pass reads the
/// temporal output into `A`, then the passes alternate `A -> B`, `B -> A`.
pub open spec fn denoise_io_spec(pass_index: u32) -> (DenoiseImage, DenoiseImage) {
    if pass_index == 0 {
        (DenoiseImage::Accumulated, DenoiseImage::A)
    } else if pass_index % 2 == 1 {
        (DenoiseImage::A, DenoiseImage::B)
    } else {
        (DenoiseImage::B, DenoiseImage::A)
    }
}

pub fn denoise_io(pass_index: u32) -> (r: (DenoiseImage, DenoiseImage))
    ensures
        r == denoise_io_spec(pass_index),
{
    if pass_index == 0 {
        (DenoiseImage::Accumulated, DenoiseImage::A)
    } else if pass_index % 2 == 1 {
        (DenoiseImage::A, DenoiseImage::B)
    } else {
        (DenoiseImage::B, DenoiseImage::A)
    }
}

/// The filter step of denoise pass `pass_index`: `2^pass_index` pixels.
pub fn denoise_step_width(pass_index: u32) -> (r: i32)
    requires
        pass_index < 31,
    ensures
        r == vstd::arithmetic::power2::pow2(pass_index as nat),
{
    proof {
        vstd::arithmetic::power2::lemma2_to64();
        vstd::arithmetic::power2::lemma_pow2_strictly_increases(pass_index as nat, 31);
        vstd::bits::lemma_u32_shl_is_mul(1, pass_index);
    }
    (1u32 << pass_index) as i32
}

/// The image the last denoise pass writes, which the post-process pass reads.
pub fn final_denoise_image() -> (r: DenoiseImage)
    ensures
        r == denoise_io_spec((DENOISE_PASSES - 1) as u32).1,
{
    if (DENOISE_PASSES - 1) % 2 == 0 {
        DenoiseImage::A
    } else {
        DenoiseImage::B
    }
}

/// Each denoise pass after the first reads exactly the image the pass before
/// it wrote, and never the one it writes itself.
pub proof fn lemma_denoise_chain(pass_index: u32)
    requires
        0 < pass_index,
    ensures
        denoise_io_spec(pass_index).0 == denoise_io_spec((pass_index - 1) as u32).1,
        denoise_io_spec(pass_index).0 != denoise_io_spec(pass_index).1,
{
}

} // verus!
