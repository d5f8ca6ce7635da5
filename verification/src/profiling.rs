//! Profiling scopes on the host timeline and names of GPU labels. Emitting
//! them (log records, NVTX ranges, debug-utils labels) is the caller's part.
use vstd::prelude::*;
use std::time::Instant;

verus! {

#[verifier::external_type_specification]
#[verifier::external_body]
pub struct ExInstant(Instant);

/// `Instant::now()`: the current time, of which nothing is stated.
#[verifier::external_body]
fn instant_now() -> Instant {
    Instant::now()
}

/// A host-timeline range opened at creation. It records its name and start
/// time only when trace logging is on, so that a disabled scope costs
/// neither an allocation nor a clock read.
pub struct Scope {
    timing: Option<(String, Instant)>,
}

impl Scope {
    /// The name the scope records, when it records one.
    pub closed spec fn spec_name(&self) -> Option<Seq<char>> {
        match self.timing {
            Some((n, _)) => Some(n@),
            None => None,
        }
    }

    /// Open a scope named `name`; it times itself only when `trace_enabled`.
    pub fn new(name: &str, trace_enabled: bool) -> (s: Self)
        ensures
            s.spec_name() == (if trace_enabled { Some(name@) } else { None::<Seq<char>> }),
    {
        let timing = if trace_enabled {
            Some((name.to_string(), instant_now()))
        } else {
            None
        };
        Scope { timing }
    }

    /// Close the scope: its name and start time when it was timed.
    pub fn finish(self) -> (r: Option<(String, Instant)>)
        ensures
            match r {
                Some((n, _)) => self.spec_name() == Some(n@),
                None => self.spec_name() is None,
            },
    {
        self.timing
    }
}

/// The text of a GPU label named `name`. A Vulkan label is a C string, so a
/// name holding a NUL character gives the empty label.
pub fn debug_label_text(name: &str) -> (r: String)
    ensures
        r@ == (if name@.contains('\0') { Seq::<char>::empty() } else { name@ }),
{
    let n = name.unicode_len();
    let mut i: usize = 0;
    while i < n
        invariant
            i <= n,
            n == name@.len(),
            forall|j: int| 0 <= j < i ==> name@[j] != '\0',
        decreases n - i,
    {
        if name.get_char(i) == '\0' {
            proof {
                assert(name@[i as int] == '\0');
            }
            return String::new();
        }
        i = i + 1;
    }
    name.to_string()
}

} // verus!
