//! Call-chain fingerprints: the opaque identity of a call site.

use vstd::prelude::*;

verus! {

/// The identity of a call site: the ordered sequence of raw, unresolved
/// return addresses of the call chain that was live when the fingerprint was
/// captured. Two fingerprints denote the same call site exactly when their
/// sequences are element-wise equal.
pub struct Fingerprint {
    frames: Vec<usize>,
}

impl View for Fingerprint {
    type V = Seq<usize>;

    closed spec fn view(&self) -> Seq<usize> {
        self.frames@
    }
}

impl Fingerprint {
    /// Wraps an already-captured sequence of raw frame addresses.
    pub fn new(frames: Vec<usize>) -> (fp: Fingerprint)
        ensures
            fp@ == frames@,
    {
        Fingerprint { frames }
    }

    /// Decides whether two fingerprints identify the same call site.
    pub fn matches(&self, other: &Fingerprint) -> (r: bool)
        ensures
            r == (self@ == other@),
    {
        let r = self.frames == other.frames;
        proof {
            if r {
                assert(self.frames@ =~= other.frames@);
            }
        }
        r
    }
}

/// Captures the raw return addresses of the current call chain, innermost
/// frame first.
///
/// Relies on `backtrace::Backtrace::new_unresolved`, `Backtrace::frames` and
/// `BacktraceFrame::ip`: the walk yields the frames of the live call chain in
/// order, and no symbol resolution is performed. The result depends on the
/// execution context alone, so nothing is promised of its value.
#[verifier::external_body]
pub(crate) fn raw_frames() -> Vec<usize> {
    backtrace::Backtrace::new_unresolved()
        .frames()
        .iter()
        .map(|f| f.ip() as usize)
        .collect()
}

} // verus!
