use vstd::prelude::*;

use crate::error::Error;

verus! {

/// The set of marker identities currently claimed by live UMEMs. The
/// embedding program holds one registry per process (behind its own lock)
/// and threads it through `MarkerGuard::new` and `MarkerGuard::release`.
pub struct MarkerRegistry {
    used: Vec<u64>,
}

impl MarkerRegistry {
    pub closed spec fn spec_markers(&self) -> Seq<u64> {
        self.used@
    }

    pub open spec fn spec_contains(&self, marker_id: u64) -> bool {
        self.spec_markers().contains(marker_id)
    }

    /// No marker is recorded twice.
    pub open spec fn wf(&self) -> bool {
        forall|i: int, j: int|
            0 <= i < j < self.spec_markers().len() ==> self.spec_markers()[i]
                != self.spec_markers()[j]
    }

    pub fn new() -> (r: MarkerRegistry)
        ensures
            r.wf(),
            r.spec_markers() == Seq::<u64>::empty(),
    {
        MarkerRegistry { used: Vec::new() }
    }

    /// Whether `marker_id` is currently claimed.
    pub fn contains(&self, marker_id: u64) -> (r: bool)
        ensures
            r == self.spec_contains(marker_id),
    {
        let mut i: usize = 0;
        while i < self.used.len()
            invariant
                i <= self.used@.len(),
                forall|j: int| 0 <= j < i ==> self.used@[j] != marker_id,
            decreases self.used@.len() - i,
        {
            if self.used[i] == marker_id {
                return true;
            }
            i += 1;
        }
        false
    }
}

/// Claim on a process-wide marker identity, held for the lifetime of one
/// UMEM. Two live UMEMs can never hold the same marker.
pub struct MarkerGuard {
    marker_id: u64,
}

impl MarkerGuard {
    pub closed spec fn spec_marker_id(&self) -> u64 {
        self.marker_id
    }

    /// Claims `marker_id`: fails with `MarkerAlreadyUsed`, leaving the
    /// registry unchanged, exactly when the marker is already claimed.
    pub fn new(registry: &mut MarkerRegistry, marker_id: u64) -> (r: Result<MarkerGuard, Error>)
        requires
            old(registry).wf(),
        ensures
            final(registry).wf(),
            old(registry).spec_contains(marker_id) ==> r == Result::<MarkerGuard, Error>::Err(
                Error::MarkerAlreadyUsed,
            ) && *final(registry) == *old(registry),
            !old(registry).spec_contains(marker_id) ==> (r matches Ok(g) && g.spec_marker_id()
                == marker_id) && final(registry).spec_markers() == old(
                registry,
            ).spec_markers().push(marker_id),
            forall|id: u64|
                final(registry).spec_contains(id) <==> (old(registry).spec_contains(id) || (
                !old(registry).spec_contains(marker_id) && id == marker_id)),
    {
        if registry.contains(marker_id) {
            Err(Error::MarkerAlreadyUsed)
        } else {
            registry.used.push(marker_id);
            proof {
                let s0 = old(registry).spec_markers();
                let s1 = registry.spec_markers();
                assert(s1 == s0.push(marker_id));
                assert forall|id: u64|
                    s1.contains(id) <==> (s0.contains(id) || id == marker_id) by {
                    if id == marker_id {
                        assert(s1[s0.len() as int] == marker_id);
                        assert(s1.contains(id));
                    } else {
                        if s0.contains(id) {
                            let w = choose|w: int| 0 <= w < s0.len() && s0[w] == id;
                            assert(s1[w] == id);
                        }
                        if s1.contains(id) {
                            let w = choose|w: int| 0 <= w < s1.len() && s1[w] == id;
                            assert(s0[w] == id);
                        }
                    }
                }
                assert(registry.wf()) by {
                    assert(!s0.contains(marker_id));
                    assert forall|i: int, j: int| 0 <= i < j < s1.len() implies s1[i] != s1[j] by {
                        if j == s0.len() {
                            assert(s1[i] == s0[i]);
                            assert(s0.contains(s0[i]));
                        }
                    }
                }
            }
            Ok(MarkerGuard { marker_id })
        }
    }

    /// Releases the claim: afterwards the marker is no longer recorded, and
    /// a new guard for it can be created. Every other marker stays claimed.
    pub fn release(self, registry: &mut MarkerRegistry)
        requires
            old(registry).wf(),
        ensures
            final(registry).wf(),
            forall|id: u64|
                final(registry).spec_contains(id) <==> (old(registry).spec_contains(id) && id
                    != self.spec_marker_id()),
    {
        let ghost s0 = registry.spec_markers();
        let mut i: usize = 0;
        while i < registry.used.len()
            invariant
                old(registry).wf(),
                registry.spec_markers() == s0,
                s0 == old(registry).spec_markers(),
                i <= s0.len(),
                forall|j: int| 0 <= j < i ==> s0[j] != self.spec_marker_id(),
            decreases s0.len() - i,
        {
            if registry.used[i] == self.marker_id {
                registry.used.remove(i);
                proof {
                    let s1 = registry.spec_markers();
                    assert(s1 == s0.remove(i as int));
                    assert(registry.wf()) by {
                        assert forall|a: int, b: int| 0 <= a < b < s1.len() implies s1[a] != s1[b]
                        by {
                            if b < i {
                            } else if a < i {
                                assert(s1[b] == s0[b + 1]);
                            } else {
                                assert(s1[a] == s0[a + 1]);
                                assert(s1[b] == s0[b + 1]);
                            }
                        }
                    }
                    assert forall|id: u64|
                        s1.contains(id) <==> (s0.contains(id) && id != self.spec_marker_id()) by {
                        if s1.contains(id) {
                            let w = choose|w: int| 0 <= w < s1.len() && s1[w] == id;
                            if w < i {
                                assert(s0[w] == id);
                            } else {
                                assert(s0[w + 1] == id);
                            }
                            assert(s0.contains(id));
                            assert(id != self.spec_marker_id());
                        }
                        if s0.contains(id) && id != self.spec_marker_id() {
                            let w = choose|w: int| 0 <= w < s0.len() && s0[w] == id;
                            if w < i {
                                assert(s1[w] == id);
                            } else {
                                assert(s1[w - 1] == id);
                            }
                            assert(s1.contains(id));
                        }
                    }
                }
                return ;
            }
            i += 1;
        }
        proof {
            assert forall|id: u64|
                registry.spec_contains(id) <==> (old(registry).spec_contains(id) && id
                    != self.spec_marker_id()) by {
                if s0.contains(id) && id == self.spec_marker_id() {
                    let w = choose|w: int| 0 <= w < s0.len() && s0[w] == id;
                    assert(s0[w] != self.spec_marker_id());
                }
            }
        }
    }
}

/// Marker uniqueness across a guard's lifetime. The hypotheses are the
/// registry transitions that `MarkerGuard::new` and `MarkerGuard::release`
/// establish; the conclusions are what those functions' contracts turn into
/// "a second claim of the marker fails while the guard lives" and "a new
/// claim succeeds once it is released".
pub proof fn lemma_marker_reuse(
    r0: MarkerRegistry,
    r1: MarkerRegistry,
    r2: MarkerRegistry,
    marker_id: u64,
)
    requires
        !r0.spec_contains(marker_id),
        forall|id: u64| r1.spec_contains(id) <==> (r0.spec_contains(id) || id == marker_id),
        forall|id: u64| r2.spec_contains(id) <==> (r1.spec_contains(id) && id != marker_id),
    ensures
        r1.spec_contains(marker_id),
        !r2.spec_contains(marker_id),
{
}

} // verus!
