//! Handles identify what was enqueued at one peer.

use vstd::prelude::*;

verus! {

/// What every handle is made of: the generator it came from and its number there.
#[derive(Clone, Copy, Debug, PartialEq, Eq, Hash, Structural)]
pub struct RawHandle {
    generator_id: u64,
    handle_id: u64,
}

impl RawHandle {
    pub closed spec fn spec_generator_id(&self) -> u64 {
        self.generator_id
    }

    pub closed spec fn spec_handle_id(&self) -> u64 {
        self.handle_id
    }

    /// The identifier of the generator that issued this handle.
    #[verifier::when_used_as_spec(spec_generator_id)]
    pub fn generator_id(&self) -> (id: u64)
        ensures
            id == self.spec_generator_id(),
    {
        self.generator_id
    }

    /// The number of this handle among those of its generator.
    #[verifier::when_used_as_spec(spec_handle_id)]
    pub fn handle_id(&self) -> (id: u64)
        ensures
            id == self.spec_handle_id(),
    {
        self.handle_id
    }
}

/// Issues the handles of one peer, numbered from zero upwards.
#[derive(Debug)]
pub struct HandleGenerator {
    generator_id: u64,
    next_handle_id: u64,
}

impl HandleGenerator {
    pub closed spec fn generator_id(&self) -> u64 {
        self.generator_id
    }

    /// The number the next handle will carry.
    pub closed spec fn next_handle_id(&self) -> u64 {
        self.next_handle_id
    }

    /// The generator that `new` gives.
    pub closed spec fn new_spec(generator_id: u64) -> HandleGenerator {
        HandleGenerator { generator_id, next_handle_id: 0 }
    }

    /// A generator that has issued nothing yet. `generator_id` tells the peers of
    /// one process apart.
    pub fn new(generator_id: u64) -> (generator: Self)
        ensures
            generator == Self::new_spec(generator_id),
            generator.generator_id() == generator_id,
            generator.next_handle_id() == 0,
    {
        HandleGenerator { generator_id, next_handle_id: 0 }
    }

    /// The generator after the next handle was issued, and that handle.
    pub closed spec fn generated(self) -> (HandleGenerator, RawHandle) {
        (
            HandleGenerator {
                generator_id: self.generator_id,
                next_handle_id: if self.next_handle_id == u64::MAX {
                    0
                } else {
                    (self.next_handle_id + 1) as u64
                },
            },
            RawHandle { generator_id: self.generator_id, handle_id: self.next_handle_id },
        )
    }

    /// A generator numbers its handles one after the other, and all carry its
    /// identifier.
    pub proof fn lemma_generated(self)
        ensures
            self.generated().1.generator_id() == self.generator_id(),
            self.generated().1.handle_id() == self.next_handle_id(),
            self.generated().0.generator_id() == self.generator_id(),
            self.generated().0.next_handle_id() == if self.next_handle_id() == u64::MAX {
                0
            } else {
                self.next_handle_id() + 1
            },
    {
    }

    /// The generator after `count` handles were issued.
    pub open spec fn advanced(self, count: nat) -> HandleGenerator
        decreases count,
    {
        if count == 0 {
            self
        } else {
            self.advanced((count - 1) as nat).generated().0
        }
    }

    /// The number of a handle is the number of handles issued before it, counted
    /// from where the generator began, modulo 2^64.
    pub proof fn lemma_advanced(self, count: nat)
        ensures
            self.advanced(count).generator_id() == self.generator_id(),
            self.advanced(count).next_handle_id() == (self.next_handle_id() + count)
                % 0x1_0000_0000_0000_0000,
        decreases count,
    {
        if count > 0 {
            self.lemma_advanced((count - 1) as nat);
            let before = self.advanced((count - 1) as nat);
            before.lemma_generated();
            let sum = self.next_handle_id() + count - 1;
            assert(before.next_handle_id() == sum % 0x1_0000_0000_0000_0000);
            if before.next_handle_id() == u64::MAX {
                assert((sum + 1) % 0x1_0000_0000_0000_0000 == 0) by (nonlinear_arith)
                    requires
                        sum % 0x1_0000_0000_0000_0000 == 0xffff_ffff_ffff_ffff,
                ;
            } else {
                assert((sum + 1) % 0x1_0000_0000_0000_0000 == sum % 0x1_0000_0000_0000_0000 + 1)
                    by (nonlinear_arith)
                    requires
                        0 <= sum % 0x1_0000_0000_0000_0000 < 0xffff_ffff_ffff_ffff,
                ;
            }
        }
    }

    /// Handles do not come back: two handles of one generator differ, unless
    /// 2^64 handles or more were issued from the one to the other.
    pub proof fn lemma_handles_differ(self, earlier: nat, later: nat)
        requires
            earlier < later,
            later - earlier < 0x1_0000_0000_0000_0000,
        ensures
            self.advanced(earlier).generated().1 != self.advanced(later).generated().1,
    {
        self.lemma_advanced(earlier);
        self.lemma_advanced(later);
        self.advanced(earlier).lemma_generated();
        self.advanced(later).lemma_generated();
        let from = self.next_handle_id() + earlier;
        let to = self.next_handle_id() + later;
        assert(from % 0x1_0000_0000_0000_0000 != to % 0x1_0000_0000_0000_0000)
            by (nonlinear_arith)
            requires
                0 <= from < to,
                to - from < 0x1_0000_0000_0000_0000,
        ;
    }

    /// Issues the next handle. The counter wraps after `u64::MAX`.
    pub fn generate(&mut self) -> (handle: RawHandle)
        ensures
            (*final(self), handle) == old(self).generated(),
            handle.generator_id() == old(self).generator_id(),
            handle.handle_id() == old(self).next_handle_id(),
            final(self).generator_id() == old(self).generator_id(),
            final(self).next_handle_id() == if old(self).next_handle_id() == u64::MAX {
                0
            } else {
                old(self).next_handle_id() + 1
            },
    {
        let handle_id: u64 = self.next_handle_id;
        self.next_handle_id = self.next_handle_id.wrapping_add(1);
        RawHandle { generator_id: self.generator_id, handle_id }
    }
}

} // verus!
