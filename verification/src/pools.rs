//! Registry of the command pools and queue families chosen at setup.
//!
//! One instance replaces process-wide state: it is filled exactly once,
//! when the device and its queues have been negotiated, and read wherever
//! command buffers are reserved.  Pool handles pass through as raw 64-bit
//! values.

use vstd::prelude::*;

verus! {

/// The command pools and queue family indices chosen at setup; empty
/// until [`PoolRegistry::init`] fills it, exactly once.
pub struct PoolRegistry {
    graphics_pool: Option<u64>,
    graphics_queue_family: Option<u32>,
    transfer_pool: Option<u64>,
    transfer_queue_family: Option<u32>,
}

impl PoolRegistry {
    /// The registered graphics command pool handle, if any.
    pub closed spec fn graphics_pool_spec(&self) -> Option<u64> {
        self.graphics_pool
    }

    /// The registered graphics queue family, if any.
    pub closed spec fn graphics_queue_family_spec(&self) -> Option<u32> {
        self.graphics_queue_family
    }

    /// The registered transfer command pool handle, if any.
    pub closed spec fn transfer_pool_spec(&self) -> Option<u64> {
        self.transfer_pool
    }

    /// The registered transfer queue family, if any.
    pub closed spec fn transfer_queue_family_spec(&self) -> Option<u32> {
        self.transfer_queue_family
    }

    /// The registry has been filled.
    pub open spec fn initialized(&self) -> bool {
        &&& self.graphics_pool_spec() is Some
        &&& self.graphics_queue_family_spec() is Some
        &&& self.transfer_pool_spec() is Some
        &&& self.transfer_queue_family_spec() is Some
    }

    /// An empty registry.
    pub fn new() -> (r: PoolRegistry)
        ensures
            r.graphics_pool_spec() is None,
            r.graphics_queue_family_spec() is None,
            r.transfer_pool_spec() is None,
            r.transfer_queue_family_spec() is None,
    {
        PoolRegistry {
            graphics_pool: None,
            graphics_queue_family: None,
            transfer_pool: None,
            transfer_queue_family: None,
        }
    }

    /// Fill the registry.  May happen only once: filling an already
    /// filled registry is a caller error.
    pub fn init(
        &mut self,
        graphics_pool: u64,
        graphics_queue_family: u32,
        transfer_pool: u64,
        transfer_queue_family: u32,
    )
        requires
            old(self).graphics_pool_spec() is None,
            old(self).graphics_queue_family_spec() is None,
            old(self).transfer_pool_spec() is None,
            old(self).transfer_queue_family_spec() is None,
        ensures
            final(self).graphics_pool_spec() == Some(graphics_pool),
            final(self).graphics_queue_family_spec() == Some(graphics_queue_family),
            final(self).transfer_pool_spec() == Some(transfer_pool),
            final(self).transfer_queue_family_spec() == Some(transfer_queue_family),
    {
        self.graphics_pool = Some(graphics_pool);
        self.graphics_queue_family = Some(graphics_queue_family);
        self.transfer_pool = Some(transfer_pool);
        self.transfer_queue_family = Some(transfer_queue_family);
    }

    /// The transfer queue family.  Reading it before [`Self::init`] is a
    /// caller error.
    pub fn get_transfer_queue_family(&self) -> (r: u32)
        requires
            self.transfer_queue_family_spec() is Some,
        ensures
            Some(r) == self.transfer_queue_family_spec(),
    {
        match self.transfer_queue_family {
            Some(family) => family,
            None => {
                proof {
                    assert(false);
                }
                0
            },
        }
    }

    /// The transfer queue family, on the caller's own word that the
    /// registry is filled.
    pub fn unsafe_get_transfer_queue_family(&self) -> (r: u32)
        requires
            self.transfer_queue_family_spec() is Some,
        ensures
            Some(r) == self.transfer_queue_family_spec(),
    {
        self.get_transfer_queue_family()
    }

    /// The graphics queue family.  Reading it before [`Self::init`] is a
    /// caller error.
    pub fn get_graphics_queue_family(&self) -> (r: u32)
        requires
            self.graphics_queue_family_spec() is Some,
        ensures
            Some(r) == self.graphics_queue_family_spec(),
    {
        match self.graphics_queue_family {
            Some(family) => family,
            None => {
                proof {
                    assert(false);
                }
                0
            },
        }
    }

    /// The graphics queue family, on the caller's own word that the
    /// registry is filled.
    pub fn unsafe_get_graphics_queue_family(&self) -> (r: u32)
        requires
            self.graphics_queue_family_spec() is Some,
        ensures
            Some(r) == self.graphics_queue_family_spec(),
    {
        self.get_graphics_queue_family()
    }

    /// The graphics command pool handle.  Reading it before
    /// [`Self::init`] is a caller error.
    pub fn get_graphics_pool(&self) -> (r: u64)
        requires
            self.graphics_pool_spec() is Some,
        ensures
            Some(r) == self.graphics_pool_spec(),
    {
        match self.graphics_pool {
            Some(pool) => pool,
            None => {
                proof {
                    assert(false);
                }
                0
            },
        }
    }

    /// The transfer command pool handle.  Reading it before
    /// [`Self::init`] is a caller error.
    pub fn get_transfer_pool(&self) -> (r: u64)
        requires
            self.transfer_pool_spec() is Some,
        ensures
            Some(r) == self.transfer_pool_spec(),
    {
        match self.transfer_pool {
            Some(pool) => pool,
            None => {
                proof {
                    assert(false);
                }
                0
            },
        }
    }
}

} // verus!
