use vstd::prelude::*;

use crate::errors::NetworkError;

verus! {

/// One /30 block carved out of the agent's pool: `.1` is the host side of the
/// tap, `.2` is the address the guest statically configures on `eth0`.
#[derive(Clone, Copy, PartialEq, Eq, Structural, Debug)]
pub struct Subnet {
    /// Position of this /30 block within the pool.
    pub index: usize,
    /// Network address of the /30 block.
    pub net: u32,
}

/// The netmask of every allocated block, 255.255.255.252.
pub const SUBNET_MASK: u32 = 0xFFFF_FFFC;

/// The prefix length of every allocated block.
pub const SUBNET_PREFIX: u8 = 30;

impl Subnet {
    /// A subnet is meaningful when its addresses do not run off the end of
    /// the IPv4 space.
    pub open spec fn wf(self) -> bool {
        self.net + 3 <= u32::MAX
    }

    /// Address assigned to the host-side tap; the guest's default gateway.
    pub fn host_ip(&self) -> (r: u32)
        requires
            self.wf(),
        ensures
            r == self.net + 1,
    {
        self.net + 1
    }

    /// Address the guest statically configures on `eth0`.
    pub fn guest_ip(&self) -> (r: u32)
        requires
            self.wf(),
        ensures
            r == self.net + 2,
    {
        self.net + 2
    }
}

/// The network address of the /30 block at `index` in a pool based at `base`.
pub open spec fn subnet_net(base: u32, index: int) -> int {
    base + 4 * index
}

/// A per-agent pool that carves a private IPv4 range into /30 subnets and
/// tracks which of them are currently leased.
pub struct IpPool {
    /// Network address of the whole pool.
    pub base: u32,
    /// One slot per /30 block; `true` while the block is leased.
    pub leased: Vec<bool>,
}

impl IpPool {
    /// Number of /30 blocks the pool was carved into.
    pub open spec fn num_subnets(self) -> int {
        self.leased@.len() as int
    }

    /// The pool's addresses fit in the IPv4 space.
    pub open spec fn wf(self) -> bool {
        self.base + 4 * self.num_subnets() <= 0x1_0000_0000
    }

    /// `ip` lies inside the pool's range.
    pub open spec fn in_pool(self, ip: int) -> bool {
        self.base <= ip < self.base + 4 * self.num_subnets()
    }

    /// What a successful allocation does: it leases the first free block,
    /// leaving every other slot as it was.
    pub open spec fn alloc_post(pre: IpPool, post: IpPool, s: Subnet) -> bool {
        &&& 0 <= s.index < pre.num_subnets()
        &&& !pre.leased@[s.index as int]
        &&& (forall|j: int| 0 <= j < s.index ==> pre.leased@[j])
        &&& s.net == subnet_net(pre.base, s.index as int)
        &&& post.base == pre.base
        &&& post.leased@ == pre.leased@.update(s.index as int, true)
    }

    /// A pool with `subnet_count` /30 blocks starting at `base`, none leased.
    pub fn new(base: u32, subnet_count: usize) -> (r: IpPool)
        requires
            base + 4 * subnet_count <= 0x1_0000_0000,
        ensures
            r.wf(),
            r.base == base,
            r.num_subnets() == subnet_count,
            forall|j: int| 0 <= j < subnet_count ==> !r.leased@[j],
    {
        let mut leased: Vec<bool> = Vec::new();
        let mut i: usize = 0;
        while i < subnet_count
            invariant
                i <= subnet_count,
                leased@.len() == i,
                forall|j: int| 0 <= j < i ==> !leased@[j],
            decreases subnet_count - i,
        {
            leased.push(false);
            i = i + 1;
        }
        IpPool { base, leased }
    }

    /// Reserve the first free /30 block. Fails with `PoolExhausted`, and
    /// changes nothing, exactly when every block is leased.
    pub fn allocate(&mut self) -> (r: Result<Subnet, NetworkError>)
        requires
            old(self).wf(),
        ensures
            final(self).wf(),
            final(self).base == old(self).base,
            final(self).num_subnets() == old(self).num_subnets(),
            match r {
                Ok(s) => {
                    &&& IpPool::alloc_post(*old(self), *final(self), s)
                    &&& s.wf()
                    &&& old(self).in_pool(s.net + 2)
                },
                Err(e) => {
                    &&& e == NetworkError::PoolExhausted
                    &&& *final(self) == *old(self)
                    &&& (forall|j: int| 0 <= j < old(self).num_subnets() ==> old(self).leased@[j])
                },
            },
    {
        let n: usize = self.leased.len();
        let mut i: usize = 0;
        while i < n
            invariant
                *self == *old(self),
                self.wf(),
                n == self.leased@.len(),
                i <= n,
                forall|j: int| 0 <= j < i ==> self.leased@[j],
            decreases n - i,
        {
            if !self.leased[i] {
                self.leased.set(i, true);
                assert(4 * (i as int) + 4 <= 4 * old(self).num_subnets());
                let net: u32 = self.base + 4 * (i as u32);
                return Ok(Subnet { index: i, net });
            }
            i = i + 1;
        }
        Err(NetworkError::PoolExhausted)
    }

    /// Return a block to the pool. Idempotent: releasing a free block
    /// changes nothing.
    pub fn release(&mut self, index: usize)
        requires
            old(self).wf(),
            index < old(self).num_subnets(),
        ensures
            final(self).wf(),
            final(self).base == old(self).base,
            final(self).leased@ == old(self).leased@.update(index as int, false),
    {
        self.leased.set(index, false);
    }
}

/// Subnet uniqueness: blocks at distinct indices of the same pool have
/// distinct guest addresses, and all guest addresses lie in the pool's range.
pub proof fn lemma_subnet_uniqueness(pool: IpPool, i: int, j: int)
    requires
        pool.wf(),
        0 <= i < pool.num_subnets(),
        0 <= j < pool.num_subnets(),
        i != j,
    ensures
        subnet_net(pool.base, i) + 2 != subnet_net(pool.base, j) + 2,
        pool.in_pool(subnet_net(pool.base, i) + 2),
{
}

/// Two allocations that both succeed, in either order with any leases in
/// between that only ever add leases, return distinct subnets, hence
/// distinct guest addresses.
pub proof fn lemma_allocations_distinct(p0: IpPool, s1: Subnet, p1: IpPool, s2: Subnet, p2: IpPool)
    requires
        p0.wf(),
        IpPool::alloc_post(p0, p1, s1),
        IpPool::alloc_post(p1, p2, s2),
    ensures
        s1.index != s2.index,
        s1.net + 2 != s2.net + 2,
{
    assert(p1.leased@[s1.index as int]);
}

} // verus!
