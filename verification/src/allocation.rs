//! Allocations and their manager: per-client relay state with lifetimes,
//! permissions, channel bindings, and the relay address pool.

use vstd::prelude::*;
use crate::addr::SocketAddress;
use crate::assoc::{keys_unique, has_key, value_of, lemma_remove_key, lemma_push_key};
use crate::auth::spec_elapsed;
use crate::errors::TurnError;

verus! {

/// Seconds an allocation lives when created.
pub const DEFAULT_ALLOCATION_LIFETIME: u64 = 600;

/// The longest lifetime a refresh may ask for, in seconds.
pub const MAX_ALLOCATION_LIFETIME: u64 = 3600;

/// Seconds a permission lives from its most recent grant.
pub const PERMISSION_LIFETIME: u64 = 300;

/// The server-side state of one client's allocation.
#[derive(Debug, Clone)]
pub struct Allocation {
    pub username: String,
    pub relayed_address: SocketAddress,
    pub client_address: SocketAddress,
    pub created_at: u64,
    pub lifetime: u64,
    pub permissions: Vec<(SocketAddress, u64)>,
    pub channel_bindings: Vec<(u16, SocketAddress)>,
}

/// An allocation has expired once its lifetime has fully elapsed.
pub open spec fn spec_is_expired(a: Allocation, now: u64) -> bool {
    spec_elapsed(now, a.created_at) >= a.lifetime
}

/// A channel number a client may bind: in 0x4000 ..= 0x7FFF.
pub open spec fn spec_channel_in_range(ch: u16) -> bool {
    0x4000 <= ch <= 0x7FFF
}

impl Allocation {
    /// Permission and binding tables hold each key once.
    pub open spec fn wf(self) -> bool {
        keys_unique(self.permissions@) && keys_unique(self.channel_bindings@)
    }

    /// When the permission for a peer was last granted, if ever.
    pub open spec fn spec_permission_time(self, peer: SocketAddress) -> Option<u64> {
        value_of(self.permissions@, peer)
    }

    /// A permission is valid while less than its lifetime old.
    pub open spec fn spec_has_permission(self, peer: SocketAddress, now: u64) -> bool {
        match self.spec_permission_time(peer) {
            Some(t) => spec_elapsed(now, t) < PERMISSION_LIFETIME,
            None => false,
        }
    }

    /// The peer a channel number is bound to, if any.
    pub open spec fn spec_peer_of_channel(self, ch: u16) -> Option<SocketAddress> {
        value_of(self.channel_bindings@, ch)
    }

    /// Whether the peer is bound to some channel other than `ch`.
    pub open spec fn spec_peer_bound_elsewhere(self, ch: u16, peer: SocketAddress) -> bool {
        exists|i: int|
            0 <= i < self.channel_bindings@.len() && self.channel_bindings@[i].1 == peer
                && self.channel_bindings@[i].0 != ch
    }

    /// Everything but the permission table, unchanged.
    pub open spec fn same_but_permissions(self, other: Allocation) -> bool {
        self.username == other.username && self.relayed_address == other.relayed_address
            && self.client_address == other.client_address && self.created_at == other.created_at
            && self.lifetime == other.lifetime && self.channel_bindings == other.channel_bindings
    }

    pub fn new(
        username: String,
        relayed_address: SocketAddress,
        client_address: SocketAddress,
        now: u64,
    ) -> (r: Self)
        ensures
            r.wf(),
            r.username@ == username@,
            r.relayed_address == relayed_address,
            r.client_address == client_address,
            r.created_at == now,
            r.lifetime == DEFAULT_ALLOCATION_LIFETIME,
            r.permissions@ == Seq::<(SocketAddress, u64)>::empty(),
            r.channel_bindings@ == Seq::<(u16, SocketAddress)>::empty(),
    {
        Allocation {
            username,
            relayed_address,
            client_address,
            created_at: now,
            lifetime: DEFAULT_ALLOCATION_LIFETIME,
            permissions: Vec::new(),
            channel_bindings: Vec::new(),
        }
    }

    pub fn is_expired(&self, now: u64) -> (r: bool)
        ensures
            r == spec_is_expired(*self, now),
    {
        let elapsed: u64 = if now >= self.created_at {
            now - self.created_at
        } else {
            0
        };
        elapsed >= self.lifetime
    }

    /// Accepts a lifetime of at most the maximum and restarts the clock;
    /// rejects a longer one untouched.
    pub fn refresh(&mut self, lifetime: u64, now: u64) -> (r: Result<(), TurnError>)
        ensures
            (r is Ok) == (lifetime <= MAX_ALLOCATION_LIFETIME),
            r is Ok ==> *final(self) == (Allocation { lifetime, created_at: now, ..*old(self) }),
            r matches Err(e) ==> e == TurnError::BadRequest && *final(self) == *old(self),
    {
        if lifetime > MAX_ALLOCATION_LIFETIME {
            return Err(TurnError::BadRequest);
        }
        self.lifetime = lifetime;
        self.created_at = now;
        Ok(())
    }

    /// The index of a peer in the permission table, if present.
    fn find_permission(&self, peer: &SocketAddress) -> (r: Option<usize>)
        requires
            self.wf(),
        ensures
            match r {
                Some(i) => i < self.permissions@.len() && self.permissions@[i as int].0 == *peer
                    && has_key(self.permissions@, *peer) && crate::assoc::key_idx(
                    self.permissions@,
                    *peer,
                ) == i,
                None => !has_key(self.permissions@, *peer),
            },
    {
        let n: usize = self.permissions.len();
        let mut i: usize = 0;
        while i < n
            invariant
                i <= n,
                n == self.permissions@.len(),
                self.wf(),
                forall|j: int| 0 <= j < i ==> self.permissions@[j].0 != *peer,
            decreases n - i,
        {
            if self.permissions[i].0 == *peer {
                proof {
                    assert(has_key(self.permissions@, *peer));
                    let k = crate::assoc::key_idx(self.permissions@, *peer);
                    assert(0 <= k < self.permissions@.len() && self.permissions@[k].0 == *peer);
                    assert(k == i as int);
                }
                return Some(i);
            }
            i = i + 1;
        }
        None
    }

    /// Stamps the permission for a peer at `now`, fresh or renewed.
    pub fn add_permission(&mut self, peer_address: SocketAddress, now: u64)
        requires
            old(self).wf(),
        ensures
            final(self).wf(),
            final(self).spec_permission_time(peer_address) == Some(now),
            forall|p: SocketAddress|
                p != peer_address ==> final(self).spec_permission_time(p) == old(self).spec_permission_time(p),
            final(self).same_but_permissions(*old(self)),
    {
        if let Some(i) = self.find_permission(&peer_address) {
            proof {
                lemma_remove_key(self.permissions@, i as int);
            }
            self.permissions.remove(i);
        }
        assert(!has_key(self.permissions@, peer_address));
        proof {
            lemma_push_key(self.permissions@, (peer_address, now));
        }
        self.permissions.push((peer_address, now));
    }

    pub fn has_permission(&self, peer_address: &SocketAddress, now: u64) -> (r: bool)
        requires
            self.wf(),
        ensures
            r == self.spec_has_permission(*peer_address, now),
    {
        match self.find_permission(peer_address) {
            Some(i) => {
                let granted_at: u64 = self.permissions[i].1;
                let elapsed: u64 = if now >= granted_at {
                    now - granted_at
                } else {
                    0
                };
                elapsed < PERMISSION_LIFETIME
            },
            None => false,
        }
    }

    /// The index of a channel number in the binding table, if present.
    fn find_channel(&self, channel_number: u16) -> (r: Option<usize>)
        requires
            self.wf(),
        ensures
            match r {
                Some(i) => i < self.channel_bindings@.len() && self.channel_bindings@[i as int].0
                    == channel_number && has_key(self.channel_bindings@, channel_number)
                    && crate::assoc::key_idx(self.channel_bindings@, channel_number) == i,
                None => !has_key(self.channel_bindings@, channel_number),
            },
    {
        let n: usize = self.channel_bindings.len();
        let mut i: usize = 0;
        while i < n
            invariant
                i <= n,
                n == self.channel_bindings@.len(),
                self.wf(),
                forall|j: int| 0 <= j < i ==> self.channel_bindings@[j].0 != channel_number,
            decreases n - i,
        {
            if self.channel_bindings[i].0 == channel_number {
                proof {
                    assert(has_key(self.channel_bindings@, channel_number));
                    let k = crate::assoc::key_idx(self.channel_bindings@, channel_number);
                    assert(self.channel_bindings@[k].0 == channel_number);
                    assert(k == i as int);
                }
                return Some(i);
            }
            i = i + 1;
        }
        None
    }

    /// Whether the peer is bound to a channel other than `ch`.
    fn peer_bound_elsewhere(&self, ch: u16, peer: &SocketAddress) -> (r: bool)
        ensures
            r == self.spec_peer_bound_elsewhere(ch, *peer),
    {
        let n: usize = self.channel_bindings.len();
        let mut i: usize = 0;
        while i < n
            invariant
                i <= n,
                n == self.channel_bindings@.len(),
                forall|j: int|
                    0 <= j < i ==> !(self.channel_bindings@[j].1 == *peer
                        && self.channel_bindings@[j].0 != ch),
            decreases n - i,
        {
            if self.channel_bindings[i].1 == *peer && self.channel_bindings[i].0 != ch {
                return true;
            }
            i = i + 1;
        }
        false
    }

    /// Binds a channel in range to a peer and stamps the peer's permission.
    /// Rebinding the same channel to the same peer renews the permission;
    /// a channel already bound to a different peer, or a peer already bound
    /// to a different channel, is rejected untouched.
    pub fn add_channel_binding(&mut self, channel_number: u16, peer_address: SocketAddress, now: u64) -> (r:
        Result<(), TurnError>)
        requires
            old(self).wf(),
        ensures
            final(self).wf(),
            (r is Ok) == (spec_channel_in_range(channel_number) && (old(self).spec_peer_of_channel(
                channel_number,
            ) is None || old(self).spec_peer_of_channel(channel_number) == Some(peer_address))
                && !old(self).spec_peer_bound_elsewhere(channel_number, peer_address)),
            r is Ok ==> {
                &&& final(self).spec_peer_of_channel(channel_number) == Some(peer_address)
                &&& forall|c: u16|
                    c != channel_number ==> final(self).spec_peer_of_channel(c) == old(self).spec_peer_of_channel(c)
                &&& final(self).spec_permission_time(peer_address) == Some(now)
                &&& forall|p: SocketAddress|
                    p != peer_address ==> final(self).spec_permission_time(p) == old(self).spec_permission_time(p)
                &&& final(self).username == old(self).username
                &&& final(self).relayed_address == old(self).relayed_address
                &&& final(self).client_address == old(self).client_address
                &&& final(self).created_at == old(self).created_at
                &&& final(self).lifetime == old(self).lifetime
            },
            r matches Err(e) ==> e == TurnError::BadRequest && *final(self) == *old(self),
    {
        if channel_number < 0x4000 || channel_number > 0x7FFF {
            return Err(TurnError::BadRequest);
        }

        if self.peer_bound_elsewhere(channel_number, &peer_address) {
            return Err(TurnError::BadRequest);
        }

        match self.find_channel(channel_number) {
            Some(i) => {
                if !(self.channel_bindings[i].1 == peer_address) {
                    return Err(TurnError::BadRequest);
                }
                proof {
                    lemma_remove_key(self.channel_bindings@, i as int);
                }
                self.channel_bindings.remove(i);
            },
            None => {},
        }
        assert(!has_key(self.channel_bindings@, channel_number));
        proof {
            lemma_push_key(self.channel_bindings@, (channel_number, peer_address));
        }
        self.channel_bindings.push((channel_number, peer_address));
        self.add_permission(peer_address, now);
        Ok(())
    }

    pub fn get_peer_by_channel(&self, channel_number: u16) -> (r: Option<SocketAddress>)
        requires
            self.wf(),
        ensures
            r == self.spec_peer_of_channel(channel_number),
    {
        match self.find_channel(channel_number) {
            Some(i) => Some(self.channel_bindings[i].1),
            None => None,
        }
    }

    /// The channel a peer is bound to, if any.
    pub fn get_channel_by_peer(&self, peer_address: &SocketAddress) -> (r: Option<u16>)
        requires
            self.wf(),
        ensures
            match r {
                Some(ch) => self.spec_peer_of_channel(ch) == Some(*peer_address),
                None => forall|ch: u16| self.spec_peer_of_channel(ch) != Some(*peer_address),
            },
    {
        let n: usize = self.channel_bindings.len();
        let mut i: usize = 0;
        while i < n
            invariant
                i <= n,
                n == self.channel_bindings@.len(),
                self.wf(),
                forall|j: int| 0 <= j < i ==> self.channel_bindings@[j].1 != *peer_address,
            decreases n - i,
        {
            if self.channel_bindings[i].1 == *peer_address {
                let ch: u16 = self.channel_bindings[i].0;
                proof {
                    assert(has_key(self.channel_bindings@, ch)) by {
                        assert(self.channel_bindings@[i as int].0 == ch);
                    }
                    let k = crate::assoc::key_idx(self.channel_bindings@, ch);
                    assert(self.channel_bindings@[k].0 == ch);
                    assert(k == i as int);
                }
                return Some(ch);
            }
            i = i + 1;
        }
        proof {
            assert forall|ch: u16| self.spec_peer_of_channel(ch) != Some(*peer_address) by {
                if has_key(self.channel_bindings@, ch) {
                    let k = crate::assoc::key_idx(self.channel_bindings@, ch);
                    assert(self.channel_bindings@[k].1 != *peer_address);
                }
            }
        }
        None
    }

    /// Drops every permission as old as its lifetime; fresher ones stay with
    /// their stamps.
    pub fn cleanup_expired_permissions(&mut self, now: u64)
        requires
            old(self).wf(),
        ensures
            final(self).wf(),
            forall|p: SocketAddress|
                final(self).spec_permission_time(p) == (match old(self).spec_permission_time(p) {
                    Some(t) => if spec_elapsed(now, t) < PERMISSION_LIFETIME {
                        Some(t)
                    } else {
                        None::<u64>
                    },
                    None => None::<u64>,
                }),
            final(self).same_but_permissions(*old(self)),
    {
        let n: usize = self.permissions.len();
        let mut kept: Vec<(SocketAddress, u64)> = Vec::new();
        let mut i: usize = 0;
        while i < n
            invariant
                i <= n,
                n == self.permissions@.len(),
                old(self).wf(),
                self.permissions@ == old(self).permissions@,
                keys_unique(kept@),
                forall|j: int|
                    0 <= j < kept@.len() ==> exists|k: int|
                        0 <= k < i && #[trigger] kept@[j] == #[trigger] self.permissions@[k],
                forall|p: SocketAddress|
                    value_of(kept@, p) == (match #[trigger] value_of(
                        self.permissions@.subrange(0, i as int),
                        p,
                    ) {
                        Some(t) => if spec_elapsed(now, t) < PERMISSION_LIFETIME {
                            Some(t)
                        } else {
                            None::<u64>
                        },
                        None => None::<u64>,
                    }),
            decreases n - i,
        {
            let peer: SocketAddress = self.permissions[i].0;
            let granted_at: u64 = self.permissions[i].1;
            let elapsed: u64 = if now >= granted_at {
                now - granted_at
            } else {
                0
            };
            let ghost prev_kept = kept@;
            if elapsed < PERMISSION_LIFETIME {
                proof {
                    if has_key(prev_kept, peer) {
                        let j = crate::assoc::key_idx(prev_kept, peer);
                        let k = choose|k: int| 0 <= k < i && prev_kept[j] == self.permissions@[k];
                        assert(self.permissions@[k].0 == self.permissions@[i as int].0);
                    }
                    lemma_push_key(prev_kept, (peer, granted_at));
                }
                kept.push((peer, granted_at));
            }
            i = i + 1;
            proof {
                let sub_new = self.permissions@.subrange(0, i as int);
                let sub_old = self.permissions@.subrange(0, i - 1);
                assert(sub_new.drop_last() =~= sub_old);
                assert(sub_new.last() == self.permissions@[i - 1]);
                assert forall|p: SocketAddress|
                    value_of(kept@, p) == (match value_of(sub_new, p) {
                        Some(t) => if spec_elapsed(now, t) < PERMISSION_LIFETIME {
                            Some(t)
                        } else {
                            None::<u64>
                        },
                        None => None::<u64>,
                    }) by {
                    if p == self.permissions@[i - 1].0 {
                        assert(has_key(sub_new, p)) by {
                            assert(sub_new[i - 1].0 == p);
                        }
                        let k = crate::assoc::key_idx(sub_new, p);
                        assert(0 <= k < sub_new.len() && sub_new[k].0 == p);
                        assert forall|k2: int| 0 <= k2 < i - 1 implies sub_old[k2].0 != p by {
                            assert(self.permissions@[k2].0 != self.permissions@[i - 1].0);
                        }
                        assert(k == i - 1);
                        assert(value_of(sub_new, p) == Some(self.permissions@[i - 1].1));
                        assert(!has_key(sub_old, p));
                    } else {
                        if has_key(sub_new, p) {
                            let k = crate::assoc::key_idx(sub_new, p);
                            assert(k != i - 1);
                            assert(sub_old[k].0 == p);
                            assert(has_key(sub_old, p));
                            let k0 = crate::assoc::key_idx(sub_old, p);
                            assert(sub_new[k0].0 == p);
                            assert(value_of(sub_new, p) == value_of(sub_old, p));
                        } else {
                            if has_key(sub_old, p) {
                                let k0 = crate::assoc::key_idx(sub_old, p);
                                assert(sub_new[k0].0 == p);
                            }
                        }
                    }
                }
            }
        }
        assert(self.permissions@.subrange(0, n as int) =~= self.permissions@);
        self.permissions = kept;
    }
}

/// The allocations that have not expired by `now`, in order.
pub open spec fn live_allocations(s: Seq<(SocketAddress, Allocation)>, now: u64) -> Seq<
    (SocketAddress, Allocation),
>
    decreases s.len(),
{
    if s.len() == 0 {
        Seq::empty()
    } else {
        let rest = live_allocations(s.drop_last(), now);
        if spec_is_expired(s.last().1, now) {
            rest
        } else {
            rest.push(s.last())
        }
    }
}

/// The relay addresses of the allocations that have expired by `now`, in
/// order.
pub open spec fn expired_relays(s: Seq<(SocketAddress, Allocation)>, now: u64) -> Seq<
    SocketAddress,
>
    decreases s.len(),
{
    if s.len() == 0 {
        Seq::empty()
    } else {
        let rest = expired_relays(s.drop_last(), now);
        if spec_is_expired(s.last().1, now) {
            rest.push(s.last().1.relayed_address)
        } else {
            rest
        }
    }
}

/// Keeping the live allocations keeps keys unique and, for each client,
/// exactly its unexpired allocation.
pub proof fn lemma_live_allocations(s: Seq<(SocketAddress, Allocation)>, now: u64)
    requires
        keys_unique(s),
    ensures
        keys_unique(live_allocations(s, now)),
        forall|c: SocketAddress|
            #[trigger] value_of(live_allocations(s, now), c) == (match value_of(s, c) {
                Some(a) => if spec_is_expired(a, now) {
                    None::<Allocation>
                } else {
                    Some(a)
                },
                None => None::<Allocation>,
            }),
    decreases s.len(),
{
    let live = live_allocations(s, now);
    if s.len() == 0 {
        assert(forall|c: SocketAddress| !has_key(s, c));
        assert(forall|c: SocketAddress| !has_key(live, c));
    } else {
        let prefix = s.drop_last();
        let last = s.last();
        assert(forall|j: int| 0 <= j < prefix.len() ==> prefix[j] == s[j]);
        assert(keys_unique(prefix));
        assert(!has_key(prefix, last.0)) by {
            if has_key(prefix, last.0) {
                let j = crate::assoc::key_idx(prefix, last.0);
                assert(s[j].0 == s[s.len() - 1].0);
            }
        }
        lemma_live_allocations(prefix, now);
        lemma_push_key(prefix, last);
        assert(prefix.push(last) =~= s);
        let rest = live_allocations(prefix, now);
        if spec_is_expired(last.1, now) {
            assert(live == rest);
            assert forall|c: SocketAddress|
                #[trigger] value_of(live, c) == (match value_of(s, c) {
                    Some(a) => if spec_is_expired(a, now) {
                        None::<Allocation>
                    } else {
                        Some(a)
                    },
                    None => None::<Allocation>,
                }) by {
                if c == last.0 {
                    assert(value_of(s, c) == Some(last.1));
                    assert(value_of(prefix, c) is None);
                    assert(value_of(rest, c) is None);
                } else {
                    assert(value_of(s, c) == value_of(prefix, c));
                    assert(value_of(rest, c) == (match value_of(prefix, c) {
                        Some(a) => if spec_is_expired(a, now) {
                            None::<Allocation>
                        } else {
                            Some(a)
                        },
                        None => None::<Allocation>,
                    }));
                }
            }
        } else {
            assert(value_of(rest, last.0) == (match value_of(prefix, last.0) {
                Some(a) => if spec_is_expired(a, now) {
                    None::<Allocation>
                } else {
                    Some(a)
                },
                None => None::<Allocation>,
            }));
            assert(value_of(prefix, last.0) is None);
            assert(value_of(rest, last.0) is None);
            assert(!has_key(rest, last.0));
            lemma_push_key(rest, last);
            assert(live == rest.push(last));
            assert forall|c: SocketAddress|
                #[trigger] value_of(live, c) == (match value_of(s, c) {
                    Some(a) => if spec_is_expired(a, now) {
                        None::<Allocation>
                    } else {
                        Some(a)
                    },
                    None => None::<Allocation>,
                }) by {
                if c == last.0 {
                    assert(value_of(live, c) == Some(last.1));
                    assert(value_of(s, c) == Some(last.1));
                } else {
                    assert(value_of(live, c) == value_of(rest, c));
                    assert(value_of(s, c) == value_of(prefix, c));
                    assert(value_of(rest, c) == (match value_of(prefix, c) {
                        Some(a) => if spec_is_expired(a, now) {
                            None::<Allocation>
                        } else {
                            Some(a)
                        },
                        None => None::<Allocation>,
                    }));
                }
            }
        }
    }
}

/// The allocation table and the pool of free relay addresses.
#[derive(Debug, Clone)]
pub struct AllocationManager {
    pub allocations: Vec<(SocketAddress, Allocation)>,
    pub relay_address_pool: Vec<SocketAddress>,
}

impl AllocationManager {
    /// One allocation per client, each well formed and filed under its own
    /// client address.
    pub open spec fn wf(self) -> bool {
        &&& keys_unique(self.allocations@)
        &&& forall|i: int|
            0 <= i < self.allocations@.len() ==> (#[trigger] self.allocations@[i]).1.wf()
                && self.allocations@[i].1.client_address == self.allocations@[i].0
    }

    /// The allocation filed for a client, if any.
    pub open spec fn spec_alloc_of(self, c: SocketAddress) -> Option<Allocation> {
        value_of(self.allocations@, c)
    }

    pub fn new(relay_addresses: Vec<SocketAddress>) -> (r: Self)
        ensures
            r.wf(),
            r.relay_address_pool@ == relay_addresses@,
            r.allocations@ == Seq::<(SocketAddress, Allocation)>::empty(),
    {
        AllocationManager { allocations: Vec::new(), relay_address_pool: relay_addresses }
    }

    /// The index of a client in the allocation table, if present.
    fn find_index(&self, client_address: &SocketAddress) -> (r: Option<usize>)
        requires
            self.wf(),
        ensures
            match r {
                Some(i) => i < self.allocations@.len() && self.allocations@[i as int].0
                    == *client_address && has_key(self.allocations@, *client_address)
                    && crate::assoc::key_idx(self.allocations@, *client_address) == i,
                None => !has_key(self.allocations@, *client_address),
            },
    {
        let n: usize = self.allocations.len();
        let mut i: usize = 0;
        while i < n
            invariant
                i <= n,
                n == self.allocations@.len(),
                self.wf(),
                forall|j: int| 0 <= j < i ==> self.allocations@[j].0 != *client_address,
            decreases n - i,
        {
            if self.allocations[i].0 == *client_address {
                proof {
                    assert(has_key(self.allocations@, *client_address));
                    let k = crate::assoc::key_idx(self.allocations@, *client_address);
                    assert(self.allocations@[k].0 == *client_address);
                    assert(k == i as int);
                }
                return Some(i);
            }
            i = i + 1;
        }
        None
    }

    /// Files a fresh allocation for a client that has none, on the last free
    /// relay address; a second allocation for the same client is a mismatch,
    /// and an empty pool is exhausted capacity.
    pub fn create_allocation(&mut self, username: String, client_address: SocketAddress, now: u64) -> (r:
        Result<SocketAddress, TurnError>)
        requires
            old(self).wf(),
        ensures
            final(self).wf(),
            (r is Ok) == (old(self).spec_alloc_of(client_address) is None && old(self).relay_address_pool@.len() > 0),
            match r {
                Ok(relayed) => {
                    &&& relayed == old(self).relay_address_pool@.last()
                    &&& final(self).relay_address_pool@ == old(self).relay_address_pool@.drop_last()
                    &&& final(self).spec_alloc_of(client_address) matches Some(a) && a.username@
                        == username@ && a.relayed_address == relayed && a.client_address
                        == client_address && a.created_at == now && a.lifetime
                        == DEFAULT_ALLOCATION_LIFETIME && a.permissions@.len() == 0
                        && a.channel_bindings@.len() == 0
                    &&& forall|c: SocketAddress|
                        c != client_address ==> final(self).spec_alloc_of(c) == old(self).spec_alloc_of(c)
                },
                Err(e) => {
                    &&& final(self).allocations@ == old(self).allocations@
                    &&& final(self).relay_address_pool@ == old(self).relay_address_pool@
                    &&& (e == TurnError::AllocationMismatch) == (old(self).spec_alloc_of(
                        client_address,
                    ) is Some)
                    &&& (old(self).spec_alloc_of(client_address) is None ==> e
                        == TurnError::InsufficientCapacity)
                },
            },
    {
        if self.find_index(&client_address).is_some() {
            return Err(TurnError::AllocationMismatch);
        }

        let relayed_address = match self.relay_address_pool.pop() {
            Some(a) => a,
            None => {
                return Err(TurnError::InsufficientCapacity);
            },
        };

        let allocation = Allocation::new(username, relayed_address, client_address, now);
        proof {
            lemma_push_key(self.allocations@, (client_address, allocation));
        }
        self.allocations.push((client_address, allocation));
        Ok(relayed_address)
    }

    pub fn get_allocation(&self, client_address: &SocketAddress) -> (r: Option<&Allocation>)
        requires
            self.wf(),
        ensures
            match r {
                Some(a) => self.spec_alloc_of(*client_address) == Some(*a),
                None => self.spec_alloc_of(*client_address) is None,
            },
    {
        match self.find_index(client_address) {
            Some(i) => Some(&self.allocations[i].1),
            None => None,
        }
    }

    /// Restarts a filed allocation's clock with the requested lifetime;
    /// a missing allocation is a mismatch, an over-long lifetime is refused.
    pub fn refresh_allocation(
        &mut self,
        client_address: &SocketAddress,
        lifetime: u64,
        now: u64,
    ) -> (r: Result<(), TurnError>)
        requires
            old(self).wf(),
        ensures
            final(self).wf(),
            final(self).relay_address_pool@ == old(self).relay_address_pool@,
            (r is Ok) == (old(self).spec_alloc_of(*client_address) is Some && lifetime
                <= MAX_ALLOCATION_LIFETIME),
            r is Ok ==> (old(self).spec_alloc_of(*client_address) matches Some(a) && final(self).spec_alloc_of(*client_address) == Some(
                (Allocation { lifetime, created_at: now, ..a }),
            )),
            forall|c: SocketAddress|
                c != *client_address ==> final(self).spec_alloc_of(c) == old(self).spec_alloc_of(
                    c,
                ),
            r matches Err(e) ==> final(self).spec_alloc_of(*client_address) == old(self).spec_alloc_of(*client_address) && (if old(self).spec_alloc_of(*client_address)
                is None {
                e == TurnError::AllocationMismatch
            } else {
                e == TurnError::BadRequest
            }),
            old(self).spec_alloc_of(*client_address) is None ==> final(self).allocations@ == old(
                self,
            ).allocations@,
    {
        match self.find_index(client_address) {
            None => Err(TurnError::AllocationMismatch),
            Some(i) => {
                proof {
                    lemma_remove_key(self.allocations@, i as int);
                }
                let (key, mut allocation) = self.allocations.remove(i);
                let result = allocation.refresh(lifetime, now);
                proof {
                    lemma_push_key(self.allocations@, (key, allocation));
                }
                self.allocations.push((key, allocation));
                result
            },
        }
    }

    /// Unfiles a client's allocation and returns its relay address to the
    /// pool.
    pub fn remove_allocation(&mut self, client_address: &SocketAddress) -> (r: Option<Allocation>)
        requires
            old(self).wf(),
        ensures
            final(self).wf(),
            match r {
                Some(a) => {
                    &&& old(self).spec_alloc_of(*client_address) == Some(a)
                    &&& final(self).spec_alloc_of(*client_address) is None
                    &&& forall|c: SocketAddress|
                        c != *client_address ==> final(self).spec_alloc_of(c) == old(self).spec_alloc_of(c)
                    &&& final(self).relay_address_pool@ == old(self).relay_address_pool@.push(
                        a.relayed_address,
                    )
                },
                None => {
                    &&& old(self).spec_alloc_of(*client_address) is None
                    &&& final(self).allocations@ == old(self).allocations@
                    &&& final(self).relay_address_pool@ == old(self).relay_address_pool@
                },
            },
    {
        match self.find_index(client_address) {
            None => None,
            Some(i) => {
                proof {
                    lemma_remove_key(self.allocations@, i as int);
                }
                let (_key, allocation) = self.allocations.remove(i);
                self.relay_address_pool.push(allocation.relayed_address);
                Some(allocation)
            },
        }
    }

    /// Stamps a permission on a client's allocation; a missing allocation is
    /// a mismatch.
    pub fn add_permission(
        &mut self,
        client_address: &SocketAddress,
        peer_address: SocketAddress,
        now: u64,
    ) -> (r: Result<(), TurnError>)
        requires
            old(self).wf(),
        ensures
            final(self).wf(),
            final(self).relay_address_pool@ == old(self).relay_address_pool@,
            (r is Ok) == (old(self).spec_alloc_of(*client_address) is Some),
            r matches Err(e) ==> e == TurnError::AllocationMismatch && final(self).allocations@
                == old(self).allocations@,
            r is Ok ==> (old(self).spec_alloc_of(*client_address) matches Some(a) && final(self).spec_alloc_of(*client_address) matches Some(a2) && a2.spec_permission_time(
                peer_address,
            ) == Some(now) && (forall|p: SocketAddress|
                p != peer_address ==> a2.spec_permission_time(p) == a.spec_permission_time(p))
                && a2.same_but_permissions(a)),
            forall|c: SocketAddress|
                c != *client_address ==> final(self).spec_alloc_of(c) == old(self).spec_alloc_of(
                    c,
                ),
    {
        match self.find_index(client_address) {
            None => Err(TurnError::AllocationMismatch),
            Some(i) => {
                proof {
                    lemma_remove_key(self.allocations@, i as int);
                }
                let (key, mut allocation) = self.allocations.remove(i);
                allocation.add_permission(peer_address, now);
                proof {
                    lemma_push_key(self.allocations@, (key, allocation));
                }
                self.allocations.push((key, allocation));
                Ok(())
            },
        }
    }

    /// Binds a channel on a client's allocation; a missing allocation is a
    /// mismatch, and the binding rules of the allocation apply.
    pub fn add_channel_binding(
        &mut self,
        client_address: &SocketAddress,
        channel_number: u16,
        peer_address: SocketAddress,
        now: u64,
    ) -> (r: Result<(), TurnError>)
        requires
            old(self).wf(),
        ensures
            final(self).wf(),
            final(self).relay_address_pool@ == old(self).relay_address_pool@,
            (r is Ok) == (old(self).spec_alloc_of(*client_address) matches Some(a) && (
            spec_channel_in_range(channel_number) && (a.spec_peer_of_channel(channel_number)
                is None || a.spec_peer_of_channel(channel_number) == Some(peer_address))
                && !a.spec_peer_bound_elsewhere(channel_number, peer_address))),
            r is Ok ==> (old(self).spec_alloc_of(*client_address) matches Some(a) && final(self).spec_alloc_of(*client_address) matches Some(a2) && a2.spec_peer_of_channel(
                channel_number,
            ) == Some(peer_address) && (forall|c: u16|
                c != channel_number ==> a2.spec_peer_of_channel(c) == a.spec_peer_of_channel(c))
                && a2.spec_permission_time(peer_address) == Some(now) && (forall|
                p: SocketAddress,
            |
                p != peer_address ==> a2.spec_permission_time(p) == a.spec_permission_time(p))
                && a2.username == a.username && a2.relayed_address == a.relayed_address
                && a2.client_address == a.client_address && a2.created_at == a.created_at
                && a2.lifetime == a.lifetime),
            r matches Err(e) ==> (if old(self).spec_alloc_of(*client_address) is None {
                e == TurnError::AllocationMismatch
            } else {
                e == TurnError::BadRequest
            }) && final(self).spec_alloc_of(*client_address) == old(self).spec_alloc_of(
                *client_address,
            ),
            old(self).spec_alloc_of(*client_address) is None ==> final(self).allocations@ == old(
                self,
            ).allocations@,
            forall|c: SocketAddress|
                c != *client_address ==> final(self).spec_alloc_of(c) == old(self).spec_alloc_of(
                    c,
                ),
    {
        match self.find_index(client_address) {
            None => Err(TurnError::AllocationMismatch),
            Some(i) => {
                proof {
                    lemma_remove_key(self.allocations@, i as int);
                }
                let (key, mut allocation) = self.allocations.remove(i);
                let result = allocation.add_channel_binding(channel_number, peer_address, now);
                proof {
                    lemma_push_key(self.allocations@, (key, allocation));
                }
                self.allocations.push((key, allocation));
                result
            },
        }
    }

    /// Unfiles every expired allocation and returns each one's relay address
    /// to the pool; live allocations stay as they are.
    pub fn cleanup_expired(&mut self, now: u64)
        requires
            old(self).wf(),
        ensures
            final(self).wf(),
            final(self).allocations@ == live_allocations(old(self).allocations@, now),
            final(self).relay_address_pool@ == old(self).relay_address_pool@ + expired_relays(
                old(self).allocations@,
                now,
            ),
            forall|c: SocketAddress|
                #[trigger] final(self).spec_alloc_of(c) == (match old(self).spec_alloc_of(c) {
                    Some(a) => if spec_is_expired(a, now) {
                        None::<Allocation>
                    } else {
                        Some(a)
                    },
                    None => None::<Allocation>,
                }),
    {
        let ghost orig = self.allocations@;
        let n: usize = self.allocations.len();
        let mut kept: Vec<(SocketAddress, Allocation)> = Vec::new();
        let mut i: usize = 0;
        while i < n
            invariant
                i <= n,
                n == orig.len(),
                orig == old(self).allocations@,
                old(self).wf(),
                self.allocations@ == orig.subrange(i as int, n as int),
                kept@ == live_allocations(orig.subrange(0, i as int), now),
                self.relay_address_pool@ == old(self).relay_address_pool@ + expired_relays(
                    orig.subrange(0, i as int),
                    now,
                ),
            decreases n - i,
        {
            assert(self.allocations@.len() > 0);
            let (addr, allocation) = self.allocations.remove(0);
            assert(orig.subrange(i as int, n as int)[0] == orig[i as int]);
            let expired = allocation.is_expired(now);
            if expired {
                self.relay_address_pool.push(allocation.relayed_address);
            } else {
                kept.push((addr, allocation));
            }
            i = i + 1;
            proof {
                assert(self.allocations@ =~= orig.subrange(i as int, n as int));
                let sub_new = orig.subrange(0, i as int);
                assert(sub_new.drop_last() =~= orig.subrange(0, i - 1));
                assert(sub_new.last() == orig[i - 1]);
                assert(kept@ =~= live_allocations(sub_new, now));
                assert(self.relay_address_pool@ =~= old(self).relay_address_pool@
                    + expired_relays(sub_new, now));
            }
        }
        assert(orig.subrange(0, n as int) =~= orig);
        self.allocations = kept;
        proof {
            lemma_live_allocations(orig, now);
            assert forall|j: int| 0 <= j < final(self).allocations@.len() implies (
            #[trigger] final(self).allocations@[j]).1.wf() && final(self).allocations@[j].1.client_address
                == final(self).allocations@[j].0 by {
                let c = final(self).allocations@[j].0;
                assert(keys_unique(final(self).allocations@));
                assert(has_key(final(self).allocations@, c)) by {
                    assert(final(self).allocations@[j].0 == c);
                }
                let k = crate::assoc::key_idx(final(self).allocations@, c);
                assert(k == j);
                assert(value_of(final(self).allocations@, c) == Some(
                    final(self).allocations@[j].1,
                ));
                assert(value_of(orig, c) is Some);
                let k0 = crate::assoc::key_idx(orig, c);
                assert(orig[k0].1.wf() && orig[k0].1.client_address == orig[k0].0);
            }
        }
    }
}

/// The allocation filed for a client is well formed and filed under that
/// client address.
pub proof fn lemma_alloc_of_wf(m: AllocationManager, c: SocketAddress)
    requires
        m.wf(),
        m.spec_alloc_of(c) is Some,
    ensures
        m.spec_alloc_of(c)->0.wf(),
        m.spec_alloc_of(c)->0.client_address == c,
{
    let k = crate::assoc::key_idx(m.allocations@, c);
    assert(m.allocations@[k].1.wf() && m.allocations@[k].1.client_address == m.allocations@[k].0);
}

} // verus!
