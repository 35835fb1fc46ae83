use vstd::prelude::*;
use crate::outside::now_nanos;

verus! {

/// A CDN edge node as tracked by the origin. `last_heartbeat` is the time of
/// the node's latest heartbeat, in nanoseconds since the UNIX epoch.
#[derive(Debug)]
pub struct EdgeNode {
    pub node_id: String,
    pub location: String,
    pub capacity: usize,
    pub current_load: usize,
    pub last_heartbeat: u64,
}

impl Clone for EdgeNode {
    fn clone(&self) -> (r: Self)
        ensures
            r == *self,
    {
        EdgeNode {
            node_id: self.node_id.clone(),
            location: self.location.clone(),
            capacity: self.capacity,
            current_load: self.current_load,
            last_heartbeat: self.last_heartbeat,
        }
    }
}

impl EdgeNode {
    /// A node with no load whose heartbeat is the current time.
    pub fn new(node_id: String, location: String, capacity: usize) -> (n: Self)
        ensures
            n.node_id == node_id,
            n.location == location,
            n.capacity == capacity,
            n.current_load == 0,
    {
        Self::with_heartbeat(node_id, location, capacity, now_nanos())
    }

    /// A node with no load whose latest heartbeat is `heartbeat`.
    pub fn with_heartbeat(node_id: String, location: String, capacity: usize, heartbeat: u64) -> (n: Self)
        ensures
            n.node_id == node_id,
            n.location == location,
            n.capacity == capacity,
            n.current_load == 0,
            n.last_heartbeat == heartbeat,
    {
        EdgeNode { node_id, location, capacity, current_load: 0, last_heartbeat: heartbeat }
    }

    /// Records a heartbeat reporting `load`, stamped with the current time.
    pub fn update_load(&mut self, load: usize)
        ensures
            final(self).current_load == load,
            final(self).node_id == old(self).node_id,
            final(self).location == old(self).location,
            final(self).capacity == old(self).capacity,
    {
        let now = now_nanos();
        self.update_load_at(load, now);
    }

    /// Records a heartbeat reporting `load`, received at time `now`.
    pub fn update_load_at(&mut self, load: usize, now: u64)
        ensures
            *final(self) == (EdgeNode { current_load: load, last_heartbeat: now, ..*old(self) }),
    {
        self.current_load = load;
        self.last_heartbeat = now;
    }

    /// Whether the node can take one more viewer.
    pub fn is_available(&self) -> (b: bool)
        ensures
            b == (self.current_load < self.capacity),
    {
        self.current_load < self.capacity
    }
}

} // verus!
