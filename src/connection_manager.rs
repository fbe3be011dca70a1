use vstd::prelude::*;
use crate::table::Table;

verus! {

/// Maps each registered camera identifier to the handle of its outbound
/// control channel. The registry never tears a handle down itself.
pub struct ConnectionManager {
    handles: Table<u64>,
}

impl View for ConnectionManager {
    type V = Map<Seq<char>, u64>;

    closed spec fn view(&self) -> Map<Seq<char>, u64> {
        self.handles@
    }
}

impl ConnectionManager {
    pub fn new() -> (r: Self)
        ensures
            r@ == Map::<Seq<char>, u64>::empty(),
    {
        ConnectionManager { handles: Table::new() }
    }

    /// Binds `camera_id` to `handle`, replacing an earlier binding.
    pub fn add_connection(&mut self, camera_id: String, handle: u64)
        ensures
            final(self)@ == old(self)@.insert(camera_id@, handle),
    {
        self.handles.insert(camera_id, handle);
    }

    /// Forgets `camera_id`; nothing happens where it is not registered.
    pub fn remove_connection(&mut self, camera_id: &str)
        ensures
            final(self)@ == old(self)@.remove(camera_id@),
    {
        let key = camera_id.to_owned();
        let _ = self.handles.remove(&key);
    }

    /// The handle registered for `camera_id`, if any.
    pub fn get_connection(&self, camera_id: &str) -> (r: Option<u64>)
        ensures
            r == (if self@.contains_key(camera_id@) { Some(self@[camera_id@]) } else { None::<u64> }),
    {
        let key = camera_id.to_owned();
        match self.handles.get(&key) {
            Some(h) => Some(*h),
            None => None,
        }
    }

    pub fn contains(&self, camera_id: &str) -> (r: bool)
        ensures
            r == self@.contains_key(camera_id@),
    {
        let key = camera_id.to_owned();
        self.handles.contains_key(&key)
    }
}

} // verus!
