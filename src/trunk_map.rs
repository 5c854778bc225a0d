//! The registry of the trunks of one world: for each chunk position, the
//! handle of its asset and whether that asset has finished loading.
use vstd::prelude::*;

verus! {

/// Whether a trunk's asset is ready.
#[derive(Clone, Copy, Debug, PartialEq, Eq, Structural)]
pub enum TrunkLoadStatus {
    /// The trunk's asset is requested but not ready.
    Unloaded,
    /// The trunk's asset is loaded and ready to use.
    Loaded,
}

impl Default for TrunkLoadStatus {
    fn default() -> (r: TrunkLoadStatus)
        ensures
            r == TrunkLoadStatus::Unloaded,
    {
        TrunkLoadStatus::Unloaded
    }
}

/// What the asset system reports of an asset it was asked to load.
#[derive(Clone, Copy, Debug, PartialEq, Eq, Structural)]
pub enum AssetLoadState {
    NotLoaded,
    Loading,
    Loaded,
    Failed,
}

/// A chunk position in the world, in whole chunks.
#[derive(Clone, Copy, Debug, PartialEq, Eq, Structural)]
pub struct TrunkPos {
    pub x: i32,
    pub y: i32,
}

/// An opaque key of a trunk asset: the registry hands out a new one for each
/// chunk it starts to load, and the asset system keeps the asset under it.
#[derive(Clone, Copy, Debug, PartialEq, Eq, Structural)]
pub struct TrunkHandle {
    pub id: u64,
}

/// The record of one chunk of the world.
#[derive(Clone, Copy, Debug, PartialEq, Eq, Structural)]
pub struct TrunkStatus {
    pub load_status: TrunkLoadStatus,
    pub pos: TrunkPos,
    pub trunk: TrunkHandle,
}

/// The answer to a request for a chunk: its handle, and whether the caller
/// must now ask the asset system to load the chunk under that handle.
#[derive(Clone, Copy, Debug, PartialEq, Eq, Structural)]
pub struct ChunkRequest {
    pub handle: TrunkHandle,
    pub load: bool,
}

/// The chunks of one world.
#[derive(Debug)]
pub struct TrunkMap {
    pub trunks: Vec<TrunkStatus>,
    pub world_id: u32,
    /// The id of the next handle to hand out; every handle in use is below it.
    pub next_handle: u64,
}

/// The registry's state as mathematical values.
pub struct TrunkMapModel {
    pub trunks: Seq<TrunkStatus>,
    pub world_id: u32,
    pub next_handle: u64,
}

/// Index of the entry of `pos` in `trunks`, if any.
pub open spec fn entry_of(trunks: Seq<TrunkStatus>, pos: TrunkPos) -> Option<int> {
    if exists|i: int| 0 <= i < trunks.len() && trunks[i].pos == pos {
        Some(choose|i: int| 0 <= i < trunks.len() && trunks[i].pos == pos)
    } else {
        None
    }
}

impl TrunkMapModel {
    /// Positions are unique, and so are handles, all below `next_handle`.
    pub open spec fn wf(self) -> bool {
        &&& forall|i: int, j: int|
            0 <= i < j < self.trunks.len() ==> #[trigger] self.trunks[i].pos != #[trigger] self.trunks[j].pos
        &&& forall|i: int, j: int|
            0 <= i < j < self.trunks.len() ==> #[trigger] self.trunks[i].trunk != #[trigger] self.trunks[j].trunk
        &&& forall|i: int| 0 <= i < self.trunks.len() ==> #[trigger] self.trunks[i].trunk.id < self.next_handle
    }

    /// The state and answer after a request for the chunk at `pos`: the
    /// existing handle where the chunk has an entry; otherwise a new handle
    /// and a new entry, not yet loaded, at the end; `None` where no handle is left.
    pub open spec fn request(self, pos: TrunkPos) -> (TrunkMapModel, Option<ChunkRequest>) {
        match entry_of(self.trunks, pos) {
            Some(i) => (self, Some(ChunkRequest { handle: self.trunks[i].trunk, load: false })),
            None => if self.next_handle == u64::MAX {
                (self, None)
            } else {
                let handle = TrunkHandle { id: self.next_handle };
                (
                    TrunkMapModel {
                        trunks: self.trunks.push(
                            TrunkStatus { load_status: TrunkLoadStatus::Unloaded, pos, trunk: handle },
                        ),
                        world_id: self.world_id,
                        next_handle: (self.next_handle + 1) as u64,
                    },
                    Some(ChunkRequest { handle, load: true }),
                )
            },
        }
    }

    /// The state and answer after a poll of the chunk at `pos`, the asset
    /// system reporting `asset`: an unloaded entry becomes loaded when the
    /// asset is; a loaded entry stays loaded.
    pub open spec fn poll(self, pos: TrunkPos, asset: AssetLoadState) -> (TrunkMapModel, Option<TrunkLoadStatus>) {
        match entry_of(self.trunks, pos) {
            None => (self, None),
            Some(i) => if self.trunks[i].load_status == TrunkLoadStatus::Unloaded && asset == AssetLoadState::Loaded {
                (
                    TrunkMapModel {
                        trunks: self.trunks.update(i, TrunkStatus { load_status: TrunkLoadStatus::Loaded, ..self.trunks[i] }),
                        ..self
                    },
                    Some(TrunkLoadStatus::Loaded),
                )
            } else {
                (self, Some(self.trunks[i].load_status))
            },
        }
    }

    /// The state after the entry of `pos`, if any, is removed; the other
    /// entries keep their order.
    pub open spec fn evict(self, pos: TrunkPos) -> TrunkMapModel {
        match entry_of(self.trunks, pos) {
            None => self,
            Some(i) => TrunkMapModel { trunks: self.trunks.remove(i), ..self },
        }
    }
}

impl View for TrunkMap {
    type V = TrunkMapModel;

    open spec fn view(&self) -> TrunkMapModel {
        TrunkMapModel { trunks: self.trunks@, world_id: self.world_id, next_handle: self.next_handle }
    }
}

impl Default for TrunkMap {
    /// An empty world with id 0.
    fn default() -> (r: TrunkMap)
        ensures
            r@.trunks == Seq::<TrunkStatus>::empty(),
            r@.world_id == 0,
            r@.next_handle == 0,
            r@.wf(),
    {
        TrunkMap::new(0)
    }
}

impl TrunkMap {
    /// An empty world with id `world_id`.
    pub fn new(world_id: u32) -> (r: TrunkMap)
        ensures
            r@.trunks == Seq::<TrunkStatus>::empty(),
            r@.world_id == world_id,
            r@.next_handle == 0,
            r@.wf(),
    {
        TrunkMap { trunks: Vec::new(), world_id, next_handle: 0 }
    }

    /// Index of the entry of `pos`, if any.
    pub fn find(&self, pos: TrunkPos) -> (r: Option<usize>)
        requires
            self@.wf(),
        ensures
            match r {
                None => entry_of(self@.trunks, pos) is None,
                Some(k) => entry_of(self@.trunks, pos) == Some(k as int),
            },
    {
        let mut k: usize = 0;
        while k < self.trunks.len()
            invariant
                k <= self.trunks@.len(),
                self@.wf(),
                forall|j: int| 0 <= j < k ==> self.trunks@[j].pos != pos,
            decreases self.trunks@.len() - k,
        {
            if self.trunks[k].pos == pos {
                proof {
                    let i = choose|i: int| 0 <= i < self.trunks@.len() && self.trunks@[i].pos == pos;
                    assert(self.trunks@[i].pos == pos);
                    if i != k as int {
                        assert(k < i);
        assert(self@.trunks[k as int].pos != self@.trunks[i].pos);
                    }
                }
                return Some(k);
            }
            k = k + 1;
        }
        None
    }
    /// The handle of the chunk at `pos`. Where the chunk has no entry yet, a
    /// new handle is handed out, an entry not yet loaded is appended, and the
    /// answer asks the caller to load the chunk under that handle. `None`
    /// only where the chunk has no entry and every handle is used.
    pub fn request_chunk(&mut self, pos: TrunkPos) -> (r: Option<ChunkRequest>)
        requires
            old(self)@.wf(),
        ensures
            (final(self)@, r) == old(self)@.request(pos),
            final(self)@.wf(),
    {
        match self.find(pos) {
            Some(i) => Some(ChunkRequest { handle: self.trunks[i].trunk, load: false }),
            None => {
                if self.next_handle == u64::MAX {
                    return None;
                }
                let handle = TrunkHandle { id: self.next_handle };
                let ghost before = self@;
                self.trunks.push(TrunkStatus { load_status: TrunkLoadStatus::Unloaded, pos, trunk: handle });
                self.next_handle = self.next_handle + 1;
                proof {
                    assert(!(exists|i: int| 0 <= i < before.trunks.len() && before.trunks[i].pos == pos));
                    assert forall|i: int, j: int| 0 <= i < j < self@.trunks.len() implies
                        #[trigger] self@.trunks[i].pos != #[trigger] self@.trunks[j].pos by {
                        if j == before.trunks.len() {
                            assert(before.trunks[i].pos != pos);
                        } else {
                            assert(before.trunks[i].pos != before.trunks[j].pos);
                        }
                    }
                    assert forall|i: int, j: int| 0 <= i < j < self@.trunks.len() implies
                        #[trigger] self@.trunks[i].trunk != #[trigger] self@.trunks[j].trunk by {
                        if j == before.trunks.len() {
                            assert(before.trunks[i].trunk.id < before.next_handle);
                        } else {
                            assert(before.trunks[i].trunk != before.trunks[j].trunk);
                        }
                    }
                    assert forall|i: int| 0 <= i < self@.trunks.len() implies
                        #[trigger] self@.trunks[i].trunk.id < self@.next_handle by {
                        if i < before.trunks.len() {
                            assert(before.trunks[i].trunk.id < before.next_handle);
                        }
                    }
                    assert(self@.trunks =~= before.request(pos).0.trunks);
                }
                Some(ChunkRequest { handle, load: true })
            },
        }
    }

    /// The status of the chunk at `pos`, after reconciling it with what the
    /// asset system reports of its asset: an unloaded chunk becomes loaded
    /// when `asset` is `Loaded`, and a loaded chunk stays loaded. `None` where
    /// the chunk has no entry.
    pub fn poll_status(&mut self, pos: TrunkPos, asset: AssetLoadState) -> (r: Option<TrunkLoadStatus>)
        requires
            old(self)@.wf(),
        ensures
            (final(self)@, r) == old(self)@.poll(pos, asset),
            final(self)@.wf(),
    {
        match self.find(pos) {
            None => None,
            Some(i) => {
                let cur = self.trunks[i];
                if cur.load_status == TrunkLoadStatus::Unloaded && asset == AssetLoadState::Loaded {
                    let ghost before = self@;
                    self.trunks.set(i, TrunkStatus { load_status: TrunkLoadStatus::Loaded, ..cur });
                    proof {
                        assert(self@.trunks =~= before.poll(pos, asset).0.trunks);
                        assert forall|a: int, b: int| 0 <= a < b < self@.trunks.len() implies
                            #[trigger] self@.trunks[a].pos != #[trigger] self@.trunks[b].pos by {
                            assert(before.trunks[a].pos != before.trunks[b].pos);
                        }
                        assert forall|a: int, b: int| 0 <= a < b < self@.trunks.len() implies
                            #[trigger] self@.trunks[a].trunk != #[trigger] self@.trunks[b].trunk by {
                            assert(before.trunks[a].trunk != before.trunks[b].trunk);
                        }
                        assert forall|a: int| 0 <= a < self@.trunks.len() implies
                            #[trigger] self@.trunks[a].trunk.id < self@.next_handle by {
                            assert(before.trunks[a].trunk.id < before.next_handle);
                        }
                    }
                    Some(TrunkLoadStatus::Loaded)
                } else {
                    Some(cur.load_status)
                }
            },
        }
    }

    /// Removes the entry of the chunk at `pos`, if any; the other entries
    /// keep their order.
    pub fn evict(&mut self, pos: TrunkPos)
        requires
            old(self)@.wf(),
        ensures
            final(self)@ == old(self)@.evict(pos),
            final(self)@.wf(),
    {
        match self.find(pos) {
            None => {},
            Some(i) => {
                let ghost before = self@;
                self.trunks.remove(i);
                proof {
                    let k = i as int;
                    assert(self@.trunks =~= before.evict(pos).trunks);
                    assert forall|a: int, b: int| 0 <= a < b < self@.trunks.len() implies
                        #[trigger] self@.trunks[a].pos != #[trigger] self@.trunks[b].pos by {
                        let a1 = if a < k { a } else { a + 1 };
                        let b1 = if b < k { b } else { b + 1 };
                        assert(self@.trunks[a] == before.trunks[a1]);
                        assert(self@.trunks[b] == before.trunks[b1]);
                        assert(before.trunks[a1].pos != before.trunks[b1].pos);
                    }
                    assert forall|a: int, b: int| 0 <= a < b < self@.trunks.len() implies
                        #[trigger] self@.trunks[a].trunk != #[trigger] self@.trunks[b].trunk by {
                        let a1 = if a < k { a } else { a + 1 };
                        let b1 = if b < k { b } else { b + 1 };
                        assert(self@.trunks[a] == before.trunks[a1]);
                        assert(self@.trunks[b] == before.trunks[b1]);
                        assert(before.trunks[a1].trunk != before.trunks[b1].trunk);
                    }
                    assert forall|a: int| 0 <= a < self@.trunks.len() implies
                        #[trigger] self@.trunks[a].trunk.id < self@.next_handle by {
                        let a1 = if a < k { a } else { a + 1 };
                        assert(self@.trunks[a] == before.trunks[a1]);
                        assert(before.trunks[a1].trunk.id < before.next_handle);
                    }
                }
            },
        }
    }
}

/// A second request for the same chunk hands back the handle of the first
/// and changes nothing: a chunk is loaded once, however often it is requested.
pub proof fn request_twice_same_handle(m: TrunkMapModel, pos: TrunkPos)
    requires
        m.wf(),
    ensures
        m.request(pos).1 is Some ==> m.request(pos).0.request(pos) == (
            m.request(pos).0,
            Some(ChunkRequest { handle: m.request(pos).1->0.handle, load: false }),
        ),
{
    let (m1, r1) = m.request(pos);
    if r1 is Some && entry_of(m.trunks, pos) is None {
        let last = m.trunks.len() as int;
        assert(m1.trunks[last].pos == pos);
        let i = choose|i: int| 0 <= i < m1.trunks.len() && m1.trunks[i].pos == pos;
        if i != last {
            assert(m.trunks[i].pos == pos);
        }
        assert(entry_of(m1.trunks, pos) == Some(last));
    }
}

/// Polling never takes a chunk from loaded back to unloaded, changes no
/// position or handle, and loads a chunk only when its asset is loaded; once a
/// poll has reported a chunk loaded, every later poll reports it loaded and
/// changes nothing, whatever the asset system says.
pub proof fn poll_is_monotone(m: TrunkMapModel, pos: TrunkPos, asset: AssetLoadState, later: AssetLoadState)
    requires
        m.wf(),
    ensures
        m.poll(pos, asset).0.wf(),
        m.poll(pos, asset).0.trunks.len() == m.trunks.len(),
        forall|i: int| 0 <= i < m.trunks.len() ==> {
            &&& (#[trigger] m.poll(pos, asset).0.trunks[i]).pos == m.trunks[i].pos
            &&& m.poll(pos, asset).0.trunks[i].trunk == m.trunks[i].trunk
            &&& m.trunks[i].load_status == TrunkLoadStatus::Loaded
                ==> m.poll(pos, asset).0.trunks[i].load_status == TrunkLoadStatus::Loaded
            &&& m.poll(pos, asset).0.trunks[i].load_status != m.trunks[i].load_status
                ==> asset == AssetLoadState::Loaded && m.trunks[i].pos == pos
        },
        m.poll(pos, asset).1 == Some(TrunkLoadStatus::Loaded) ==> m.poll(pos, asset).0.poll(pos, later) == (
            m.poll(pos, asset).0,
            Some(TrunkLoadStatus::Loaded),
        ),
{
    let (m1, r1) = m.poll(pos, asset);
    match entry_of(m.trunks, pos) {
        None => {},
        Some(k) => {
            assert(m.trunks[k].pos == pos);
            assert forall|a: int, b: int| 0 <= a < b < m1.trunks.len() implies
                #[trigger] m1.trunks[a].pos != #[trigger] m1.trunks[b].pos by {
                assert(m.trunks[a].pos != m.trunks[b].pos);
            }
            assert forall|a: int, b: int| 0 <= a < b < m1.trunks.len() implies
                #[trigger] m1.trunks[a].trunk != #[trigger] m1.trunks[b].trunk by {
                assert(m.trunks[a].trunk != m.trunks[b].trunk);
            }
            assert forall|a: int| 0 <= a < m1.trunks.len() implies
                #[trigger] m1.trunks[a].trunk.id < m1.next_handle by {
                assert(m.trunks[a].trunk.id < m.next_handle);
            }
            assert forall|i: int| 0 <= i < m.trunks.len() && #[trigger] m1.trunks[i].load_status != m.trunks[i].load_status
                implies m.trunks[i].pos == pos by {
                assert(i == k);
            }
            assert(m1.trunks[k].pos == pos);
            let j = choose|j: int| 0 <= j < m1.trunks.len() && m1.trunks[j].pos == pos;
            if j != k {
                if j < k {
                    assert(m1.trunks[j].pos != m1.trunks[k].pos);
                } else {
                    assert(m1.trunks[k].pos != m1.trunks[j].pos);
                }
            }
            assert(entry_of(m1.trunks, pos) == Some(k));
        },
    }
}

} // verus!
