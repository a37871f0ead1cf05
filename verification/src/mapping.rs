//! The pointer directory: a bidirectional mapping between entity slots and
//! dense 1-based ids, scoped to a single save or load operation.
//!
//! Id 0 always stands for "no reference". During a save the directory maps a
//! slot to its id (`SaveMapping`); during a load it maps an id back to the
//! slot that was pre-allocated for it (`LoadMapping`). A non-null reference
//! that is absent from the save directory is a dangling or out-of-pool
//! reference and is reported as a hard error, never coerced to null; an id
//! past the load directory is reported as corruption together with the
//! offending id.

use vstd::prelude::*;

use crate::errors::{LoadError, SaveError};

verus! {

/// `id` over a directory view: what a directory whose slot->id table is
/// `ids` answers for a reference.
pub open spec fn spec_id_seq(ids: Seq<u32>, r: Option<usize>) -> Result<u32, SaveError> {
    match r {
        None => Ok(0u32),
        Some(slot) => if slot < ids.len() && ids[slot as int] != 0 {
            Ok(ids[slot as int])
        } else {
            Err(SaveError::InvalidPointer)
        },
    }
}

/// `pointer` over a directory view: what a directory whose id->slot table
/// is `slots` answers for an id.
pub open spec fn spec_pointer_seq(slots: Seq<usize>, id: u32) -> Result<Option<usize>, LoadError> {
    if id == 0 {
        Ok(None)
    } else if id - 1 < slots.len() {
        Ok(Some(slots[id - 1]))
    } else {
        Err(LoadError::Corrupted(id))
    }
}

/// The view of the directory of a load that pre-allocates slots `0..n`.
pub open spec fn dense_view(n: nat) -> Seq<usize> {
    Seq::new(n, |i: int| i as usize)
}

/// Slot -> dense id directory used while saving.
pub struct SaveMapping {
    /// `ids[slot]` is the id of `slot`, or 0 where the slot has none.
    ids: Vec<u32>,
    /// How many slots hold an id.
    count: u32,
}

impl View for SaveMapping {
    type V = Seq<u32>;

    closed spec fn view(&self) -> Seq<u32> {
        self.ids@
    }
}

impl SaveMapping {
    /// Number of mapped references.
    pub closed spec fn spec_len(&self) -> u32 {
        self.count
    }

    /// What `id` answers: 0 for null, the slot's id where it has one, and
    /// `InvalidPointer` for a slot outside the directory.
    pub open spec fn spec_id(&self, r: Option<usize>) -> Result<u32, SaveError> {
        spec_id_seq(self@, r)
    }

    /// An empty directory: every non-null reference is unmapped.
    pub fn new() -> (r: SaveMapping)
        ensures
            r@ == Seq::<u32>::empty(),
            r.spec_len() == 0,
    {
        SaveMapping { ids: Vec::new(), count: 0 }
    }

    /// The dense id of a reference: null is 0 unconditionally; a slot that
    /// is not in the directory is a fatal save error.
    pub fn id(&self, val: Option<usize>) -> (r: Result<u32, SaveError>)
        ensures
            r == self.spec_id(val),
    {
        match val {
            None => Ok(0),
            Some(slot) => {
                if slot < self.ids.len() {
                    let id = self.ids[slot];
                    if id != 0 {
                        Ok(id)
                    } else {
                        Err(SaveError::InvalidPointer)
                    }
                } else {
                    Err(SaveError::InvalidPointer)
                }
            },
        }
    }

    pub fn len(&self) -> (r: u32)
        ensures
            r == self.spec_len(),
    {
        self.count
    }

    /// The directory over the slots of one pool in traversal order: the k-th
    /// slot of `order` gets id k+1; slots outside `order` get none.
    pub fn from_order(order: &Vec<usize>, pool_len: usize) -> (r: SaveMapping)
        requires
            order@.len() <= pool_len,
            pool_len < 0xffff_ffff,
            forall|k: int| 0 <= k < order@.len() ==> order@[k] < pool_len,
            forall|k1: int, k2: int|
                0 <= k1 < k2 < order@.len() ==> order@[k1] != order@[k2],
        ensures
            r@.len() == pool_len,
            r.spec_len() == order@.len(),
            forall|k: int| 0 <= k < order@.len() ==> r@[order@[k] as int] == k + 1,
            forall|s: int|
                0 <= s < pool_len && !order@.contains(s as usize) ==> r@[s] == 0,
    {
        let mut ids: Vec<u32> = Vec::new();
        let mut i: usize = 0;
        while i < pool_len
            invariant
                ids@.len() == i,
                i <= pool_len,
                forall|s: int| 0 <= s < i ==> ids@[s] == 0,
            decreases pool_len - i,
        {
            ids.push(0);
            i = i + 1;
        }
        let mut k: usize = 0;
        while k < order.len()
            invariant
                ids@.len() == pool_len,
                k <= order@.len(),
                order@.len() <= pool_len,
                pool_len < 0xffff_ffff,
                forall|j: int| 0 <= j < order@.len() ==> order@[j] < pool_len,
                forall|k1: int, k2: int|
                    0 <= k1 < k2 < order@.len() ==> order@[k1] != order@[k2],
                forall|j: int| 0 <= j < k ==> ids@[order@[j] as int] == j + 1,
                forall|s: int|
                    0 <= s < pool_len && ids@[s] != 0 ==> exists|j: int|
                        0 <= j < k && order@[j] == s,
            decreases order@.len() - k,
        {
            let slot = order[k];
            ids[slot] = (k + 1) as u32;
            assert(forall|j: int| 0 <= j < k ==> order@[j] != order@[k as int]);
            k = k + 1;
        }
        proof {
            assert(forall|s: int|
                0 <= s < pool_len && !order@.contains(s as usize) ==> ids@[s] == 0);
        }
        SaveMapping { ids, count: order.len() as u32 }
    }
}

/// Id -> slot directory used while loading.
pub struct LoadMapping {
    /// `slots[id - 1]` is the slot pre-allocated for `id`.
    slots: Vec<usize>,
}

impl View for LoadMapping {
    type V = Seq<usize>;

    closed spec fn view(&self) -> Seq<usize> {
        self.slots@
    }
}

impl LoadMapping {
    /// What `pointer` answers: null for id 0, the pre-allocated slot for an
    /// id within the directory, and corruption (with the id) past it.
    pub open spec fn spec_pointer(&self, id: u32) -> Result<Option<usize>, LoadError> {
        spec_pointer_seq(self@, id)
    }

    /// An empty directory: every non-zero id is rejected.
    pub fn new() -> (r: LoadMapping)
        ensures
            r@ == Seq::<usize>::empty(),
    {
        LoadMapping { slots: Vec::new() }
    }

    /// The directory of a load that pre-allocated slots `0..n` in record
    /// order: id k+1 resolves to slot k.
    pub fn dense(n: usize) -> (r: LoadMapping)
        ensures
            r@ == dense_view(n as nat),
    {
        let mut slots: Vec<usize> = Vec::new();
        let mut i: usize = 0;
        while i < n
            invariant
                slots@.len() == i,
                i <= n,
                forall|k: int| 0 <= k < i ==> slots@[k] == k,
            decreases n - i,
        {
            slots.push(i);
            i = i + 1;
        }
        proof {
            assert(slots@ =~= dense_view(n as nat));
        }
        LoadMapping { slots }
    }

    /// The slot an id resolves to: id 0 is null; an id past the directory's
    /// pre-sized range is rejected, reporting the offending id.
    pub fn pointer(&self, id: u32) -> (r: Result<Option<usize>, LoadError>)
        ensures
            r == self.spec_pointer(id),
    {
        if id == 0 {
            Ok(None)
        } else {
            let idx = (id - 1) as usize;
            if idx < self.slots.len() {
                Ok(Some(self.slots[idx]))
            } else {
                Err(LoadError::Corrupted(id))
            }
        }
    }
}

/// Id density. A directory built from N live references in traversal order
/// assigns exactly the ids 1..=N: the k-th reference gets id k+1, two
/// different mapped slots never share an id, null maps to 0, and only null
/// maps to 0.
pub proof fn lemma_id_density(m: SaveMapping, order: Seq<usize>, pool_len: usize)
    requires
        m@.len() == pool_len,
        m.spec_len() == order.len(),
        order.len() <= pool_len,
        forall|k: int| 0 <= k < order.len() ==> order[k] < pool_len,
        forall|k: int| 0 <= k < order.len() ==> m@[order[k] as int] == k + 1,
        forall|s: int| 0 <= s < pool_len && !order.contains(s as usize) ==> m@[s] == 0,
    ensures
        forall|k: int|
            0 <= k < order.len() ==> m.spec_id(Some(order[k])) == Ok::<u32, SaveError>(
                (k + 1) as u32,
            ),
        forall|k1: int, k2: int|
            0 <= k1 < order.len() && 0 <= k2 < order.len() && k1 != k2 ==> m.spec_id(
                Some(order[k1]),
            ) != m.spec_id(Some(order[k2])),
        forall|s: usize|
            s < pool_len && m@[s as int] != 0 ==> 1 <= m@[s as int] <= order.len(),
        m.spec_id(None) == Ok::<u32, SaveError>(0u32),
        forall|r: Option<usize>| m.spec_id(r) == Ok::<u32, SaveError>(0u32) ==> r is None,
{
    assert forall|s: usize| s < pool_len && m@[s as int] != 0 implies 1 <= m@[s as int]
        <= order.len() by {
        if !order.contains(s) {
            assert(m@[s as int] == 0);
        } else {
            let k = choose|k: int| 0 <= k < order.len() && order[k] == s;
            assert(m@[s as int] == k + 1);
        }
    }
}

/// The load directory undoes the save directory: every reference the save
/// directory maps resolves, through its id, back to itself on load. This
/// is what ties the two directions of one round trip together across
/// entity kinds.
pub open spec fn maps_inverse(ids: Seq<u32>, slots: Seq<usize>) -> bool {
    forall|s: usize|
        (#[trigger] spec_id_seq(ids, Some(s))) is Ok ==> spec_pointer_seq(
            slots,
            spec_id_seq(ids, Some(s))->Ok_0,
        ) == Ok::<Option<usize>, LoadError>(Some(s))
}

/// The slot->id view of the directory that `SaveMapping::from_order`
/// builds: the k-th slot of the traversal gets id k+1, every other slot 0.
pub open spec fn dir_view(order: Seq<usize>, pool_len: nat) -> Seq<u32> {
    Seq::new(
        pool_len,
        |s: int|
            if order.contains(s as usize) {
                (order.index_of(s as usize) + 1) as u32
            } else {
                0u32
            },
    )
}

/// In the directory of a traversal, the k-th traversed slot resolves to id
/// k+1.
pub proof fn lemma_dir_view_resolves(order: Seq<usize>, pool_len: nat, k: int)
    requires
        forall|j: int| 0 <= j < order.len() ==> order[j] < pool_len,
        forall|k1: int, k2: int| 0 <= k1 < k2 < order.len() ==> order[k1] != order[k2],
        pool_len < 0xffff_ffff,
        order.len() <= pool_len,
        0 <= k < order.len(),
    ensures
        spec_id_seq(dir_view(order, pool_len), Some(order[k])) == Ok::<u32, SaveError>(
            (k + 1) as u32,
        ),
{
    assert(order.contains(order[k]));
    let i = order.index_of(order[k]);
    assert(0 <= i < order.len() && order[i] == order[k]);
    assert(i == k);
    assert(dir_view(order, pool_len)[order[k] as int] == (k + 1) as u32);
}

/// A directory with the facts `SaveMapping::from_order` ensures has exactly
/// the view `dir_view` describes.
pub proof fn lemma_dir_view(ids: Seq<u32>, order: Seq<usize>, pool_len: nat)
    requires
        ids.len() == pool_len,
        order.len() <= pool_len,
        pool_len < 0xffff_ffff,
        forall|k: int| 0 <= k < order.len() ==> order[k] < pool_len,
        forall|k1: int, k2: int| 0 <= k1 < k2 < order.len() ==> order[k1] != order[k2],
        forall|k: int| 0 <= k < order.len() ==> ids[order[k] as int] == k + 1,
        forall|s: int| 0 <= s < pool_len && !order.contains(s as usize) ==> ids[s] == 0,
    ensures
        ids == dir_view(order, pool_len),
{
    assert forall|s: int| 0 <= s < pool_len implies ids[s] == dir_view(order, pool_len)[s] by {
        if order.contains(s as usize) {
            let k = order.index_of(s as usize);
            assert(0 <= k < order.len() && order[k] == s as usize);
            assert(ids[s] == k + 1);
        }
    }
    assert(ids =~= dir_view(order, pool_len));
}

} // verus!
