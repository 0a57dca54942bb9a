//! The directory of pending reservations and active rooms. A name is
//! reserved under a search-normalized key, unique across pending and active
//! rooms combined; an unclaimed reservation is expired by a timer the
//! transport runs; claiming promotes the pending entry to an active room;
//! a room asks for its own removal when its host departs. Every operation
//! here is a synchronous mutation: the transport serializes calls behind
//! one mutual-exclusion boundary.

use vstd::prelude::*;
use vstd::string::StrSliceExecFns;

use crate::error::Error;
use crate::utils::{sanitize, sanitize_for_search, search_key, trim_of};

verus! {

/// The fewest characters a room name may have after search normalization.
pub const ROOM_NAME_MIN_LEN: usize = 3;

/// The fewest characters a participant display name may have after trimming.
pub const USERNAME_MIN_LEN: usize = 2;

/// How long a reservation lives unclaimed before the transport's timer
/// fires and calls `expire`.
pub const RESERVATION_TIMEOUT_SECS: u64 = 15;

/// One directory entry: a room's id, its canonical (trimmed) name as shown
/// to clients, and its search-normalized key.
struct RoomEntry {
    id: u128,
    name: String,
    key: String,
}

/// The mathematical content of one directory entry.
pub ghost struct EntryView {
    pub id: u128,
    pub name: Seq<char>,
    pub key: Seq<char>,
}

impl View for RoomEntry {
    type V = EntryView;

    closed spec fn view(&self) -> EntryView {
        EntryView { id: self.id, name: self.name@, key: self.key@ }
    }
}

/// The mathematical state of the registry: the pending reservations and the
/// active rooms, each in insertion order.
pub ghost struct RegistryView {
    pub pending: Seq<EntryView>,
    pub active: Seq<EntryView>,
}

pub open spec fn pending_has_id(r: RegistryView, id: u128) -> bool {
    exists|i: int| 0 <= i < r.pending.len() && r.pending[i].id == id
}

pub open spec fn active_has_id(r: RegistryView, id: u128) -> bool {
    exists|i: int| 0 <= i < r.active.len() && r.active[i].id == id
}

/// Whether some pending or active room holds this id.
pub open spec fn has_id(r: RegistryView, id: u128) -> bool {
    pending_has_id(r, id) || active_has_id(r, id)
}

pub open spec fn pending_has_key(r: RegistryView, key: Seq<char>) -> bool {
    exists|i: int| 0 <= i < r.pending.len() && r.pending[i].key == key
}

pub open spec fn active_has_key(r: RegistryView, key: Seq<char>) -> bool {
    exists|i: int| 0 <= i < r.active.len() && r.active[i].key == key
}

/// Whether some pending or active room holds this search key.
pub open spec fn has_key(r: RegistryView, key: Seq<char>) -> bool {
    pending_has_key(r, key) || active_has_key(r, key)
}

/// The registry's invariant: across pending and active rooms combined, a
/// room id and a search key each belong to at most one entry.
pub open spec fn registry_wf(r: RegistryView) -> bool {
    &&& forall|i: int, j: int|
        0 <= i < j < r.pending.len() ==> r.pending[i].id != r.pending[j].id
    &&& forall|i: int, j: int|
        0 <= i < j < r.active.len() ==> r.active[i].id != r.active[j].id
    &&& forall|i: int, j: int|
        0 <= i < r.pending.len() && 0 <= j < r.active.len() ==> r.pending[i].id != r.active[j].id
    &&& forall|i: int, j: int|
        0 <= i < j < r.pending.len() ==> r.pending[i].key != r.pending[j].key
    &&& forall|i: int, j: int|
        0 <= i < j < r.active.len() ==> r.active[i].key != r.active[j].key
    &&& forall|i: int, j: int|
        0 <= i < r.pending.len() && 0 <= j < r.active.len() ==> r.pending[i].key != r.active[j].key
}

/// Which rejection, if any, reserving under this id and search key meets.
pub open spec fn reserve_result(r: RegistryView, id: u128, key: Seq<char>) -> Option<Error> {
    if key.len() < ROOM_NAME_MIN_LEN {
        Some(Error::RoomNameTooShort)
    } else if has_key(r, key) || has_id(r, id) {
        Some(Error::RoomAlreadyExist)
    } else {
        None
    }
}

/// How a successful reservation of `name` under `id` changes the registry:
/// one pending entry is appended, holding the trimmed name and its search
/// key; the active rooms are untouched.
pub open spec fn reserve_ok(
    pre: RegistryView,
    post: RegistryView,
    id: u128,
    name: Seq<char>,
) -> bool {
    &&& post.pending =~= pre.pending.push(
        (EntryView { id, name: trim_of(name), key: search_key(name) }),
    )
    &&& post.active =~= pre.active
}

/// How a successful claim of `id` changes the registry: its pending entry —
/// whose canonical name is `canon` — moves, unchanged, to the active rooms.
pub open spec fn claim_ok(
    pre: RegistryView,
    post: RegistryView,
    id: u128,
    canon: Seq<char>,
) -> bool {
    exists|i: int|
        {
            &&& 0 <= i < pre.pending.len()
            &&& (#[trigger] pre.pending[i]).id == id
            &&& pre.pending[i].name == canon
            &&& post.pending =~= pre.pending.remove(i)
            &&& post.active =~= pre.active.push(pre.pending[i])
        }
}

/// How the expiry of the reservation `id` changes the registry: its pending
/// entry is dropped and its name freed; the active rooms are untouched.
pub open spec fn expire_ok(pre: RegistryView, post: RegistryView, id: u128) -> bool {
    exists|i: int|
        {
            &&& 0 <= i < pre.pending.len()
            &&& (#[trigger] pre.pending[i]).id == id
            &&& post.pending =~= pre.pending.remove(i)
            &&& post.active =~= pre.active
        }
}

/// How the removal of the active room `id` changes the registry: its active
/// entry is dropped and its name freed; pending reservations are untouched.
pub open spec fn remove_ok(pre: RegistryView, post: RegistryView, id: u128) -> bool {
    exists|i: int|
        {
            &&& 0 <= i < pre.active.len()
            &&& (#[trigger] pre.active[i]).id == id
            &&& post.pending =~= pre.pending
            &&& post.active =~= pre.active.remove(i)
        }
}

/// Law: a name that was reserved and then claimed is locatable by name: the
/// registry that results holds an active room with the reservation's id,
/// the canonical (trimmed) name, and the search key under which any
/// spelling of the name — equal up to case and surrounding whitespace —
/// looks it up.
pub proof fn lemma_reserved_room_locatable(
    r0: RegistryView,
    r1: RegistryView,
    r2: RegistryView,
    id: u128,
    name: Seq<char>,
    canon: Seq<char>,
)
    requires
        reserve_result(r0, id, search_key(name)) is None,
        reserve_ok(r0, r1, id, name),
        claim_ok(r1, r2, id, canon),
    ensures
        canon == trim_of(name),
        active_has_key(r2, search_key(name)),
        exists|i: int|
            {
                &&& 0 <= i < r2.active.len()
                &&& (#[trigger] r2.active[i]).id == id
                &&& r2.active[i].name == trim_of(name)
                &&& r2.active[i].key == search_key(name)
            },
{
    assert(!pending_has_id(r0, id));
    let e = EntryView { id, name: trim_of(name), key: search_key(name) };
    let i = choose|i: int|
        {
            &&& 0 <= i < r1.pending.len()
            &&& (#[trigger] r1.pending[i]).id == id
            &&& r1.pending[i].name == canon
            &&& r2.pending =~= r1.pending.remove(i)
            &&& r2.active =~= r1.active.push(r1.pending[i])
        };
    if i < r0.pending.len() {
        assert(r0.pending[i].id == id);
        assert(pending_has_id(r0, id));
    }
    assert(i == r0.pending.len());
    assert(r1.pending[i] == e);
    let j = r2.active.len() - 1;
    assert(r2.active[j] == e);
}

/// Law: once a name is reserved, reserving any name with the same search
/// key — the same name up to case and surrounding whitespace — fails with
/// `RoomAlreadyExist`, whatever id is minted for the second request.
pub proof fn lemma_duplicate_name_rejected(
    r0: RegistryView,
    r1: RegistryView,
    id: u128,
    name: Seq<char>,
    name2: Seq<char>,
    id2: u128,
)
    requires
        reserve_result(r0, id, search_key(name)) is None,
        reserve_ok(r0, r1, id, name),
        search_key(name2) == search_key(name),
    ensures
        reserve_result(r1, id2, search_key(name2)) == Some(Error::RoomAlreadyExist),
{
    let j = r1.pending.len() - 1;
    assert(r1.pending[j].key == search_key(name));
    assert(pending_has_key(r1, search_key(name2)));
}

/// Law: when an unclaimed reservation expires, its name is freed: a later
/// reservation of a name with the same search key passes every check, under
/// any id not otherwise in use.
pub proof fn lemma_expired_name_reservable(
    r0: RegistryView,
    r1: RegistryView,
    r2: RegistryView,
    id: u128,
    name: Seq<char>,
    id2: u128,
)
    requires
        reserve_result(r0, id, search_key(name)) is None,
        reserve_ok(r0, r1, id, name),
        expire_ok(r1, r2, id),
        !has_id(r2, id2),
    ensures
        reserve_result(r2, id2, search_key(name)) is None,
{
    assert(!pending_has_id(r0, id));
    let i = choose|i: int|
        {
            &&& 0 <= i < r1.pending.len()
            &&& (#[trigger] r1.pending[i]).id == id
            &&& r2.pending =~= r1.pending.remove(i)
            &&& r2.active =~= r1.active
        };
    if i < r0.pending.len() {
        assert(r0.pending[i].id == id);
        assert(pending_has_id(r0, id));
    }
    assert(i == r0.pending.len());
    assert(r2.pending =~= r0.pending);
    assert(r2.active =~= r0.active);
    if pending_has_key(r2, search_key(name)) {
        let j = choose|j: int|
            0 <= j < r2.pending.len() && (#[trigger] r2.pending[j]).key == search_key(name);
        assert(r0.pending[j].key == search_key(name));
        assert(pending_has_key(r0, search_key(name)));
    }
    if active_has_key(r2, search_key(name)) {
        let j = choose|j: int|
            0 <= j < r2.active.len() && (#[trigger] r2.active[j]).key == search_key(name);
        assert(r0.active[j].key == search_key(name));
        assert(active_has_key(r0, search_key(name)));
    }
}

/// Law: removing an active room — as a room does when its host departs —
/// frees its name: no remaining entry holds the removed room's search key,
/// so a name with that key is immediately reservable again under any id not
/// otherwise in use.
pub proof fn lemma_removed_name_reservable(
    r0: RegistryView,
    r1: RegistryView,
    id: u128,
    key: Seq<char>,
    id2: u128,
)
    requires
        registry_wf(r0),
        exists|i: int|
            0 <= i < r0.active.len() && (#[trigger] r0.active[i]).id == id && r0.active[i].key
                == key,
        remove_ok(r0, r1, id),
        !has_id(r1, id2),
        key.len() >= ROOM_NAME_MIN_LEN,
    ensures
        reserve_result(r1, id2, key) is None,
{
    let w = choose|i: int|
        0 <= i < r0.active.len() && (#[trigger] r0.active[i]).id == id && r0.active[i].key == key;
    let i = choose|i: int|
        {
            &&& 0 <= i < r0.active.len()
            &&& (#[trigger] r0.active[i]).id == id
            &&& r1.pending =~= r0.pending
            &&& r1.active =~= r0.active.remove(i)
        };
    assert(w == i);
    if pending_has_key(r1, key) {
        let j = choose|j: int|
            0 <= j < r1.pending.len() && (#[trigger] r1.pending[j]).key == key;
        assert(r0.pending[j].key == key);
        assert(r0.pending[j].key != r0.active[i].key);
        assert(false);
    }
    if active_has_key(r1, key) {
        let j = choose|j: int|
            0 <= j < r1.active.len() && (#[trigger] r1.active[j]).key == key;
        let j0 = if j < i {
            j
        } else {
            j + 1
        };
        assert(r0.active[j0].key == key);
        assert(j0 != i);
        if j0 < i {
            assert(r0.active[j0].key != r0.active[i].key);
        } else {
            assert(r0.active[i].key != r0.active[j0].key);
        }
        assert(false);
    }
}

pub struct Registry {
    pending: Vec<RoomEntry>,
    active: Vec<RoomEntry>,
}

impl View for Registry {
    type V = RegistryView;

    closed spec fn view(&self) -> RegistryView {
        RegistryView {
            pending: self.pending@.map_values(|e: RoomEntry| e@),
            active: self.active@.map_values(|e: RoomEntry| e@),
        }
    }
}

/// The index of the entry holding this id, if any.
fn find_id(v: &Vec<RoomEntry>, id: u128) -> (r: Option<usize>)
    ensures
        match r {
            Some(i) => i < v@.len() && v@[i as int]@.id == id,
            None => forall|i: int| 0 <= i < v@.len() ==> v@[i]@.id != id,
        },
{
    let mut i: usize = 0;
    while i < v.len()
        invariant
            i <= v@.len(),
            forall|j: int| 0 <= j < i ==> v@[j]@.id != id,
        decreases v@.len() - i,
    {
        if v[i].id == id {
            return Some(i);
        }
        i = i + 1;
    }
    None
}

/// The index of the entry holding this search key, if any.
fn find_key(v: &Vec<RoomEntry>, key: &String) -> (r: Option<usize>)
    ensures
        match r {
            Some(i) => i < v@.len() && v@[i as int]@.key == key@,
            None => forall|i: int| 0 <= i < v@.len() ==> v@[i]@.key != key@,
        },
{
    let mut i: usize = 0;
    while i < v.len()
        invariant
            i <= v@.len(),
            forall|j: int| 0 <= j < i ==> v@[j]@.key != key@,
        decreases v@.len() - i,
    {
        if v[i].key == *key {
            return Some(i);
        }
        i = i + 1;
    }
    None
}

/// Relies on `ulid::Ulid::new`: a fresh identifier minted from the current
/// time and randomness. Nothing is promised of its value; callers check for
/// collisions themselves.
#[verifier::external_body]
fn mint_id() -> u128 {
    ulid::Ulid::new().0
}

/// Appending an entry whose id and key are fresh keeps the registry's
/// uniqueness invariant.
proof fn lemma_wf_push_pending(pre: RegistryView, post: RegistryView, e: EntryView)
    requires
        registry_wf(pre),
        !has_id(pre, e.id),
        !has_key(pre, e.key),
        post.pending =~= pre.pending.push(e),
        post.active =~= pre.active,
    ensures
        registry_wf(post),
{
    assert forall|i: int|
        0 <= i < pre.pending.len() implies pre.pending[i].id != e.id && pre.pending[i].key
        != e.key by {
        assert(!pending_has_id(pre, e.id));
        assert(!pending_has_key(pre, e.key));
    }
}

/// Dropping one pending entry keeps the registry's uniqueness invariant.
proof fn lemma_wf_drop_pending(pre: RegistryView, post: RegistryView, k: int)
    requires
        registry_wf(pre),
        0 <= k < pre.pending.len(),
        post.pending =~= pre.pending.remove(k),
        post.active =~= pre.active,
    ensures
        registry_wf(post),
{
}

/// Moving one pending entry to the active rooms keeps the registry's
/// uniqueness invariant.
proof fn lemma_wf_promote(pre: RegistryView, post: RegistryView, k: int)
    requires
        registry_wf(pre),
        0 <= k < pre.pending.len(),
        post.pending =~= pre.pending.remove(k),
        post.active =~= pre.active.push(pre.pending[k]),
    ensures
        registry_wf(post),
{
}

/// Dropping one active entry keeps the registry's uniqueness invariant.
proof fn lemma_wf_drop_active(pre: RegistryView, post: RegistryView, k: int)
    requires
        registry_wf(pre),
        0 <= k < pre.active.len(),
        post.pending =~= pre.pending,
        post.active =~= pre.active.remove(k),
    ensures
        registry_wf(post),
{
}

impl Registry {
    pub open spec fn wf(&self) -> bool {
        registry_wf(self@)
    }

    pub fn new() -> (r: Self)
        ensures
            r.wf(),
            r@.pending =~= Seq::<EntryView>::empty(),
            r@.active =~= Seq::<EntryView>::empty(),
    {
        Self { pending: Vec::new(), active: Vec::new() }
    }

    /// Whether no pending or active room holds this search key.
    fn key_free(&self, key: &String) -> (r: bool)
        ensures
            r == !has_key(self@, key@),
    {
        match find_key(&self.pending, key) {
            Some(i) => {
                proof {
                    assert(self@.pending[i as int].key == key@);
                }
                return false;
            },
            None => {},
        }
        match find_key(&self.active, key) {
            Some(i) => {
                proof {
                    assert(self@.active[i as int].key == key@);
                }
                return false;
            },
            None => {},
        }
        proof {
            assert(!pending_has_key(self@, key@));
            assert(!active_has_key(self@, key@));
        }
        true
    }

    /// Whether no pending or active room holds this id.
    fn id_free(&self, id: u128) -> (r: bool)
        ensures
            r == !has_id(self@, id),
    {
        match find_id(&self.pending, id) {
            Some(i) => {
                proof {
                    assert(self@.pending[i as int].id == id);
                }
                return false;
            },
            None => {},
        }
        match find_id(&self.active, id) {
            Some(i) => {
                proof {
                    assert(self@.active[i as int].id == id);
                }
                return false;
            },
            None => {},
        }
        proof {
            assert(!pending_has_id(self@, id));
            assert(!active_has_id(self@, id));
        }
        true
    }

    /// Reserves `name` under the caller-supplied id: rejects a name whose
    /// search-normalized form is too short, then a name or id already held
    /// by a pending or active room; otherwise appends a pending entry and
    /// returns the canonical name.
    pub fn reserve_with_id(&mut self, id: u128, name: &str) -> (r: Result<String, Error>)
        requires
            old(self).wf(),
        ensures
            final(self).wf(),
            match r {
                Ok(canon) => {
                    &&& reserve_result(old(self)@, id, search_key(name@)) is None
                    &&& canon@ == trim_of(name@)
                    &&& reserve_ok(old(self)@, final(self)@, id, name@)
                },
                Err(e) => {
                    &&& reserve_result(old(self)@, id, search_key(name@)) == Some(e)
                    &&& final(self)@ == old(self)@
                },
            },
    {
        let key = sanitize_for_search(name);
        if key.as_str().unicode_len() < ROOM_NAME_MIN_LEN {
            return Err(Error::RoomNameTooShort);
        }
        if !self.key_free(&key) {
            return Err(Error::RoomAlreadyExist);
        }
        if !self.id_free(id) {
            return Err(Error::RoomAlreadyExist);
        }
        let canon = sanitize(name).to_owned();
        let entry = RoomEntry { id, name: canon.clone(), key };
        let ghost ev = entry@;
        self.pending.push(entry);
        proof {
            assert(ev == (EntryView { id, name: trim_of(name@), key: search_key(name@) }));
            assert(self@.pending =~= old(self)@.pending.push(ev));
            assert(self@.active =~= old(self)@.active);
            lemma_wf_push_pending(old(self)@, self@, ev);
        }
        Ok(canon)
    }

    /// Reserves `name` under a freshly minted id. The id is random, so
    /// success cannot be owed: `reserve_with_id` states the exact outcome
    /// for a given id, and this wrapper reports what held for the minted one.
    pub fn reserve(&mut self, name: &str) -> (r: Result<(u128, String), Error>)
        requires
            old(self).wf(),
        ensures
            final(self).wf(),
            match r {
                Ok(res) => {
                    &&& reserve_result(old(self)@, res.0, search_key(name@)) is None
                    &&& res.1@ == trim_of(name@)
                    &&& reserve_ok(old(self)@, final(self)@, res.0, name@)
                },
                Err(e) => {
                    &&& final(self)@ == old(self)@
                    &&& (e is RoomNameTooShort || e is RoomAlreadyExist)
                    &&& (e is RoomNameTooShort <==> search_key(name@).len() < ROOM_NAME_MIN_LEN)
                },
            },
    {
        let id = mint_id();
        match self.reserve_with_id(id, name) {
            Ok(canon) => Ok((id, canon)),
            Err(e) => Err(e),
        }
    }

    /// Claims the pending reservation `id` for a host: removes it, and
    /// promotes it, unchanged, to an active room, returning the canonical
    /// name; a reservation that never existed or already expired is
    /// `RoomNotFound`. The transport cancels the reservation's expiry timer.
    pub fn create(&mut self, id: u128) -> (r: Result<String, Error>)
        requires
            old(self).wf(),
        ensures
            final(self).wf(),
            match r {
                Ok(canon) => claim_ok(old(self)@, final(self)@, id, canon@),
                Err(e) => {
                    &&& e == Error::RoomNotFound
                    &&& !pending_has_id(old(self)@, id)
                    &&& final(self)@ == old(self)@
                },
            },
    {
        let idx = match find_id(&self.pending, id) {
            Some(i) => i,
            None => {
                proof {
                    assert(!pending_has_id(self@, id));
                }
                return Err(Error::RoomNotFound);
            },
        };
        let entry = self.pending.remove(idx);
        let canon = entry.name.clone();
        self.active.push(entry);
        proof {
            assert(self@.pending =~= old(self)@.pending.remove(idx as int));
            assert(self@.active =~= old(self)@.active.push(old(self)@.pending[idx as int]));
            assert(claim_ok(old(self)@, self@, id, canon@));
            lemma_wf_promote(old(self)@, self@, idx as int);
        }
        Ok(canon)
    }

    /// Expires the pending reservation `id` when its timer fires: drops it
    /// and frees its name. Cancellation of the timer is best-effort, so the
    /// entry may already have been claimed: that is a race-safe no-op, and
    /// the return value says whether anything was dropped.
    pub fn expire(&mut self, id: u128) -> (removed: bool)
        requires
            old(self).wf(),
        ensures
            final(self).wf(),
            removed == pending_has_id(old(self)@, id),
            removed ==> expire_ok(old(self)@, final(self)@, id),
            !removed ==> final(self)@ == old(self)@,
    {
        match find_id(&self.pending, id) {
            Some(idx) => {
                self.pending.remove(idx);
                proof {
                    assert(old(self)@.pending[idx as int].id == id);
                    assert(self@.pending =~= old(self)@.pending.remove(idx as int));
                    assert(self@.active =~= old(self)@.active);
                    assert(expire_ok(old(self)@, self@, id));
                    lemma_wf_drop_pending(old(self)@, self@, idx as int);
                }
                true
            },
            None => {
                proof {
                    assert(!pending_has_id(self@, id));
                }
                false
            },
        }
    }

    /// Removes the active room `id` at its end of life, dropping its entry
    /// and freeing its name. Only the room itself calls this, with its own
    /// id and canonical name; an absent entry would be a broken invariant,
    /// not a runtime condition, so the entry is required to be present.
    pub fn remove(&mut self, id: u128, name: &str)
        requires
            old(self).wf(),
            exists|i: int|
                0 <= i < old(self)@.active.len() && (#[trigger] old(self)@.active[i]).id == id
                    && old(self)@.active[i].name == name@,
        ensures
            final(self).wf(),
            remove_ok(old(self)@, final(self)@, id),
    {
        let idx = match find_id(&self.active, id) {
            Some(i) => i,
            None => {
                proof {
                    let w = choose|i: int|
                        0 <= i < old(self)@.active.len() && (#[trigger] old(
                            self,
                        )@.active[i]).id == id && old(self)@.active[i].name == name@;
                    assert(old(self)@.active[w].id == id);
                    assert(false);
                }
                return ;
            },
        };
        self.active.remove(idx);
        proof {
            assert(old(self)@.active[idx as int].id == id);
            assert(self@.pending =~= old(self)@.pending);
            assert(self@.active =~= old(self)@.active.remove(idx as int));
            assert(remove_ok(old(self)@, self@, id));
            lemma_wf_drop_active(old(self)@, self@, idx as int);
        }
    }

    /// Looks a room up by any spelling of its name — case- and surrounding-
    /// whitespace-insensitive — among active rooms only, returning its id
    /// and canonical name.
    pub fn find_room(&self, name: &str) -> (r: Result<(u128, String), Error>)
        requires
            self.wf(),
        ensures
            match r {
                Ok(found) => exists|i: int|
                    {
                        &&& 0 <= i < self@.active.len()
                        &&& (#[trigger] self@.active[i]).key == search_key(name@)
                        &&& found.0 == self@.active[i].id
                        &&& found.1@ == self@.active[i].name
                    },
                Err(e) => {
                    &&& e == Error::RoomNotFound
                    &&& !active_has_key(self@, search_key(name@))
                },
            },
    {
        let key = sanitize_for_search(name);
        match find_key(&self.active, &key) {
            Some(i) => {
                proof {
                    assert(self@.active[i as int].key == search_key(name@));
                }
                Ok((self.active[i].id, self.active[i].name.clone()))
            },
            None => {
                proof {
                    assert(!active_has_key(self@, search_key(name@)));
                }
                Err(Error::RoomNotFound)
            },
        }
    }

    /// Whether the active room `id` exists, as a joining participant's
    /// connection is forwarded to it; an unknown or expired id is
    /// `RoomNotFound`.
    pub fn join_room(&self, id: u128) -> (r: Result<(), Error>)
        ensures
            match r {
                Ok(_) => active_has_id(self@, id),
                Err(e) => e == Error::RoomNotFound && !active_has_id(self@, id),
            },
    {
        match find_id(&self.active, id) {
            Some(i) => {
                proof {
                    assert(self@.active[i as int].id == id);
                }
                Ok(())
            },
            None => Err(Error::RoomNotFound),
        }
    }
}

/// Trims a prospective participant display name, rejecting one too short
/// after trimming.
pub fn validate_username(name: &str) -> (r: Result<String, Error>)
    ensures
        match r {
            Ok(canon) => {
                &&& canon@ == trim_of(name@)
                &&& trim_of(name@).len() >= USERNAME_MIN_LEN
            },
            Err(e) => {
                &&& e == Error::UsernameTooShort
                &&& trim_of(name@).len() < USERNAME_MIN_LEN
            },
        },
{
    let canon = sanitize(name).to_owned();
    if canon.as_str().unicode_len() < USERNAME_MIN_LEN {
        Err(Error::UsernameTooShort)
    } else {
        Ok(canon)
    }
}

} // verus!
