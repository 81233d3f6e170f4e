//! The keyed collection of users: id to user, each user stored under its own id.
use std::collections::HashMap;
use vstd::prelude::*;
use crate::model::{UserDto, UserView};

verus! {

broadcast use vstd::std_specs::hash::group_hash_axioms;

/// Every user is stored under its own id.
pub open spec fn ids_match(m: Map<i32, UserView>) -> bool {
    forall|k: i32| #[trigger] m.contains_key(k) ==> m[k].id == k
}

/// `k` is the largest id in `m`.
pub open spec fn is_max_id(m: Map<i32, UserView>, k: i32) -> bool {
    m.contains_key(k) && forall|j: i32| #[trigger] m.contains_key(j) ==> j <= k
}

/// The id that a create assigns: one more than the largest id, or 1 when
/// `m` is empty.
pub open spec fn next_id_of(m: Map<i32, UserView>) -> int {
    if exists|k: i32| is_max_id(m, k) {
        (choose|k: i32| is_max_id(m, k)) + 1
    } else {
        1
    }
}

/// The views of a sequence of users.
pub open spec fn user_views(s: Seq<UserDto>) -> Seq<UserView> {
    s.map_values(|u: UserDto| u@)
}

/// `s` lists every user of `m` exactly once, in some order.
pub open spec fn is_snapshot(s: Seq<UserView>, m: Map<i32, UserView>) -> bool {
    &&& s.len() == m.dom().len()
    &&& forall|i: int| 0 <= i < s.len() ==> #[trigger] m.contains_key(s[i].id) && m[s[i].id] == s[i]
    &&& forall|i: int, j: int| 0 <= i < j < s.len() ==> s[i].id != s[j].id
    &&& forall|k: i32| #[trigger] m.contains_key(k) ==> exists|i: int| 0 <= i < s.len() && s[i].id == k
}

/// A list built from the first entries of a walk over a map that meets each
/// entry once lists every user once when the walk is complete.
proof fn lemma_listed_users<'a>(m: Map<i32, UserDto>, walk: Seq<(&'a i32, &'a UserDto)>, r: Seq<UserDto>)
    requires
        ids_match(m.map_values(|u: UserDto| u@)),
        walk.len() == m.len(),
        walk.no_duplicates(),
        forall|j: int| 0 <= j < walk.len() ==>
            #[trigger] m.contains_key(*walk[j].0) && m[*walk[j].0] == *walk[j].1,
        forall|k: i32| #[trigger] m.contains_key(k) ==> walk.contains((&k, &m[k])),
        r.len() <= walk.len(),
        forall|i: int| 0 <= i < r.len() ==>
            #[trigger] r[i]@ == (*walk[i].1)@ && r[i].id == *walk[i].0,
    ensures
        r.len() == walk.len() ==> is_snapshot(user_views(r), m.map_values(|u: UserDto| u@)),
{
    let mv = m.map_values(|u: UserDto| u@);
    let s = user_views(r);
    if r.len() == walk.len() {
        assert(mv.dom() == m.dom());
        assert forall|i: int| 0 <= i < s.len() implies #[trigger] mv.contains_key(s[i].id)
            && mv[s[i].id] == s[i] by {
            assert(s[i] == r[i]@);
        }
        assert forall|i: int, j: int| 0 <= i < j < s.len() implies s[i].id != s[j].id by {
            assert(s[i] == r[i]@);
            assert(s[j] == r[j]@);
            if s[i].id == s[j].id {
                assert(r[i].id == *walk[i].0);
                assert(r[j].id == *walk[j].0);
                assert(m.contains_key(*walk[i].0));
                assert(m.contains_key(*walk[j].0));
                assert(*walk[i].1 == *walk[j].1);
                assert(walk[i] == walk[j]);
            }
        }
        assert forall|k: i32| #[trigger] mv.contains_key(k) implies exists|i: int|
            0 <= i < s.len() && s[i].id == k by {
            assert(walk.contains((&k, &m[k])));
            let i = choose|i: int| 0 <= i < walk.len() && walk[i] == (&k, &m[k]);
            assert(s[i] == r[i]@);
        }
    }
}

/// The views of seed entries: a key and the user to store under it.
pub open spec fn entry_views(s: Seq<(i32, UserDto)>) -> Seq<(i32, UserView)> {
    s.map_values(|e: (i32, UserDto)| (e.0, e.1@))
}

/// The map that putting each entry in turn builds; a later entry replaces an
/// earlier one under the same key.
pub open spec fn seed_map(s: Seq<(i32, UserView)>) -> Map<i32, UserView>
    decreases s.len(),
{
    if s.len() == 0 {
        Map::empty()
    } else {
        seed_map(s.drop_last()).insert(s.last().0, s.last().1)
    }
}

/// Entry `i` holds a user whose id differs from its key.
pub open spec fn mismatched(s: Seq<(i32, UserView)>, i: int) -> bool {
    0 <= i < s.len() && s[i].0 != s[i].1.id
}

/// Why a seed was refused.
#[derive(Clone, Copy, Debug, PartialEq, Eq, Structural)]
pub enum SeedError {
    /// The first entry whose user's id differs from its key.
    IdMismatch { key: i32, id: i32 },
}

/// The users, keyed by id.
pub struct Storage {
    users: HashMap<i32, UserDto>,
}

impl View for Storage {
    type V = Map<i32, UserView>;

    closed spec fn view(&self) -> Map<i32, UserView> {
        self.users@.map_values(|u: UserDto| u@)
    }
}

impl Storage {
    /// Every user is stored under its own id.
    pub open spec fn wf(&self) -> bool {
        ids_match(self@)
    }

    /// A store holds finitely many users.
    pub proof fn lemma_finite(&self)
        ensures
            self@.dom().finite(),
    {
        assert(self@.dom() == self.users@.dom());
    }

    /// An empty store.
    pub fn new() -> (r: Storage)
        ensures
            r.wf(),
            r@ == Map::<i32, UserView>::empty(),
    {
        let r = Storage { users: HashMap::new() };
        assert(r@ =~= Map::<i32, UserView>::empty());
        r
    }

    /// A store seeded with `entries`, put in order. Refused when an entry's
    /// user has an id other than its key; the error names the first such entry.
    pub fn init(entries: Vec<(i32, UserDto)>) -> (r: Result<Storage, SeedError>)
        ensures
            r is Ok <==> forall|i: int| !mismatched(entry_views(entries@), i),
            r is Ok ==> r->Ok_0.wf() && r->Ok_0@ == seed_map(entry_views(entries@)),
            r is Err ==> exists|i: int| #[trigger]
                mismatched(entry_views(entries@), i) && (forall|j: int|
                    0 <= j < i ==> !mismatched(entry_views(entries@), j)) && r->Err_0
                    == (SeedError::IdMismatch { key: entries@[i].0, id: entries@[i].1.id }),
    {
        let ghost es = entry_views(entries@);
        let mut store = Storage::new();
        let mut i: usize = 0;
        while i < entries.len()
            invariant
                i <= entries.len(),
                es == entry_views(entries@),
                store.wf(),
                store@ == seed_map(es.take(i as int)),
                forall|j: int| 0 <= j < i ==> !mismatched(es, j),
            decreases entries.len() - i,
        {
            let key = entries[i].0;
            let id = entries[i].1.id;
            if key != id {
                assert(mismatched(es, i as int));
                return Err(SeedError::IdMismatch { key, id });
            }
            store.insert(entries[i].1.copy());
            assert(es.take(i + 1).drop_last() == es.take(i as int));
            i = i + 1;
        }
        assert(es.take(i as int) == es);
        Ok(store)
    }

    /// Puts `user` under its id, replacing whatever stood there.
    pub fn insert(&mut self, user: UserDto)
        requires
            old(self).wf(),
        ensures
            final(self).wf(),
            final(self)@ == old(self)@.insert(user.id, user@),
    {
        let ghost u = user@;
        self.users.insert(user.id, user);
        assert(self@ =~= old(self)@.insert(u.id, u));
    }

    /// Takes out the user stored under `id`, if any.
    pub fn remove(&mut self, id: i32)
        requires
            old(self).wf(),
        ensures
            final(self).wf(),
            final(self)@ == old(self)@.remove(id),
    {
        self.users.remove(&id);
        assert(self@ =~= old(self)@.remove(id));
    }

    /// All users, each once, in no particular order.
    pub fn snapshot(&self) -> (r: Vec<UserDto>)
        requires
            self.wf(),
        ensures
            is_snapshot(user_views(r@), self@),
    {
        let mut r: Vec<UserDto> = Vec::new();
        if self.users.len() == 0 {
            assert(self@.dom() =~= Set::<i32>::empty());
            return r;
        }
        for kv in it: self.users.iter()
            invariant
                self.wf(),
                self.users@.len() > 0,
                it.seq().len() == self.users@.len(),
                it.seq().no_duplicates(),
                forall|j: int| 0 <= j < it.seq().len() ==>
                    #[trigger] self.users@.contains_key(*it.seq()[j].0)
                    && self.users@[*it.seq()[j].0] == *it.seq()[j].1,
                forall|k: i32| #[trigger] self.users@.contains_key(k) ==>
                    it.seq().contains((&k, &self.users@[k])),
                r.len() == it.index(),
                forall|i: int| 0 <= i < it.index() ==>
                    #[trigger] r@[i]@ == (*it.seq()[i].1)@ && r@[i].id == *it.seq()[i].0,
                it.index() == it.seq().len() ==> is_snapshot(user_views(r@), self@),
        {
            let (k, v) = kv;
            assert(kv == it.seq()[it.index()]);
            let ghost before = r@;
            r.push(v.copy());
            proof {
                assert forall|i: int| 0 <= i < it.index() + 1 implies #[trigger] r@[i]@ == (
                *it.seq()[i].1)@ && r@[i].id == *it.seq()[i].0 by {
                    if i < it.index() {
                        assert(r@[i] == before[i]);
                    } else {
                        assert(self.users@.contains_key(*k));
                        assert(self@.contains_key(*k));
                        assert(self@[*k] == (*v)@);
                        assert(r@[i]@ == (*v)@);
                    }
                }
                lemma_listed_users(self.users@, it.seq(), r@);
            }
        }
        r
    }

    /// The next id: one more than the largest, or 1 when there is none.
    /// `None` when the largest id is `i32::MAX`.
    pub fn next_id(&self) -> (r: Option<i32>)
        requires
            self.wf(),
        ensures
            r is Some <==> next_id_of(self@) <= i32::MAX,
            r is Some ==> r->Some_0 == next_id_of(self@),
    {
        if self.users.len() == 0 {
            assert(self@.dom() =~= Set::<i32>::empty());
            return Some(1);
        }
        let mut best: i32 = 0;
        let mut first: bool = true;
        for k in it: self.users.keys()
            invariant
                self.users@.len() > 0,
                first <==> it.index() == 0,
                it.seq().len() == self.users@.len(),
                it.seq().unref().to_set() == self.users@.dom(),
                it.index() > 0 ==> self.users@.contains_key(best),
                forall|j: int| 0 <= j < it.index() ==> *it.seq()[j] <= best,
                it.index() == it.seq().len() ==> forall|k: i32|
                    #[trigger] self.users@.contains_key(k) ==> k <= best,
        {
            if first || *k > best {
                best = *k;
            }
            first = false;
            proof {
                let ks = it.seq().unref();
                assert(ks[it.index()] == *k);
                assert(ks.to_set().contains(*k));
                assert forall|x: i32|
                    it.index() + 1 == it.seq().len() && #[trigger] self.users@.contains_key(
                        x,
                    ) implies x <= best by {
                    assert(ks.to_set().contains(x));
                    let j = choose|j: int| 0 <= j < ks.len() && ks[j] == x;
                    assert(*it.seq()[j] == x);
                }
            }
        }
        proof {
            assert(self.users@.dom() == self@.dom());
            assert(is_max_id(self@, best));
        }
        if best < i32::MAX {
            Some(best + 1)
        } else {
            None
        }
    }
}

} // verus!
