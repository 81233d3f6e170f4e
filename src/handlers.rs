//! The four operations a client can ask for: list, create, update, delete.
use vstd::prelude::*;
use crate::model::{CreateUpdateUserDto, DeleteResponse, RequestView, UserDto, UserView, user_of};
use crate::store::{Storage, is_max_id, is_snapshot, next_id_of, user_views};

verus! {

/// A request that changes the store.
pub enum Command {
    Create(RequestView),
    Update(i32, RequestView),
    Delete(i32),
}

/// A create succeeds on `m` when the next id fits in an `i32`.
pub open spec fn create_fits(m: Map<i32, UserView>) -> bool {
    next_id_of(m) <= i32::MAX
}

/// The store after one command.
pub open spec fn step(m: Map<i32, UserView>, c: Command) -> Map<i32, UserView> {
    match c {
        Command::Create(req) => if create_fits(m) {
            m.insert(next_id_of(m) as i32, user_of(next_id_of(m) as i32, req))
        } else {
            m
        },
        Command::Update(id, req) => m.insert(id, user_of(id, req)),
        Command::Delete(id) => m.remove(id),
    }
}

/// The store after each command of `cs` in turn.
pub open spec fn run(m: Map<i32, UserView>, cs: Seq<Command>) -> Map<i32, UserView>
    decreases cs.len(),
{
    if cs.len() == 0 {
        m
    } else {
        step(run(m, cs.drop_last()), cs.last())
    }
}

/// A finite, non-empty map has a largest id.
pub proof fn lemma_max_id_exists(m: Map<i32, UserView>)
    requires
        m.dom().finite(),
        m.dom().len() > 0,
    ensures
        exists|k: i32| is_max_id(m, k),
    decreases m.dom().len(),
{
    let x = m.dom().choose();
    let rest = m.remove(x);
    assert(rest.dom() == m.dom().remove(x));
    if rest.dom().len() == 0 {
        assert forall|j: i32| #[trigger] m.contains_key(j) implies j <= x by {
            if j != x {
                assert(rest.dom().contains(j));
            }
        }
        assert(is_max_id(m, x));
    } else {
        lemma_max_id_exists(rest);
        let k = choose|k: i32| is_max_id(rest, k);
        if k < x {
            assert(is_max_id(m, x));
        } else {
            assert(is_max_id(m, k));
        }
    }
}

/// Every id of a finite map lies below the next id.
pub proof fn lemma_next_id_above(m: Map<i32, UserView>)
    requires
        m.dom().finite(),
    ensures
        forall|k: i32| #[trigger] m.contains_key(k) ==> k < next_id_of(m),
        next_id_of(m) >= i32::MIN + 1,
{
    if m.dom().len() > 0 {
        lemma_max_id_exists(m);
    } else {
        assert forall|k: i32| !#[trigger] m.contains_key(k) by {
            if m.contains_key(k) {
                assert(m.dom().contains(k));
            }
        }
    }
}

/// Lists all users, each once, in no particular order.
pub fn get_all(storage: &Storage) -> (r: Vec<UserDto>)
    requires
        storage.wf(),
    ensures
        is_snapshot(user_views(r@), storage@),
{
    storage.snapshot()
}

/// Stores the user that the request describes under the next id and returns
/// it. `None`, with the store unchanged, when the largest id is `i32::MAX`.
pub fn create(create_user_request: &CreateUpdateUserDto, storage: &mut Storage) -> (r: Option<UserDto>)
    requires
        old(storage).wf(),
    ensures
        final(storage).wf(),
        final(storage)@ == step(old(storage)@, Command::Create(create_user_request@)),
        r is Some <==> create_fits(old(storage)@),
        r is Some ==> r->Some_0@ == user_of(next_id_of(old(storage)@) as i32, create_user_request@),
        r is Some ==> forall|k: i32| #[trigger] old(storage)@.contains_key(k) ==> k < r->Some_0.id,
        r is Some ==> final(storage)@ == old(storage)@.insert(r->Some_0.id, r->Some_0@),
        r is None ==> final(storage)@ == old(storage)@,
{
    proof {
        storage.lemma_finite();
        lemma_next_id_above(storage@);
    }
    match storage.next_id() {
        Some(new_id) => {
            let new_user = UserDto::from_request(new_id, create_user_request);
            storage.insert(new_user.copy());
            Some(new_user)
        },
        None => None,
    }
}

/// Stores the user that the request describes under `id`, replacing any
/// user there, and returns it.
pub fn update(id: i32, update_user_request: &CreateUpdateUserDto, storage: &mut Storage) -> (r: UserDto)
    requires
        old(storage).wf(),
    ensures
        final(storage).wf(),
        final(storage)@ == step(old(storage)@, Command::Update(id, update_user_request@)),
        r@ == user_of(id, update_user_request@),
        final(storage)@ == old(storage)@.insert(id, r@),
{
    let updated_user = UserDto::from_request(id, update_user_request);
    storage.insert(updated_user.copy());
    updated_user
}

/// Removes the user stored under `id`, if any; succeeds either way.
pub fn delete(id: i32, storage: &mut Storage) -> (r: DeleteResponse)
    requires
        old(storage).wf(),
    ensures
        final(storage).wf(),
        final(storage)@ == step(old(storage)@, Command::Delete(id)),
        final(storage)@ == old(storage)@.remove(id),
        r.success,
{
    storage.remove(id);
    DeleteResponse { success: true }
}

} // verus!
