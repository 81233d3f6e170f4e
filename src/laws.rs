//! What holds of the store across several operations.
use vstd::prelude::*;
use crate::model::{RequestView, UserView};
use crate::store::{ids_match, next_id_of};
use crate::handlers::{Command, create_fits, lemma_next_id_above, run, step};

verus! {

/// Every user stays stored under its own id, whatever commands follow.
pub proof fn lemma_ids_match_after_run(m: Map<i32, UserView>, cs: Seq<Command>)
    requires
        ids_match(m),
    ensures
        ids_match(run(m, cs)),
    decreases cs.len(),
{
    if cs.len() > 0 {
        lemma_ids_match_after_run(m, cs.drop_last());
    }
}

/// Applying the same update twice leaves the store as applying it once.
pub proof fn lemma_update_idempotent(m: Map<i32, UserView>, id: i32, req: RequestView)
    ensures
        step(step(m, Command::Update(id, req)), Command::Update(id, req)) == step(
            m,
            Command::Update(id, req),
        ),
{
    assert(step(step(m, Command::Update(id, req)), Command::Update(id, req)) =~= step(
        m,
        Command::Update(id, req),
    ));
}

/// Applying the same delete twice leaves the store as applying it once.
pub proof fn lemma_delete_idempotent(m: Map<i32, UserView>, id: i32)
    ensures
        step(step(m, Command::Delete(id)), Command::Delete(id)) == step(m, Command::Delete(id)),
{
    assert(step(step(m, Command::Delete(id)), Command::Delete(id)) =~= step(
        m,
        Command::Delete(id),
    ));
}

/// The number of creates in `cs` that succeeded, run from `m`.
pub open spec fn creates_done(m: Map<i32, UserView>, cs: Seq<Command>) -> nat
    decreases cs.len(),
{
    if cs.len() == 0 {
        0
    } else {
        creates_done(m, cs.drop_last()) + match cs.last() {
            Command::Create(_) => if create_fits(run(m, cs.drop_last())) {
                1nat
            } else {
                0nat
            },
            _ => 0nat,
        }
    }
}

/// The number of deletes in `cs` of an id that was stored, run from `m`.
pub open spec fn deletes_done(m: Map<i32, UserView>, cs: Seq<Command>) -> nat
    decreases cs.len(),
{
    if cs.len() == 0 {
        0
    } else {
        deletes_done(m, cs.drop_last()) + match cs.last() {
            Command::Delete(id) => if run(m, cs.drop_last()).contains_key(id) {
                1nat
            } else {
                0nat
            },
            _ => 0nat,
        }
    }
}

/// Every update in `cs`, run from `m`, replaces a stored user.
pub open spec fn updates_replace(m: Map<i32, UserView>, cs: Seq<Command>) -> bool
    decreases cs.len(),
{
    if cs.len() == 0 {
        true
    } else {
        updates_replace(m, cs.drop_last()) && match cs.last() {
            Command::Update(id, _) => run(m, cs.drop_last()).contains_key(id),
            _ => true,
        }
    }
}

/// Where no update adds a user, the store holds the seed, plus each create
/// that succeeded, minus each delete of a stored id. The store stays finite.
pub proof fn lemma_count_after_run(m: Map<i32, UserView>, cs: Seq<Command>)
    requires
        m.dom().finite(),
        updates_replace(m, cs),
    ensures
        run(m, cs).dom().finite(),
        run(m, cs).dom().len() + deletes_done(m, cs) == m.dom().len() + creates_done(m, cs),
    decreases cs.len(),
{
    if cs.len() > 0 {
        let prev = cs.drop_last();
        lemma_count_after_run(m, prev);
        let mm = run(m, prev);
        match cs.last() {
            Command::Create(req) => {
                if create_fits(mm) {
                    lemma_next_id_above(mm);
                    assert(!mm.contains_key(next_id_of(mm) as i32));
                }
            },
            Command::Update(id, req) => {
                assert(mm.insert(id, crate::model::user_of(id, req)).dom() == mm.dom());
            },
            Command::Delete(id) => {},
        }
    }
}

} // verus!
