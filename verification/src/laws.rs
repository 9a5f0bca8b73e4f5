//! Store-wide laws, stated over the store's model (`GreetingStore::messages`)
//! and the spec functions that the store's contracts use, and proved once for
//! every input.

use vstd::prelude::*;
use crate::store::{new_id, spec_create, spec_get, spec_update};

verus! {

/// One store operation, at the level of the model.
pub enum StoreOp {
    Create(Seq<char>),
    Update(int, Seq<char>),
}

/// The model reached by one operation.
pub open spec fn apply_op(model: Seq<Seq<char>>, op: StoreOp) -> Seq<Seq<char>> {
    match op {
        StoreOp::Create(m) => spec_create(model, m),
        StoreOp::Update(id, m) => spec_update(model, id, m),
    }
}

/// The model reached by a sequence of operations, applied in order.
pub open spec fn apply_ops(model: Seq<Seq<char>>, ops: Seq<StoreOp>) -> Seq<Seq<char>>
    decreases ops.len(),
{
    if ops.len() == 0 {
        model
    } else {
        apply_op(apply_ops(model, ops.drop_last()), ops.last())
    }
}

/// Whether an operation writes to the given id.
pub open spec fn writes_id(op: StoreOp, id: int) -> bool {
    op matches StoreOp::Update(i, _) && i == id
}

/// The model reached by a sequence of creates, starting from the given model.
pub open spec fn model_after_creates(msgs: Seq<Seq<char>>) -> Seq<Seq<char>>
    decreases msgs.len(),
{
    if msgs.len() == 0 {
        Seq::empty()
    } else {
        spec_create(model_after_creates(msgs.drop_last()), msgs.last())
    }
}

/// Creating each message of `msgs` in turn on an initially empty store leaves
/// exactly those messages, in creation order: the entry with id `i + 1` is
/// the message of the `i`-th create, with no duplicates or omissions.
pub proof fn lemma_model_after_creates(msgs: Seq<Seq<char>>)
    ensures
        model_after_creates(msgs) == msgs,
    decreases msgs.len(),
{
    if msgs.len() == 0 {
        assert(model_after_creates(msgs) =~= msgs);
    } else {
        lemma_model_after_creates(msgs.drop_last());
        assert(model_after_creates(msgs) =~= msgs);
    }
}

/// Ids are handed out in sequence: on an initially empty store, the id
/// assigned by the `k`-th create (counting from zero) is `k + 1`, whatever
/// the messages are — so the ids of a run of creates are 1, 2, 3, ... with
/// no duplicates.
pub proof fn lemma_create_ids_sequential(msgs: Seq<Seq<char>>, k: int)
    requires
        0 <= k < msgs.len(),
        msgs.len() <= usize::MAX,
    ensures
        new_id(model_after_creates(msgs.take(k))) == k + 1,
{
    lemma_model_after_creates(msgs.take(k));
}

/// A create is read back: on any store, the id a create returns holds exactly
/// the created message.
pub proof fn lemma_get_after_create(model: Seq<Seq<char>>, m: Seq<char>)
    requires
        model.len() < usize::MAX,
    ensures
        spec_get(spec_create(model, m), new_id(model) as int) == Some(m),
{
}

/// An update is read back: updating an id that is present makes a following
/// get return the new message.
pub proof fn lemma_get_after_update(model: Seq<Seq<char>>, id: int, m: Seq<char>)
    requires
        1 <= id <= model.len(),
    ensures
        spec_get(spec_update(model, id, m), id) == Some(m),
{
}

/// What a get returns is stable under every operation that does not write its
/// id: a created message stays readable, unchanged, across any number of
/// further creates and of updates to other ids.
pub proof fn lemma_get_preserved(model: Seq<Seq<char>>, ops: Seq<StoreOp>, id: int)
    requires
        1 <= id <= model.len(),
        forall|i: int| 0 <= i < ops.len() ==> !writes_id(#[trigger] ops[i], id),
    ensures
        apply_ops(model, ops).len() >= model.len(),
        spec_get(apply_ops(model, ops), id) == spec_get(model, id),
    decreases ops.len(),
{
    if ops.len() > 0 {
        assert(forall|i: int|
            0 <= i < ops.drop_last().len() ==> !writes_id(#[trigger] ops.drop_last()[i], id));
        lemma_get_preserved(model, ops.drop_last(), id);
        let prev = apply_ops(model, ops.drop_last());
        assert(!writes_id(ops.last(), id));
        match ops.last() {
            StoreOp::Create(m) => {
                assert(spec_get(spec_create(prev, m), id) == spec_get(prev, id));
            },
            StoreOp::Update(j, m) => {
                assert(j != id);
                assert(spec_get(spec_update(prev, j, m), id) == spec_get(prev, id));
            },
        }
    }
}

/// An update to an absent id is a no-op: the model is unchanged, so no entry
/// is created and every get afterwards reads what it read before.
pub proof fn lemma_update_absent_id(model: Seq<Seq<char>>, id: int, m: Seq<char>)
    requires
        !(1 <= id <= model.len()),
    ensures
        spec_update(model, id, m) == model,
{
}

} // verus!
