//! The greeting store: an in-memory mapping from server-assigned ids to
//! message texts. Ids start at 1 and are handed out in order, so the record
//! with id `k` lives at index `k - 1` of the underlying vector.

use vstd::prelude::*;

verus! {

/// A single greeting record: a server-assigned id and its text.
pub struct Greeting {
    pub id: Option<usize>,
    pub message: String,
}

/// The body of a create or update request: the new message text.
pub struct Message {
    pub message: String,
}

/// What `create` does to the store's model: the new message is appended.
pub open spec fn spec_create(model: Seq<Seq<char>>, m: Seq<char>) -> Seq<Seq<char>> {
    model.push(m)
}

/// The id that `create` assigns on a store with the given model: one past the
/// current size, so ids run 1, 2, 3, ...
pub open spec fn new_id(model: Seq<Seq<char>>) -> usize
    recommends
        model.len() < usize::MAX,
{
    (model.len() + 1) as usize
}

/// What `update` does to the store's model: an existing entry is replaced in
/// place; an absent id leaves the model untouched.
pub open spec fn spec_update(model: Seq<Seq<char>>, id: int, m: Seq<char>) -> Seq<Seq<char>> {
    if 1 <= id <= model.len() {
        model.update(id - 1, m)
    } else {
        model
    }
}

/// What `get` reads from the store's model.
pub open spec fn spec_get(model: Seq<Seq<char>>, id: int) -> Option<Seq<char>> {
    if 1 <= id <= model.len() {
        Some(model[id - 1])
    } else {
        None
    }
}

/// In-memory store of greetings. The whole structure is meant to sit behind a
/// single exclusive lock owned by the caller; every operation takes the store
/// by (mutable) reference, so each call is one atomic critical section.
pub struct GreetingStore {
    messages: Vec<String>,
}

impl GreetingStore {
    /// The mathematical model: the sequence of message texts, where the record
    /// with id `k` is entry `k - 1`.
    pub closed spec fn messages(self) -> Seq<Seq<char>> {
        self.messages@.map_values(|m: String| m@)
    }

    /// How many records the store holds.
    pub open spec fn size(self) -> nat {
        self.messages().len()
    }

    /// Whether an id is present: exactly the ids 1 ..= size.
    pub open spec fn contains_id(self, id: int) -> bool {
        1 <= id <= self.size()
    }

    /// The message stored under an id that is present.
    pub open spec fn message_of(self, id: int) -> Seq<char>
        recommends
            self.contains_id(id),
    {
        self.messages()[id - 1]
    }

    /// A fresh, empty store.
    pub fn new() -> (s: Self)
        ensures
            s.messages() == Seq::<Seq<char>>::empty(),
    {
        let s = GreetingStore { messages: Vec::new() };
        proof {
            assert(s.messages() =~= Seq::<Seq<char>>::empty());
        }
        s
    }

    /// The number of records currently held.
    pub fn len(&self) -> (n: usize)
        ensures
            n == self.size(),
    {
        self.messages.len()
    }

    /// Allocates the next id (current size plus one) and inserts the message
    /// under it. Returns the created record.
    pub fn create(&mut self, message: String) -> (g: Greeting)
        requires
            old(self).size() < usize::MAX,
        ensures
            final(self).messages() == spec_create(old(self).messages(), message@),
            g.id == Some(new_id(old(self).messages())),
            g.message@ == message@,
    {
        let id = self.messages.len() + 1;
        let text = message.clone();
        self.messages.push(message);
        proof {
            assert(self.messages() =~= spec_create(old(self).messages(), text@));
        }
        Greeting { id: Some(id), message: text }
    }

    /// Replaces the message under `id` if that id is present and returns the
    /// updated record; an absent id yields `None` and leaves the store
    /// unchanged (no entry is created).
    pub fn update(&mut self, id: usize, message: String) -> (r: Option<Greeting>)
        ensures
            final(self).messages() == spec_update(old(self).messages(), id as int, message@),
            old(self).contains_id(id as int) ==> (r matches Some(g) && g.id == Some(id)
                && g.message@ == message@),
            !old(self).contains_id(id as int) ==> r is None,
    {
        if id >= 1 && id <= self.messages.len() {
            let text = message.clone();
            self.messages.set(id - 1, message);
            proof {
                assert(self.messages() =~= spec_update(
                    old(self).messages(),
                    id as int,
                    text@,
                ));
            }
            Some(Greeting { id: Some(id), message: text })
        } else {
            proof {
                assert(self.messages() =~= old(self).messages());
            }
            None
        }
    }

    /// Reads the record under `id`, or `None` if the id is absent.
    pub fn get(&self, id: usize) -> (r: Option<Greeting>)
        ensures
            match spec_get(self.messages(), id as int) {
                Some(m) => r matches Some(g) && g.id == Some(id) && g.message@ == m,
                None => r is None,
            },
    {
        if id >= 1 && id <= self.messages.len() {
            let text = self.messages[id - 1].clone();
            Some(Greeting { id: Some(id), message: text })
        } else {
            None
        }
    }

    /// Returns every record exactly once, in id order.
    pub fn list(&self) -> (v: Vec<Greeting>)
        ensures
            v@.len() == self.size(),
            forall|i: int|
                0 <= i < v@.len() ==> (#[trigger] v@[i]).id == Some((i + 1) as usize)
                    && v@[i].message@ == self.messages()[i],
    {
        let mut v: Vec<Greeting> = Vec::new();
        let mut k: usize = 0;
        while k < self.messages.len()
            invariant
                0 <= k <= self.messages.len(),
                v@.len() == k,
                forall|i: int|
                    0 <= i < k ==> (#[trigger] v@[i]).id == Some((i + 1) as usize)
                        && v@[i].message@ == self.messages()[i],
            decreases self.messages.len() - k,
        {
            let text = self.messages[k].clone();
            v.push(Greeting { id: Some(k + 1), message: text });
            k = k + 1;
        }
        v
    }
}

} // verus!
