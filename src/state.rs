use vstd::prelude::*;

use crate::error::ContractError;

verus! {

/// One stored message.
#[derive(Debug, Clone, PartialEq, Eq)]
pub struct Message {
    pub id: u128,
    pub owner: String,
    pub topic: String,
    pub message: String,
}

impl Message {
    /// A field-by-field copy.
    pub fn duplicate(&self) -> (r: Message)
        ensures
            r == *self,
    {
        Message {
            id: self.id,
            owner: self.owner.clone(),
            topic: self.topic.clone(),
            message: self.message.clone(),
        }
    }
}

/// The registry's persisted state: the sequence counter, which is the id that
/// the next message gets, and the record store, held in ascending id order.
pub struct State {
    current_id: u128,
    messages: Vec<Message>,
}

impl State {
    /// The sequence counter.
    pub closed spec fn counter(&self) -> u128 {
        self.current_id
    }

    /// Every stored record, in ascending id order.
    pub closed spec fn records(&self) -> Seq<Message> {
        self.messages@
    }

    /// Record `i` has id `i`, and the counter is the number of records.
    pub open spec fn wf(&self) -> bool {
        &&& self.records().len() == self.counter()
        &&& forall|i: int| 0 <= i < self.records().len() ==> (#[trigger] self.records()[i]).id == i
    }

    /// The state right after instantiation.
    pub open spec fn is_fresh(&self) -> bool {
        self.counter() == 0 && self.records().len() == 0
    }

    /// `post` is `pre` after one successful add-message command.
    pub open spec fn add_step(
        pre: State,
        post: State,
        owner: String,
        topic: String,
        message: String,
    ) -> bool {
        &&& pre.counter() < u128::MAX
        &&& post.counter() == pre.counter() + 1
        &&& post.records() == pre.records().push(
            Message { id: pre.counter(), owner, topic, message },
        )
    }

    /// An empty store with the counter at zero.
    pub fn new() -> (r: State)
        ensures
            r.wf(),
            r.is_fresh(),
    {
        State { current_id: 0, messages: Vec::new() }
    }

    /// Rebuilds a state from a counter and the stored records, provided that
    /// record `i` has id `i` and the counter is their number.
    pub fn restore(current_id: u128, messages: Vec<Message>) -> (r: Option<State>)
        ensures
            r is Some <==> (messages@.len() == current_id && forall|i: int|
                0 <= i < messages@.len() ==> (#[trigger] messages@[i]).id == i),
            r matches Some(s) ==> s.counter() == current_id && s.records() == messages@,
    {
        if messages.len() as u128 != current_id {
            return None;
        }
        let mut i: usize = 0;
        while i < messages.len()
            invariant
                i <= messages@.len(),
                forall|j: int| 0 <= j < i ==> (#[trigger] messages@[j]).id == j,
            decreases messages@.len() - i,
        {
            if messages[i].id != i as u128 {
                return None;
            }
            i += 1;
        }
        Some(State { current_id, messages })
    }

    /// The sequence counter.
    pub fn current_id(&self) -> (r: u128)
        ensures
            r == self.counter(),
    {
        self.current_id
    }

    /// Every stored record, in ascending id order.
    pub fn messages(&self) -> (r: &Vec<Message>)
        ensures
            r@ == self.records(),
    {
        &self.messages
    }

    /// Stores a record under the current counter value and moves the counter
    /// on by one; returns the id given. Refused, with nothing changed, when
    /// the counter is at its largest value.
    pub fn append(&mut self, owner: String, topic: String, message: String) -> (r: Result<
        u128,
        ContractError,
    >)
        requires
            old(self).wf(),
        ensures
            final(self).wf(),
            r is Ok <==> old(self).counter() < u128::MAX,
            r matches Ok(id) ==> id == old(self).counter() && State::add_step(
                *old(self),
                *final(self),
                owner,
                topic,
                message,
            ),
            r matches Err(e) ==> e == ContractError::Overflow && *final(self) == *old(self),
    {
        if self.current_id == u128::MAX {
            return Err(ContractError::Overflow);
        }
        let id = self.current_id;
        self.messages.push(Message { id, owner, topic, message });
        self.current_id = id + 1;
        Ok(id)
    }
}

} // verus!
