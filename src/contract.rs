use vstd::prelude::*;

use crate::error::ContractError;
use crate::msg::{Attribute, ExecuteMsg, InstantiateMsg, MessagesResponse, QueryAnswer, QueryMsg, Response};
use crate::state::{Message, State};

verus! {

/// The decimal digit `d`, for `d < 10`.
pub open spec fn digit(d: nat) -> char {
    if d == 0 {
        '0'
    } else if d == 1 {
        '1'
    } else if d == 2 {
        '2'
    } else if d == 3 {
        '3'
    } else if d == 4 {
        '4'
    } else if d == 5 {
        '5'
    } else if d == 6 {
        '6'
    } else if d == 7 {
        '7'
    } else if d == 8 {
        '8'
    } else {
        '9'
    }
}

/// `n` written in decimal, without leading zeros.
pub open spec fn decimal(n: nat) -> Seq<char>
    decreases n,
{
    if n < 10 {
        seq![digit(n)]
    } else {
        decimal(n / 10).push(digit(n % 10))
    }
}

/// Relies on `cosmwasm_std::Uint128`'s `Display`, which writes the inner
/// `u128` in decimal.
#[verifier::external_body]
fn id_text(id: u128) -> (r: String)
    ensures
        r@ == decimal(id as nat),
{
    cosmwasm_std::Uint128::new(id).to_string()
}

/// The attributes reported for the message stored under `id`.
pub open spec fn add_message_attributes(id: u128, topic: Seq<char>, message: Seq<char>) -> Seq<
    (Seq<char>, Seq<char>),
> {
    seq![
        ("execute"@, "add message"@),
        ("message id"@, decimal(id as nat)),
        ("topic"@, topic),
        ("message text"@, message),
    ]
}

/// What add-message does: on success the record `{counter, sender, topic,
/// message}` is stored, the counter moves on by one and the attributes are
/// reported; it fails, with the state unchanged, only when the counter is at
/// its largest value.
pub open spec fn add_message_outcome(
    pre: State,
    post: State,
    sender: String,
    topic: String,
    message: String,
    r: Result<Response, ContractError>,
) -> bool {
    &&& post.wf()
    &&& r is Ok <==> pre.counter() < u128::MAX
    &&& r matches Ok(resp) ==> State::add_step(pre, post, sender, topic, message) && resp@
        == add_message_attributes(pre.counter(), topic@, message@)
    &&& r matches Err(e) ==> e == ContractError::Overflow && post == pre
}

/// Records owned by `address`.
pub open spec fn owned_by(address: Seq<char>) -> spec_fn(Message) -> bool {
    |m: Message| m.owner@ == address
}

/// Records under `topic`.
pub open spec fn about(topic: Seq<char>) -> spec_fn(Message) -> bool {
    |m: Message| m.topic@ == topic
}

/// The record with id `id`.
pub open spec fn with_id(id: u128) -> spec_fn(Message) -> bool {
    |m: Message| m.id == id
}

/// Sets the counter to zero over an empty store.
pub fn instantiate(_msg: InstantiateMsg) -> (r: State)
    ensures
        r.wf(),
        r.is_fresh(),
{
    State::new()
}

/// Runs a mutating command sent by `sender`.
pub fn execute(state: &mut State, sender: String, msg: ExecuteMsg) -> (r: Result<
    Response,
    ContractError,
>)
    requires
        old(state).wf(),
    ensures
        match msg {
            ExecuteMsg::AddMessage { topic, message } => add_message_outcome(
                *old(state),
                *final(state),
                sender,
                topic,
                message,
                r,
            ),
        },
{
    match msg {
        ExecuteMsg::AddMessage { topic, message } => add_message(state, sender, topic, message),
    }
}

/// Stores `{id, sender, topic, message}` with the id taken from the counter,
/// moves the counter on, and reports the operation, the id, the topic and the
/// text.
pub fn add_message(state: &mut State, sender: String, topic: String, message: String) -> (r:
    Result<Response, ContractError>)
    requires
        old(state).wf(),
    ensures
        add_message_outcome(*old(state), *final(state), sender, topic, message, r),
{
    let topic_value = topic.clone();
    let message_value = message.clone();
    match state.append(sender, topic, message) {
        Ok(id) => {
            let mut attributes: Vec<Attribute> = Vec::new();
            attributes.push(Attribute { key: "execute".to_owned(), value: "add message".to_owned() });
            attributes.push(Attribute { key: "message id".to_owned(), value: id_text(id) });
            attributes.push(Attribute { key: "topic".to_owned(), value: topic_value });
            attributes.push(Attribute { key: "message text".to_owned(), value: message_value });
            let resp = Response { attributes };
            assert(resp@ =~= add_message_attributes(id, topic@, message@));
            Ok(resp)
        },
        Err(e) => Err(e),
    }
}

/// Which records a scan keeps.
enum Criterion {
    Owner(String),
    Topic(String),
    Id(u128),
}

impl Criterion {
    spec fn holds(&self) -> spec_fn(Message) -> bool {
        match self {
            Criterion::Owner(address) => owned_by(address@),
            Criterion::Topic(topic) => about(topic@),
            Criterion::Id(id) => with_id(*id),
        }
    }

    fn accepts(&self, m: &Message) -> (r: bool)
        ensures
            r == self.holds()(*m),
    {
        match self {
            Criterion::Owner(address) => m.owner == *address,
            Criterion::Topic(topic) => m.topic == *topic,
            Criterion::Id(id) => m.id == *id,
        }
    }
}

/// A full scan of `all` that keeps, in order, the records that `c` accepts.
fn collect_matching(all: &Vec<Message>, c: &Criterion) -> (r: Vec<Message>)
    ensures
        r@ == all@.filter(c.holds()),
{
    let mut out: Vec<Message> = Vec::new();
    let mut i: usize = 0;
    while i < all.len()
        invariant
            i <= all@.len(),
            out@ == all@.subrange(0, i as int).filter(c.holds()),
        decreases all@.len() - i,
    {
        let m = &all[i];
        if c.accepts(m) {
            out.push(m.duplicate());
        }
        proof {
            let taken = all@.subrange(0, i + 1);
            assert(taken.drop_last() =~= all@.subrange(0, i as int));
            reveal(Seq::filter);
        }
        i += 1;
    }
    assert(all@.subrange(0, all@.len() as int) =~= all@);
    out
}

/// The sequence counter.
pub fn query_current_id(state: &State) -> (r: u128)
    ensures
        r == state.counter(),
{
    state.current_id()
}

/// Every record, in ascending id order.
pub fn query_all_messages(state: &State) -> (r: MessagesResponse)
    ensures
        r.messages@ == state.records(),
{
    let all = state.messages();
    let mut messages: Vec<Message> = Vec::new();
    let mut i: usize = 0;
    while i < all.len()
        invariant
            i <= all@.len(),
            messages@ == all@.subrange(0, i as int),
        decreases all@.len() - i,
    {
        messages.push(all[i].duplicate());
        assert(messages@ =~= all@.subrange(0, i + 1));
        i += 1;
    }
    assert(all@.subrange(0, all@.len() as int) =~= all@);
    MessagesResponse { messages }
}

/// The records whose owner is `address`, in ascending id order.
pub fn query_messages_by_addr(state: &State, address: String) -> (r: MessagesResponse)
    ensures
        r.messages@ == state.records().filter(owned_by(address@)),
{
    let c = Criterion::Owner(address);
    MessagesResponse { messages: collect_matching(state.messages(), &c) }
}

/// The records whose topic is `topic`, in ascending id order.
pub fn query_messages_by_topic(state: &State, topic: String) -> (r: MessagesResponse)
    ensures
        r.messages@ == state.records().filter(about(topic@)),
{
    let c = Criterion::Topic(topic);
    MessagesResponse { messages: collect_matching(state.messages(), &c) }
}

/// The records whose id is `id`: at most one.
pub fn query_messages_by_id(state: &State, id: u128) -> (r: MessagesResponse)
    ensures
        r.messages@ == state.records().filter(with_id(id)),
{
    let c = Criterion::Id(id);
    MessagesResponse { messages: collect_matching(state.messages(), &c) }
}

/// Answers a query; no query changes the state.
pub fn query(state: &State, msg: QueryMsg) -> (r: QueryAnswer)
    ensures
        match msg {
            QueryMsg::GetCurrentId {  } => r == QueryAnswer::CurrentId(state.counter()),
            QueryMsg::GetAllMessage {  } => r matches QueryAnswer::Messages(m) && m.messages@
                == state.records(),
            QueryMsg::GetMessagesByAddr { address } => r matches QueryAnswer::Messages(m)
                && m.messages@ == state.records().filter(owned_by(address@)),
            QueryMsg::GetMessagesByTopic { topic } => r matches QueryAnswer::Messages(m)
                && m.messages@ == state.records().filter(about(topic@)),
            QueryMsg::GetMessagesById { id } => r matches QueryAnswer::Messages(m) && m.messages@
                == state.records().filter(with_id(id)),
        },
{
    match msg {
        QueryMsg::GetCurrentId {  } => QueryAnswer::CurrentId(query_current_id(state)),
        QueryMsg::GetAllMessage {  } => QueryAnswer::Messages(query_all_messages(state)),
        QueryMsg::GetMessagesByAddr { address } => QueryAnswer::Messages(
            query_messages_by_addr(state, address),
        ),
        QueryMsg::GetMessagesByTopic { topic } => QueryAnswer::Messages(
            query_messages_by_topic(state, topic),
        ),
        QueryMsg::GetMessagesById { id } => QueryAnswer::Messages(query_messages_by_id(state, id)),
    }
}

} // verus!
