use vstd::prelude::*;

use crate::decimal::{dec_of, u128_to_dec};
use crate::error::ContractError;
use crate::msg::{
    Attribute, ExecuteMsg, InstantiateMsg, MessageInfo, MessagesResponse, QueryAnswer, QueryMsg,
    Response,
};
use crate::state::{contains_id, on_topic, owned_by, Message, State};

verus! {

/// `attrs` is the event a successful insertion of `m` emits: the action
/// tag followed by the record's id (rendered in decimal), owner, topic and
/// body, in that order.
pub open spec fn add_message_event(attrs: Seq<Attribute>, m: Message) -> bool {
    &&& attrs.len() == 5
    &&& attrs[0].key@ == "action"@
    &&& attrs[0].value@ == "execute_add_message"@
    &&& attrs[1].key@ == "message_id"@
    &&& attrs[1].value@ == dec_of(m.id as nat)
    &&& attrs[2].key@ == "message_owner"@
    &&& attrs[2].value@ == m.owner@
    &&& attrs[3].key@ == "message_topic"@
    &&& attrs[3].value@ == m.topic@
    &&& attrs[4].key@ == "message_message"@
    &&& attrs[4].value@ == m.message@
}

/// How one insertion request relates the state before the call, the state
/// after it and its result: on success the record gets the pre-state
/// counter as its fresh id and is appended, the counter advances by one,
/// and the event is emitted; the request fails, leaving the state
/// untouched, exactly when the counter cannot advance without wrapping.
pub open spec fn add_message_transition(
    pre: State,
    post: State,
    r: Result<Response, ContractError>,
    sender: String,
    topic: String,
    message: String,
) -> bool {
    match r {
        Ok(resp) => {
            &&& pre.allocator.current() < u128::MAX
            &&& post.allocator.current() == pre.allocator.current() + 1
            &&& post@ == pre@.push(
                (Message {
                    id: pre.allocator.current(),
                    owner: sender,
                    topic: topic,
                    message: message,
                }),
            )
            &&& add_message_event(resp.attributes@, post@.last())
        },
        Err(e) => {
            &&& e == ContractError::CounterOverflow
            &&& pre.allocator.current() == u128::MAX
            &&& post == pre
        },
    }
}

/// System initialization: no parameters, counter set to zero, no records,
/// no events emitted.
pub fn instantiate(_msg: InstantiateMsg) -> (r: (State, Response))
    ensures
        r.0.wf(),
        r.0@ == Seq::<Message>::empty(),
        r.0.allocator.current() == 0,
        r.1.attributes@ == Seq::<Attribute>::empty(),
{
    (State::new(), Response::new())
}

/// The state-transition entry point: dispatches the request to the one
/// operation the system supports.
pub fn execute(state: &mut State, info: MessageInfo, msg: ExecuteMsg) -> (r: Result<
    Response,
    ContractError,
>)
    requires
        old(state).wf(),
    ensures
        final(state).wf(),
        match msg {
            ExecuteMsg::AddMessage { topic, message } => add_message_transition(
                *old(state),
                *final(state),
                r,
                info.sender,
                topic,
                message,
            ),
        },
{
    match msg {
        ExecuteMsg::AddMessage { topic, message } => add_message(state, info, topic, message),
    }
}

/// Allocates a fresh id, appends the record and emits the event. The
/// allocation and the insertion commit together: on overflow nothing is
/// written.
pub fn add_message(state: &mut State, info: MessageInfo, topic: String, message: String) -> (r:
    Result<Response, ContractError>)
    requires
        old(state).wf(),
    ensures
        final(state).wf(),
        add_message_transition(*old(state), *final(state), r, info.sender, topic, message),
{
    let id = match state.allocator.allocate() {
        Ok(id) => id,
        Err(e) => {
            return Err(e);
        },
    };
    let m = Message { id, owner: info.sender, topic, message };
    let resp = Response::new()
        .add_attribute("action", "execute_add_message".to_owned())
        .add_attribute("message_id", u128_to_dec(id))
        .add_attribute("message_owner", m.owner.clone())
        .add_attribute("message_topic", m.topic.clone())
        .add_attribute("message_message", m.message.clone());
    state.store.insert(m);
    Ok(resp)
}

/// The current counter value: the id the next insertion will get, equal
/// to the number of insertions so far.
pub fn query_current_id(state: &State) -> (r: u128)
    requires
        state.wf(),
    ensures
        r == state.allocator.current(),
{
    state.allocator.current_value()
}

/// Every stored record, ascending by id.
pub fn query_all_messages(state: &State) -> (r: MessagesResponse)
    requires
        state.wf(),
    ensures
        r.messages@ == state@,
{
    MessagesResponse { messages: state.store.list_all() }
}

/// Exactly the records whose owner equals `address`, ascending by id.
pub fn query_messages_by_addr(state: &State, address: String) -> (r: MessagesResponse)
    requires
        state.wf(),
    ensures
        r.messages@ == state@.filter(owned_by(address@)),
{
    MessagesResponse { messages: state.store.list_by_owner(&address) }
}

/// Exactly the records whose topic equals `topic`, ascending by id.
pub fn query_messages_by_topic(state: &State, topic: String) -> (r: MessagesResponse)
    requires
        state.wf(),
    ensures
        r.messages@ == state@.filter(on_topic(topic@)),
{
    MessagesResponse { messages: state.store.list_by_topic(&topic) }
}

/// Point lookup: the single record with the requested id, or `NotFound`
/// exactly when that id has never been assigned.
pub fn query_messages_by_id(state: &State, id: u128) -> (r: Result<MessagesResponse, ContractError>)
    requires
        state.wf(),
    ensures
        match r {
            Ok(mr) => id < state@.len() && mr.messages@ == seq![state@[id as int]],
            Err(e) => e == ContractError::NotFound && id >= state@.len(),
        },
{
    match state.store.get(id) {
        Ok(m) => {
            proof {
                let i = choose|i: int| 0 <= i < state@.len() && state@[i] == m;
                assert(state@[i].id == i);
                assert(m == state@[id as int]);
            }
            Ok(MessagesResponse { messages: vec![m] })
        },
        Err(e) => {
            proof {
                if id < state@.len() {
                    assert(state@[id as int].id == id);
                    assert(contains_id(state@, id));
                }
            }
            Err(e)
        },
    }
}

/// The read-only entry point: dispatches the query and answers it from
/// the committed state without mutating anything.
pub fn query(state: &State, msg: QueryMsg) -> (r: Result<QueryAnswer, ContractError>)
    requires
        state.wf(),
    ensures
        match msg {
            QueryMsg::GetCurrentId {} => r matches Ok(a) && a matches QueryAnswer::CurrentId(v)
                && v == state.allocator.current(),
            QueryMsg::GetAllMessage {} => r matches Ok(a) && a matches QueryAnswer::Messages(mr)
                && mr.messages@ == state@,
            QueryMsg::GetMessagesByAddr { address } => r matches Ok(a) && a
                matches QueryAnswer::Messages(mr) && mr.messages@ == state@.filter(
                owned_by(address@),
            ),
            QueryMsg::GetMessagesByTopic { topic } => r matches Ok(a) && a
                matches QueryAnswer::Messages(mr) && mr.messages@ == state@.filter(
                on_topic(topic@),
            ),
            QueryMsg::GetMessagesById { id } => {
                &&& (r matches Ok(a) ==> a matches QueryAnswer::Messages(mr) && id < state@.len()
                    && mr.messages@ == seq![state@[id as int]])
                &&& (r matches Err(e) ==> e == ContractError::NotFound && id >= state@.len())
            },
        },
{
    match msg {
        QueryMsg::GetCurrentId {} => Ok(QueryAnswer::CurrentId(query_current_id(state))),
        QueryMsg::GetAllMessage {} => Ok(QueryAnswer::Messages(query_all_messages(state))),
        QueryMsg::GetMessagesByAddr { address } => Ok(
            QueryAnswer::Messages(query_messages_by_addr(state, address)),
        ),
        QueryMsg::GetMessagesByTopic { topic } => Ok(
            QueryAnswer::Messages(query_messages_by_topic(state, topic)),
        ),
        QueryMsg::GetMessagesById { id } => match query_messages_by_id(state, id) {
            Ok(mr) => Ok(QueryAnswer::Messages(mr)),
            Err(e) => Err(e),
        },
    }
}

/// **Monotonicity of assigned ids.** In a reachable state the records hold
/// ids `0, 1, ..., N - 1` in insertion order, where `N` is the number of
/// successful insertions so far; together with `add_message_transition`
/// (each success assigns the pre-state counter and advances it by one)
/// the ids of any run of `N` successful insertions are exactly
/// `0, 1, ..., N - 1` in call order.
pub proof fn lemma_ids_are_insertion_order(s: State)
    requires
        s.wf(),
    ensures
        s@.len() == s.allocator.current(),
        forall|i: int| 0 <= i < s@.len() ==> (#[trigger] s@[i]).id == i,
{
}

/// **Lookup coverage.** An id has a record exactly when it has been
/// assigned, that is, exactly when it lies below the counter; with the
/// contract of `query_messages_by_id` this says the point lookup succeeds
/// on every assigned id and fails with `NotFound` on every other.
pub proof fn lemma_assigned_iff_below_counter(s: State, id: u128)
    requires
        s.wf(),
    ensures
        contains_id(s@, id) <==> id < s.allocator.current(),
{
    if id < s.allocator.current() {
        assert((s@[id as int]).id == id);
    }
    if contains_id(s@, id) {
        let i = choose|i: int| 0 <= i < s@.len() && (#[trigger] s@[i]).id == id;
        assert((s@[i]).id == i);
    }
}

/// **Idempotent current-id read.** The counter read is a pure function of
/// the committed state: two reads with no intervening insertion (that is,
/// against the same state) return the same value. The premises are the
/// contract of `query_current_id` for each of the two calls.
pub proof fn lemma_current_id_read_idempotent(s: State, first: u128, second: u128)
    requires
        first == s.allocator.current(),
        second == s.allocator.current(),
    ensures
        first == second,
{
}

} // verus!
