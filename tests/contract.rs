use messages::contract::{
    add_message, execute, instantiate, query, query_all_messages, query_current_id,
    query_messages_by_addr, query_messages_by_id, query_messages_by_topic,
};
use messages::error::ContractError;
use messages::msg::{Attribute, ExecuteMsg, InstantiateMsg, MessagesResponse, QueryAnswer, QueryMsg, Response};
use messages::state::{Message, State};

const SENDER: &str = "sender_address";
const TOPIC: &str = "some funny topic";
const MESSAGE_TEXT: &str = "ha ha, that's very funny";

fn setup_contract() -> State {
    instantiate(InstantiateMsg {})
}

fn create_single_message(state: &mut State, sender: &str) -> Result<Response, ContractError> {
    let msg_1 = ExecuteMsg::AddMessage { topic: TOPIC.to_string(), message: MESSAGE_TEXT.to_string() };
    execute(state, sender.to_string(), msg_1)
}

fn attr(key: &str, value: &str) -> Attribute {
    Attribute { key: key.to_string(), value: value.to_string() }
}

fn record(id: u128, owner: &str, topic: &str, message: &str) -> Message {
    Message { id, owner: owner.to_string(), topic: topic.to_string(), message: message.to_string() }
}

fn current_id(state: &State) -> u128 {
    match query(state, QueryMsg::GetCurrentId {}) {
        QueryAnswer::CurrentId(n) => n,
        QueryAnswer::Messages(_) => panic!("current-id answered with records"),
    }
}

fn listed(state: &State, msg: QueryMsg) -> Vec<Message> {
    match query(state, msg) {
        QueryAnswer::Messages(m) => m.messages,
        QueryAnswer::CurrentId(_) => panic!("a record query answered with the counter"),
    }
}

#[test]
fn proper_initialization() {
    let state = setup_contract();
    assert_eq!(0, state.messages().len());
    assert_eq!(0u128, current_id(&state));
}

#[test]
fn _add_message() {
    let mut state = setup_contract();
    let res = create_single_message(&mut state, SENDER);
    assert_eq!(
        res.unwrap().attributes,
        vec![
            attr("execute", "add message"),
            attr("message id", "0"),
            attr("topic", TOPIC),
            attr("message text", MESSAGE_TEXT),
        ]
    );
    assert_eq!(1u128, current_id(&state));
}

#[test]
fn _query_all_messages() {
    let mut state = setup_contract();
    let _res_1 = create_single_message(&mut state, SENDER);
    let topic_2 = "funniest topic";
    let msg_text_2 = "that's even better than before!";
    let msg_2 = ExecuteMsg::AddMessage { topic: topic_2.to_string(), message: msg_text_2.to_string() };
    let res_2 = execute(&mut state, SENDER.to_string(), msg_2).unwrap();
    assert_eq!(
        res_2.attributes,
        vec![
            attr("execute", "add message"),
            attr("message id", "1"),
            attr("topic", topic_2),
            attr("message text", msg_text_2),
        ]
    );
    let messages = listed(&state, QueryMsg::GetAllMessage {});
    assert!(messages.len() == 2);
}

#[test]
fn _query_messages_by_owner() {
    let mut state = setup_contract();
    let _res_msg = create_single_message(&mut state, SENDER);
    let _res_msg = create_single_message(&mut state, SENDER);
    let _res_msg = create_single_message(&mut state, "wladzioo");
    let messages = listed(&state, QueryMsg::GetAllMessage {});
    assert!(messages.len() == 3);
    let messages = listed(&state, QueryMsg::GetMessagesByAddr { address: String::from("wladzioo") });
    assert!(messages.len() == 1);
}

#[test]
fn _query_messages_by_id() {
    let mut state = setup_contract();
    let _res_msg = create_single_message(&mut state, SENDER);
    let _res_msg = create_single_message(&mut state, "wladzioo");
    let _res_msg = create_single_message(&mut state, SENDER);
    let messages = listed(&state, QueryMsg::GetMessagesById { id: 1 });
    assert!(messages[0].owner == "wladzioo");
}

#[test]
fn _query_messages_by_topic() {
    let mut state = setup_contract();
    let _res_msg = create_single_message(&mut state, "wladzioo");
    let _res_msg = create_single_message(&mut state, SENDER);
    let messages = listed(&state, QueryMsg::GetMessagesByTopic { topic: TOPIC.to_string() });
    assert!(messages.len() == 2);
    assert!(messages[0].owner == "wladzioo");
    assert!(messages[1].owner == SENDER);
    assert_ne!(messages[1].id, 0);
    assert_ne!(messages[1].id, 2);
}

#[test]
fn alice_and_bob_scenario() {
    let mut state = instantiate(InstantiateMsg {});
    let res = add_message(&mut state, "alice".to_string(), "t1".to_string(), "m1".to_string()).unwrap();
    assert_eq!(
        res.attributes,
        vec![attr("execute", "add message"), attr("message id", "0"), attr("topic", "t1"), attr("message text", "m1")]
    );
    assert_eq!(query_current_id(&state), 1);
    let res = add_message(&mut state, "bob".to_string(), "t2".to_string(), "m2".to_string()).unwrap();
    assert_eq!(res.attributes[1], attr("message id", "1"));
    assert_eq!(query_current_id(&state), 2);
    let alice = record(0, "alice", "t1", "m1");
    let bob = record(1, "bob", "t2", "m2");
    assert_eq!(query_all_messages(&state).messages, vec![alice.clone(), bob.clone()]);
    assert_eq!(query_messages_by_addr(&state, "bob".to_string()).messages, vec![bob.clone()]);
    assert_eq!(query_messages_by_topic(&state, "t1".to_string()).messages, vec![alice]);
    assert_eq!(query_messages_by_id(&state, 1).messages, vec![bob]);
    assert_eq!(query_messages_by_addr(&state, "carol".to_string()), MessagesResponse { messages: vec![] });
}

#[test]
fn ids_follow_submission_order_and_counter_counts() {
    let mut state = instantiate(InstantiateMsg {});
    for k in 0..12u128 {
        let res = add_message(&mut state, format!("user{}", k % 3), format!("topic{}", k % 2), format!("text{}", k)).unwrap();
        assert_eq!(res.attributes[1].value, k.to_string());
        assert_eq!(query_current_id(&state), k + 1);
    }
    let all = query_all_messages(&state).messages;
    assert_eq!(all.len(), 12);
    for (j, m) in all.iter().enumerate() {
        assert_eq!(m.id, j as u128);
        assert_eq!(m.message, format!("text{}", j));
    }
    assert_eq!(all[11].id, 11);
}

#[test]
fn id_attribute_is_decimal() {
    let mut state = instantiate(InstantiateMsg {});
    let mut last = None;
    for _ in 0..11 {
        last = Some(add_message(&mut state, "a".to_string(), "t".to_string(), "m".to_string()).unwrap());
    }
    assert_eq!(last.unwrap().attributes[1], attr("message id", "10"));
}

#[test]
fn records_never_change() {
    let mut state = instantiate(InstantiateMsg {});
    add_message(&mut state, "alice".to_string(), "t1".to_string(), "m1".to_string()).unwrap();
    let before = query_all_messages(&state).messages;
    add_message(&mut state, "bob".to_string(), "t1".to_string(), "m2".to_string()).unwrap();
    let _ = query_messages_by_topic(&state, "t1".to_string());
    add_message(&mut state, "alice".to_string(), "t3".to_string(), "".to_string()).unwrap();
    let after = query_all_messages(&state).messages;
    assert_eq!(after.len(), 3);
    assert_eq!(after[0], before[0]);
    assert_eq!(after[0], record(0, "alice", "t1", "m1"));
}

#[test]
fn filters_select_from_all_in_order() {
    let mut state = instantiate(InstantiateMsg {});
    let owners = ["x", "y", "x", "z", "x"];
    let topics = ["a", "b", "b", "a", "b"];
    for i in 0..5 {
        add_message(&mut state, owners[i].to_string(), topics[i].to_string(), format!("{}", i)).unwrap();
    }
    let all = query_all_messages(&state).messages;
    let by_x = query_messages_by_addr(&state, "x".to_string()).messages;
    let expected: Vec<Message> = all.iter().filter(|m| m.owner == "x").cloned().collect();
    assert_eq!(by_x, expected);
    assert_eq!(by_x.iter().map(|m| m.id).collect::<Vec<u128>>(), vec![0, 2, 4]);
    let by_b = query_messages_by_topic(&state, "b".to_string()).messages;
    assert_eq!(by_b.iter().map(|m| m.id).collect::<Vec<u128>>(), vec![1, 2, 4]);
    assert_eq!(query_messages_by_id(&state, 3).messages, vec![all[3].clone()]);
    // exact equality only: no case folding, no partial match
    assert!(query_messages_by_addr(&state, "X".to_string()).messages.is_empty());
    assert!(query_messages_by_topic(&state, "".to_string()).messages.is_empty());
}

#[test]
fn empty_results_are_not_errors() {
    let mut state = instantiate(InstantiateMsg {});
    assert!(listed(&state, QueryMsg::GetAllMessage {}).is_empty());
    assert!(listed(&state, QueryMsg::GetMessagesById { id: 0 }).is_empty());
    add_message(&mut state, "alice".to_string(), "t1".to_string(), "m1".to_string()).unwrap();
    assert!(listed(&state, QueryMsg::GetMessagesByAddr { address: "carol".to_string() }).is_empty());
    assert!(listed(&state, QueryMsg::GetMessagesByTopic { topic: "t9".to_string() }).is_empty());
    assert!(listed(&state, QueryMsg::GetMessagesById { id: 1 }).is_empty());
    assert!(listed(&state, QueryMsg::GetMessagesById { id: u128::MAX }).is_empty());
}

#[test]
fn empty_topic_and_message_are_accepted() {
    let mut state = instantiate(InstantiateMsg {});
    let res = add_message(&mut state, "".to_string(), "".to_string(), "".to_string()).unwrap();
    assert_eq!(res.attributes[2], attr("topic", ""));
    assert_eq!(res.attributes[3], attr("message text", ""));
    assert_eq!(query_all_messages(&state).messages, vec![record(0, "", "", "")]);
}

#[test]
fn restore_checks_the_stored_parts() {
    let parts = vec![record(0, "a", "t", "m"), record(1, "b", "t", "n")];
    let state = State::restore(2, parts.clone()).unwrap();
    assert_eq!(state.current_id(), 2);
    assert_eq!(state.messages(), &parts);
    assert!(State::restore(3, parts.clone()).is_none());
    assert!(State::restore(2, vec![record(0, "a", "t", "m"), record(2, "b", "t", "n")]).is_none());
    assert!(State::restore(0, vec![]).is_some());
}
