use messages::contract::{execute, instantiate, query};
use messages::error::ContractError;
use messages::msg::{
    Attribute, ExecuteMsg, InstantiateMsg, MessageInfo, QueryAnswer, QueryMsg,
};
use messages::state::{Message, State};

const ADDR1: &str = "addr1";
const ADDR2: &str = "addr2";

fn mock_info(sender: &str) -> MessageInfo {
    MessageInfo { sender: sender.to_string() }
}

fn attr(key: &str, value: &str) -> Attribute {
    Attribute { key: key.to_string(), value: value.to_string() }
}

fn setup_contract() -> State {
    let (state, res) = instantiate(InstantiateMsg {});
    assert_eq!(0, res.attributes.len());
    state
}

fn create_multiple_messages() -> State {
    let mut state = setup_contract();
    let msg1 = ExecuteMsg::AddMessage {
        topic: "lol".to_string(),
        message: "wut".to_string(),
    };
    let msg2 = ExecuteMsg::AddMessage {
        topic: "lol".to_string(),
        message: "haha".to_string(),
    };
    let _res = execute(&mut state, mock_info(ADDR1), msg1).unwrap();
    let _res = execute(&mut state, mock_info(ADDR2), msg2).unwrap();
    state
}

#[test]
fn proper_initialization() {
    let state = setup_contract();

    let res = query(&state, QueryMsg::GetCurrentId {}).unwrap();
    assert_eq!(QueryAnswer::CurrentId(0), res);
}

#[test]
fn add_message() {
    let mut state = setup_contract();
    let topic = "lol".to_string();
    let message = "wut".to_string();
    let msg = ExecuteMsg::AddMessage {
        topic: topic.clone(),
        message: message.clone(),
    };
    let res = execute(&mut state, mock_info(ADDR1), msg).unwrap();
    assert_eq!(
        res.attributes,
        vec![
            attr("action", "execute_add_message"),
            attr("message_id", "0"),
            attr("message_owner", ADDR1),
            attr("message_topic", &topic),
            attr("message_message", &message),
        ]
    )
}

#[test]
fn query_all_messages() {
    let state = create_multiple_messages();
    let res = query(&state, QueryMsg::GetAllMessage {}).unwrap();
    match res {
        QueryAnswer::Messages(mr) => assert_eq!(mr.messages.len(), 2),
        other => panic!("unexpected answer: {:?}", other),
    }
}

#[test]
fn query_messages_by_owner() {
    let state = create_multiple_messages();
    let res = query(
        &state,
        QueryMsg::GetMessagesByAddr { address: ADDR1.to_string() },
    )
    .unwrap();
    match res {
        QueryAnswer::Messages(mr) => assert_eq!(mr.messages.len(), 1),
        other => panic!("unexpected answer: {:?}", other),
    }
}

#[test]
fn query_messages_by_id() {
    let state = create_multiple_messages();
    let res = query(&state, QueryMsg::GetMessagesById { id: 1 }).unwrap();
    match res {
        QueryAnswer::Messages(mr) => {
            assert_eq!(mr.messages.len(), 1);
            assert_eq!(mr.messages[0].id, 1)
        }
        other => panic!("unexpected answer: {:?}", other),
    }
}

#[test]
fn query_messages_by_topic() {
    let state = create_multiple_messages();
    let res = query(
        &state,
        QueryMsg::GetMessagesByTopic { topic: "lol".to_string() },
    )
    .unwrap();
    match res {
        QueryAnswer::Messages(mr) => assert_eq!(mr.messages.len(), 2),
        other => panic!("unexpected answer: {:?}", other),
    }
}

#[test]
fn assigned_ids_are_consecutive_from_zero() {
    let mut state = setup_contract();
    for expected in ["0", "1", "2"] {
        let msg = ExecuteMsg::AddMessage {
            topic: "t".to_string(),
            message: "b".to_string(),
        };
        let res = execute(&mut state, mock_info(ADDR1), msg).unwrap();
        assert_eq!(res.attributes[1], attr("message_id", expected));
    }
    let res = query(&state, QueryMsg::GetAllMessage {}).unwrap();
    match res {
        QueryAnswer::Messages(mr) => {
            let ids: Vec<u128> = mr.messages.iter().map(|m| m.id).collect();
            assert_eq!(ids, vec![0, 1, 2]);
        }
        other => panic!("unexpected answer: {:?}", other),
    }
}

#[test]
fn current_id_advances_and_reads_idempotently() {
    let mut state = setup_contract();
    let msg = ExecuteMsg::AddMessage {
        topic: "lol".to_string(),
        message: "wut".to_string(),
    };
    execute(&mut state, mock_info(ADDR1), msg).unwrap();
    let first = query(&state, QueryMsg::GetCurrentId {}).unwrap();
    let second = query(&state, QueryMsg::GetCurrentId {}).unwrap();
    assert_eq!(QueryAnswer::CurrentId(1), first);
    assert_eq!(first, second);
}

#[test]
fn lookup_of_never_assigned_id_is_not_found() {
    let state = create_multiple_messages();
    let err = query(&state, QueryMsg::GetMessagesById { id: 5 }).unwrap_err();
    assert_eq!(err, ContractError::NotFound);
}

#[test]
fn owner_filter_returns_exact_subset_in_order() {
    let mut state = setup_contract();
    let bodies = [(ADDR1, "a"), (ADDR2, "b"), (ADDR1, "c")];
    for (owner, body) in bodies {
        let msg = ExecuteMsg::AddMessage {
            topic: "t".to_string(),
            message: body.to_string(),
        };
        execute(&mut state, mock_info(owner), msg).unwrap();
    }
    let res = query(
        &state,
        QueryMsg::GetMessagesByAddr { address: ADDR1.to_string() },
    )
    .unwrap();
    let expected = vec![
        Message {
            id: 0,
            owner: ADDR1.to_string(),
            topic: "t".to_string(),
            message: "a".to_string(),
        },
        Message {
            id: 2,
            owner: ADDR1.to_string(),
            topic: "t".to_string(),
            message: "c".to_string(),
        },
    ];
    match res {
        QueryAnswer::Messages(mr) => assert_eq!(mr.messages, expected),
        other => panic!("unexpected answer: {:?}", other),
    }
}

#[test]
fn topic_filter_returns_exact_subset_in_order() {
    let mut state = setup_contract();
    let entries = [("news", "a"), ("chat", "b"), ("news", "c")];
    for (topic, body) in entries {
        let msg = ExecuteMsg::AddMessage {
            topic: topic.to_string(),
            message: body.to_string(),
        };
        execute(&mut state, mock_info(ADDR1), msg).unwrap();
    }
    let res = query(
        &state,
        QueryMsg::GetMessagesByTopic { topic: "news".to_string() },
    )
    .unwrap();
    match res {
        QueryAnswer::Messages(mr) => {
            assert_eq!(mr.messages.len(), 2);
            assert_eq!(mr.messages[0].id, 0);
            assert_eq!(mr.messages[0].message, "a");
            assert_eq!(mr.messages[1].id, 2);
            assert_eq!(mr.messages[1].message, "c");
        }
        other => panic!("unexpected answer: {:?}", other),
    }
}

#[test]
fn all_messages_are_complete_and_ordered() {
    let state = create_multiple_messages();
    let expected = vec![
        Message {
            id: 0,
            owner: ADDR1.to_string(),
            topic: "lol".to_string(),
            message: "wut".to_string(),
        },
        Message {
            id: 1,
            owner: ADDR2.to_string(),
            topic: "lol".to_string(),
            message: "haha".to_string(),
        },
    ];
    let res = query(&state, QueryMsg::GetAllMessage {}).unwrap();
    match res {
        QueryAnswer::Messages(mr) => assert_eq!(mr.messages, expected),
        other => panic!("unexpected answer: {:?}", other),
    }
}

#[test]
fn lookup_returns_the_full_record() {
    let state = create_multiple_messages();
    let res = query(&state, QueryMsg::GetMessagesById { id: 1 }).unwrap();
    match res {
        QueryAnswer::Messages(mr) => {
            assert_eq!(mr.messages.len(), 1);
            assert_eq!(mr.messages[0].message, "haha");
            assert_eq!(mr.messages[0].owner, ADDR2);
        }
        other => panic!("unexpected answer: {:?}", other),
    }
}

#[test]
fn decimal_rendering_is_exact() {
    assert_eq!(messages::decimal::u128_to_dec(0), "0");
    assert_eq!(messages::decimal::u128_to_dec(7), "7");
    assert_eq!(messages::decimal::u128_to_dec(10), "10");
    assert_eq!(messages::decimal::u128_to_dec(90210), "90210");
    assert_eq!(
        messages::decimal::u128_to_dec(u128::MAX),
        "340282366920938463463374607431768211455"
    );
}

#[test]
fn restore_accepts_exactly_the_reachable_states() {
    let state = create_multiple_messages();
    let records = messages::contract::query_all_messages(&state).messages;
    let next_id = messages::contract::query_current_id(&state);
    let restored = State::restore(next_id, records).expect("round trip must restore");
    let res = query(&restored, QueryMsg::GetAllMessage {}).unwrap();
    match res {
        QueryAnswer::Messages(mr) => assert_eq!(mr.messages.len(), 2),
        other => panic!("unexpected answer: {:?}", other),
    }

    let bad = vec![Message {
        id: 3,
        owner: ADDR1.to_string(),
        topic: "t".to_string(),
        message: "b".to_string(),
    }];
    assert!(State::restore(1, bad).is_none());
}
