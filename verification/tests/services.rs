use omnimesh::error::OmniMeshError;
use omnimesh::service::{rpc_call_result, rpc_response, PendingCalls, RpcMessage, TopicTable};

#[test]
fn test_pending_calls_ids_start_at_one_and_increase() {
    let mut calls: PendingCalls<&str> = PendingCalls::new();
    assert_eq!(calls.register("first"), 1);
    assert_eq!(calls.register("second"), 2);
    assert_eq!(calls.register("third"), 3);
}

#[test]
fn test_response_completes_its_call_once() {
    let mut calls: PendingCalls<&str> = PendingCalls::new();
    let a = calls.register("a");
    let b = calls.register("b");
    assert_eq!(calls.complete(b), Some("b"));
    assert_eq!(calls.complete(b), None);
    assert_eq!(calls.complete(a), Some("a"));
    assert_eq!(calls.complete(a), None);
}

#[test]
fn test_response_to_unknown_call_is_dropped() {
    let mut calls: PendingCalls<u32> = PendingCalls::new();
    let id = calls.register(7);
    assert_eq!(calls.complete(id + 100), None);
    assert_eq!(calls.complete(id), Some(7));
}

#[test]
fn test_topic_subscribers_in_order() {
    let mut table: TopicTable<u32> = TopicTable::new();
    assert!(table.subscribers("news").is_none());
    table.subscribe("news", 1);
    table.subscribe("sports", 2);
    table.subscribe("news", 3);
    assert_eq!(table.subscribers("news").unwrap(), &vec![1, 3]);
    assert_eq!(table.subscribers("sports").unwrap(), &vec![2]);
    assert!(table.subscribers("weather").is_none());
}

#[test]
fn test_rpc_response_and_call_result() {
    match rpc_response(7, Ok(vec![1, 2])) {
        RpcMessage::Response { request_id, payload } => {
            assert_eq!(request_id, 7);
            assert_eq!(payload, Ok(vec![1, 2]));
        }
        _ => panic!("expected a response"),
    }
    match rpc_response(8, Err(OmniMeshError::Service("boom".into()))) {
        RpcMessage::Response { request_id, payload } => {
            assert_eq!(request_id, 8);
            assert_eq!(payload, Err("service error: boom".to_string()));
        }
        _ => panic!("expected a response"),
    }
    assert_eq!(rpc_call_result(Ok(vec![3])).unwrap(), vec![3]);
    match rpc_call_result(Err("no such method".into())) {
        Err(OmniMeshError::Service(m)) => assert_eq!(m, "RPC error: no such method"),
        other => panic!("unexpected {:?}", other),
    }
}
