use replica_map::client::{ClientCfg, ClientKind, ClientState};
use replica_map::peer::{Envelope, RegisterMsg};

fn put_client() -> ClientCfg {
    ClientCfg {
        kind: ClientKind::Put,
        count: 2,
        intermediate_gets: true,
        server_count: 2,
        key: 'b',
    }
}

#[test]
fn client_start_issues_first_mutation() {
    let cfg = put_client();
    let (state, out) = cfg.on_start(2);
    assert_eq!(state, ClientState { awaiting: Some(2), op_count: 1 });
    assert_eq!(out, vec![Envelope { dst: 0, msg: RegisterMsg::Put(2, 'b', 'A') }]);
}

#[test]
fn client_start_value_varies_with_index() {
    let cfg = put_client();
    let (_, out) = cfg.on_start(3);
    assert_eq!(out, vec![Envelope { dst: 1, msg: RegisterMsg::Put(3, 'b', 'B') }]);
}

#[test]
fn client_with_no_mutations_stays_idle() {
    let cfg = ClientCfg { count: 0, ..put_client() };
    let (state, out) = cfg.on_start(2);
    assert_eq!(state, ClientState { awaiting: None, op_count: 0 });
    assert!(out.is_empty());
}

#[test]
fn client_advances_only_on_the_matching_reply() {
    let cfg = put_client();
    let (mut state, _) = cfg.on_start(2);
    // A reply for someone else's request is ignored.
    let out = cfg.on_msg(&mut state, 2, &RegisterMsg::PutOk(99));
    assert!(out.is_empty());
    assert_eq!(state, ClientState { awaiting: Some(2), op_count: 1 });
    // A delete acknowledgement never matches a put client.
    let out = cfg.on_msg(&mut state, 2, &RegisterMsg::DeleteOk(2));
    assert!(out.is_empty());
    assert_eq!(state, ClientState { awaiting: Some(2), op_count: 1 });
    // The matching acknowledgement issues the second put, to the next
    // replica around the ring.
    let out = cfg.on_msg(&mut state, 2, &RegisterMsg::PutOk(2));
    assert_eq!(out, vec![Envelope { dst: 1, msg: RegisterMsg::Put(4, 'b', 'Z') }]);
    assert_eq!(state, ClientState { awaiting: Some(4), op_count: 2 });
}

#[test]
fn client_issues_trailing_get_then_finishes() {
    let cfg = put_client();
    let mut state = ClientState { awaiting: Some(4), op_count: 2 };
    let out = cfg.on_msg(&mut state, 2, &RegisterMsg::PutOk(4));
    assert_eq!(out, vec![Envelope { dst: 0, msg: RegisterMsg::Get(6, 'b') }]);
    assert_eq!(state, ClientState { awaiting: Some(6), op_count: 3 });
    let out = cfg.on_msg(&mut state, 2, &RegisterMsg::GetOk(6, 'Z'));
    assert!(out.is_empty());
    assert_eq!(state, ClientState { awaiting: None, op_count: 4 });
    // Once idle, everything is ignored.
    let out = cfg.on_msg(&mut state, 2, &RegisterMsg::PutOk(6));
    assert!(out.is_empty());
    assert_eq!(state, ClientState { awaiting: None, op_count: 4 });
}

#[test]
fn client_without_trailing_get_goes_idle() {
    let cfg = ClientCfg { intermediate_gets: false, count: 1, ..put_client() };
    let (mut state, _) = cfg.on_start(2);
    let out = cfg.on_msg(&mut state, 2, &RegisterMsg::PutOk(2));
    assert!(out.is_empty());
    assert_eq!(state, ClientState { awaiting: None, op_count: 2 });
}

#[test]
fn delete_client_issues_deletes() {
    let cfg = ClientCfg { kind: ClientKind::Delete, intermediate_gets: false, ..put_client() };
    let (mut state, out) = cfg.on_start(3);
    assert_eq!(out, vec![Envelope { dst: 1, msg: RegisterMsg::Delete(3, 'b') }]);
    // Only the delete acknowledgement advances it.
    let ignored = cfg.on_msg(&mut state, 3, &RegisterMsg::PutOk(3));
    assert!(ignored.is_empty());
    let out = cfg.on_msg(&mut state, 3, &RegisterMsg::DeleteOk(3));
    assert_eq!(out, vec![Envelope { dst: 0, msg: RegisterMsg::Delete(6, 'b') }]);
    assert_eq!(state, ClientState { awaiting: Some(6), op_count: 2 });
    let out = cfg.on_msg(&mut state, 3, &RegisterMsg::DeleteOk(6));
    assert!(out.is_empty());
    assert_eq!(state, ClientState { awaiting: None, op_count: 3 });
}
