use battlemon::envelope::{Envelope, Field, FieldRecord, MoveStruct, MoveValue};
use battlemon::errors::Error;
use battlemon::events::Event;
use battlemon::model::Item;
use battlemon::mutation::{
    build_query, handle_errors, AddItemMutationArguments, MutationRequest,
    RemoveItemMutationArguments, Reply, ReplyBody, SubmitError,
};
use battlemon::pipeline::{handle_contract_event, Action, LoopState};
use battlemon::store::NftStore;

fn s(x: &str) -> String {
    x.to_string()
}

fn field(name: &str, value: MoveValue) -> Field {
    Field { name: s(name), value }
}

fn created(id: &str) -> Envelope {
    Envelope::MoveEvent {
        sender: s("0xA"),
        type_tag: s("0x5::lemon::LemonCreated"),
        fields: Some(MoveStruct::WithFields(FieldRecord {
            entries: vec![
                field("id", MoveValue::Address(s(id))),
                field("url", MoveValue::String(s("http://x"))),
                field("traits", MoveValue::Vector(vec![])),
            ],
        })),
    }
}

#[test]
fn malformed_envelope_is_dropped_and_loop_goes_on() {
    let malformed = Envelope::MoveEvent {
        sender: s("0xA"),
        type_tag: s("0x5::lemon::LemonCreated"),
        fields: None,
    };
    let feed = vec![created("0x1"), malformed, created("0x3")];
    let mut store = NftStore::new();
    let mut state = LoopState::Running;
    let mut dropped = 0;
    for env in feed {
        let (next, action) = handle_contract_event(state, Some(env), 5);
        state = next;
        match action {
            Action::Submit(req) => store.apply(req).unwrap(),
            Action::Drop(err) => {
                assert_eq!(err, Error::EventWithoutFields);
                dropped += 1;
            }
            Action::Halt => panic!("halted"),
        }
    }
    assert_eq!(state, LoopState::Running);
    assert_eq!(dropped, 1);
    assert_eq!(store.len(), 2);
    assert!(store.nft(&s("0x1")).is_some());
    assert!(store.nft(&s("0x3")).is_some());
}

#[test]
fn end_of_feed_halts() {
    let (state, action) = handle_contract_event(LoopState::Running, None, 0);
    assert_eq!(state, LoopState::Terminated);
    assert_eq!(action, Action::Halt);
    let (state, action) = handle_contract_event(LoopState::Terminated, Some(created("0x1")), 0);
    assert_eq!(state, LoopState::Terminated);
    assert_eq!(action, Action::Halt);
}

#[test]
fn link_events_map_to_link_requests() {
    let item = Item { lemon_id: s("0x1"), item_id: s("0x2") };
    assert_eq!(
        build_query(Event::ItemAdded(item.clone())),
        MutationRequest::AddItem(AddItemMutationArguments { lemon_id: s("0x1"), item_id: s("0x2") })
    );
    assert_eq!(
        build_query(Event::ItemRemoved(item)),
        MutationRequest::RemoveItem(RemoveItemMutationArguments {
            lemon_id: s("0x1"),
            item_id: s("0x2"),
        })
    );
}

#[test]
fn replies_are_classified() {
    assert_eq!(handle_errors(Reply::Failed), Err(SubmitError::TransportError));
    assert_eq!(
        handle_errors(Reply::Received { status: 500, body: ReplyBody::NoErrors }),
        Err(SubmitError::TransportError)
    );
    assert_eq!(
        handle_errors(Reply::Received { status: 200, body: ReplyBody::Unreadable }),
        Err(SubmitError::TransportError)
    );
    assert_eq!(handle_errors(Reply::Received { status: 200, body: ReplyBody::NoErrors }), Ok(()));
    assert_eq!(handle_errors(Reply::Received { status: 200, body: ReplyBody::Errors(0) }), Ok(()));
    assert_eq!(
        handle_errors(Reply::Received { status: 200, body: ReplyBody::Errors(2) }),
        Err(SubmitError::RemoteApplicationError(2))
    );
}
