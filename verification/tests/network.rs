use sprig::blockchain::BlockChain;
use sprig::network::{
    check_origin, dispatch, on_message, on_request, on_response, sync_blockchain, Dispatch,
    Outbound, PROBE_NEIGHBOURS,
};
use sprig::protocol::{decode, encode, Message, PeerAddress, Request, Response};
use sprig::blockchain::Transaction;
use sprig::node::Storage;

fn address(text: &str) -> PeerAddress {
    PeerAddress { text: text.to_string() }
}

fn invalid_request_to(text: &str) -> Dispatch {
    Dispatch::Rejected {
        to: address(text),
        reply: Message::Response(address(text), Response::InvalidRequest),
    }
}

#[test]
fn bytes_that_are_no_message_are_answered_with_one_invalid_request() {
    let decision = on_message(b"not json", address("192.0.2.7:4000"));
    assert_eq!(decision, invalid_request_to("192.0.2.7:4000"));
    let queue = decision.outbound();
    assert_eq!(
        queue,
        vec![Outbound {
            to: address("192.0.2.7:4000"),
            message: Message::Response(address("192.0.2.7:4000"), Response::InvalidRequest),
        }]
    );
    assert_eq!(
        String::from_utf8(encode(&queue[0].message).unwrap()).unwrap(),
        r#"{"Response":["192.0.2.7:4000","InvalidRequest"]}"#
    );
}

#[test]
fn every_kind_of_malformed_bytes_is_answered() {
    let inputs: Vec<&[u8]> = vec![
        b"",
        b"{",
        b"null",
        b"{\"Request\":{}}",
        b"{\"Response\":[]}",
        &[0u8, 159, 146, 150],
    ];
    for input in inputs {
        let decision = on_message(input, address("peer:1"));
        assert_eq!(decision, invalid_request_to("peer:1"));
        assert_eq!(decision.outbound().len(), 1);
    }
}

#[test]
fn a_block_search_is_noted_and_not_answered() {
    let text = br#"{"Request":{"SearchingBlock":{"parent_hash":[1,1,1,1,1,1,1,1,1,1,1,1,1,1,1,1]}}}"#;
    let decision = on_message(text, address("192.0.2.7:4000"));
    assert_eq!(
        decision,
        Dispatch::BlockSought { peer: address("192.0.2.7:4000"), parent_hash: [1u8; 16] }
    );
    assert_eq!(decision.outbound(), vec![]);
}

#[test]
fn a_pending_transaction_is_not_supported() {
    let text = br#"{"Request":{"BroadcastPendingTransaction":[[1],[2],1.5,[3]]}}"#;
    let decision = on_message(text, address("192.0.2.7:4000"));
    assert_eq!(decision, Dispatch::NotSupported { peer: address("192.0.2.7:4000") });
    assert_eq!(decision.outbound(), vec![]);
}

#[test]
fn a_reported_invalid_request_names_its_origin() {
    let text = br#"{"Response":["198.51.100.1:7","InvalidRequest"]}"#;
    let decision = on_message(text, address("192.0.2.7:4000"));
    assert_eq!(
        decision,
        Dispatch::InvalidRequestReported { peer: address("198.51.100.1:7") }
    );
    assert_eq!(decision.outbound(), vec![]);
}

#[test]
fn handlers_of_requests_and_responses() {
    assert_eq!(
        on_request(address("a"), Request::SearchingBlock { parent_hash: [9u8; 16] }),
        Dispatch::BlockSought { peer: address("a"), parent_hash: [9u8; 16] }
    );
    let transaction = Transaction {
        author: vec![1],
        recipient: vec![2],
        amount_bits: 0,
        signature: vec![],
    };
    assert_eq!(
        on_request(address("a"), Request::BroadcastPendingTransaction(transaction)),
        Dispatch::NotSupported { peer: address("a") }
    );
    assert_eq!(
        on_response(address("b"), Response::InvalidRequest),
        Dispatch::InvalidRequestReported { peer: address("b") }
    );
}

#[test]
fn dispatch_of_what_was_read() {
    assert_eq!(dispatch(None, address("s")), invalid_request_to("s"));
    assert_eq!(
        dispatch(
            Some(Message::Response(address("o"), Response::InvalidRequest)),
            address("s")
        ),
        Dispatch::InvalidRequestReported { peer: address("o") }
    );
    assert_eq!(
        dispatch(
            Some(Message::Request(Request::SearchingBlock { parent_hash: [2u8; 16] })),
            address("s")
        ),
        Dispatch::BlockSought { peer: address("s"), parent_hash: [2u8; 16] }
    );
}

#[test]
fn no_neighbour_no_probe() {
    let storage = Storage::with_chain(BlockChain::with_genesis([5u8; 16]));
    assert_eq!(sync_blockchain(&storage, &vec![]), None);
}

#[test]
fn one_neighbour_gets_one_probe_for_the_tip() {
    let storage = Storage::with_chain(BlockChain::with_genesis([5u8; 16]));
    let probe = sync_blockchain(&storage, &vec![address("203.0.113.9:30303")]).unwrap();
    assert_eq!(probe.to, address("203.0.113.9:30303"));
    assert_eq!(
        probe.message,
        Message::Request(Request::SearchingBlock { parent_hash: [5u8; 16] })
    );
    let text = encode(&probe.message).unwrap();
    assert_eq!(
        String::from_utf8(text.clone()).unwrap(),
        r#"{"Request":{"SearchingBlock":{"parent_hash":[5,5,5,5,5,5,5,5,5,5,5,5,5,5,5,5]}}}"#
    );
    assert_eq!(decode(&text), Some(probe.message));
}

#[test]
fn only_the_first_neighbour_is_probed() {
    let mut storage = Storage::with_chain(BlockChain::with_genesis([5u8; 16]));
    storage.blockchain.latest_block_hash = [6u8; 16];
    let alive = vec![address("first:1"), address("second:2"), address("third:3")];
    let probe = sync_blockchain(&storage, &alive).unwrap();
    assert_eq!(probe.to, address("first:1"));
    assert_eq!(
        probe.message,
        Message::Request(Request::SearchingBlock { parent_hash: [6u8; 16] })
    );
}

#[test]
fn the_probe_of_a_fresh_node_names_the_genesis_hash() {
    let storage = Storage::new().unwrap();
    let probe = sync_blockchain(&storage, &vec![address("n:1")]).unwrap();
    assert_eq!(
        probe.message,
        Message::Request(Request::SearchingBlock {
            parent_hash: [250, 30, 203, 155, 157, 72, 104, 42, 28, 97, 49, 226, 186, 177, 64, 197]
        })
    );
}

#[test]
fn a_response_whose_origin_is_no_address_is_rejected() {
    let text = br#"{"Response":["nowhere","InvalidRequest"]}"#;
    let reported = on_message(text, address("192.0.2.7:4000"));
    assert_eq!(
        reported,
        Dispatch::InvalidRequestReported { peer: address("nowhere") }
    );
    let settled = check_origin(reported, false, address("192.0.2.7:4000"));
    assert_eq!(settled, invalid_request_to("192.0.2.7:4000"));
    assert_eq!(settled.outbound().len(), 1);
}

#[test]
fn checking_the_origin_leaves_other_decisions() {
    let kept = check_origin(
        Dispatch::InvalidRequestReported { peer: address("198.51.100.1:7") },
        true,
        address("s"),
    );
    assert_eq!(
        kept,
        Dispatch::InvalidRequestReported { peer: address("198.51.100.1:7") }
    );
    for flag in [true, false] {
        assert_eq!(
            check_origin(
                Dispatch::BlockSought { peer: address("a"), parent_hash: [1u8; 16] },
                flag,
                address("s")
            ),
            Dispatch::BlockSought { peer: address("a"), parent_hash: [1u8; 16] }
        );
        assert_eq!(
            check_origin(Dispatch::NotSupported { peer: address("a") }, flag, address("s")),
            Dispatch::NotSupported { peer: address("a") }
        );
        assert_eq!(
            check_origin(invalid_request_to("a"), flag, address("s")),
            invalid_request_to("a")
        );
    }
}

#[test]
fn a_probe_asks_for_one_neighbour() {
    assert_eq!(PROBE_NEIGHBOURS, 1);
}
