//! The messages that nodes exchange, and their form on the wire.
//!
//! On the wire a message is a JSON document. An alternative is written as an
//! object with one member, named after the alternative, or, where it has no
//! content, as its bare name. A group of named fields is read from an
//! object, in which other members are passed over, or from an array that
//! holds exactly the fields in their order. A hash is an array of sixteen
//! whole numbers from 0 to 255, a byte string an array of any number of
//! them.
//!
//! Where a name occurs twice among the members of one object, the JSON
//! reader keeps the last member of that name and forgets the others. Such a
//! text is therefore read by its last members, and is not refused for the
//! repetition.

use crate::hash::BlockHash;
use crate::json::{json_parsed, parse, render, writable, written, Json, JsonNumber};
use crate::text::same_text;
use crate::blockchain::{Transaction, TransactionView};
use vstd::prelude::*;

verus! {

/// The network address of a peer, in its textual form.
#[derive(Debug, PartialEq, Eq)]
pub struct PeerAddress {
    pub text: String,
}

impl View for PeerAddress {
    type V = Seq<char>;

    open spec fn view(&self) -> Seq<char> {
        self.text@
    }
}

/// What a node answers.
#[derive(Clone, Copy, Debug, PartialEq, Eq, Structural)]
pub enum Response {
    /// "I could not read your message."
    InvalidRequest,
}

/// What a node asks of another.
#[derive(Debug, PartialEq, Eq)]
pub enum Request {
    /// "What comes after this block?"
    SearchingBlock { parent_hash: BlockHash },
    /// "Here is a transaction that waits to be mined."
    BroadcastPendingTransaction(Transaction),
}

/// A message between two nodes.
#[derive(Debug, PartialEq, Eq)]
pub enum Message {
    Request(Request),
    /// An answer, with the address of the node that it answers.
    Response(PeerAddress, Response),
}

/// What a request holds.
pub enum RequestView {
    SearchingBlock { parent_hash: Seq<u8> },
    BroadcastPendingTransaction(TransactionView),
}

/// What a message holds.
pub enum MessageView {
    Request(RequestView),
    Response(Seq<char>, Response),
}

impl View for Request {
    type V = RequestView;

    open spec fn view(&self) -> RequestView {
        match self {
            Request::SearchingBlock { parent_hash } => RequestView::SearchingBlock {
                parent_hash: parent_hash@,
            },
            Request::BroadcastPendingTransaction(transaction) => {
                RequestView::BroadcastPendingTransaction(transaction@)
            },
        }
    }
}

impl View for Message {
    type V = MessageView;

    open spec fn view(&self) -> MessageView {
        match self {
            Message::Request(request) => MessageView::Request(request@),
            Message::Response(origin, response) => MessageView::Response(origin@, *response),
        }
    }
}

impl Clone for PeerAddress {
    fn clone(&self) -> (copy: PeerAddress)
        ensures
            copy@ == self@,
    {
        PeerAddress { text: self.text.clone() }
    }
}

impl Clone for Request {
    fn clone(&self) -> (copy: Request)
        ensures
            copy@ == self@,
    {
        match self {
            Request::SearchingBlock { parent_hash } => Request::SearchingBlock {
                parent_hash: *parent_hash,
            },
            Request::BroadcastPendingTransaction(transaction) => {
                Request::BroadcastPendingTransaction(transaction.clone())
            },
        }
    }
}

impl Clone for Message {
    fn clone(&self) -> (copy: Message)
        ensures
            copy@ == self@,
    {
        match self {
            Message::Request(request) => Message::Request(request.clone()),
            Message::Response(origin, response) => Message::Response(origin.clone(), *response),
        }
    }
}

/// The name and content of an object's only member.
pub open spec fn sole_member(doc: Json) -> Option<(Seq<char>, Json)> {
    match doc {
        Json::Object(members) => if members@.len() == 1 {
            Some((members@[0].0@, members@[0].1))
        } else {
            None
        },
        _ => None,
    }
}

/// The content of the first member with the given name.
pub open spec fn member_named(members: Seq<(String, Json)>, name: Seq<char>) -> Option<Json>
    decreases members.len(),
{
    if members.len() == 0 {
        None
    } else if members[0].0@ == name {
        Some(members[0].1)
    } else {
        member_named(members.drop_first(), name)
    }
}

/// The byte that a document spells: a whole number from 0 to 255.
pub open spec fn byte_of(doc: Json) -> Option<u8> {
    match doc {
        Json::Number(JsonNumber { unsigned: Some(value), .. }) => if value <= 255 {
            Some(value as u8)
        } else {
            None
        },
        _ => None,
    }
}

/// The byte string that a document spells: an array of bytes.
pub open spec fn bytes_of(doc: Json) -> Option<Seq<u8>> {
    match doc {
        Json::Array(items) => if forall|i: int|
            0 <= i < items@.len() ==> byte_of(#[trigger] items@[i]) is Some {
            Some(Seq::new(items@.len(), |i: int| byte_of(items@[i]).unwrap()))
        } else {
            None
        },
        _ => None,
    }
}

/// The hash that a document spells: a byte string of sixteen bytes.
pub open spec fn hash_of(doc: Json) -> Option<Seq<u8>> {
    match bytes_of(doc) {
        Some(bytes) => if bytes.len() == 16 {
            Some(bytes)
        } else {
            None
        },
        None => None,
    }
}

/// The amount that a document spells: any number, as its bit pattern.
pub open spec fn amount_of(doc: Json) -> Option<u64> {
    match doc {
        Json::Number(number) => number.float_bits,
        _ => None,
    }
}

/// The transaction that four documents spell, field by field.
pub open spec fn transaction_of_fields(
    author: Json,
    recipient: Json,
    amount: Json,
    signature: Json,
) -> Option<TransactionView> {
    match (bytes_of(author), bytes_of(recipient), amount_of(amount), bytes_of(signature)) {
        (Some(author), Some(recipient), Some(amount_bits), Some(signature)) => Some(
            TransactionView { author, recipient, amount_bits, signature },
        ),
        _ => None,
    }
}

/// The transaction that a document spells.
pub open spec fn transaction_of(doc: Json) -> Option<TransactionView> {
    match doc {
        Json::Array(items) => if items@.len() == 4 {
            transaction_of_fields(items@[0], items@[1], items@[2], items@[3])
        } else {
            None
        },
        Json::Object(members) => match (
            member_named(members@, "author"@),
            member_named(members@, "recipient"@),
            member_named(members@, "amount"@),
            member_named(members@, "signature"@),
        ) {
            (Some(author), Some(recipient), Some(amount), Some(signature)) => {
                transaction_of_fields(author, recipient, amount, signature)
            },
            _ => None,
        },
        _ => None,
    }
}

/// The parent hash that the content of a block search spells.
pub open spec fn parent_hash_of(doc: Json) -> Option<Seq<u8>> {
    match doc {
        Json::Array(items) => if items@.len() == 1 {
            hash_of(items@[0])
        } else {
            None
        },
        Json::Object(members) => match member_named(members@, "parent_hash"@) {
            Some(hash) => hash_of(hash),
            None => None,
        },
        _ => None,
    }
}

/// The request that a document spells.
pub open spec fn request_of(doc: Json) -> Option<RequestView> {
    match sole_member(doc) {
        Some((name, content)) => if name == "SearchingBlock"@ {
            match parent_hash_of(content) {
                Some(parent_hash) => Some(RequestView::SearchingBlock { parent_hash }),
                None => None,
            }
        } else if name == "BroadcastPendingTransaction"@ {
            match transaction_of(content) {
                Some(transaction) => Some(RequestView::BroadcastPendingTransaction(transaction)),
                None => None,
            }
        } else {
            None
        },
        None => None,
    }
}

/// The response that a document spells.
pub open spec fn response_of(doc: Json) -> Option<Response> {
    match doc {
        Json::Text(name) => if name@ == "InvalidRequest"@ {
            Some(Response::InvalidRequest)
        } else {
            None
        },
        _ => match sole_member(doc) {
            Some((name, Json::Null)) => if name == "InvalidRequest"@ {
                Some(Response::InvalidRequest)
            } else {
                None
            },
            _ => None,
        },
    }
}

/// The origin and response that the content of an answer spells.
pub open spec fn answer_of(doc: Json) -> Option<MessageView> {
    match doc {
        Json::Array(items) => if items@.len() == 2 {
            match (items@[0], response_of(items@[1])) {
                (Json::Text(origin), Some(response)) => Some(
                    MessageView::Response(origin@, response),
                ),
                _ => None,
            }
        } else {
            None
        },
        _ => None,
    }
}

/// The message that a document spells.
pub open spec fn message_of(doc: Json) -> Option<MessageView> {
    match sole_member(doc) {
        Some((name, content)) => if name == "Request"@ {
            match request_of(content) {
                Some(request) => Some(MessageView::Request(request)),
                None => None,
            }
        } else if name == "Response"@ {
            answer_of(content)
        } else {
            None
        },
        None => None,
    }
}

/// The message that a text spells: the text is one JSON document, and the
/// document spells the message.
pub open spec fn message_of_text(text: Seq<u8>) -> Option<MessageView> {
    match json_parsed(text) {
        Some(doc) => message_of(doc),
        None => None,
    }
}

/// The content of the first member with the given name.
fn find_member<'a>(members: &'a Vec<(String, Json)>, name: &str) -> (r: Option<&'a Json>)
    ensures
        match r {
            Some(doc) => member_named(members@, name@) == Some(*doc),
            None => member_named(members@, name@) is None,
        },
{
    let mut i: usize = 0;
    proof {
        assert(members@.subrange(0, members@.len() as int) =~= members@);
    }
    while i < members.len()
        invariant
            i <= members@.len(),
            member_named(members@, name@) == member_named(
                members@.subrange(i as int, members@.len() as int),
                name@,
            ),
        decreases members@.len() - i,
    {
        proof {
            let rest = members@.subrange(i as int, members@.len() as int);
            assert(rest[0] == members@[i as int]);
            assert(rest.drop_first() =~= members@.subrange(i + 1, members@.len() as int));
        }
        if same_text(members[i].0.as_str(), name) {
            return Some(&members[i].1);
        }
        i = i + 1;
    }
    None
}

/// The name and content of an object's only member.
fn only_member<'a>(doc: &'a Json) -> (r: Option<(&'a String, &'a Json)>)
    ensures
        match r {
            Some((name, content)) => sole_member(*doc) == Some((name@, *content)),
            None => sole_member(*doc) is None,
        },
{
    match doc {
        Json::Object(members) => {
            if members.len() == 1 {
                Some((&members[0].0, &members[0].1))
            } else {
                None
            }
        },
        _ => None,
    }
}

/// The byte that a document spells.
fn read_byte(doc: &Json) -> (r: Option<u8>)
    ensures
        r == byte_of(*doc),
{
    match doc {
        Json::Number(number) => match number.unsigned {
            Some(value) => {
                if value <= 255 {
                    Some(value as u8)
                } else {
                    None
                }
            },
            None => None,
        },
        _ => None,
    }
}

/// The byte string that a document spells.
fn read_bytes(doc: &Json) -> (r: Option<Vec<u8>>)
    ensures
        match r {
            Some(bytes) => bytes_of(*doc) == Some(bytes@),
            None => bytes_of(*doc) is None,
        },
{
    match doc {
        Json::Array(items) => {
            let mut bytes: Vec<u8> = Vec::new();
            let mut i: usize = 0;
            while i < items.len()
                invariant
                    *doc == Json::Array(*items),
                    i <= items@.len(),
                    bytes@.len() == i,
                    forall|j: int| 0 <= j < i ==> byte_of(#[trigger] items@[j]) == Some(bytes@[j]),
                decreases items@.len() - i,
            {
                match read_byte(&items[i]) {
                    Some(byte) => {
                        bytes.push(byte);
                    },
                    None => {
                        proof {
                            assert(byte_of(items@[i as int]) is None);
                        }
                        return None;
                    },
                }
                i = i + 1;
            }
            proof {
                assert(bytes@ =~= Seq::new(items@.len(), |i: int| byte_of(items@[i]).unwrap()));
            }
            Some(bytes)
        },
        _ => None,
    }
}

/// The hash that a document spells.
fn read_hash(doc: &Json) -> (r: Option<BlockHash>)
    ensures
        match r {
            Some(hash) => hash_of(*doc) == Some(hash@),
            None => hash_of(*doc) is None,
        },
{
    match read_bytes(doc) {
        Some(bytes) => {
            if bytes.len() != 16 {
                return None;
            }
            let mut hash: BlockHash = [0u8; 16];
            let mut i: usize = 0;
            while i < 16
                invariant
                    i <= 16,
                    bytes@.len() == 16,
                    forall|j: int| 0 <= j < i ==> hash@[j] == bytes@[j],
                decreases 16 - i,
            {
                hash[i] = bytes[i];
                i = i + 1;
            }
            proof {
                assert(hash@ =~= bytes@);
            }
            Some(hash)
        },
        None => None,
    }
}

/// The amount that a document spells.
fn read_amount(doc: &Json) -> (r: Option<u64>)
    ensures
        r == amount_of(*doc),
{
    match doc {
        Json::Number(number) => number.float_bits,
        _ => None,
    }
}

/// The transaction that four documents spell, field by field.
fn read_transaction_fields(author: &Json, recipient: &Json, amount: &Json, signature: &Json) -> (r:
    Option<Transaction>)
    ensures
        match r {
            Some(transaction) => transaction_of_fields(*author, *recipient, *amount, *signature)
                == Some(transaction@),
            None => transaction_of_fields(*author, *recipient, *amount, *signature) is None,
        },
{
    let author = match read_bytes(author) {
        Some(bytes) => bytes,
        None => {
            return None;
        },
    };
    let recipient = match read_bytes(recipient) {
        Some(bytes) => bytes,
        None => {
            return None;
        },
    };
    let amount_bits: u64 = match read_amount(amount) {
        Some(bits) => bits,
        None => {
            return None;
        },
    };
    let signature = match read_bytes(signature) {
        Some(bytes) => bytes,
        None => {
            return None;
        },
    };
    Some(Transaction { author, recipient, amount_bits, signature })
}

/// The transaction that a document spells.
fn read_transaction(doc: &Json) -> (r: Option<Transaction>)
    ensures
        match r {
            Some(transaction) => transaction_of(*doc) == Some(transaction@),
            None => transaction_of(*doc) is None,
        },
{
    match doc {
        Json::Array(items) => {
            if items.len() == 4 {
                read_transaction_fields(&items[0], &items[1], &items[2], &items[3])
            } else {
                None
            }
        },
        Json::Object(members) => {
            let author = find_member(members, "author");
            let recipient = find_member(members, "recipient");
            let amount = find_member(members, "amount");
            let signature = find_member(members, "signature");
            match (author, recipient, amount, signature) {
                (Some(author), Some(recipient), Some(amount), Some(signature)) => {
                    read_transaction_fields(author, recipient, amount, signature)
                },
                _ => None,
            }
        },
        _ => None,
    }
}

/// The parent hash that the content of a block search spells.
fn read_parent_hash(doc: &Json) -> (r: Option<BlockHash>)
    ensures
        match r {
            Some(hash) => parent_hash_of(*doc) == Some(hash@),
            None => parent_hash_of(*doc) is None,
        },
{
    match doc {
        Json::Array(items) => {
            if items.len() == 1 {
                read_hash(&items[0])
            } else {
                None
            }
        },
        Json::Object(members) => match find_member(members, "parent_hash") {
            Some(hash) => read_hash(hash),
            None => None,
        },
        _ => None,
    }
}

/// Reads a request from a document: `Some` exactly where the document
/// spells a request, and then that request.
pub fn decode_request(doc: &Json) -> (r: Option<Request>)
    ensures
        match r {
            Some(request) => request_of(*doc) == Some(request@),
            None => request_of(*doc) is None,
        },
{
    match only_member(doc) {
        Some((name, content)) => {
            if same_text(name.as_str(), "SearchingBlock") {
                match read_parent_hash(content) {
                    Some(parent_hash) => Some(Request::SearchingBlock { parent_hash }),
                    None => None,
                }
            } else if same_text(name.as_str(), "BroadcastPendingTransaction") {
                match read_transaction(content) {
                    Some(transaction) => Some(Request::BroadcastPendingTransaction(transaction)),
                    None => None,
                }
            } else {
                None
            }
        },
        None => None,
    }
}

/// Reads a response from a document: `Some` exactly where the document
/// spells a response, and then that response.
pub fn decode_response(doc: &Json) -> (r: Option<Response>)
    ensures
        r == response_of(*doc),
{
    match doc {
        Json::Text(name) => {
            if same_text(name.as_str(), "InvalidRequest") {
                Some(Response::InvalidRequest)
            } else {
                None
            }
        },
        _ => match only_member(doc) {
            Some((name, content)) => match content {
                Json::Null => {
                    if same_text(name.as_str(), "InvalidRequest") {
                        Some(Response::InvalidRequest)
                    } else {
                        None
                    }
                },
                _ => None,
            },
            None => None,
        },
    }
}

/// The origin and response that the content of an answer spells.
fn read_answer(doc: &Json) -> (r: Option<Message>)
    ensures
        match r {
            Some(message) => answer_of(*doc) == Some(message@),
            None => answer_of(*doc) is None,
        },
{
    match doc {
        Json::Array(items) => {
            if items.len() == 2 {
                match (&items[0], decode_response(&items[1])) {
                    (Json::Text(origin), Some(response)) => Some(
                        Message::Response(PeerAddress { text: origin.clone() }, response),
                    ),
                    _ => None,
                }
            } else {
                None
            }
        },
        _ => None,
    }
}

/// Reads a message from a document: `Some` exactly where the document
/// spells a message, and then that message.
pub fn decode_message(doc: &Json) -> (r: Option<Message>)
    ensures
        match r {
            Some(message) => message_of(*doc) == Some(message@),
            None => message_of(*doc) is None,
        },
{
    match only_member(doc) {
        Some((name, content)) => {
            if same_text(name.as_str(), "Request") {
                match decode_request(content) {
                    Some(request) => Some(Message::Request(request)),
                    None => None,
                }
            } else if same_text(name.as_str(), "Response") {
                read_answer(content)
            } else {
                None
            }
        },
        None => None,
    }
}

/// Reads a message from its text on the wire: `Some` exactly where the
/// text is one JSON document that spells a message, and then that message.
pub fn decode(text: &[u8]) -> (r: Option<Message>)
    ensures
        match r {
            Some(message) => message_of_text(text@) == Some(message@),
            None => message_of_text(text@) is None,
        },
{
    match parse(text) {
        Some(doc) => decode_message(&doc),
        None => None,
    }
}

/// The messages that this node can put on the wire: all but the broadcast
/// of a pending transaction, which is not supported yet.
pub open spec fn supported(message: MessageView) -> bool {
    !(message matches MessageView::Request(RequestView::BroadcastPendingTransaction(_)))
}

/// The document is the array of the numbers of the given bytes.
pub open spec fn depicts_bytes(doc: Json, bytes: Seq<u8>) -> bool {
    match doc {
        Json::Array(items) => {
            &&& items@.len() == bytes.len()
            &&& forall|i: int|
                0 <= i < bytes.len() ==> byte_of(#[trigger] items@[i]) == Some(bytes[i])
        },
        _ => false,
    }
}

/// The document is the one that this node writes for the message: each
/// alternative as an object with one member, the fields of a block search
/// by name, an answer as the array of its origin and the response's name.
pub open spec fn depicts(doc: Json, message: MessageView) -> bool {
    match (message, sole_member(doc)) {
        (MessageView::Response(origin, Response::InvalidRequest), Some((name, Json::Array(items)))) => {
            &&& name == "Response"@
            &&& items@.len() == 2
            &&& items@[0] matches Json::Text(text) && text@ == origin
            &&& items@[1] matches Json::Text(text) && text@ == "InvalidRequest"@
        },
        (
            MessageView::Request(RequestView::SearchingBlock { parent_hash }),
            Some((name, content)),
        ) => {
            &&& name == "Request"@
            &&& match sole_member(content) {
                Some((kind, fields)) => {
                    &&& kind == "SearchingBlock"@
                    &&& match sole_member(fields) {
                        Some((field, hash)) => {
                            &&& field == "parent_hash"@
                            &&& depicts_bytes(hash, parent_hash)
                        },
                        None => false,
                    }
                },
                None => false,
            }
        },
        _ => false,
    }
}

/// An object with one member.
fn object_of(name: &str, content: Json) -> (doc: Json)
    ensures
        sole_member(doc) == Some((name@, content)),
        writable(content) ==> writable(doc),
{
    let mut members: Vec<(String, Json)> = Vec::new();
    members.push((name.to_owned(), content));
    Json::Object(members)
}

/// The array of the numbers of the given bytes.
fn bytes_tree(bytes: &[u8]) -> (doc: Json)
    ensures
        depicts_bytes(doc, bytes@),
        writable(doc),
{
    let mut items: Vec<Json> = Vec::new();
    let mut i: usize = 0;
    while i < bytes.len()
        invariant
            i <= bytes@.len(),
            items@.len() == i,
            forall|j: int| 0 <= j < i ==> byte_of(#[trigger] items@[j]) == Some(bytes@[j]),
            forall|j: int| 0 <= j < i ==> writable(#[trigger] items@[j]),
        decreases bytes@.len() - i,
    {
        let byte: u8 = bytes[i];
        items.push(Json::Number(JsonNumber { unsigned: Some(byte as u64), float_bits: None }));
        i = i + 1;
    }
    Json::Array(items)
}

/// The document that this node writes for a message; none for the
/// broadcast of a pending transaction.
pub fn message_tree(message: &Message) -> (r: Option<Json>)
    ensures
        match r {
            Some(doc) => depicts(doc, message@) && writable(doc),
            None => !supported(message@),
        },
{
    match message {
        Message::Request(Request::SearchingBlock { parent_hash }) => {
            let hash = bytes_tree(parent_hash.as_slice());
            let fields = object_of("parent_hash", hash);
            let request = object_of("SearchingBlock", fields);
            Some(object_of("Request", request))
        },
        Message::Request(Request::BroadcastPendingTransaction(_)) => None,
        Message::Response(origin, Response::InvalidRequest) => {
            let mut items: Vec<Json> = Vec::new();
            items.push(Json::Text(origin.text.clone()));
            items.push(Json::Text("InvalidRequest".to_owned()));
            let answer = Json::Array(items);
            proof {
                reveal_with_fuel(writable, 2);
                assert(writable(items@[0]) && writable(items@[1]));
                assert(answer->Array_0 == items);
                assert(writable(answer));
            }
            Some(object_of("Response", answer))
        },
    }
}

/// Writes a message as its text on the wire: the JSON text of the document
/// that this node writes for the message. None comes back for the broadcast
/// of a pending transaction, and for nothing else.
pub fn encode(message: &Message) -> (r: Option<Vec<u8>>)
    ensures
        match r {
            Some(text) => supported(message@) && exists|doc: Json| #[trigger]
                depicts(doc, message@) && written(doc) == Some(text@),
            None => !supported(message@),
        },
{
    match message_tree(message) {
        Some(doc) => render(&doc),
        None => None,
    }
}

/// What this node writes, it reads back: the document written for a
/// message spells that message.
pub proof fn lemma_depicted_is_read(doc: Json, message: Message)
    requires
        depicts(doc, message@),
    ensures
        message_of(doc) == Some(message@),
{
    reveal_strlit("Request");
    reveal_strlit("Response");
    reveal_strlit("SearchingBlock");
    reveal_strlit("BroadcastPendingTransaction");
    reveal_strlit("InvalidRequest");
    reveal_strlit("parent_hash");
    match message {
        Message::Request(Request::SearchingBlock { parent_hash }) => {
            let content = sole_member(doc).unwrap().1;
            let fields = sole_member(content).unwrap().1;
            let hash = sole_member(fields).unwrap().1;
            assert("Request"@ != "Response"@) by {
                assert("Request"@[2] != "Response"@[2]);
            }
            assert("SearchingBlock"@ != "BroadcastPendingTransaction"@) by {
                assert("SearchingBlock"@[0] != "BroadcastPendingTransaction"@[0]);
            }
            match fields {
                Json::Object(members) => {
                    assert(member_named(members@, "parent_hash"@) == Some(hash));
                },
                _ => {},
            }
            match hash {
                Json::Array(items) => {
                    assert(bytes_of(hash).unwrap() =~= parent_hash@);
                },
                _ => {},
            }
        },
        Message::Request(Request::BroadcastPendingTransaction(_)) => {},
        Message::Response(origin, Response::InvalidRequest) => {
            assert("Request"@ != "Response"@) by {
                assert("Request"@[2] != "Response"@[2]);
            }
        },
    }
}

} // verus!
