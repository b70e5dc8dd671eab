//! What a node does with a message that arrives, and what it sends when the
//! time has come to probe a neighbour.
//!
//! Nothing here sends: each function says what is to be sent, and to whom.

use crate::hash::BlockHash;
use crate::protocol::{
    decode, message_of_text, Message, MessageView, PeerAddress, Request, RequestView, Response,
};
use crate::node::Storage;
use vstd::prelude::*;

verus! {

/// How many neighbours a probe asks the peer network for.
pub const PROBE_NEIGHBOURS: usize = 1;

/// A message to be sent.
#[derive(Debug, PartialEq, Eq)]
pub struct Outbound {
    /// The peer to send to.
    pub to: PeerAddress,
    /// What to send.
    pub message: Message,
}

/// What a message to be sent holds.
pub struct OutboundView {
    pub to: Seq<char>,
    pub message: MessageView,
}

impl View for Outbound {
    type V = OutboundView;

    open spec fn view(&self) -> OutboundView {
        OutboundView { to: self.to@, message: self.message@ }
    }
}

/// What a node does with a message that arrived.
#[derive(Debug, PartialEq, Eq)]
pub enum Dispatch {
    /// A peer asks what comes after a block. The request is noted; nothing
    /// is answered.
    BlockSought { peer: PeerAddress, parent_hash: BlockHash },
    /// A peer broadcasts a pending transaction, which is not supported yet.
    NotSupported { peer: PeerAddress },
    /// A peer reports that it could not read a message.
    InvalidRequestReported { peer: PeerAddress },
    /// The bytes were no message: `reply` goes back to `to`.
    Rejected { to: PeerAddress, reply: Message },
}

/// What a decision holds.
pub enum DispatchView {
    BlockSought { peer: Seq<char>, parent_hash: Seq<u8> },
    NotSupported { peer: Seq<char> },
    InvalidRequestReported { peer: Seq<char> },
    Rejected { to: Seq<char>, reply: MessageView },
}

impl View for Dispatch {
    type V = DispatchView;

    open spec fn view(&self) -> DispatchView {
        match self {
            Dispatch::BlockSought { peer, parent_hash } => DispatchView::BlockSought {
                peer: peer@,
                parent_hash: parent_hash@,
            },
            Dispatch::NotSupported { peer } => DispatchView::NotSupported { peer: peer@ },
            Dispatch::InvalidRequestReported { peer } => DispatchView::InvalidRequestReported {
                peer: peer@,
            },
            Dispatch::Rejected { to, reply } => DispatchView::Rejected { to: to@, reply: reply@ },
        }
    }
}

/// What is done with a request from `sender`.
pub open spec fn request_dispatch(sender: Seq<char>, request: RequestView) -> DispatchView {
    match request {
        RequestView::SearchingBlock { parent_hash } => DispatchView::BlockSought {
            peer: sender,
            parent_hash,
        },
        RequestView::BroadcastPendingTransaction(_) => DispatchView::NotSupported { peer: sender },
    }
}

/// What is done with a response that names `origin`.
pub open spec fn response_dispatch(origin: Seq<char>, response: Response) -> DispatchView {
    match response {
        Response::InvalidRequest => DispatchView::InvalidRequestReported { peer: origin },
    }
}

/// What is done with what was read from the bytes that `sender` sent:
/// a request and a response go to their handlers; where nothing was read,
/// the sender is told that its request was invalid.
pub open spec fn dispatch_of(decoded: Option<MessageView>, sender: Seq<char>) -> DispatchView {
    match decoded {
        Some(MessageView::Request(request)) => request_dispatch(sender, request),
        Some(MessageView::Response(origin, response)) => response_dispatch(origin, response),
        None => DispatchView::Rejected {
            to: sender,
            reply: MessageView::Response(sender, Response::InvalidRequest),
        },
    }
}

/// The decision once it is known whether the origin that a response names
/// is a network address: a response whose origin is none was no message,
/// and the sender is told so.
pub open spec fn origin_checked(
    dispatch: DispatchView,
    origin_is_address: bool,
    sender: Seq<char>,
) -> DispatchView {
    match dispatch {
        DispatchView::InvalidRequestReported { .. } => if origin_is_address {
            dispatch
        } else {
            dispatch_of(None, sender)
        },
        _ => dispatch,
    }
}

/// What a decision puts in the queue of messages to send: the reply of a
/// rejection, and nothing else.
pub open spec fn outbound_of(dispatch: DispatchView) -> Seq<OutboundView> {
    match dispatch {
        DispatchView::Rejected { to, reply } => seq![OutboundView { to, message: reply }],
        _ => Seq::empty(),
    }
}

/// Handles a request from `sender`.
pub fn on_request(sender: PeerAddress, request: Request) -> (dispatch: Dispatch)
    ensures
        dispatch@ == request_dispatch(sender@, request@),
{
    match request {
        Request::SearchingBlock { parent_hash } => Dispatch::BlockSought {
            peer: sender,
            parent_hash,
        },
        Request::BroadcastPendingTransaction(_) => Dispatch::NotSupported { peer: sender },
    }
}

/// Handles a response that names `origin`.
pub fn on_response(origin: PeerAddress, response: Response) -> (dispatch: Dispatch)
    ensures
        dispatch@ == response_dispatch(origin@, response),
{
    match response {
        Response::InvalidRequest => Dispatch::InvalidRequestReported { peer: origin },
    }
}

/// Decides what is done with what was read from the bytes that `sender`
/// sent, `None` standing for bytes from which no message was read.
pub fn dispatch(decoded: Option<Message>, sender: PeerAddress) -> (dispatch: Dispatch)
    ensures
        dispatch@ == dispatch_of(
            match decoded {
                Some(message) => Some(message@),
                None => None,
            },
            sender@,
        ),
{
    match decoded {
        Some(Message::Request(request)) => on_request(sender, request),
        Some(Message::Response(origin, response)) => on_response(origin, response),
        None => {
            let origin = sender.clone();
            Dispatch::Rejected {
                to: sender,
                reply: Message::Response(origin, Response::InvalidRequest),
            }
        },
    }
}

/// Handles the bytes that arrived from `sender`. Bytes that are no message
/// are answered with exactly one `InvalidRequest`, addressed to the sender.
pub fn on_message(message: &[u8], sender: PeerAddress) -> (dispatch: Dispatch)
    ensures
        dispatch@ == dispatch_of(message_of_text(message@), sender@),
        message_of_text(message@) is None ==> outbound_of(dispatch@) == seq![
            OutboundView {
                to: sender@,
                message: MessageView::Response(sender@, Response::InvalidRequest),
            },
        ],
{
    self::dispatch(decode(message), sender)
}

/// Settles a decision once the caller has tested whether the origin that a
/// response names is a network address. Decisions on requests and
/// rejections are not touched.
pub fn check_origin(dispatch: Dispatch, origin_is_address: bool, sender: PeerAddress) -> (settled:
    Dispatch)
    ensures
        settled@ == origin_checked(dispatch@, origin_is_address, sender@),
{
    match dispatch {
        Dispatch::InvalidRequestReported { peer } => {
            if origin_is_address {
                Dispatch::InvalidRequestReported { peer }
            } else {
                self::dispatch(None, sender)
            }
        },
        other => other,
    }
}

impl Dispatch {
    /// The messages that the decision puts in the queue of messages to
    /// send.
    pub fn outbound(self) -> (queue: Vec<Outbound>)
        ensures
            Seq::new(queue@.len(), |i: int| queue@[i]@) == outbound_of(self@),
    {
        let mut queue: Vec<Outbound> = Vec::new();
        match self {
            Dispatch::Rejected { to, reply } => {
                queue.push(Outbound { to, message: reply });
            },
            _ => {},
        }
        proof {
            assert(Seq::new(queue@.len(), |i: int| queue@[i]@) =~= outbound_of(self@));
        }
        queue
    }
}

/// The probe that is due: where no neighbour is alive, none; else one
/// request to the first neighbour, which asks what comes after the tip of
/// this node's chain. Other neighbours are not asked.
pub fn sync_blockchain(storage: &Storage, alive: &Vec<PeerAddress>) -> (probe: Option<Outbound>)
    ensures
        match probe {
            None => alive@.len() == 0,
            Some(outbound) => {
                &&& alive@.len() > 0
                &&& outbound@ == (OutboundView {
                    to: alive@[0]@,
                    message: MessageView::Request(
                        RequestView::SearchingBlock {
                            parent_hash: storage.blockchain.latest_block_hash@,
                        },
                    ),
                })
            },
        },
{
    if alive.len() == 0 {
        None
    } else {
        Some(
            Outbound {
                to: alive[0].clone(),
                message: Message::Request(
                    Request::SearchingBlock { parent_hash: storage.tip() },
                ),
            },
        )
    }
}

} // verus!
