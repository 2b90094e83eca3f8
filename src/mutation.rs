use vstd::prelude::*;

use crate::events::{Event, EventV, ItemV};
use crate::model::{Item, Nft, NftV};

verus! {

/// Arguments of the request that creates an entity.
#[derive(Debug, PartialEq, Eq)]
pub struct InsertNftMutationArguments {
    pub nft: Nft,
}

/// Arguments of the request that attaches an item to a lemon.
#[derive(Debug, Clone, PartialEq, Eq)]
pub struct AddItemMutationArguments {
    pub lemon_id: String,
    pub item_id: String,
}

/// Arguments of the request that detaches an item from a lemon.
#[derive(Debug, Clone, PartialEq, Eq)]
pub struct RemoveItemMutationArguments {
    pub lemon_id: String,
    pub item_id: String,
}

/// One write request against the entity store.
#[derive(Debug, PartialEq, Eq)]
pub enum MutationRequest {
    InsertNft(InsertNftMutationArguments),
    AddItem(AddItemMutationArguments),
    RemoveItem(RemoveItemMutationArguments),
}

/// What a [`MutationRequest`] holds.
pub enum MutationV {
    InsertNft(NftV),
    AddItem(ItemV),
    RemoveItem(ItemV),
}

impl View for MutationRequest {
    type V = MutationV;

    open spec fn view(&self) -> MutationV {
        match self {
            MutationRequest::InsertNft(a) => MutationV::InsertNft(a.nft@),
            MutationRequest::AddItem(a) => MutationV::AddItem(
                ItemV { lemon_id: a.lemon_id@, item_id: a.item_id@ },
            ),
            MutationRequest::RemoveItem(a) => MutationV::RemoveItem(
                ItemV { lemon_id: a.lemon_id@, item_id: a.item_id@ },
            ),
        }
    }
}

/// The request that an event maps to: a creation becomes a create request
/// carrying the whole entity, an attach or detach event the request naming
/// both ids.
pub open spec fn build_spec(e: EventV) -> MutationV {
    match e {
        EventV::Created(n) => MutationV::InsertNft(n),
        EventV::ItemAdded(i) => MutationV::AddItem(i),
        EventV::ItemRemoved(i) => MutationV::RemoveItem(i),
    }
}

/// Maps a decoded event to the write request that propagates it.
pub fn build_query(event: Event) -> (r: MutationRequest)
    ensures
        r@ == build_spec(event@),
{
    match event {
        Event::Nft(nft) => MutationRequest::InsertNft(InsertNftMutationArguments { nft }),
        Event::ItemAdded(Item { lemon_id, item_id }) => MutationRequest::AddItem(
            AddItemMutationArguments { lemon_id, item_id },
        ),
        Event::ItemRemoved(Item { lemon_id, item_id }) => MutationRequest::RemoveItem(
            RemoveItemMutationArguments { lemon_id, item_id },
        ),
    }
}

/// What the body of a store reply says of errors.
#[derive(Debug, Clone, Copy, PartialEq, Eq)]
pub enum ReplyBody {
    /// The body could not be read as a reply.
    Unreadable,
    /// The reply carries no error list.
    NoErrors,
    /// The reply carries an error list of this length.
    Errors(usize),
}

/// The outcome of sending one request to the store.
#[derive(Debug, Clone, Copy, PartialEq, Eq)]
pub enum Reply {
    /// No reply came: the connection failed.
    Failed,
    /// A reply came, with its status code.
    Received { status: u16, body: ReplyBody },
}

/// Why a submitted request did not succeed.
#[derive(Debug, Clone, Copy, PartialEq, Eq)]
pub enum SubmitError {
    /// The request did not reach the store, or the reply was not a success.
    TransportError,
    /// The store replied with a non-empty error list, of this length.
    RemoteApplicationError(usize),
}

/// The classification of a reply.
pub open spec fn reply_spec(reply: Reply) -> Result<(), SubmitError> {
    match reply {
        Reply::Failed => Err(SubmitError::TransportError),
        Reply::Received { status, body } => if status != 200 {
            Err(SubmitError::TransportError)
        } else {
            match body {
                ReplyBody::Unreadable => Err(SubmitError::TransportError),
                ReplyBody::NoErrors => Ok(()),
                ReplyBody::Errors(n) => if n == 0 {
                    Ok(())
                } else {
                    Err(SubmitError::RemoteApplicationError(n))
                },
            }
        },
    }
}

/// Classifies the store's reply to one request: success needs status 200
/// and no error, or an empty error list.
pub fn handle_errors(reply: Reply) -> (r: Result<(), SubmitError>)
    ensures
        r == reply_spec(reply),
{
    match reply {
        Reply::Failed => Err(SubmitError::TransportError),
        Reply::Received { status, body } => {
            if status != 200 {
                return Err(SubmitError::TransportError);
            }
            match body {
                ReplyBody::Unreadable => Err(SubmitError::TransportError),
                ReplyBody::NoErrors => Ok(()),
                ReplyBody::Errors(n) => if n == 0 {
                    Ok(())
                } else {
                    Err(SubmitError::RemoteApplicationError(n))
                },
            }
        },
    }
}

} // verus!
