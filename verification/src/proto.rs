//! Static message-kind classification.
//!
//! Each concrete payload type belongs to exactly one direction and one
//! role. The roles are expressed as traits: [`ClientMessage`] and
//! [`ServerMessage`] embed a payload into, and extract it from, the
//! variant of their direction; [`RequestMessage`] pairs a client payload
//! with the single response type its sender may await;
//! [`SubscribeMessage`] pairs a subscription with its event type; and
//! [`SendMessage`] marks one-way payloads that expect no reply.
//!
//! Registration is closed: each payload's role and pairing are declared
//! once, below, and cannot vary at run time. A caller who sends a
//! request-role payload can therefore only be waiting for its one paired
//! response type.

use vstd::prelude::*;

use crate::from_client;
use crate::from_client::{Auth, NewWorktree, ShareWorktree, SubscribeToPathRequests, UploadFile};
use crate::from_server;
use crate::from_server::{
    AuthResponse, NewWorktreeResponse, PathRequest, ShareWorktreeResponse,
};

verus! {

/// A message that the client can send to the server.
pub trait ClientMessage: Sized {
    /// The client-direction variant arm that carries this payload.
    spec fn spec_to_variant(self) -> from_client::Variant;

    /// The payload recovered from a variant, present exactly when the
    /// variant holds this type's arm.
    spec fn spec_from_variant(variant: from_client::Variant) -> Option<Self>;

    /// Embedding a payload and extracting it again yields the payload
    /// unchanged.
    proof fn lemma_embed_extract(self)
        ensures
            Self::spec_from_variant(self.spec_to_variant()) == Some(self),
    ;

    /// Wraps this payload in its direction's variant; total.
    fn to_variant(self) -> (v: from_client::Variant)
        ensures
            v == self.spec_to_variant(),
    ;

    /// Attempts to unwrap this payload type out of a variant. An absent
    /// result is a routing outcome ("try a different handler"), not a
    /// protocol fault.
    fn from_variant(variant: from_client::Variant) -> (r: Option<Self>)
        ensures
            r == Self::spec_from_variant(variant),
    ;
}

/// A message that the server can send to the client.
pub trait ServerMessage: Sized {
    /// The server-direction variant arm that carries this payload.
    spec fn spec_to_variant(self) -> from_server::Variant;

    /// The payload recovered from a variant, present exactly when the
    /// variant holds this type's arm.
    spec fn spec_from_variant(variant: from_server::Variant) -> Option<Self>;

    /// Embedding a payload and extracting it again yields the payload
    /// unchanged.
    proof fn lemma_embed_extract(self)
        ensures
            Self::spec_from_variant(self.spec_to_variant()) == Some(self),
    ;

    /// Wraps this payload in its direction's variant; total.
    fn to_variant(self) -> (v: from_server::Variant)
        ensures
            v == self.spec_to_variant(),
    ;

    /// Attempts to unwrap this payload type out of a variant.
    fn from_variant(variant: from_server::Variant) -> (r: Option<Self>)
        ensures
            r == Self::spec_from_variant(variant),
    ;
}

/// A message that the client can send to the server, where the server
/// must respond with a single message of the paired type.
pub trait RequestMessage: ClientMessage {
    type Response: ServerMessage;
}

/// A message that the client can send to the server, where the server
/// responds with a series of messages of the paired event type.
pub trait SubscribeMessage: ClientMessage {
    type Event: ServerMessage;
}

/// A message that the client can send to the server, where the server
/// will not respond.
pub trait SendMessage: ClientMessage {}

/// Classification round-trip, client direction: for every payload type
/// and every instance, extracting from the variant it was embedded into
/// returns the instance unchanged.
pub proof fn lemma_client_classification<M: ClientMessage>(m: M)
    ensures
        M::spec_from_variant(m.spec_to_variant()) == Some(m),
{
    m.lemma_embed_extract();
}

/// Classification round-trip, server direction.
pub proof fn lemma_server_classification<M: ServerMessage>(m: M)
    ensures
        M::spec_from_variant(m.spec_to_variant()) == Some(m),
{
    m.lemma_embed_extract();
}

impl ClientMessage for Auth {
    open spec fn spec_to_variant(self) -> from_client::Variant {
        from_client::Variant::Auth(self)
    }

    open spec fn spec_from_variant(variant: from_client::Variant) -> Option<Self> {
        match variant {
            from_client::Variant::Auth(m) => Some(m),
            _ => None,
        }
    }

    proof fn lemma_embed_extract(self) {
    }

    fn to_variant(self) -> from_client::Variant {
        from_client::Variant::Auth(self)
    }

    fn from_variant(variant: from_client::Variant) -> Option<Self> {
        match variant {
            from_client::Variant::Auth(m) => Some(m),
            _ => None,
        }
    }
}

impl RequestMessage for Auth {
    type Response = AuthResponse;
}

impl ClientMessage for NewWorktree {
    open spec fn spec_to_variant(self) -> from_client::Variant {
        from_client::Variant::NewWorktree(self)
    }

    open spec fn spec_from_variant(variant: from_client::Variant) -> Option<Self> {
        match variant {
            from_client::Variant::NewWorktree(m) => Some(m),
            _ => None,
        }
    }

    proof fn lemma_embed_extract(self) {
    }

    fn to_variant(self) -> from_client::Variant {
        from_client::Variant::NewWorktree(self)
    }

    fn from_variant(variant: from_client::Variant) -> Option<Self> {
        match variant {
            from_client::Variant::NewWorktree(m) => Some(m),
            _ => None,
        }
    }
}

impl RequestMessage for NewWorktree {
    type Response = NewWorktreeResponse;
}

impl ClientMessage for ShareWorktree {
    open spec fn spec_to_variant(self) -> from_client::Variant {
        from_client::Variant::ShareWorktree(self)
    }

    open spec fn spec_from_variant(variant: from_client::Variant) -> Option<Self> {
        match variant {
            from_client::Variant::ShareWorktree(m) => Some(m),
            _ => None,
        }
    }

    proof fn lemma_embed_extract(self) {
    }

    fn to_variant(self) -> from_client::Variant {
        from_client::Variant::ShareWorktree(self)
    }

    fn from_variant(variant: from_client::Variant) -> Option<Self> {
        match variant {
            from_client::Variant::ShareWorktree(m) => Some(m),
            _ => None,
        }
    }
}

impl RequestMessage for ShareWorktree {
    type Response = ShareWorktreeResponse;
}

impl ClientMessage for UploadFile {
    open spec fn spec_to_variant(self) -> from_client::Variant {
        from_client::Variant::UploadFile(self)
    }

    open spec fn spec_from_variant(variant: from_client::Variant) -> Option<Self> {
        match variant {
            from_client::Variant::UploadFile(m) => Some(m),
            _ => None,
        }
    }

    proof fn lemma_embed_extract(self) {
    }

    fn to_variant(self) -> from_client::Variant {
        from_client::Variant::UploadFile(self)
    }

    fn from_variant(variant: from_client::Variant) -> Option<Self> {
        match variant {
            from_client::Variant::UploadFile(m) => Some(m),
            _ => None,
        }
    }
}

impl SendMessage for UploadFile {}

impl ClientMessage for SubscribeToPathRequests {
    open spec fn spec_to_variant(self) -> from_client::Variant {
        from_client::Variant::SubscribeToPathRequests(self)
    }

    open spec fn spec_from_variant(variant: from_client::Variant) -> Option<Self> {
        match variant {
            from_client::Variant::SubscribeToPathRequests(m) => Some(m),
            _ => None,
        }
    }

    proof fn lemma_embed_extract(self) {
    }

    fn to_variant(self) -> from_client::Variant {
        from_client::Variant::SubscribeToPathRequests(self)
    }

    fn from_variant(variant: from_client::Variant) -> Option<Self> {
        match variant {
            from_client::Variant::SubscribeToPathRequests(m) => Some(m),
            _ => None,
        }
    }
}

impl SubscribeMessage for SubscribeToPathRequests {
    type Event = PathRequest;
}

impl ServerMessage for AuthResponse {
    open spec fn spec_to_variant(self) -> from_server::Variant {
        from_server::Variant::AuthResponse(self)
    }

    open spec fn spec_from_variant(variant: from_server::Variant) -> Option<Self> {
        match variant {
            from_server::Variant::AuthResponse(m) => Some(m),
            _ => None,
        }
    }

    proof fn lemma_embed_extract(self) {
    }

    fn to_variant(self) -> from_server::Variant {
        from_server::Variant::AuthResponse(self)
    }

    fn from_variant(variant: from_server::Variant) -> Option<Self> {
        match variant {
            from_server::Variant::AuthResponse(m) => Some(m),
            _ => None,
        }
    }
}

impl ServerMessage for NewWorktreeResponse {
    open spec fn spec_to_variant(self) -> from_server::Variant {
        from_server::Variant::NewWorktreeResponse(self)
    }

    open spec fn spec_from_variant(variant: from_server::Variant) -> Option<Self> {
        match variant {
            from_server::Variant::NewWorktreeResponse(m) => Some(m),
            _ => None,
        }
    }

    proof fn lemma_embed_extract(self) {
    }

    fn to_variant(self) -> from_server::Variant {
        from_server::Variant::NewWorktreeResponse(self)
    }

    fn from_variant(variant: from_server::Variant) -> Option<Self> {
        match variant {
            from_server::Variant::NewWorktreeResponse(m) => Some(m),
            _ => None,
        }
    }
}

impl ServerMessage for ShareWorktreeResponse {
    open spec fn spec_to_variant(self) -> from_server::Variant {
        from_server::Variant::ShareWorktreeResponse(self)
    }

    open spec fn spec_from_variant(variant: from_server::Variant) -> Option<Self> {
        match variant {
            from_server::Variant::ShareWorktreeResponse(m) => Some(m),
            _ => None,
        }
    }

    proof fn lemma_embed_extract(self) {
    }

    fn to_variant(self) -> from_server::Variant {
        from_server::Variant::ShareWorktreeResponse(self)
    }

    fn from_variant(variant: from_server::Variant) -> Option<Self> {
        match variant {
            from_server::Variant::ShareWorktreeResponse(m) => Some(m),
            _ => None,
        }
    }
}

impl ServerMessage for PathRequest {
    open spec fn spec_to_variant(self) -> from_server::Variant {
        from_server::Variant::PathRequest(self)
    }

    open spec fn spec_from_variant(variant: from_server::Variant) -> Option<Self> {
        match variant {
            from_server::Variant::PathRequest(m) => Some(m),
            _ => None,
        }
    }

    proof fn lemma_embed_extract(self) {
    }

    fn to_variant(self) -> from_server::Variant {
        from_server::Variant::PathRequest(self)
    }

    fn from_variant(variant: from_server::Variant) -> Option<Self> {
        match variant {
            from_server::Variant::PathRequest(m) => Some(m),
            _ => None,
        }
    }
}

/// A variant holding any other arm extracts as an absent result when
/// attempted as `Auth`: extraction is a routing test, not a fault.
pub proof fn lemma_extract_mismatch(v: from_client::Variant)
    requires
        !(v is Auth),
    ensures
        <Auth as ClientMessage>::spec_from_variant(v) is None,
{
}

/// The same in the server direction: a variant holding any other arm
/// extracts as an absent result when attempted as `AuthResponse`.
pub proof fn lemma_extract_mismatch_server(v: from_server::Variant)
    requires
        !(v is AuthResponse),
    ensures
        <AuthResponse as ServerMessage>::spec_from_variant(v) is None,
{
}

} // verus!
