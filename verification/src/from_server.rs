//! The server-direction schema: the payload types a server can place on
//! the wire, their closed tagged union (`Variant`), and the envelope
//! (`FromServer`). The layout mirrors [`crate::from_client`].

use vstd::prelude::*;

use crate::wire::{
    be32_encode, bool_encode, bool_field_decode, bytes_field_decode, bytes_field_encode,
    max_frame_len, parse_bool, parse_bytes_field, parse_u32, spec_be32, spec_bool_field,
    spec_bytes_field, u32_field_decode,
};

verus! {

/// The reply to a `from_client::Auth` request.
#[derive(Clone, Copy, Debug, PartialEq, Eq, Structural)]
pub struct AuthResponse {
    pub accepted: bool,
}

/// The reply to a `from_client::NewWorktree` request.
#[derive(Clone, Copy, Debug, PartialEq, Eq, Structural)]
pub struct NewWorktreeResponse {
    pub worktree_id: u32,
}

/// The reply to a `from_client::ShareWorktree` request.
#[derive(Clone, Copy, Debug, PartialEq, Eq, Structural)]
pub struct ShareWorktreeResponse {
    pub accepted: bool,
}

/// One pushed update of a `from_client::SubscribeToPathRequests`
/// subscription.
#[derive(Clone, Debug)]
pub struct PathRequest {
    pub path: Vec<u8>,
}

/// The model of a [`PathRequest`] payload.
pub struct PathRequestView {
    pub path: Seq<u8>,
}

/// The closed set of payload arms a server-direction envelope can hold.
#[derive(Clone, Debug)]
pub enum Variant {
    AuthResponse(AuthResponse),
    NewWorktreeResponse(NewWorktreeResponse),
    ShareWorktreeResponse(ShareWorktreeResponse),
    PathRequest(PathRequest),
}

/// The model of a [`Variant`].
pub enum VariantView {
    AuthResponse(AuthResponse),
    NewWorktreeResponse(NewWorktreeResponse),
    ShareWorktreeResponse(ShareWorktreeResponse),
    PathRequest(PathRequestView),
}

/// The server-direction envelope: a correlation identifier and at most
/// one variant arm.
#[derive(Clone, Debug)]
pub struct FromServer {
    pub id: u32,
    pub variant: Option<Variant>,
}

/// The model of a [`FromServer`] envelope.
pub struct FromServerView {
    pub id: u32,
    pub variant: Option<VariantView>,
}

impl View for PathRequest {
    type V = PathRequestView;

    open spec fn view(&self) -> PathRequestView {
        PathRequestView { path: self.path@ }
    }
}

impl View for Variant {
    type V = VariantView;

    open spec fn view(&self) -> VariantView {
        match self {
            Variant::AuthResponse(m) => VariantView::AuthResponse(*m),
            Variant::NewWorktreeResponse(m) => VariantView::NewWorktreeResponse(*m),
            Variant::ShareWorktreeResponse(m) => VariantView::ShareWorktreeResponse(*m),
            Variant::PathRequest(m) => VariantView::PathRequest(m@),
        }
    }
}

impl View for FromServer {
    type V = FromServerView;

    open spec fn view(&self) -> FromServerView {
        FromServerView {
            id: self.id,
            variant: match self.variant {
                Some(v) => Some(v@),
                None => None,
            },
        }
    }
}

// ---------------------------------------------------------------------
// Equality
// ---------------------------------------------------------------------

impl PartialEq for PathRequest {
    fn eq(&self, other: &Self) -> bool {
        crate::from_client::bytes_eq(&self.path, &other.path)
    }
}

impl vstd::std_specs::cmp::PartialEqSpecImpl for PathRequest {
    open spec fn obeys_eq_spec() -> bool {
        true
    }

    open spec fn eq_spec(&self, other: &Self) -> bool {
        self@ == other@
    }
}

impl PartialEq for Variant {
    fn eq(&self, other: &Self) -> bool {
        match (self, other) {
            (Variant::AuthResponse(a), Variant::AuthResponse(b)) => a == b,
            (Variant::NewWorktreeResponse(a), Variant::NewWorktreeResponse(b)) => a == b,
            (Variant::ShareWorktreeResponse(a), Variant::ShareWorktreeResponse(b)) => a == b,
            (Variant::PathRequest(a), Variant::PathRequest(b)) => a == b,
            _ => false,
        }
    }
}

impl vstd::std_specs::cmp::PartialEqSpecImpl for Variant {
    open spec fn obeys_eq_spec() -> bool {
        true
    }

    open spec fn eq_spec(&self, other: &Self) -> bool {
        self@ == other@
    }
}

impl PartialEq for FromServer {
    fn eq(&self, other: &Self) -> bool {
        let variant_eq = match (&self.variant, &other.variant) {
            (Some(a), Some(b)) => a == b,
            (None, None) => true,
            _ => false,
        };
        self.id == other.id && variant_eq
    }
}

impl vstd::std_specs::cmp::PartialEqSpecImpl for FromServer {
    open spec fn obeys_eq_spec() -> bool {
        true
    }

    open spec fn eq_spec(&self, other: &Self) -> bool {
        self@ == other@
    }
}

// ---------------------------------------------------------------------
// Spec-level encoding and decoding
// ---------------------------------------------------------------------

/// The wire tag of each variant arm; 0 marks an envelope with no arm.
pub open spec fn spec_tag(v: VariantView) -> u8 {
    match v {
        VariantView::AuthResponse(_) => 1,
        VariantView::NewWorktreeResponse(_) => 2,
        VariantView::ShareWorktreeResponse(_) => 3,
        VariantView::PathRequest(_) => 4,
    }
}

/// The body bytes of one variant arm (without its tag).
pub open spec fn spec_encode_arm(v: VariantView) -> Seq<u8> {
    match v {
        VariantView::AuthResponse(m) => spec_bool_field(m.accepted),
        VariantView::NewWorktreeResponse(m) => spec_be32(m.worktree_id),
        VariantView::ShareWorktreeResponse(m) => spec_bool_field(m.accepted),
        VariantView::PathRequest(m) => spec_bytes_field(m.path),
    }
}

/// The serialized envelope: identifier, variant tag, then the arm body.
pub open spec fn spec_encode(v: FromServerView) -> Seq<u8> {
    spec_be32(v.id) + match v.variant {
        None => seq![0u8],
        Some(arm) => seq![spec_tag(arm)] + spec_encode_arm(arm),
    }
}

/// Whether every variable-length field of `v` fits its 4-byte length
/// prefix.
pub open spec fn spec_wf(v: FromServerView) -> bool {
    match v.variant {
        Some(VariantView::PathRequest(m)) => m.path.len() <= max_frame_len(),
        _ => true,
    }
}

/// An envelope that is not well-formed serializes to more bytes than one
/// frame can carry.
pub proof fn lemma_oversize_field_oversize_encoding(v: FromServerView)
    requires
        !spec_wf(v),
    ensures
        spec_encode(v).len() > max_frame_len(),
{
}

/// Decodes the body of one variant arm; the arm must consume the body
/// exactly.
pub open spec fn spec_decode_arm(tag: u8, s: Seq<u8>) -> Option<VariantView> {
    if tag == 1 {
        match parse_bool(s) {
            Some((accepted, r1)) => if r1.len() == 0 {
                Some(VariantView::AuthResponse(AuthResponse { accepted }))
            } else {
                None
            },
            None => None,
        }
    } else if tag == 2 {
        match parse_u32(s) {
            Some((worktree_id, r1)) => if r1.len() == 0 {
                Some(VariantView::NewWorktreeResponse(NewWorktreeResponse { worktree_id }))
            } else {
                None
            },
            None => None,
        }
    } else if tag == 3 {
        match parse_bool(s) {
            Some((accepted, r1)) => if r1.len() == 0 {
                Some(VariantView::ShareWorktreeResponse(ShareWorktreeResponse { accepted }))
            } else {
                None
            },
            None => None,
        }
    } else if tag == 4 {
        match parse_bytes_field(s) {
            Some((path, r1)) => if r1.len() == 0 {
                Some(VariantView::PathRequest(PathRequestView { path }))
            } else {
                None
            },
            None => None,
        }
    } else {
        None
    }
}

/// Decodes a whole envelope body; accepts exactly the canonical
/// encodings.
pub open spec fn spec_decode(s: Seq<u8>) -> Option<FromServerView> {
    match parse_u32(s) {
        Some((id, rest)) => if rest.len() >= 1 {
            let tag = rest[0];
            let body = rest.skip(1);
            if tag == 0 {
                if body.len() == 0 {
                    Some(FromServerView { id, variant: None })
                } else {
                    None
                }
            } else {
                match spec_decode_arm(tag, body) {
                    Some(arm) => Some(FromServerView { id, variant: Some(arm) }),
                    None => None,
                }
            }
        } else {
            None
        },
        None => None,
    }
}

/// Round-trip at the spec level: decoding the encoding of any
/// well-formed envelope yields that envelope back.
pub proof fn lemma_decode_encode(v: FromServerView)
    requires
        spec_wf(v),
    ensures
        spec_decode(spec_encode(v)) == Some(v),
{
    match v.variant {
        None => {
            crate::wire::lemma_parse_u32(v.id, seq![0u8]);
            let rest = seq![0u8];
            assert(rest.skip(1) =~= Seq::<u8>::empty());
        },
        Some(arm) => {
            let tail = seq![spec_tag(arm)] + spec_encode_arm(arm);
            crate::wire::lemma_parse_u32(v.id, tail);
            assert(tail[0] == spec_tag(arm));
            assert(tail.skip(1) =~= spec_encode_arm(arm));
            lemma_decode_encode_arm(arm);
        },
    }
}

/// Round-trip for one variant arm's body.
proof fn lemma_decode_encode_arm(arm: VariantView)
    requires
        spec_wf(FromServerView { id: 0, variant: Some(arm) }),
    ensures
        spec_decode_arm(spec_tag(arm), spec_encode_arm(arm)) == Some(arm),
{
    match arm {
        VariantView::AuthResponse(m) => {
            crate::wire::lemma_parse_bool(m.accepted, Seq::<u8>::empty());
            assert(spec_bool_field(m.accepted) + Seq::<u8>::empty() =~= spec_bool_field(
                m.accepted,
            ));
        },
        VariantView::NewWorktreeResponse(m) => {
            assert(spec_encode_arm(arm) =~= spec_be32(m.worktree_id) + Seq::<u8>::empty());
            crate::wire::lemma_parse_u32(m.worktree_id, Seq::<u8>::empty());
        },
        VariantView::ShareWorktreeResponse(m) => {
            crate::wire::lemma_parse_bool(m.accepted, Seq::<u8>::empty());
            assert(spec_bool_field(m.accepted) + Seq::<u8>::empty() =~= spec_bool_field(
                m.accepted,
            ));
        },
        VariantView::PathRequest(m) => {
            crate::wire::lemma_parse_bytes_field(m.path, Seq::<u8>::empty());
            assert(spec_bytes_field(m.path) + Seq::<u8>::empty() =~= spec_bytes_field(m.path));
        },
    }
}

// ---------------------------------------------------------------------
// Executable codecs
// ---------------------------------------------------------------------

impl FromServer {
    /// Whether every variable-length field fits its 4-byte length prefix.
    fn check_wf(&self) -> (r: bool)
        ensures
            r == spec_wf(self@),
    {
        match &self.variant {
            Some(Variant::PathRequest(m)) => (m.path.len() as u64) <= 0xFFFF_FFFFu64,
            _ => true,
        }
    }

}

impl crate::wire::Message for FromServer {
    open spec fn spec_encode(v: FromServerView) -> Seq<u8> {
        spec_encode(v)
    }

    open spec fn spec_decode(s: Seq<u8>) -> Option<FromServerView> {
        spec_decode(s)
    }

    open spec fn spec_wf(v: FromServerView) -> bool {
        spec_wf(v)
    }

    proof fn lemma_decode_encode(v: FromServerView) {
        lemma_decode_encode(v);
    }

    proof fn lemma_oversize(v: FromServerView) {
        lemma_oversize_field_oversize_encoding(v);
    }

    fn encode(&self) -> Result<Vec<u8>, crate::MessageError> {
        if !self.check_wf() {
            return Err(crate::MessageError::EncodingTooLarge);
        }
        let mut out: Vec<u8> = Vec::new();
        be32_encode(self.id, &mut out);
        match &self.variant {
            None => out.push(0u8),
            Some(Variant::AuthResponse(m)) => {
                out.push(1u8);
                bool_encode(m.accepted, &mut out);
            },
            Some(Variant::NewWorktreeResponse(m)) => {
                out.push(2u8);
                be32_encode(m.worktree_id, &mut out);
            },
            Some(Variant::ShareWorktreeResponse(m)) => {
                out.push(3u8);
                bool_encode(m.accepted, &mut out);
            },
            Some(Variant::PathRequest(m)) => {
                out.push(4u8);
                bytes_field_encode(&m.path, &mut out);
            },
        }
        assert(out@ =~= spec_encode(self@));
        Ok(out)
    }

    /// Deserializes an envelope from exactly the given body bytes;
    /// accepts precisely the canonical encodings.
    fn decode(bytes: &[u8]) -> Option<FromServer> {
        proof {
            assert(bytes@.skip(0) =~= bytes@);
        }
        let (id, at) = match u32_field_decode(bytes, 0) {
            Some(x) => x,
            None => {
                return None;
            },
        };
        if at >= bytes.len() {
            return None;
        }
        let tag = bytes[at];
        proof {
            assert(bytes@.skip(at as int)[0] == bytes@[at as int]);
            assert(bytes@.skip(at as int).skip(1) =~= bytes@.skip(at + 1));
        }
        let at = at + 1;
        if tag == 0 {
            if at == bytes.len() {
                Some(FromServer { id, variant: None })
            } else {
                None
            }
        } else {
            match Self::decode_arm(tag, bytes, at) {
                Some(v) => Some(FromServer { id, variant: Some(v) }),
                None => None,
            }
        }
    }

}

impl FromServer {
    /// Deserializes one variant arm from the body bytes starting at
    /// `at`; the arm must consume the input exactly.
    fn decode_arm(tag: u8, bytes: &[u8], at: usize) -> (r: Option<Variant>)
        requires
            1 <= tag,
            at <= bytes@.len(),
        ensures
            match r {
                Some(v) => spec_decode_arm(tag, bytes@.skip(at as int)) == Some(v@),
                None => spec_decode_arm(tag, bytes@.skip(at as int)) is None,
            },
    {
        if tag == 1 {
            let (accepted, at1) = match bool_field_decode(bytes, at) {
                Some(x) => x,
                None => {
                    return None;
                },
            };
            if at1 == bytes.len() {
                Some(Variant::AuthResponse(AuthResponse { accepted }))
            } else {
                None
            }
        } else if tag == 2 {
            let (worktree_id, at1) = match u32_field_decode(bytes, at) {
                Some(x) => x,
                None => {
                    return None;
                },
            };
            if at1 == bytes.len() {
                Some(Variant::NewWorktreeResponse(NewWorktreeResponse { worktree_id }))
            } else {
                None
            }
        } else if tag == 3 {
            let (accepted, at1) = match bool_field_decode(bytes, at) {
                Some(x) => x,
                None => {
                    return None;
                },
            };
            if at1 == bytes.len() {
                Some(Variant::ShareWorktreeResponse(ShareWorktreeResponse { accepted }))
            } else {
                None
            }
        } else if tag == 4 {
            let (path, at1) = match bytes_field_decode(bytes, at) {
                Some(x) => x,
                None => {
                    return None;
                },
            };
            if at1 == bytes.len() {
                Some(Variant::PathRequest(PathRequest { path }))
            } else {
                None
            }
        } else {
            None
        }
    }
}

} // verus!
