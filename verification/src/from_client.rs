//! The client-direction schema: the payload types a client can place on
//! the wire, the closed tagged union (`Variant`) that carries exactly one
//! of them, and the envelope (`FromClient`) pairing a correlation
//! identifier with one variant.
//!
//! Each type has a spec-level model (its view), a spec-level encoding and
//! decoding, and executable codecs proved against them. Decoding is
//! canonical: it accepts exactly the byte sequences the encoder produces,
//! and consumes the whole body.

use vstd::prelude::*;

use crate::wire::{
    be32_encode, bytes_field_decode, bytes_field_encode, max_frame_len, parse_bytes_field,
    parse_string_field, parse_u32, spec_be32, spec_bytes_field, spec_string_field,
    string_field_decode, string_field_encode, u32_field_decode,
};

verus! {

/// An authentication request: a request-role payload, answered by
/// `from_server::AuthResponse`.
#[derive(Clone, Debug)]
pub struct Auth {
    pub user_id: u32,
    pub access_token: String,
}

/// The model of an [`Auth`] payload.
pub struct AuthView {
    pub user_id: u32,
    pub access_token: Seq<char>,
}

/// A request to create a worktree: answered by
/// `from_server::NewWorktreeResponse`.
#[derive(Clone, Copy, Debug, PartialEq, Eq, Structural)]
pub struct NewWorktree {}

/// A request to share a worktree: answered by
/// `from_server::ShareWorktreeResponse`.
#[derive(Clone, Copy, Debug, PartialEq, Eq, Structural)]
pub struct ShareWorktree {
    pub worktree_id: u32,
}

/// A one-way file upload: no reply is expected.
#[derive(Clone, Debug)]
pub struct UploadFile {
    pub path: Vec<u8>,
    pub content: Vec<u8>,
}

/// The model of an [`UploadFile`] payload.
pub struct UploadFileView {
    pub path: Seq<u8>,
    pub content: Seq<u8>,
}

/// A subscription to path requests: each update arrives as a
/// `from_server::PathRequest` event.
#[derive(Clone, Copy, Debug, PartialEq, Eq, Structural)]
pub struct SubscribeToPathRequests {}

/// The closed set of payload arms a client-direction envelope can hold.
#[derive(Clone, Debug)]
pub enum Variant {
    Auth(Auth),
    NewWorktree(NewWorktree),
    ShareWorktree(ShareWorktree),
    UploadFile(UploadFile),
    SubscribeToPathRequests(SubscribeToPathRequests),
}

/// The model of a [`Variant`].
pub enum VariantView {
    Auth(AuthView),
    NewWorktree(NewWorktree),
    ShareWorktree(ShareWorktree),
    UploadFile(UploadFileView),
    SubscribeToPathRequests(SubscribeToPathRequests),
}

/// The client-direction envelope: a correlation identifier and at most
/// one variant arm. The identifier is carried untouched; interpreting it
/// belongs to an external dispatcher.
#[derive(Clone, Debug)]
pub struct FromClient {
    pub id: u32,
    pub variant: Option<Variant>,
}

/// The model of a [`FromClient`] envelope.
pub struct FromClientView {
    pub id: u32,
    pub variant: Option<VariantView>,
}

impl View for Auth {
    type V = AuthView;

    open spec fn view(&self) -> AuthView {
        AuthView { user_id: self.user_id, access_token: self.access_token@ }
    }
}

impl View for UploadFile {
    type V = UploadFileView;

    open spec fn view(&self) -> UploadFileView {
        UploadFileView { path: self.path@, content: self.content@ }
    }
}

impl View for Variant {
    type V = VariantView;

    open spec fn view(&self) -> VariantView {
        match self {
            Variant::Auth(m) => VariantView::Auth(m@),
            Variant::NewWorktree(m) => VariantView::NewWorktree(*m),
            Variant::ShareWorktree(m) => VariantView::ShareWorktree(*m),
            Variant::UploadFile(m) => VariantView::UploadFile(m@),
            Variant::SubscribeToPathRequests(m) => VariantView::SubscribeToPathRequests(*m),
        }
    }
}

impl View for FromClient {
    type V = FromClientView;

    open spec fn view(&self) -> FromClientView {
        FromClientView {
            id: self.id,
            variant: match self.variant {
                Some(v) => Some(v@),
                None => None,
            },
        }
    }
}

// ---------------------------------------------------------------------
// Equality
// ---------------------------------------------------------------------

impl PartialEq for Auth {
    fn eq(&self, other: &Self) -> bool {
        self.user_id == other.user_id && self.access_token == other.access_token
    }
}

impl vstd::std_specs::cmp::PartialEqSpecImpl for Auth {
    open spec fn obeys_eq_spec() -> bool {
        true
    }

    open spec fn eq_spec(&self, other: &Self) -> bool {
        self@ == other@
    }
}

impl PartialEq for UploadFile {
    fn eq(&self, other: &Self) -> (r: bool) {
        let path_eq = bytes_eq(&self.path, &other.path);
        let content_eq = bytes_eq(&self.content, &other.content);
        path_eq && content_eq
    }
}

impl vstd::std_specs::cmp::PartialEqSpecImpl for UploadFile {
    open spec fn obeys_eq_spec() -> bool {
        true
    }

    open spec fn eq_spec(&self, other: &Self) -> bool {
        self@ == other@
    }
}

impl PartialEq for Variant {
    fn eq(&self, other: &Self) -> bool {
        match (self, other) {
            (Variant::Auth(a), Variant::Auth(b)) => a == b,
            (Variant::NewWorktree(a), Variant::NewWorktree(b)) => a == b,
            (Variant::ShareWorktree(a), Variant::ShareWorktree(b)) => a == b,
            (Variant::UploadFile(a), Variant::UploadFile(b)) => a == b,
            (Variant::SubscribeToPathRequests(a), Variant::SubscribeToPathRequests(b)) => a == b,
            _ => false,
        }
    }
}

impl vstd::std_specs::cmp::PartialEqSpecImpl for Variant {
    open spec fn obeys_eq_spec() -> bool {
        true
    }

    open spec fn eq_spec(&self, other: &Self) -> bool {
        self@ == other@
    }
}

impl PartialEq for FromClient {
    fn eq(&self, other: &Self) -> bool {
        let variant_eq = match (&self.variant, &other.variant) {
            (Some(a), Some(b)) => a == b,
            (None, None) => true,
            _ => false,
        };
        self.id == other.id && variant_eq
    }
}

impl vstd::std_specs::cmp::PartialEqSpecImpl for FromClient {
    open spec fn obeys_eq_spec() -> bool {
        true
    }

    open spec fn eq_spec(&self, other: &Self) -> bool {
        self@ == other@
    }
}

/// Byte-vector equality, stated over the views.
pub(crate) fn bytes_eq(a: &Vec<u8>, b: &Vec<u8>) -> (r: bool)
    ensures
        r == (a@ == b@),
{
    if a.len() != b.len() {
        proof {
            assert(a@.len() != b@.len());
        }
        return false;
    }
    let n = a.len();
    let mut i: usize = 0;
    while i < n
        invariant
            n == a@.len() && n == b@.len(),
            i <= n,
            forall|j: int| 0 <= j < i ==> a@[j] == b@[j],
        decreases n - i,
    {
        if a[i] != b[i] {
            return false;
        }
        i += 1;
    }
    proof {
        assert(a@ =~= b@);
    }
    true
}

// ---------------------------------------------------------------------
// Spec-level encoding
// ---------------------------------------------------------------------

/// The wire tag of each variant arm; 0 marks an envelope with no arm.
pub open spec fn spec_tag(v: VariantView) -> u8 {
    match v {
        VariantView::Auth(_) => 1,
        VariantView::NewWorktree(_) => 2,
        VariantView::ShareWorktree(_) => 3,
        VariantView::UploadFile(_) => 4,
        VariantView::SubscribeToPathRequests(_) => 5,
    }
}

/// The body bytes of one variant arm (without its tag).
pub open spec fn spec_encode_arm(v: VariantView) -> Seq<u8> {
    match v {
        VariantView::Auth(m) => spec_be32(m.user_id) + spec_string_field(m.access_token),
        VariantView::NewWorktree(_) => Seq::empty(),
        VariantView::ShareWorktree(m) => spec_be32(m.worktree_id),
        VariantView::UploadFile(m) => spec_bytes_field(m.path) + spec_bytes_field(m.content),
        VariantView::SubscribeToPathRequests(_) => Seq::empty(),
    }
}

/// The serialized envelope: identifier, variant tag, then the arm body.
pub open spec fn spec_encode(v: FromClientView) -> Seq<u8> {
    spec_be32(v.id) + match v.variant {
        None => seq![0u8],
        Some(arm) => seq![spec_tag(arm)] + spec_encode_arm(arm),
    }
}

/// Whether every variable-length field of `v` fits its 4-byte length
/// prefix. Encoding is faithful exactly for such envelopes.
pub open spec fn spec_wf(v: FromClientView) -> bool {
    match v.variant {
        Some(VariantView::Auth(m)) => vstd::utf8::encode_utf8(m.access_token).len()
            <= max_frame_len(),
        Some(VariantView::UploadFile(m)) => m.path.len() <= max_frame_len() && m.content.len()
            <= max_frame_len(),
        _ => true,
    }
}

/// An envelope whose field cannot fit its length prefix serializes to
/// more bytes than one frame can carry: rejecting on total length alone
/// also rejects every envelope that is not well-formed.
pub proof fn lemma_oversize_field_oversize_encoding(v: FromClientView)
    requires
        !spec_wf(v),
    ensures
        spec_encode(v).len() > max_frame_len(),
{
}

// ---------------------------------------------------------------------
// Spec-level decoding
// ---------------------------------------------------------------------

/// Decodes the body of one variant arm; the arm must consume the body
/// exactly.
pub open spec fn spec_decode_arm(tag: u8, s: Seq<u8>) -> Option<VariantView> {
    if tag == 1 {
        match parse_u32(s) {
            Some((user_id, r1)) => match parse_string_field(r1) {
                Some((access_token, r2)) => if r2.len() == 0 {
                    Some(VariantView::Auth(AuthView { user_id, access_token }))
                } else {
                    None
                },
                None => None,
            },
            None => None,
        }
    } else if tag == 2 {
        if s.len() == 0 {
            Some(VariantView::NewWorktree(NewWorktree {}))
        } else {
            None
        }
    } else if tag == 3 {
        match parse_u32(s) {
            Some((worktree_id, r1)) => if r1.len() == 0 {
                Some(VariantView::ShareWorktree(ShareWorktree { worktree_id }))
            } else {
                None
            },
            None => None,
        }
    } else if tag == 4 {
        match parse_bytes_field(s) {
            Some((path, r1)) => match parse_bytes_field(r1) {
                Some((content, r2)) => if r2.len() == 0 {
                    Some(VariantView::UploadFile(UploadFileView { path, content }))
                } else {
                    None
                },
                None => None,
            },
            None => None,
        }
    } else if tag == 5 {
        if s.len() == 0 {
            Some(VariantView::SubscribeToPathRequests(SubscribeToPathRequests {}))
        } else {
            None
        }
    } else {
        None
    }
}

/// Decodes a whole envelope body; accepts exactly the canonical
/// encodings.
pub open spec fn spec_decode(s: Seq<u8>) -> Option<FromClientView> {
    match parse_u32(s) {
        Some((id, rest)) => if rest.len() >= 1 {
            let tag = rest[0];
            let body = rest.skip(1);
            if tag == 0 {
                if body.len() == 0 {
                    Some(FromClientView { id, variant: None })
                } else {
                    None
                }
            } else {
                match spec_decode_arm(tag, body) {
                    Some(arm) => Some(FromClientView { id, variant: Some(arm) }),
                    None => None,
                }
            }
        } else {
            None
        },
        None => None,
    }
}

/// Round-trip at the spec level: decoding the encoding of any
/// well-formed envelope yields that envelope back.
pub proof fn lemma_decode_encode(v: FromClientView)
    requires
        spec_wf(v),
    ensures
        spec_decode(spec_encode(v)) == Some(v),
{
    match v.variant {
        None => {
            crate::wire::lemma_parse_u32(v.id, seq![0u8]);
            let rest = seq![0u8];
            assert(rest.skip(1) =~= Seq::<u8>::empty());
        },
        Some(arm) => {
            let tail = seq![spec_tag(arm)] + spec_encode_arm(arm);
            crate::wire::lemma_parse_u32(v.id, tail);
            assert(tail[0] == spec_tag(arm));
            assert(tail.skip(1) =~= spec_encode_arm(arm));
            lemma_decode_encode_arm(arm);
        },
    }
}

/// Round-trip for one variant arm's body.
proof fn lemma_decode_encode_arm(arm: VariantView)
    requires
        spec_wf(FromClientView { id: 0, variant: Some(arm) }),
    ensures
        spec_decode_arm(spec_tag(arm), spec_encode_arm(arm)) == Some(arm),
{
    match arm {
        VariantView::Auth(m) => {
            assert(spec_encode_arm(arm) =~= spec_be32(m.user_id) + (spec_string_field(
                m.access_token,
            ) + Seq::<u8>::empty()));
            crate::wire::lemma_parse_u32(
                m.user_id,
                spec_string_field(m.access_token) + Seq::<u8>::empty(),
            );
            crate::wire::lemma_parse_string_field(m.access_token, Seq::<u8>::empty());
        },
        VariantView::NewWorktree(_) => {},
        VariantView::ShareWorktree(m) => {
            assert(spec_encode_arm(arm) =~= spec_be32(m.worktree_id) + Seq::<u8>::empty());
            crate::wire::lemma_parse_u32(m.worktree_id, Seq::<u8>::empty());
        },
        VariantView::UploadFile(m) => {
            assert(spec_encode_arm(arm) =~= spec_bytes_field(m.path) + (spec_bytes_field(
                m.content,
            ) + Seq::<u8>::empty()));
            crate::wire::lemma_parse_bytes_field(
                m.path,
                spec_bytes_field(m.content) + Seq::<u8>::empty(),
            );
            crate::wire::lemma_parse_bytes_field(m.content, Seq::<u8>::empty());
        },
        VariantView::SubscribeToPathRequests(_) => {},
    }
}

// ---------------------------------------------------------------------
// Executable codecs
// ---------------------------------------------------------------------

impl FromClient {
    /// Whether every variable-length field fits its 4-byte length prefix.
    fn check_wf(&self) -> (r: bool)
        ensures
            r == spec_wf(self@),
    {
        match &self.variant {
            Some(Variant::Auth(m)) => (m.access_token.as_str().as_bytes().len() as u64)
                <= 0xFFFF_FFFFu64,
            Some(Variant::UploadFile(m)) => (m.path.len() as u64) <= 0xFFFF_FFFFu64 && (
            m.content.len() as u64) <= 0xFFFF_FFFFu64,
            _ => true,
        }
    }

}

impl crate::wire::Message for FromClient {
    open spec fn spec_encode(v: FromClientView) -> Seq<u8> {
        spec_encode(v)
    }

    open spec fn spec_decode(s: Seq<u8>) -> Option<FromClientView> {
        spec_decode(s)
    }

    open spec fn spec_wf(v: FromClientView) -> bool {
        spec_wf(v)
    }

    proof fn lemma_decode_encode(v: FromClientView) {
        lemma_decode_encode(v);
    }

    proof fn lemma_oversize(v: FromClientView) {
        lemma_oversize_field_oversize_encoding(v);
    }

    fn encode(&self) -> Result<Vec<u8>, crate::MessageError> {
        if !self.check_wf() {
            return Err(crate::MessageError::EncodingTooLarge);
        }
        let mut out: Vec<u8> = Vec::new();
        be32_encode(self.id, &mut out);
        match &self.variant {
            None => out.push(0u8),
            Some(Variant::Auth(m)) => {
                out.push(1u8);
                be32_encode(m.user_id, &mut out);
                string_field_encode(&m.access_token, &mut out);
            },
            Some(Variant::NewWorktree(_)) => out.push(2u8),
            Some(Variant::ShareWorktree(m)) => {
                out.push(3u8);
                be32_encode(m.worktree_id, &mut out);
            },
            Some(Variant::UploadFile(m)) => {
                out.push(4u8);
                bytes_field_encode(&m.path, &mut out);
                bytes_field_encode(&m.content, &mut out);
            },
            Some(Variant::SubscribeToPathRequests(_)) => out.push(5u8),
        }
        assert(out@ =~= spec_encode(self@));
        Ok(out)
    }

    /// Deserializes an envelope from exactly the given body bytes;
    /// accepts precisely the canonical encodings.
    fn decode(bytes: &[u8]) -> Option<FromClient> {
        proof {
            assert(bytes@.skip(0) =~= bytes@);
        }
        let (id, at) = match u32_field_decode(bytes, 0) {
            Some(x) => x,
            None => {
                return None;
            },
        };
        if at >= bytes.len() {
            return None;
        }
        let tag = bytes[at];
        proof {
            assert(bytes@.skip(at as int)[0] == bytes@[at as int]);
            assert(bytes@.skip(at as int).skip(1) =~= bytes@.skip(at + 1));
        }
        let at = at + 1;
        if tag == 0 {
            if at == bytes.len() {
                Some(FromClient { id, variant: None })
            } else {
                None
            }
        } else {
            match Self::decode_arm(tag, bytes, at) {
                Some(v) => Some(FromClient { id, variant: Some(v) }),
                None => None,
            }
        }
    }

}

impl FromClient {
    /// Deserializes one variant arm from the body bytes starting at
    /// `at`; the arm must consume the input exactly.
    fn decode_arm(tag: u8, bytes: &[u8], at: usize) -> (r: Option<Variant>)
        requires
            1 <= tag,
            at <= bytes@.len(),
        ensures
            match r {
                Some(v) => spec_decode_arm(tag, bytes@.skip(at as int)) == Some(v@),
                None => spec_decode_arm(tag, bytes@.skip(at as int)) is None,
            },
    {
        if tag == 1 {
            let (user_id, at1) = match u32_field_decode(bytes, at) {
                Some(x) => x,
                None => {
                    return None;
                },
            };
            let (access_token, at2) = match string_field_decode(bytes, at1) {
                Some(x) => x,
                None => {
                    return None;
                },
            };
            if at2 == bytes.len() {
                Some(Variant::Auth(Auth { user_id, access_token }))
            } else {
                None
            }
        } else if tag == 2 {
            if at == bytes.len() {
                Some(Variant::NewWorktree(NewWorktree {}))
            } else {
                None
            }
        } else if tag == 3 {
            let (worktree_id, at1) = match u32_field_decode(bytes, at) {
                Some(x) => x,
                None => {
                    return None;
                },
            };
            if at1 == bytes.len() {
                Some(Variant::ShareWorktree(ShareWorktree { worktree_id }))
            } else {
                None
            }
        } else if tag == 4 {
            let (path, at1) = match bytes_field_decode(bytes, at) {
                Some(x) => x,
                None => {
                    return None;
                },
            };
            let (content, at2) = match bytes_field_decode(bytes, at1) {
                Some(x) => x,
                None => {
                    return None;
                },
            };
            if at2 == bytes.len() {
                Some(Variant::UploadFile(UploadFile { path, content }))
            } else {
                None
            }
        } else if tag == 5 {
            if at == bytes.len() {
                Some(Variant::SubscribeToPathRequests(SubscribeToPathRequests {}))
            } else {
                None
            }
        } else {
            None
        }
    }
}

} // verus!
