use zed_rpc::from_client::{
    Auth, NewWorktree, ShareWorktree, SubscribeToPathRequests, UploadFile, Variant,
};
use zed_rpc::from_server::{AuthResponse, PathRequest};
use zed_rpc::{ClientMessage, ServerMessage};

#[test]
fn embedding_then_extracting_returns_the_payload() {
    let auth = Auth { user_id: 5, access_token: "secret".into() };
    let variant = auth.to_variant();
    let extracted = Auth::from_variant(variant).unwrap();
    assert_eq!(extracted.user_id, 5);
    assert_eq!(extracted.access_token, "secret");

    let upload = UploadFile { path: vec![1, 2], content: vec![3] };
    let extracted = UploadFile::from_variant(upload.to_variant()).unwrap();
    assert_eq!(extracted.path, vec![1, 2]);
    assert_eq!(extracted.content, vec![3]);

    let share = ShareWorktree { worktree_id: 8 };
    assert_eq!(ShareWorktree::from_variant(share.to_variant()), Some(share));

    assert_eq!(
        NewWorktree::from_variant(NewWorktree {}.to_variant()),
        Some(NewWorktree {})
    );
    assert_eq!(
        SubscribeToPathRequests::from_variant(SubscribeToPathRequests {}.to_variant()),
        Some(SubscribeToPathRequests {})
    );
}

#[test]
fn extracting_a_different_arm_is_absent_not_an_error() {
    let upload = UploadFile { path: Vec::new(), content: Vec::new() };
    let variant = upload.to_variant();
    assert!(Auth::from_variant(variant).is_none());

    let auth = Auth { user_id: 1, access_token: "t".into() };
    assert!(UploadFile::from_variant(auth.to_variant()).is_none());

    assert!(NewWorktree::from_variant(Variant::ShareWorktree(ShareWorktree {
        worktree_id: 3
    })).is_none());
}

#[test]
fn server_payloads_classify_symmetrically() {
    let response = AuthResponse { accepted: true };
    assert_eq!(AuthResponse::from_variant(response.to_variant()), Some(response));

    let event = PathRequest { path: vec![b'x'] };
    let variant = event.to_variant();
    assert!(AuthResponse::from_variant(variant).is_none());

    let event = PathRequest { path: vec![b'x'] };
    let extracted = PathRequest::from_variant(event.to_variant()).unwrap();
    assert_eq!(extracted.path, vec![b'x']);
}
