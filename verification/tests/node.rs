use ibc_aaka_scheme::rc;
use ibc_aaka_scheme::server;
use ibc_aaka_scheme::user;
use ibc_aaka_scheme::wire::{from_hex, AuthRequestPayload};
use ibc_aaka_scheme::{
    AAKAError, MasterSecretKey, RcConfig, RcNode, ServerAuthResponse, ServerSecretKey,
    SystemParameters, UserSecretKey,
};
use rand::rngs::StdRng;
use rand::SeedableRng;

fn config(addr: &str, threshold: usize) -> RcConfig {
    RcConfig {
        addr: addr.to_string(),
        nodes: vec!["a:1".to_string(), "b:1".to_string(), "c:1".to_string()],
        threshold,
    }
}

#[test]
fn a_new_node_holds_nothing() {
    let node = RcNode::new(config("a:1", 2));
    assert!(node.params.is_none());
    assert!(node.share.is_none());
    assert!(matches!(node.get_params(), Err(AAKAError::InvalidInput(_))));
    assert!(matches!(node.get_share(), Err(AAKAError::InvalidInput(_))));
}

#[test]
fn setting_up_deals_a_share_to_every_node() {
    let mut rng = StdRng::seed_from_u64(31);
    let mut node = RcNode::new(config("a:1", 2));
    let (wire, for_peers) = node.setup_system(&mut rng).unwrap();
    assert_eq!(for_peers.len(), 2);
    assert_eq!(for_peers[0].x, 1);
    assert_eq!(for_peers[1].x, 2);
    assert_eq!(node.share.as_ref().unwrap().x, 3);
    let params = SystemParameters::from_wire(&wire).unwrap();
    assert_eq!(Some(params), node.params);
    assert_eq!(node.get_params().unwrap().p_hex, wire.p_hex);
}

#[test]
fn setting_up_twice_is_refused() {
    let mut rng = StdRng::seed_from_u64(32);
    let mut node = RcNode::new(config("a:1", 2));
    node.setup_system(&mut rng).unwrap();
    let kept = node.share.clone();
    assert!(matches!(node.setup_system(&mut rng), Err(AAKAError::InvalidInput(_))));
    assert_eq!(node.share, kept);
}

#[test]
fn a_node_without_nodes_is_not_set_up() {
    let mut rng = StdRng::seed_from_u64(33);
    let mut node =
        RcNode::new(RcConfig { addr: "a:1".to_string(), nodes: Vec::new(), threshold: 1 });
    assert!(matches!(node.setup_system(&mut rng), Err(AAKAError::InvalidInput(_))));
    assert!(node.params.is_none());
}

#[test]
fn nodes_register_from_gathered_shares() {
    let mut rng = StdRng::seed_from_u64(34);
    let mut first = RcNode::new(config("c:1", 2));
    let (wire, for_peers) = first.setup_system(&mut rng).unwrap();
    let params = SystemParameters::from_wire(&wire).unwrap();

    let mut second = RcNode::new(config("a:1", 2));
    second.set_share(&for_peers[0].to_bytes()).unwrap();
    assert_eq!(second.get_share().unwrap(), for_peers[0].to_bytes());

    let gathered = vec![second.share.clone().unwrap(), first.share.clone().unwrap()];
    let msk = MasterSecretKey::from_shares(gathered.clone(), 2).unwrap();
    assert!(params.p_pub.eq(&params.p.mul(&msk.s)));

    let user_wire = second.register_user(gathered.clone(), b"alice", &mut rng).unwrap();
    let usk = UserSecretKey::from_wire(&user_wire).unwrap();
    let server_wire = second.register_server(gathered.clone(), b"server").unwrap();
    let ssk = ServerSecretKey::from_wire(&server_wire).unwrap();
    assert_eq!(ssk, rc::register_server(&msk, b"server").unwrap());

    // The keys work with the parameters that the first node published.
    let (request, state) =
        user::initiate_authentication(&usk, b"alice", b"server", &params, &mut rng).unwrap();
    let (response, server_key) =
        server::process_user_request(&ssk, &request, b"server", &params, &mut rng, 32).unwrap();
    let user_key =
        user::process_server_response(&usk, &state, &response, b"server", &params, 32).unwrap();
    assert_eq!(user_key, server_key);
}

#[test]
fn too_few_gathered_shares_register_nobody() {
    let mut rng = StdRng::seed_from_u64(35);
    let mut node = RcNode::new(config("a:1", 2));
    node.setup_system(&mut rng).unwrap();
    let gathered = vec![node.share.clone().unwrap()];
    assert!(matches!(
        node.register_user(gathered.clone(), b"alice", &mut rng),
        Err(AAKAError::InvalidInput(_))
    ));
    assert!(matches!(
        node.register_server(gathered, b"server"),
        Err(AAKAError::InvalidInput(_))
    ));
}

#[test]
fn bytes_that_are_no_share_are_not_taken() {
    let mut node = RcNode::new(config("a:1", 2));
    assert!(matches!(node.set_share(&[7]), Err(AAKAError::InvalidInput(_))));
    assert!(node.share.is_none());
    node.set_share(&[7, 8, 9]).unwrap();
    assert_eq!(node.get_share().unwrap(), vec![7, 8, 9]);
    assert!(matches!(node.set_share(&[]), Err(AAKAError::InvalidInput(_))));
    assert_eq!(node.get_share().unwrap(), vec![7, 8, 9]);
}

#[test]
fn a_server_answers_a_request_from_the_wire() {
    let mut rng = StdRng::seed_from_u64(36);
    let (params, msk) = rc::setup(&mut rng).unwrap();
    let usk = rc::register_user(&msk, b"alice", &mut rng).unwrap();
    let ssk = rc::register_server(&msk, b"server").unwrap();
    let (request, state) =
        user::initiate_authentication(&usk, b"alice", b"server", &params, &mut rng).unwrap();

    let success =
        server::handle_auth_request(&ssk, b"server", &params, &mut rng, &request.to_wire())
            .unwrap();
    assert_eq!(success.message, "Authentication successful");
    let response = ServerAuthResponse::from_wire(&success.response).unwrap();
    let user_key =
        user::process_server_response(&usk, &state, &response, b"server", &params, 32).unwrap();
    assert_eq!(from_hex(&success.session_key_hex).unwrap(), user_key.0);
    assert_eq!(user_key.0.len(), server::SERVER_KEY_LEN);
}

#[test]
fn a_server_refuses_what_does_not_read() {
    let mut rng = StdRng::seed_from_u64(37);
    let (params, msk) = rc::setup(&mut rng).unwrap();
    let ssk = rc::register_server(&msk, b"server").unwrap();
    let payload = AuthRequestPayload {
        m_hex: "zz".to_string(),
        n: "00".to_string(),
        sigma_hex: "00".to_string(),
        timestamp: 0,
    };
    assert!(matches!(
        server::handle_auth_request(&ssk, b"server", &params, &mut rng, &payload),
        Err(AAKAError::Deserialization(_))
    ));
}

#[test]
fn a_server_refuses_a_tampered_request_from_the_wire() {
    let mut rng = StdRng::seed_from_u64(38);
    let (params, msk) = rc::setup(&mut rng).unwrap();
    let usk = rc::register_user(&msk, b"alice", &mut rng).unwrap();
    let ssk = rc::register_server(&msk, b"server").unwrap();
    let (request, _state) =
        user::initiate_authentication(&usk, b"alice", b"server", &params, &mut rng).unwrap();
    let mut payload = request.to_wire();
    payload.sigma_hex = ibc_aaka_scheme::wire::scalar_to_hex(
        &request.sigma.add(&ibc_aaka_scheme::ScalarField::one()),
    );
    assert!(matches!(
        server::handle_auth_request(&ssk, b"server", &params, &mut rng, &payload),
        Err(AAKAError::SignatureVerificationFailed)
    ));
}
