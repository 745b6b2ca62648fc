use routing::message_header::MessageHeader;
use routing::messages::get_client_key_response::GetClientKeyResponse;
use routing::response::{Response, ResultType};
use routing::sentinel::Sentinel;
use routing::signature::check_signature;
use routing::types::MessageTypeTag;
use routing::validator::{agreed_key, select_verified};
use sodiumoxide::crypto::sign;

fn signed(secret_key: &sign::SecretKey, sender: u8, payload: &[u8]) -> Response {
    let signature = sign::sign_detached(payload, secret_key).to_bytes().to_vec();
    Response {
        address: vec![sender],
        value: (
            MessageHeader::new(7, vec![sender], None, signature),
            MessageTypeTag::GetData,
            payload.to_vec(),
        ),
    }
}

fn claim(address: &[u8], public_key: &[u8]) -> Option<GetClientKeyResponse> {
    Some(GetClientKeyResponse { address: address.to_vec(), public_key: public_key.to_vec() })
}

fn payloads(messages: &Vec<ResultType>) -> Vec<Vec<u8>> {
    messages.iter().map(|message| message.2.clone()).collect()
}

#[test]
fn check_signature_accepts_a_valid_signature() {
    let (public_key, secret_key) = sign::gen_keypair();
    let signature = sign::sign_detached(b"payload", &secret_key).to_bytes().to_vec();
    assert!(check_signature(&signature, &b"payload".to_vec(), &public_key.0.to_vec()));
}

#[test]
fn check_signature_rejects_another_message() {
    let (public_key, secret_key) = sign::gen_keypair();
    let signature = sign::sign_detached(b"payload", &secret_key).to_bytes().to_vec();
    assert!(!check_signature(&signature, &b"payloae".to_vec(), &public_key.0.to_vec()));
}

#[test]
fn check_signature_rejects_another_key() {
    let (_, secret_key) = sign::gen_keypair();
    let (other_key, _) = sign::gen_keypair();
    let signature = sign::sign_detached(b"payload", &secret_key).to_bytes().to_vec();
    assert!(!check_signature(&signature, &b"payload".to_vec(), &other_key.0.to_vec()));
}

#[test]
fn check_signature_rejects_a_changed_signature() {
    let (public_key, secret_key) = sign::gen_keypair();
    let mut signature = sign::sign_detached(b"payload", &secret_key).to_bytes().to_vec();
    signature[3] ^= 1;
    assert!(!check_signature(&signature, &b"payload".to_vec(), &public_key.0.to_vec()));
    let mut signature = sign::sign_detached(b"payload", &secret_key).to_bytes().to_vec();
    signature[63] |= 0b1110_0000;
    assert!(!check_signature(&signature, &b"payload".to_vec(), &public_key.0.to_vec()));
}

#[test]
fn check_signature_rejects_wrong_lengths() {
    let (public_key, secret_key) = sign::gen_keypair();
    let signature = sign::sign_detached(b"payload", &secret_key).to_bytes().to_vec();
    let payload = b"payload".to_vec();
    let key = public_key.0.to_vec();
    assert!(!check_signature(&signature[..63].to_vec(), &payload, &key));
    assert!(!check_signature(&Vec::new(), &payload, &key));
    assert!(!check_signature(&signature, &payload, &key[..31].to_vec()));
    assert!(!check_signature(&signature, &payload, &Vec::new()));
    let mut long = key.clone();
    long.push(0);
    assert!(!check_signature(&signature, &payload, &long));
}

#[test]
fn check_signature_takes_an_empty_message() {
    let (public_key, secret_key) = sign::gen_keypair();
    let signature = sign::sign_detached(b"", &secret_key).to_bytes().to_vec();
    assert!(check_signature(&signature, &Vec::new(), &public_key.0.to_vec()));
    assert!(!check_signature(&signature, &vec![0], &public_key.0.to_vec()));
}

#[test]
fn select_verified_keeps_the_favourable_in_order() {
    let (_, secret_key) = sign::gen_keypair();
    let messages = vec![
        signed(&secret_key, 1, b"a"),
        signed(&secret_key, 2, b"b"),
        signed(&secret_key, 3, b"c"),
        signed(&secret_key, 4, b"d"),
    ];
    let kept = select_verified(&messages, &vec![true, false, true, true]);
    assert_eq!(payloads(&kept), vec![b"a".to_vec(), b"c".to_vec(), b"d".to_vec()]);
    assert_eq!(kept[1].0.from_node, vec![3]);
    assert!(select_verified(&messages, &vec![false, false, false, false]).is_empty());
    assert_eq!(select_verified(&messages, &vec![true, true, true, true]).len(), 4);
    assert!(select_verified(&Vec::new(), &Vec::new()).is_empty());
    assert!(select_verified(&messages, &vec![true, true, true]).is_empty());
    assert!(select_verified(&messages, &vec![true; 5]).is_empty());
}

#[test]
fn agreed_key_is_the_one_key_of_all_claims() {
    let claims = vec![claim(b"n", b"key"), claim(b"n", b"key"), claim(b"n", b"key")];
    assert_eq!(agreed_key(&claims), Some(b"key".to_vec()));
    assert_eq!(agreed_key(&vec![claim(b"n", b"key")]), Some(b"key".to_vec()));
    assert_eq!(agreed_key(&Vec::new()), None);
    assert_eq!(agreed_key(&vec![claim(b"n", b"key"), claim(b"m", b"key")]), None);
    assert_eq!(agreed_key(&vec![claim(b"n", b"key"), claim(b"n", b"kez")]), None);
    assert_eq!(agreed_key(&vec![claim(b"n", b"key"), None]), None);
    assert_eq!(agreed_key(&vec![None, claim(b"n", b"key")]), None);
    assert_eq!(agreed_key(&vec![claim(b"n", b"key"), claim(b"n", b"ke")]), None);
}

#[test]
fn validate_node_keeps_the_messages_with_a_valid_signature() {
    let (public_key, secret_key) = sign::gen_keypair();
    let (_, other_secret) = sign::gen_keypair();
    let sentinel = Sentinel::with_limits(3, 20);
    let messages = vec![
        signed(&secret_key, 1, b"one"),
        signed(&other_secret, 2, b"two"),
        signed(&secret_key, 3, b"three"),
        signed(&secret_key, 4, b"four"),
    ];
    let claims =
        vec![claim(b"n", &public_key.0), claim(b"n", &public_key.0), claim(b"n", &public_key.0)];
    let verified = sentinel.validate_node(messages, claims);
    assert_eq!(payloads(&verified), vec![b"one".to_vec(), b"three".to_vec(), b"four".to_vec()]);
    assert_eq!(verified[0].0.from_node, vec![1]);
    assert_eq!(verified[1].0.from_node, vec![3]);
    assert_eq!(verified[2].1, MessageTypeTag::GetData);
}

#[test]
fn validate_node_drops_a_message_whose_payload_was_changed() {
    let (public_key, secret_key) = sign::gen_keypair();
    let sentinel = Sentinel::with_limits(1, 20);
    let mut changed = signed(&secret_key, 2, b"two");
    changed.value.2 = b"twO".to_vec();
    let messages = vec![signed(&secret_key, 1, b"one"), changed];
    let verified = sentinel.validate_node(messages, vec![claim(b"n", &public_key.0)]);
    assert_eq!(payloads(&verified), vec![b"one".to_vec()]);
}

#[test]
fn validate_node_rejects_two_addresses() {
    let (public_key, secret_key) = sign::gen_keypair();
    let sentinel = Sentinel::with_limits(3, 20);
    let messages = vec![signed(&secret_key, 1, b"one"), signed(&secret_key, 2, b"two")];
    let claims =
        vec![claim(b"n", &public_key.0), claim(b"m", &public_key.0), claim(b"n", &public_key.0)];
    assert!(sentinel.validate_node(messages, claims).is_empty());
}

#[test]
fn validate_node_rejects_two_keys_for_one_address() {
    let (public_key, secret_key) = sign::gen_keypair();
    let (other_key, _) = sign::gen_keypair();
    let sentinel = Sentinel::with_limits(3, 20);
    let messages = vec![signed(&secret_key, 1, b"one"), signed(&secret_key, 2, b"two")];
    let claims = vec![
        claim(b"n", &public_key.0),
        claim(b"n", &public_key.0),
        claim(b"n", &public_key.0),
        claim(b"n", &other_key.0),
    ];
    assert!(sentinel.validate_node(messages, claims).is_empty());
}

#[test]
fn validate_node_rejects_a_response_without_a_claim() {
    let (public_key, secret_key) = sign::gen_keypair();
    let sentinel = Sentinel::with_limits(2, 20);
    let messages = vec![signed(&secret_key, 1, b"one")];
    let claims = vec![claim(b"n", &public_key.0), None, claim(b"n", &public_key.0)];
    assert!(sentinel.validate_node(messages, claims).is_empty());
}

#[test]
fn validate_node_needs_a_quorum_of_key_responses() {
    let (public_key, secret_key) = sign::gen_keypair();
    let sentinel = Sentinel::with_limits(3, 20);
    let two = vec![claim(b"n", &public_key.0), claim(b"n", &public_key.0)];
    assert!(sentinel.validate_node(vec![signed(&secret_key, 1, b"one")], two).is_empty());
    let three =
        vec![claim(b"n", &public_key.0), claim(b"n", &public_key.0), claim(b"n", &public_key.0)];
    assert_eq!(sentinel.validate_node(vec![signed(&secret_key, 1, b"one")], three).len(), 1);
}

#[test]
fn validate_node_without_messages_or_claims_yields_nothing() {
    let (public_key, secret_key) = sign::gen_keypair();
    let sentinel = Sentinel::with_limits(1, 20);
    assert!(sentinel.validate_node(Vec::new(), vec![claim(b"n", &public_key.0)]).is_empty());
    let lenient = Sentinel::with_limits(0, 20);
    assert!(lenient.validate_node(vec![signed(&secret_key, 1, b"one")], Vec::new()).is_empty());
}

#[test]
fn validate_node_drops_everything_under_a_key_of_the_wrong_length() {
    let (public_key, secret_key) = sign::gen_keypair();
    let sentinel = Sentinel::with_limits(1, 20);
    let short = claim(b"n", &public_key.0[..31]);
    assert!(sentinel.validate_node(vec![signed(&secret_key, 1, b"one")], vec![short]).is_empty());
}

#[test]
fn validate_group_keeps_the_messages_signed_with_the_group_key() {
    let (public_key, secret_key) = sign::gen_keypair();
    let (other_key, other_secret) = sign::gen_keypair();
    let sentinel = Sentinel::with_limits(2, 20);
    let messages = vec![
        signed(&secret_key, 1, b"one"),
        signed(&secret_key, 2, b"two"),
        signed(&other_secret, 3, b"three"),
    ];
    let claims = vec![claim(b"g", &public_key.0), claim(b"g", &public_key.0)];
    let verified = sentinel.validate_group(messages, claims);
    assert_eq!(payloads(&verified), vec![b"one".to_vec(), b"two".to_vec()]);
    let messages = vec![signed(&secret_key, 1, b"one")];
    let claims = vec![claim(b"g", &public_key.0), claim(b"g", &other_key.0)];
    assert!(sentinel.validate_group(messages, claims).is_empty());
    let messages = vec![signed(&secret_key, 1, b"one")];
    assert!(sentinel.validate_group(messages, vec![claim(b"g", &public_key.0)]).is_empty());
    assert!(sentinel.validate_group(Vec::new(), Vec::new()).is_empty());
}
