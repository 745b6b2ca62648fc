use routing::message_header::MessageHeader;
use routing::resolver::{conclude_merge, find_majority, Resolution};
use routing::response::ResultType;
use routing::sentinel::Sentinel;
use routing::types::MessageTypeTag;

fn message(kind: MessageTypeTag, sender: u8, payload: &[u8]) -> ResultType {
    (MessageHeader::new(7, vec![sender], None, vec![sender; 64]), kind, payload.to_vec())
}

fn data(sender: u8, payload: &[u8]) -> ResultType {
    message(MessageTypeTag::GetData, sender, payload)
}

fn transfer(sender: u8, payload: &[u8]) -> ResultType {
    message(MessageTypeTag::AccountTransfer, sender, payload)
}

#[test]
fn resolve_returns_the_payload_that_four_of_five_share() {
    let sentinel = Sentinel::with_limits(3, 20);
    let verified = vec![
        data(1, b"shared"),
        data(2, b"shared"),
        data(3, b"other"),
        data(4, b"shared"),
        data(5, b"shared"),
    ];
    match sentinel.resolve(verified, false) {
        Resolution::Exact(message) => {
            assert_eq!(message.2, b"shared".to_vec());
            assert_eq!(message.0.from_node, vec![1]);
            assert_eq!(message.0.signature, vec![1; 64]);
            assert_eq!(message.1, MessageTypeTag::GetData);
        },
        other => panic!("no message was chosen: {:?}", other),
    }
}

#[test]
fn resolve_returns_nothing_when_three_of_five_share() {
    let sentinel = Sentinel::with_limits(3, 20);
    let verified = vec![
        data(1, b"shared"),
        data(2, b"shared"),
        data(3, b"other"),
        data(4, b"shared"),
        data(5, b"another"),
    ];
    assert!(matches!(sentinel.resolve(verified, false), Resolution::Unresolved));
}

#[test]
fn resolve_returns_the_first_message_with_the_shared_payload() {
    let sentinel = Sentinel::with_limits(2, 20);
    let verified = vec![
        data(1, b"lonely"),
        data(2, b"shared"),
        data(3, b"shared"),
        data(4, b"shared"),
    ];
    match sentinel.resolve(verified, true) {
        Resolution::Exact(message) => {
            assert_eq!(message.2, b"shared".to_vec());
            assert_eq!(message.0.from_node, vec![2]);
        },
        other => panic!("no message was chosen: {:?}", other),
    }
}

#[test]
fn resolve_needs_a_quorum_of_messages() {
    let sentinel = Sentinel::with_limits(3, 20);
    let verified = vec![data(1, b"shared"), data(2, b"shared")];
    assert!(matches!(sentinel.resolve(verified, false), Resolution::Unresolved));
    assert!(matches!(sentinel.resolve(Vec::new(), false), Resolution::Unresolved));
    let lenient = Sentinel::with_limits(0, 20);
    assert!(matches!(lenient.resolve(Vec::new(), false), Resolution::Unresolved));
    assert!(matches!(lenient.resolve(vec![data(1, b"only")], false), Resolution::Exact(_)));
}

#[test]
fn resolve_needs_more_than_the_quorum_to_agree() {
    let sentinel = Sentinel::with_limits(3, 20);
    let verified = vec![data(1, b"shared"), data(2, b"shared"), data(3, b"shared")];
    assert!(matches!(sentinel.resolve(verified, false), Resolution::Unresolved));
}

#[test]
fn resolve_hands_account_transfers_over_for_a_merge() {
    let sentinel = Sentinel::with_limits(3, 20);
    let verified = vec![transfer(1, b"a"), transfer(2, b"b"), transfer(3, b"c")];
    match sentinel.resolve(verified, false) {
        Resolution::Merge(all) => {
            assert_eq!(all.len(), 3);
            assert_eq!(all[0].2, b"a".to_vec());
            assert_eq!(all[1].2, b"b".to_vec());
            assert_eq!(all[2].2, b"c".to_vec());
        },
        other => panic!("no merge was asked for: {:?}", other),
    }
    let two = vec![transfer(1, b"a"), transfer(2, b"b")];
    assert!(matches!(sentinel.resolve(two, false), Resolution::Unresolved));
}

#[test]
fn resolve_merges_divergent_account_transfers() {
    let sentinel = Sentinel::with_limits(3, 20);
    let verified = vec![transfer(1, b"\x01"), transfer(2, b"\x05"), transfer(3, b"\x03")];
    let all = match sentinel.resolve(verified, false) {
        Resolution::Merge(all) => all,
        other => panic!("no merge was asked for: {:?}", other),
    };
    let largest = all.iter().map(|message| message.2[0]).max().unwrap();
    let merged = conclude_merge(&all, Some(vec![largest])).unwrap();
    assert_eq!(merged.2, vec![5]);
    assert_eq!(merged.0.from_node, vec![1]);
    assert_eq!(merged.0.message_id, 7);
    assert_eq!(merged.0.signature, vec![1; 64]);
    assert_eq!(merged.1, MessageTypeTag::AccountTransfer);
}

#[test]
fn conclude_merge_yields_nothing_without_a_merged_record() {
    let all = vec![transfer(1, b"a"), transfer(2, b"b")];
    assert!(conclude_merge(&all, None).is_none());
    assert!(conclude_merge(&Vec::new(), Some(vec![1])).is_none());
}

#[test]
fn find_majority_counts_payloads_byte_for_byte() {
    let verified = vec![data(1, b"ab"), data(2, b"abc"), data(3, b"ab"), data(4, b"aB")];
    assert_eq!(find_majority(&verified, 1).unwrap().0.from_node, vec![1]);
    assert!(find_majority(&verified, 2).is_none());
    assert_eq!(find_majority(&verified, 0).unwrap().2, b"ab".to_vec());
    assert!(find_majority(&Vec::new(), 0).is_none());
}
