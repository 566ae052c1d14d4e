use diamond_drops::body::{Body, Collation};
use diamond_drops::header::Header;
use diamond_drops::notary::{Command, Message, Notary};
use diamond_drops::word::Word256;

fn generate_genesis_collation(shard_id: Word256) -> Collation {
    let chunk_root = Word256::zero();
    let period = Word256::from_u64(0);
    let parent_hash = Word256::zero();
    let genesis_header = Header::new(shard_id, parent_hash, chunk_root, period);
    Collation::new(genesis_header, Body::new())
}

fn generate_collation(shard_id: Word256, period: Word256) -> Collation {
    let chunk_root = Word256::zero();
    let parent_hash = Word256::zero();
    let collation_header = Header::new(shard_id, parent_hash, chunk_root, period);
    Collation::new(collation_header, Body::new())
}

fn generate_notary() -> Notary {
    Notary::new()
}

#[test]
fn it_stores_collation() {
    let mut notary = generate_notary();

    // Genesis collation
    let genesis_collation = generate_genesis_collation(Word256::from_u64(0));

    let genesis_collation_cmp = genesis_collation.clone();

    // First collation
    let first_collation = generate_collation(Word256::from_u64(0), Word256::from_u64(1));

    let first_collation_cmp = first_collation.clone();

    // Push genesis collation into notary
    notary.store_collation(genesis_collation);
    notary.store_collation(first_collation);

    // Check that the operations succeded
    let vector = notary.collations(&Word256::from_u64(0)).unwrap();

    assert_eq!(vector[0], genesis_collation_cmp);
    assert_eq!(vector[1], first_collation_cmp);
}

#[test]
fn it_stores_proposals() {
    let mut notary = generate_notary();

    // Generate proposal
    let proposal = generate_collation(Word256::from_u64(0), Word256::from_u64(1));
    let proposal_cmp = proposal.clone();

    // Store proposal in notary
    notary.store_proposal(proposal);

    // Check that the operations succeeded
    let vector = notary.proposals(&Word256::from_u64(0)).unwrap();

    assert_eq!(vector[0], proposal_cmp);
}

#[test]
fn messages_update_selection_and_shard() {
    let mut notary = Notary::new();
    assert!(!notary.selected());
    notary.process_message(Message::Selected { value: true });
    assert!(notary.selected());
    notary.process_message(Message::ShardId { value: Word256::from_u64(3) });
    assert!(notary.shard_id().eq_word(&Word256::from_u64(3)));
    notary.process_message(Message::Selected { value: false });
    assert!(!notary.selected());
}

#[test]
fn collations_are_kept_per_shard_in_insertion_order() {
    let mut notary = Notary::new();
    let a = generate_collation(Word256::from_u64(1), Word256::from_u64(1));
    let b = generate_collation(Word256::from_u64(1), Word256::from_u64(2));
    let c = generate_collation(Word256::from_u64(2), Word256::from_u64(3));

    notary.process_message(Message::ShardId { value: Word256::from_u64(1) });
    notary.process_message(Message::Collation { value: a.clone() });
    notary.process_message(Message::Collation { value: b.clone() });
    notary.process_message(Message::ShardId { value: Word256::from_u64(2) });
    notary.process_message(Message::Collation { value: c.clone() });

    let shard1 = notary.collations(&Word256::from_u64(1)).unwrap();
    assert_eq!(shard1.len(), 2);
    assert_eq!(shard1[0], a);
    assert_eq!(shard1[1], b);

    let shard2 = notary.collations(&Word256::from_u64(2)).unwrap();
    assert_eq!(shard2.len(), 1);
    assert_eq!(shard2[0], c);

    assert!(notary.collations(&Word256::from_u64(9)).is_none());
    assert!(notary.proposals(&Word256::from_u64(1)).is_none());
}

#[test]
fn terminate_command_ends_the_loop() {
    let notary = Notary::new();
    assert!(notary.process_command(&Command::Terminate));
}
