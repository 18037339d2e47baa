use europay::currency::Currency;
use europay::errors::{Entity, PayError, StateLabel};
use europay::ids::generate_id;
use europay::network::{Heartbeat, NetworkMessage, NetworkNode, NodeRole, TransactionResponse};
use europay::settlement::{SettlementService, SettlementStatus};
use europay::transaction::{Transaction, TransactionType};

fn tx(amount: u64, currency: Currency) -> Transaction {
    Transaction::new(1, 2, amount, currency, TransactionType::Purchase)
}

#[test]
fn create_batch_sums_amounts_and_keeps_members() {
    let mut svc = SettlementService::new();
    let t1 = tx(100, Currency::EUR);
    let t2 = tx(50, Currency::EUR);
    let members = vec![t1.clone(), t2.clone()];
    let batch_id = svc.create_batch(10, 20, &members);
    let batch = svc.get_batch(batch_id).expect("batch should exist");
    assert_eq!(batch.total_amount, 150);
    assert_eq!(batch.transactions, vec![t1.id, t2.id]);
    assert_eq!(batch.currency, Currency::EUR);
    assert_eq!(batch.status, SettlementStatus::Pending);
    assert_eq!(batch.issuer_id, 10);
    assert_eq!(batch.acquirer_id, 20);
    assert!(batch.settled_at.is_none());
}

#[test]
fn empty_batch_defaults_to_euro() {
    let mut svc = SettlementService::new();
    let batch_id = svc.create_batch(1, 2, &Vec::new());
    let batch = svc.get_batch(batch_id).unwrap();
    assert_eq!(batch.total_amount, 0);
    assert_eq!(batch.currency, Currency::EUR);
    assert!(batch.transactions.is_empty());
}

#[test]
fn process_completes_once() {
    let mut svc = SettlementService::new();
    let batch_id = svc.create_batch(1, 2, &vec![tx(10, Currency::GBP)]);
    assert_eq!(svc.process_settlement(batch_id), Ok(()));
    let batch = svc.get_batch(batch_id).unwrap();
    assert_eq!(batch.status, SettlementStatus::Completed);
    assert!(batch.settled_at.is_some());
    assert_eq!(
        svc.process_settlement(batch_id),
        Err(PayError::InvalidState {
            expected: StateLabel::Pending,
            actual: StateLabel::Completed,
        })
    );
    assert_eq!(
        svc.process_settlement(777),
        Err(PayError::NotFound(Entity::Batch))
    );
}

#[test]
fn pending_batches_lists_only_pending() {
    let mut svc = SettlementService::new();
    let b1 = svc.create_batch(1, 2, &vec![tx(10, Currency::EUR)]);
    let b2 = svc.create_batch(1, 2, &vec![tx(20, Currency::EUR)]);
    svc.process_settlement(b1).unwrap();
    let pending = svc.get_pending_batches();
    assert_eq!(pending.len(), 1);
    assert_eq!(pending[0].id, b2);
    assert_eq!(pending[0].status, SettlementStatus::Pending);
}

#[test]
fn net_settlement_sums_completed_pairs_only() {
    let mut svc = SettlementService::new();
    let b1 = svc.create_batch(1, 2, &vec![tx(100, Currency::EUR)]);
    let b2 = svc.create_batch(1, 2, &vec![tx(40, Currency::EUR)]);
    let _pending = svc.create_batch(1, 2, &vec![tx(7, Currency::EUR)]);
    let b_other = svc.create_batch(3, 2, &vec![tx(1000, Currency::EUR)]);
    svc.process_settlement(b1).unwrap();
    svc.process_settlement(b2).unwrap();
    svc.process_settlement(b_other).unwrap();
    assert_eq!(svc.calculate_net_settlement(1, 2), 140);
    assert_eq!(svc.calculate_net_settlement(3, 2), 1000);
    assert_eq!(svc.calculate_net_settlement(2, 1), 0);
}

#[test]
fn generated_ids_are_distinct_strings() {
    let a = generate_id();
    let b = generate_id();
    assert_ne!(a, b);
    assert_eq!(a.len(), 36);
}

#[test]
fn network_node_keeps_address_and_role() {
    let n1 = NetworkNode::new("http://issuer.example".to_string(), NodeRole::Issuer);
    let n2 = NetworkNode::new("http://acquirer.example".to_string(), NodeRole::Acquirer);
    assert_eq!(n1.address, "http://issuer.example");
    assert_eq!(n1.role, NodeRole::Issuer);
    assert_ne!(n1.id, n2.id);
}

#[test]
fn heartbeat_is_answered_and_other_messages_echoed() {
    let answer = europay::network::respond_to_message(
        NetworkMessage::Heartbeat(Heartbeat { node_id: 9, timestamp: 1 }),
        42,
    );
    match answer {
        NetworkMessage::Heartbeat(h) => assert_eq!(h.node_id, 42),
        other => panic!("expected a heartbeat, got {:?}", other),
    }
    let reply = NetworkMessage::TransactionResponse(TransactionResponse {
        transaction_id: 5,
        approved: true,
        response_code: "00".to_string(),
        timestamp: 3,
    });
    let echoed = europay::network::respond_to_message(reply.clone(), 42);
    assert_eq!(echoed, reply);
}
