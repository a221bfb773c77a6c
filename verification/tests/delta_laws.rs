//! Scenario tests for the accounting delta engine and the chain codec.

use chaincore::delta::{
    combine_data_with_delta, combine_delta_data, DataDelta, DeltaDataCollection,
};
use chaincore::block::calculate_tx_merkle_root;
use chaincore::transaction::Transaction;

fn apply(data: Option<char>, d: DataDelta<char>) -> Option<char> {
    combine_data_with_delta(data, Some(d)).unwrap()
}

#[test]
fn delta_undo_returns_origin() {
    // Origin Some('a'): apply (a,b), then its inverse.
    let origin = Some('a');
    let d = DataDelta::new(Some('a'), Some('b'));
    let undone = apply(apply(origin, d.clone_delta()), d.invert());
    assert_eq!(undone, Some('a'));

    // Origin None: apply (None,a), then its inverse.
    let origin2: Option<char> = None;
    let d2 = DataDelta::new(None, Some('a'));
    let undone2 = apply(apply(origin2, d2.clone_delta()), d2.invert());
    assert_eq!(undone2, None);

    // Origin Some('a'): apply (a,None), then its inverse.
    let d3 = DataDelta::new(Some('a'), None);
    let undone3 = apply(apply(Some('a'), d3.clone_delta()), d3.invert());
    assert_eq!(undone3, Some('a'));
}

#[test]
fn delta_two_step_associativity() {
    // (data + d1) + d2 equals data + (d1 merged with d2), case by case.
    let cases: Vec<(Option<char>, DataDelta<char>, DataDelta<char>, Option<char>)> = vec![
        (None, DataDelta::new(None, Some('a')), DataDelta::new(Some('a'), None), None),
        (None, DataDelta::new(None, Some('a')), DataDelta::new(Some('a'), Some('b')), Some('b')),
        (
            Some('a'),
            DataDelta::new(Some('a'), Some('b')),
            DataDelta::new(Some('b'), Some('c')),
            Some('c'),
        ),
        (Some('a'), DataDelta::new(Some('a'), Some('b')), DataDelta::new(Some('b'), None), None),
        (Some('a'), DataDelta::new(Some('a'), None), DataDelta::new(None, Some('b')), Some('b')),
    ];
    for (origin, d1, d2, expected) in cases {
        let lhs = apply(apply(origin, d1.clone_delta()), d2.clone_delta());
        assert_eq!(lhs, expected);
        let merged = combine_delta_data(d1, d2).unwrap();
        let rhs = apply(origin, merged);
        assert_eq!(rhs, expected);
    }
}

#[test]
fn delta_three_step_parenthesizations() {
    // Origin Some('a'), deltas (a,b), (b,c), (c,d): every parenthesization
    // gives Some('d').
    let origin = Some('a');
    let d1 = || DataDelta::new(Some('a'), Some('b'));
    let d2 = || DataDelta::new(Some('b'), Some('c'));
    let d3 = || DataDelta::new(Some('c'), Some('d'));

    let r1 = apply(apply(apply(origin, d1()), d2()), d3());
    assert_eq!(r1, Some('d'));

    let m12 = combine_delta_data(d1(), d2()).unwrap();
    let r2 = apply(apply(origin, m12), d3());
    assert_eq!(r2, Some('d'));

    let m23 = combine_delta_data(d2(), d3()).unwrap();
    let r3 = apply(apply(origin, d1()), m23);
    assert_eq!(r3, Some('d'));

    let m12b = combine_delta_data(d1(), d2()).unwrap();
    let m123 = combine_delta_data(m12b, d3()).unwrap();
    let r4 = apply(origin, m123);
    assert_eq!(r4, Some('d'));
}

#[test]
fn delta_create_delete_create() {
    // Origin None: create 'a', delete it, create it again.
    let origin: Option<char> = None;
    let r = apply(
        apply(
            apply(origin, DataDelta::new(None, Some('a'))),
            DataDelta::new(Some('a'), None),
        ),
        DataDelta::new(None, Some('a')),
    );
    assert_eq!(r, Some('a'));
}

#[test]
fn delta_collection_merge_and_undo() {
    // Merging a delta and then its undo record leaves a no-op cell.
    let mut with_delta: DeltaDataCollection<u64, char> = DeltaDataCollection::new();
    let undo = with_delta
        .merge_delta_data_element(1, DataDelta::new(Some('a'), Some('b')))
        .unwrap()
        .unwrap();
    let mut with_undo: DeltaDataCollection<u64, char> = DeltaDataCollection::new();
    with_undo.undo_merge_delta_data_element(1, undo).unwrap();
    with_delta.merge_delta_data(with_undo).unwrap();
    // The chain nets out to the identity, so the cell is erased.
    assert!(with_delta.get(1).is_none());
}

#[test]
fn empty_block_merkleroot() {
    let transactions: Vec<Transaction> = Vec::new();
    let res = calculate_tx_merkle_root(&transactions);
    assert_eq!(res.unwrap(), None);
}

#[test]
fn block_merkleroot_only_one_transaction() {
    let one_transaction = Transaction::new(0, Vec::new(), Vec::new()).unwrap();
    let txs = vec![one_transaction.clone()];
    let res = calculate_tx_merkle_root(&txs).unwrap().unwrap();
    assert_eq!(res, one_transaction.get_id());
}

#[test]
fn version_byte() {
    let flags: u128 = 0x9a;
    let tx = Transaction::new(flags, vec![], vec![]).expect("Failed to create test tx");
    let encoded_tx = tx.encode();
    assert_eq!(tx.version_byte(), *encoded_tx.first().unwrap());
    // The compact-encoded flags come right after the version byte.
    let flags_bytes = {
        let mut buf = Vec::new();
        chaincore::encode::push_compact(&mut buf, flags);
        buf
    };
    assert_eq!(&encoded_tx[1..1 + flags_bytes.len()], flags_bytes.as_slice());
}
