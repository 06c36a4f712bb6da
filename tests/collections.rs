use my_rustengan::idset::IdSet;
use my_rustengan::knowledge::KnowledgeTable;

fn sorted(mut v: Vec<usize>) -> Vec<usize> {
    v.sort();
    v
}

#[test]
fn id_set_keeps_each_id_once() {
    let mut s = IdSet::new();
    s.insert(3);
    s.insert(1);
    s.insert(3);
    assert_eq!(s.len(), 2);
    assert!(s.contains(1));
    assert!(s.contains(3));
    assert!(!s.contains(2));
    s.extend(&vec![2, 1, 4, 2]);
    assert_eq!(s.len(), 4);
    assert_eq!(sorted(s.to_vec()), vec![1, 2, 3, 4]);
}

#[test]
fn id_set_difference() {
    let mut a = IdSet::new();
    a.extend(&vec![5, 6, 7, 8]);
    let mut b = IdSet::new();
    b.extend(&vec![6, 8, 9]);
    assert_eq!(sorted(a.difference(&b)), vec![5, 7]);
    assert_eq!(b.difference(&a), vec![9]);
    assert_eq!(sorted(a.difference(&IdSet::new())), vec![5, 6, 7, 8]);
}

#[test]
fn knowledge_table_records_per_peer() {
    let mut t = KnowledgeTable::new();
    let p = "n2".to_string();
    let q = "n3".to_string();
    assert!(t.get(&p).is_none());
    assert!(!t.knows(&p, 1));
    t.ensure_entry(&p);
    assert_eq!(t.get(&p).unwrap().len(), 0);
    t.record(&p, 1);
    t.record_all(&q, &vec![2, 3]);
    t.ensure_entry(&q);
    assert!(t.knows(&p, 1));
    assert!(!t.knows(&p, 2));
    assert!(t.knows(&q, 3));
    assert_eq!(sorted(t.get(&q).unwrap().to_vec()), vec![2, 3]);
}
