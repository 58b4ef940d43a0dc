use nomicon::arc::Arc;

#[test]
fn arc_counts() {
    let arc = Arc::new(String::from("Hello, World"));
    let cloned = Arc::clone(&arc);
    assert_eq!(arc.count(), 2);
    std::mem::drop(arc);
    assert_eq!(cloned.count(), 1);
}

#[test]
fn arc_clone_reads_same_value() {
    let arc = Arc::new(String::from("Hello, World"));
    let cloned = arc.clone();
    assert_eq!(cloned.deref(), "Hello, World");
    assert_eq!(arc.deref(), "Hello, World");
    assert_eq!(arc.count(), 2);
}

#[test]
fn arc_counts_after_many_clones() {
    let arc = Arc::new(7u64);
    let clones: Vec<Arc<u64>> = (0..100).map(|_| arc.clone()).collect();
    assert_eq!(arc.count(), 101);
    for c in &clones {
        assert_eq!(*c.deref(), 7);
    }
    drop(clones);
    assert_eq!(arc.count(), 1);
}
