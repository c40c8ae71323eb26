use mnad::circuit::Pin;
use mnad::ns::LinearNamespace;

#[test]
fn fresh_ids_are_sequential() {
    let mut ns = LinearNamespace::new();
    let n0 = ns.next();
    let n1 = ns.next();
    let n2 = ns.next();
    assert_eq!(n0.id(&ns), 0);
    assert_eq!(n1.id(&ns), 1);
    assert_eq!(n2.id(&ns), 2);
}

#[test]
fn linearize_compaction() {
    // Three names, the middle one dropped: linearize reports two survivors,
    // renumbers them densely in order, and records exactly one event (2, 1).
    let mut ns = LinearNamespace::new();
    ns.set_reorder_fn(true);
    let n0 = ns.next();
    let n1 = ns.next();
    let n2 = ns.next();
    ns.release(n1);
    let count = ns.linearize();
    assert_eq!(count, 2);
    assert_eq!(n0.id(&ns), 0);
    assert_eq!(n2.id(&ns), 1);
    assert_eq!(ns.reorder_events().clone(), vec![(2, 1)]);
}

#[test]
fn linearize_stable_when_nothing_dropped() {
    let mut ns = LinearNamespace::new();
    ns.set_reorder_fn(true);
    let n0 = ns.next();
    let n1 = ns.next();
    assert_eq!(ns.linearize(), 2);
    assert_eq!(n0.id(&ns), 0);
    assert_eq!(n1.id(&ns), 1);
    assert!(ns.reorder_events().is_empty());
    assert_eq!(ns.linearize(), 2);
    assert!(ns.reorder_events().is_empty());
}

#[test]
fn linearized_ids_are_a_permutation() {
    let mut ns = LinearNamespace::new();
    let n0 = ns.next();
    let n1 = ns.next();
    let n2 = ns.next();
    let n3 = ns.next();
    let n4 = ns.next();
    ns.release(n1);
    ns.release(n3);
    let count = ns.linearize();
    assert_eq!(count, 3);
    let mut ids = vec![n0.id(&ns), n2.id(&ns), n4.id(&ns)];
    ids.sort();
    assert_eq!(ids, vec![0, 1, 2]);
    // every live id lies below the size after linearize
    assert!(n0.id(&ns) < count && n2.id(&ns) < count && n4.id(&ns) < count);
}

#[test]
fn unify_makes_ids_agree_through_renames() {
    let mut ns = LinearNamespace::new();
    let gone = ns.next();
    let mut a = ns.next();
    let b = ns.next();
    a.unify(&b, &mut ns);
    assert_eq!(a.id(&ns), b.id(&ns));
    assert_eq!(a.id(&ns), 2);
    // the rename at linearize reaches both: a's old cell and `gone` expire
    ns.release(gone);
    let count = ns.linearize();
    assert_eq!(count, 1);
    assert_eq!(a.id(&ns), 0);
    assert_eq!(b.id(&ns), 0);
}

#[test]
fn unify_fires_reorder_event() {
    let mut ns = LinearNamespace::new();
    ns.set_reorder_fn(true);
    let mut a = ns.next();
    let b = ns.next();
    a.unify(&b, &mut ns);
    assert_eq!(ns.reorder_events().clone(), vec![(0, 1)]);
}

#[test]
fn names_hands_out_the_survivors() {
    let mut ns = LinearNamespace::new();
    let _n0 = ns.next();
    let n1 = ns.next();
    let _n2 = ns.next();
    ns.release(n1);
    ns.linearize();
    let names = ns.names();
    assert_eq!(names.len(), 2);
    assert_eq!(names[0].id(&ns), 0);
    assert_eq!(names[1].id(&ns), 1);
}

#[test]
fn ground_pin_is_ground() {
    let p = Pin::ground();
    assert!(p.is_ground());
    let ns = LinearNamespace::new();
    assert_eq!(p.id(&ns), None);
}

#[test]
fn node_pin_reports_its_id() {
    let mut ns = LinearNamespace::new();
    let p = Pin::from_name(ns.next());
    assert!(!p.is_ground());
    assert_eq!(p.id(&ns), Some(0));
}

#[test]
fn connect_two_node_pins_unifies() {
    let mut ns = LinearNamespace::new();
    let mut a = Pin::from_name(ns.next());
    let mut b = Pin::from_name(ns.next());
    a.connect(&mut b, &mut ns);
    assert_eq!(a.id(&ns), b.id(&ns));
    assert_eq!(a.id(&ns), Some(1));
    // still equal after a compaction renames the shared cell
    ns.linearize();
    assert_eq!(a.id(&ns), b.id(&ns));
}

#[test]
fn connect_ground_absorbs() {
    let mut ns = LinearNamespace::new();
    let mut a = Pin::from_name(ns.next());
    let mut g = Pin::ground();
    a.connect(&mut g, &mut ns);
    assert!(a.is_ground());
    assert!(g.is_ground());

    let mut b = Pin::from_name(ns.next());
    let mut g2 = Pin::ground();
    g2.connect(&mut b, &mut ns);
    assert!(b.is_ground());
    assert!(g2.is_ground());

    // both released names expire at the next linearize
    assert_eq!(ns.linearize(), 0);
}

#[test]
fn connect_ground_to_ground_is_a_no_op() {
    let mut ns = LinearNamespace::new();
    let mut a = Pin::ground();
    let mut b = Pin::ground();
    a.connect(&mut b, &mut ns);
    assert!(a.is_ground() && b.is_ground());
    assert_eq!(ns.linearize(), 0);
}
