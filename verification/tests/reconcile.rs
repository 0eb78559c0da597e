use cz4r::assign::reconcile;
use cz4r::idlist::pair_with_flat_rate;
use cz4r::idlist::parse_id_list;

#[test]
fn reconcile_add_and_remove() {
    let current = vec![(1i64, false), (2i64, true)];
    let desired = vec![(1i64, false), (3i64, false)];
    let r = reconcile(&current, &desired);
    assert_eq!(r.to_remove, vec![2i64]);
    assert_eq!(r.to_add, vec![(3i64, false)]);
    assert_eq!(r.to_clear_flat_rate, Vec::<i64>::new());
    assert_eq!(r.to_set_flat_rate, Vec::<i64>::new());
}

#[test]
fn reconcile_clears_flag_without_removing() {
    let current = vec![(5i64, true)];
    let desired = vec![(5i64, false)];
    let r = reconcile(&current, &desired);
    assert_eq!(r.to_clear_flat_rate, vec![5i64]);
    assert_eq!(r.to_set_flat_rate, Vec::<i64>::new());
    assert_eq!(r.to_remove, Vec::<i64>::new());
    assert_eq!(r.to_add, Vec::<(i64, bool)>::new());
}

#[test]
fn reconcile_never_removes_and_adds_one_worker() {
    let current = vec![(1i64, true), (2i64, false), (3i64, true)];
    let desired = vec![(2i64, true), (4i64, false), (1i64, false)];
    let r = reconcile(&current, &desired);
    for id in &r.to_remove {
        assert!(!r.to_add.iter().any(|p| p.0 == *id));
    }
    assert_eq!(r.to_remove, vec![3i64]);
    assert_eq!(r.to_add, vec![(4i64, false)]);
    assert_eq!(r.to_clear_flat_rate, vec![1i64]);
    assert_eq!(r.to_set_flat_rate, vec![2i64]);
}

#[test]
fn reconcile_is_idempotent_after_apply() {
    // current {(1,false),(2,true)} reconciled against {(1,false),(3,false)}
    // asks to remove 2 and add (3,false); this is the state that leaves
    let post = vec![(1i64, false), (3i64, false)];
    let again = reconcile(&post, &post);
    assert!(again.to_clear_flat_rate.is_empty());
    assert!(again.to_set_flat_rate.is_empty());
    assert!(again.to_remove.is_empty());
    assert!(again.to_add.is_empty());
}

#[test]
fn reconcile_empty_sets() {
    let r = reconcile(&vec![], &vec![]);
    assert!(r.to_clear_flat_rate.is_empty());
    assert!(r.to_set_flat_rate.is_empty());
    assert!(r.to_remove.is_empty());
    assert!(r.to_add.is_empty());
}

#[test]
fn reconcile_flag_turned_on_updates_in_place() {
    // turning the flag on is an update: the row is kept, so accumulated
    // shift data survives, and only the flag changes
    let current = vec![(7i64, false)];
    let desired = vec![(7i64, true)];
    let r = reconcile(&current, &desired);
    assert_eq!(r.to_set_flat_rate, vec![7i64]);
    assert!(r.to_clear_flat_rate.is_empty());
    assert!(r.to_remove.is_empty());
    assert!(r.to_add.is_empty());
}

#[test]
fn reconcile_settles_after_a_flag_turn_on() {
    // the state after the flag-set update asks for nothing further
    let post = vec![(7i64, true)];
    let again = reconcile(&post, &post);
    assert!(again.to_clear_flat_rate.is_empty());
    assert!(again.to_set_flat_rate.is_empty());
    assert!(again.to_remove.is_empty());
    assert!(again.to_add.is_empty());
}

#[test]
fn reconcile_duplicate_desired_ids_first_wins() {
    let current = vec![];
    let desired = vec![(4i64, true), (4i64, false)];
    let r = reconcile(&current, &desired);
    assert_eq!(r.to_add, vec![(4i64, true)]);
}

#[test]
fn parse_id_list_plain() {
    assert_eq!(parse_id_list("1-2-3"), vec![1i64, 2, 3]);
}

#[test]
fn parse_id_list_drops_invalid_tokens() {
    assert_eq!(parse_id_list("a-5-"), vec![5i64]);
    assert_eq!(parse_id_list(""), Vec::<i64>::new());
    assert_eq!(parse_id_list("12x-7"), vec![7i64]);
}

#[test]
fn parse_id_list_accepts_plus_sign() {
    assert_eq!(parse_id_list("+7"), vec![7i64]);
    assert_eq!(parse_id_list("++7"), Vec::<i64>::new());
}

#[test]
fn parse_id_list_drops_overflowing_ids() {
    assert_eq!(parse_id_list("99999999999999999999"), Vec::<i64>::new());
    assert_eq!(parse_id_list("9223372036854775807"), vec![i64::MAX]);
    assert_eq!(parse_id_list("9223372036854775808"), Vec::<i64>::new());
}

#[test]
fn pair_with_flat_rate_marks_listed_workers() {
    let assigned = vec![1i64, 2, 3];
    let flat = vec![2i64];
    let pairs = pair_with_flat_rate(&assigned, &flat);
    assert_eq!(pairs, vec![(1i64, false), (2i64, true), (3i64, false)]);
}

#[test]
fn flat_rate_entry_without_assignment_is_ignored() {
    // a worker named only in the flat-rate list is not assigned
    let assigned = parse_id_list("1");
    let flat = parse_id_list("1-9");
    let desired = pair_with_flat_rate(&assigned, &flat);
    assert_eq!(desired, vec![(1i64, true)]);
    let r = reconcile(&vec![], &desired);
    assert_eq!(r.to_add, vec![(1i64, true)]);
}
