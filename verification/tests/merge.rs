use checklist::changeset::{extend_new, merge_changeset, remove_deleted, retain_known, SelectOptionCellChangeset};
use checklist::select_option::{SelectOptionColor, SelectOptionPB};
use checklist::selection::SelectOptionIds;

fn registry(ids: &[&str]) -> Vec<SelectOptionPB> {
    ids.iter().map(|id| SelectOptionPB::new(id, id, SelectOptionColor::Purple)).collect()
}

fn strings(ids: &[&str]) -> Vec<String> {
    ids.iter().map(|id| id.to_string()).collect()
}

fn changeset(insert: &[&str], delete: &[&str]) -> SelectOptionCellChangeset {
    SelectOptionCellChangeset { insert_option_ids: strings(insert), delete_option_ids: strings(delete) }
}

fn selection(ids: &[&str]) -> SelectOptionIds {
    SelectOptionIds::from_ids(strings(ids))
}

#[test]
fn insert_into_nothing_keeps_the_given_order() {
    let options = registry(&["a", "b", "c"]);
    let merged = merge_changeset(None, &changeset(&["c", "a"], &[]), &options);
    assert_eq!(*merged.ids(), vec!["c", "a"]);
}

#[test]
fn insert_into_nothing_drops_repetitions() {
    let options = registry(&["a", "b", "c"]);
    let merged = merge_changeset(None, &changeset(&["b", "a", "b", "a", "c"], &[]), &options);
    assert_eq!(*merged.ids(), vec!["b", "a", "c"]);
}

#[test]
fn unknown_id_into_nothing_gives_the_empty_selection() {
    let options = registry(&["a", "b", "c"]);
    let merged = merge_changeset(None, &changeset(&["zzz"], &[]), &options);
    assert!(merged.is_empty());
    assert_eq!(merged.len(), 0);
}

#[test]
fn unknown_id_leaves_a_prior_selection_alone() {
    let options = registry(&["a", "b", "c"]);
    let merged = merge_changeset(Some(selection(&["b", "a"])), &changeset(&["zzz", ""], &[]), &options);
    assert_eq!(*merged.ids(), vec!["b", "a"]);
}

#[test]
fn unknown_ids_are_dropped_among_known_ones() {
    let options = registry(&["a", "b", "c"]);
    let merged = merge_changeset(None, &changeset(&["x", "b", "y", "a"], &[]), &options);
    assert_eq!(*merged.ids(), vec!["b", "a"]);
}

#[test]
fn new_ids_are_appended_in_changeset_order() {
    let options = registry(&["a", "b", "c", "d"]);
    let merged = merge_changeset(Some(selection(&["b"])), &changeset(&["d", "a"], &[]), &options);
    assert_eq!(*merged.ids(), vec!["b", "d", "a"]);
}

#[test]
fn inserting_x_then_y_gives_x_y() {
    let options = registry(&["x", "y"]);
    let first = merge_changeset(None, &changeset(&["x"], &[]), &options);
    assert_eq!(*first.ids(), vec!["x"]);
    let second = merge_changeset(Some(first), &changeset(&["y"], &[]), &options);
    assert_eq!(*second.ids(), vec!["x", "y"]);
}

#[test]
fn inserting_twice_is_inserting_once() {
    let options = registry(&["a", "b", "c"]);
    let once = merge_changeset(Some(selection(&["a"])), &changeset(&["c"], &[]), &options);
    assert_eq!(*once.ids(), vec!["a", "c"]);
    let twice = merge_changeset(Some(once.clone()), &changeset(&["c"], &[]), &options);
    assert_eq!(*twice.ids(), *once.ids());
}

#[test]
fn inserting_a_present_id_does_not_move_it() {
    let options = registry(&["a", "b", "c"]);
    let merged = merge_changeset(Some(selection(&["a", "b", "c"])), &changeset(&["a"], &[]), &options);
    assert_eq!(*merged.ids(), vec!["a", "b", "c"]);
}

#[test]
fn insert_and_delete_of_one_id_cancel() {
    let options = registry(&["a", "b", "c"]);
    let merged = merge_changeset(Some(selection(&["a"])), &changeset(&["b"], &["b"]), &options);
    assert_eq!(*merged.ids(), vec!["a"]);
    assert!(!merged.contains(&"b".to_string()));
}

#[test]
fn insert_and_delete_of_a_present_id_removes_it() {
    let options = registry(&["a", "b", "c"]);
    let merged = merge_changeset(Some(selection(&["a", "b"])), &changeset(&["b"], &["b"]), &options);
    assert_eq!(*merged.ids(), vec!["a"]);
}

#[test]
fn insert_and_delete_into_an_empty_prior_selection_cancel() {
    let options = registry(&["a"]);
    let merged = merge_changeset(Some(SelectOptionIds::new()), &changeset(&["a"], &["a"]), &options);
    assert!(merged.is_empty());
}

#[test]
fn delete_removes_ids_that_were_there_before() {
    let options = registry(&["a", "b", "c"]);
    let merged = merge_changeset(Some(selection(&["a", "b", "c"])), &changeset(&[], &["a", "c"]), &options);
    assert_eq!(*merged.ids(), vec!["b"]);
}

#[test]
fn delete_removes_ids_that_the_registry_lost() {
    let options = registry(&["a"]);
    let merged = merge_changeset(Some(selection(&["a", "gone"])), &changeset(&[], &["gone"]), &options);
    assert_eq!(*merged.ids(), vec!["a"]);
}

#[test]
fn deleting_twice_is_deleting_once() {
    let options = registry(&["a", "b"]);
    let once = merge_changeset(Some(selection(&["a", "b"])), &changeset(&[], &["a"]), &options);
    let twice = merge_changeset(Some(once.clone()), &changeset(&[], &["a"]), &options);
    assert_eq!(*once.ids(), vec!["b"]);
    assert_eq!(*twice.ids(), vec!["b"]);
}

#[test]
fn deleting_an_absent_id_changes_nothing() {
    let options = registry(&["a", "b"]);
    let merged = merge_changeset(Some(selection(&["a"])), &changeset(&[], &["b", "nowhere"]), &options);
    assert_eq!(*merged.ids(), vec!["a"]);
}

#[test]
fn stale_ids_of_the_prior_selection_stay() {
    let options = registry(&["a"]);
    let merged = merge_changeset(Some(selection(&["old", "a"])), &changeset(&["a"], &[]), &options);
    assert_eq!(*merged.ids(), vec!["old", "a"]);
}

#[test]
fn without_a_prior_selection_deletes_are_not_applied() {
    let options = registry(&["a", "b"]);
    let merged = merge_changeset(None, &changeset(&["a", "b"], &["a"]), &options);
    assert_eq!(*merged.ids(), vec!["a", "b"]);
}

#[test]
fn an_empty_registry_accepts_no_insert() {
    let options = registry(&[]);
    let merged = merge_changeset(Some(selection(&["a"])), &changeset(&["a", "b"], &[]), &options);
    assert_eq!(*merged.ids(), vec!["a"]);
}

#[test]
fn retain_known_keeps_order_and_repetitions() {
    let options = registry(&["a", "b"]);
    assert_eq!(retain_known(&strings(&["b", "x", "a", "b"]), &options), vec!["b", "a", "b"]);
    assert_eq!(retain_known(&strings(&[]), &options), Vec::<String>::new());
}

#[test]
fn remove_deleted_drops_every_occurrence() {
    assert_eq!(remove_deleted(&strings(&["a", "b", "a", "c"]), &strings(&["a"])), vec!["b", "c"]);
    assert_eq!(remove_deleted(&strings(&["a", "b"]), &strings(&[])), vec!["a", "b"]);
}

#[test]
fn extend_new_appends_each_missing_id_once() {
    let mut ids = strings(&["a", "b"]);
    extend_new(&mut ids, &strings(&["c", "a", "c", "d"]));
    assert_eq!(ids, vec!["a", "b", "c", "d"]);
}
