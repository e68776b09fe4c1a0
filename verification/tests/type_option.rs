use checklist::changeset::SelectOptionCellChangeset;
use checklist::field_type::FieldType;
use checklist::filter::{ChecklistFilterConditionPB, ChecklistFilterPB};
use checklist::select_option::{find_option_by_id, has_option, SelectOptionColor, SelectOptionPB};
use checklist::selection::SelectOptionIds;
use checklist::type_option::{
    clone_options, make_selected_options, ChecklistTypeOptionBuilder, ChecklistTypeOptionPB, TypeCellData,
};
use std::cmp::Ordering;

fn strings(ids: &[&str]) -> Vec<String> {
    ids.iter().map(|id| id.to_string()).collect()
}

fn field(ids: &[&str]) -> ChecklistTypeOptionPB {
    let mut builder = ChecklistTypeOptionBuilder::default();
    for id in ids {
        builder = builder.add_option(SelectOptionPB::new(id, &format!("label of {}", id), SelectOptionColor::Blue));
    }
    builder.type_option().clone()
}

fn changeset(insert: &[&str], delete: &[&str]) -> SelectOptionCellChangeset {
    SelectOptionCellChangeset { insert_option_ids: strings(insert), delete_option_ids: strings(delete) }
}

fn stored(text: &str) -> Option<TypeCellData> {
    Some(TypeCellData { cell_str: text.to_string(), field_type: FieldType::Checklist })
}

fn ids_of(options: &[SelectOptionPB]) -> Vec<String> {
    options.iter().map(|option| option.id.clone()).collect()
}

#[test]
fn an_edit_end_to_end() {
    let field = field(&["A", "B", "C"]);
    let (text, ids) = field.apply_changeset(changeset(&["C"], &["A"]), stored("A,B")).unwrap();
    assert_eq!(*ids.ids(), vec!["B", "C"]);
    assert_eq!(text, "B,C");
    let complete = ChecklistFilterPB { condition: ChecklistFilterConditionPB::IsComplete };
    let not_empty = ChecklistFilterPB { condition: ChecklistFilterConditionPB::IsNotEmpty };
    assert!(!field.apply_filter(&complete, &FieldType::Checklist, &ids));
    assert!(field.apply_filter(&not_empty, &FieldType::Checklist, &ids));
}

#[test]
fn the_first_edit_of_a_cell() {
    let field = field(&["A", "B", "C"]);
    let (text, ids) = field.apply_changeset(changeset(&["B", "nope", "A", "B"], &[]), None).unwrap();
    assert_eq!(*ids.ids(), vec!["B", "A"]);
    assert_eq!(text, "B,A");
}

#[test]
fn an_edit_of_a_cell_with_untidy_text() {
    let field = field(&["A", "B", "C"]);
    let (text, ids) = field.apply_changeset(changeset(&["C"], &[]), stored(",A,,A,B,")).unwrap();
    assert_eq!(*ids.ids(), vec!["A", "B", "C"]);
    assert_eq!(text, "A,B,C");
}

#[test]
fn an_edit_that_unticks_everything() {
    let field = field(&["A", "B"]);
    let (text, ids) = field.apply_changeset(changeset(&[], &["A", "B"]), stored("A,B")).unwrap();
    assert!(ids.is_empty());
    assert_eq!(text, "");
}

#[test]
fn an_empty_edit_tidies_the_text() {
    let field = field(&["A"]);
    let (text, ids) = field.apply_changeset(changeset(&[], &[]), stored("A,,old,A")).unwrap();
    assert_eq!(*ids.ids(), vec!["A", "old"]);
    assert_eq!(text, "A,old");
}

#[test]
fn fewer_ticks_sort_first() {
    let field = field(&["a", "b", "c"]);
    let one = SelectOptionIds::parse("a");
    let two = SelectOptionIds::parse("a,b");
    assert_eq!(field.apply_cmp(&one, &two), Ordering::Less);
    assert_eq!(field.apply_cmp(&two, &one), Ordering::Greater);
}

#[test]
fn equal_counts_compare_equal() {
    let field = field(&["a", "b", "c"]);
    assert_eq!(field.apply_cmp(&SelectOptionIds::parse("a,b"), &SelectOptionIds::parse("b,a")), Ordering::Equal);
    assert_eq!(field.apply_cmp(&SelectOptionIds::parse("a"), &SelectOptionIds::parse("c")), Ordering::Equal);
    assert_eq!(field.apply_cmp(&SelectOptionIds::new(), &SelectOptionIds::new()), Ordering::Equal);
}

#[test]
fn stale_ids_count_when_comparing() {
    let field = field(&["a"]);
    assert_eq!(field.apply_cmp(&SelectOptionIds::parse("x,y"), &SelectOptionIds::parse("a")), Ordering::Greater);
    assert_eq!(field.apply_cmp(&SelectOptionIds::parse("a"), &SelectOptionIds::parse("x,y,z")), Ordering::Less);
}

#[test]
fn a_checklist_has_no_limit() {
    assert_eq!(field(&["a"]).number_of_max_options(), None);
    assert_eq!(ChecklistTypeOptionPB::default().number_of_max_options(), None);
}

#[test]
fn decoding_never_fails() {
    let field = field(&["a"]);
    for text in ["", ",,", "a", "not,in,the,registry", "a,a"] {
        assert!(field.decode_type_option_cell_str(text.to_string()).is_ok());
    }
    assert_eq!(*field.decode_type_option_cell_str("b,,a,b".to_string()).unwrap().ids(), vec!["b", "a"]);
    assert!(field.decode_type_option_cell_str(String::new()).unwrap().is_empty());
}

#[test]
fn display_resolves_in_selection_order() {
    let field = field(&["a", "b", "c"]);
    let shown = field.convert_to_protobuf(SelectOptionIds::parse("c,a"));
    assert_eq!(ids_of(&shown.options), vec!["a", "b", "c"]);
    assert_eq!(ids_of(&shown.select_options), vec!["c", "a"]);
    assert_eq!(shown.select_options[0].name, "label of c");
    assert_eq!(shown.select_options[0].color, SelectOptionColor::Blue);
}

#[test]
fn display_skips_ids_that_do_not_resolve() {
    let field = field(&["a", "b"]);
    let shown = field.get_selected_options(SelectOptionIds::parse("gone,b,older,a"));
    assert_eq!(ids_of(&shown.select_options), vec!["b", "a"]);
    let nothing = field.get_selected_options(SelectOptionIds::parse("gone"));
    assert!(nothing.select_options.is_empty());
    assert_eq!(ids_of(&nothing.options), vec!["a", "b"]);
}

#[test]
fn an_id_resolves_to_the_first_option_that_has_it() {
    let options = vec![
        SelectOptionPB::new("a", "first", SelectOptionColor::Pink),
        SelectOptionPB::new("a", "second", SelectOptionColor::Lime),
    ];
    let found = find_option_by_id(&options, &"a".to_string()).unwrap();
    assert_eq!(found.name, "first");
    assert_eq!(found.color, SelectOptionColor::Pink);
    let selected = make_selected_options(&SelectOptionIds::parse("a"), &options);
    assert_eq!(selected.len(), 1);
    assert_eq!(selected[0].name, "first");
}

#[test]
fn lookup_by_id() {
    let options = field(&["a", "bc"]).options;
    assert!(has_option(&options, &"bc".to_string()));
    assert!(!has_option(&options, &"b".to_string()));
    assert!(!has_option(&Vec::new(), &"a".to_string()));
    assert!(find_option_by_id(&options, &"zz".to_string()).is_none());
    assert_eq!(find_option_by_id(&options, &"bc".to_string()).unwrap().name, "label of bc");
}

#[test]
fn the_builder_appends_in_order() {
    let builder = ChecklistTypeOptionBuilder::default()
        .add_option(SelectOptionPB::new("2", "two", SelectOptionColor::Aqua))
        .add_option(SelectOptionPB::new("1", "one", SelectOptionColor::Yellow));
    let built = builder.type_option();
    assert_eq!(ids_of(&built.options), vec!["2", "1"]);
    assert_eq!(built.options[1].name, "one");
    assert_eq!(built.options[1].color, SelectOptionColor::Yellow);
    assert!(!built.disable_color);
}

#[test]
fn the_builder_starts_empty_and_builds_a_checklist() {
    let builder = ChecklistTypeOptionBuilder::default();
    assert!(builder.type_option().options.is_empty());
    assert!(!builder.type_option().disable_color);
    assert_eq!(builder.field_type(), FieldType::Checklist);
}

#[test]
fn a_builder_goes_on_from_a_configuration() {
    let mut start = field(&["a"]);
    start.disable_color = true;
    let builder = ChecklistTypeOptionBuilder::from_type_option(start)
        .add_option(SelectOptionPB::new("b", "bee", SelectOptionColor::Green));
    assert_eq!(ids_of(&builder.type_option().options), vec!["a", "b"]);
    assert!(builder.type_option().disable_color);
}

#[test]
fn the_registry_can_be_read_and_changed() {
    let mut field = field(&["a"]);
    assert_eq!(ids_of(field.options()), vec!["a"]);
    field.mut_options().push(SelectOptionPB::new("b", "bee", SelectOptionColor::Orange));
    assert_eq!(ids_of(field.options()), vec!["a", "b"]);
    field.mut_options().clear();
    assert!(field.options().is_empty());
}

#[test]
fn clones_hold_the_same_options() {
    let mut field = field(&["a", "b"]);
    field.disable_color = true;
    let copy = field.clone();
    assert_eq!(ids_of(&copy.options), vec!["a", "b"]);
    assert!(copy.disable_color);
    assert_eq!(ids_of(&clone_options(&field.options)), vec!["a", "b"]);
    let option = SelectOptionPB::new("x", "ex", SelectOptionColor::LightPink).clone();
    assert_eq!(option.id, "x");
    assert_eq!(option.name, "ex");
    assert_eq!(option.color, SelectOptionColor::LightPink);
}

#[test]
fn the_default_colour_is_purple() {
    assert_eq!(SelectOptionColor::default(), SelectOptionColor::Purple);
}
