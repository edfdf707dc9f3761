use powdr::ordered::{find_key, find_name, insert_sorted, set_sorted};
use powdr::text::{
    joined, make_const_name, make_fixed_name, make_free_value_name, make_instruction_flag_name,
    make_param_column_name, make_read_coefficient_name, make_read_free_name,
    make_write_flag_name, name_precedes, same_name,
};

fn s(text: &str) -> String {
    text.to_string()
}

#[test]
fn names_are_ordered_by_their_bytes() {
    assert!(name_precedes(&s("A"), &s("B")));
    assert!(!name_precedes(&s("B"), &s("A")));
    assert!(name_precedes(&s("CNT"), &s("pc")));
    assert!(name_precedes(&s("X"), &s("a")));
    assert!(name_precedes(&s("p_X_const"), &s("p_instr_jmp")));
    assert!(name_precedes(&s("p_instr_jmp"), &s("p_instr_jmp_param_l")));
    assert!(name_precedes(&s(""), &s("a")));
    assert!(!name_precedes(&s("a"), &s("")));
    assert!(!name_precedes(&s("same"), &s("same")));
    assert!(name_precedes(&s("z"), &s("é")));
    assert!(name_precedes(&s("é"), &s("€")));
}

#[test]
fn name_order_agrees_with_the_order_of_strings() {
    let names = ["", "A", "AB", "B", "a", "ab", "b", "p_", "p_a", "é", "€", "😀"];
    for a in names {
        for b in names {
            assert_eq!(name_precedes(&s(a), &s(b)), a < b);
            assert_eq!(same_name(&s(a), &s(b)), a == b);
        }
    }
}

#[test]
fn column_names_are_built_from_their_parts() {
    assert_eq!(joined("ab", "cd"), "abcd");
    assert_eq!(make_fixed_name(&s("X_const")), "p_X_const");
    assert_eq!(make_write_flag_name(&s("X"), &s("A")), "reg_write_X_A");
    assert_eq!(make_read_coefficient_name(&s("X"), &s("A")), "read_X_A");
    assert_eq!(make_const_name(&s("X")), "X_const");
    assert_eq!(make_read_free_name(&s("X")), "X_read_free");
    assert_eq!(make_free_value_name(&s("X")), "X_free_value");
    assert_eq!(make_instruction_flag_name(&s("jmp")), "instr_jmp");
    assert_eq!(make_param_column_name(&s("jmp"), &s("l")), "instr_jmp_param_l");
}

#[test]
fn sorted_insertion_keeps_the_order_of_names() {
    let mut entries: Vec<(String, u64)> = Vec::new();
    insert_sorted(&mut entries, s("pc"), 1);
    insert_sorted(&mut entries, s("A"), 2);
    insert_sorted(&mut entries, s("CNT"), 3);
    insert_sorted(&mut entries, s("X"), 4);
    assert_eq!(entries, vec![(s("A"), 2), (s("CNT"), 3), (s("X"), 4), (s("pc"), 1)]);
    assert_eq!(find_key(&entries, &s("A")), 0);
    assert_eq!(find_key(&entries, &s("pc")), 3);
    assert_eq!(find_key(&entries, &s("missing")), 4);
}

#[test]
fn sorted_insertion_puts_an_equal_key_first() {
    let mut entries: Vec<(String, u64)> = vec![(s("a"), 1), (s("b"), 2)];
    insert_sorted(&mut entries, s("b"), 3);
    assert_eq!(entries, vec![(s("a"), 1), (s("b"), 3), (s("b"), 2)]);
    assert_eq!(find_key(&entries, &s("b")), 1);
}

#[test]
fn find_name_gives_the_first_occurrence() {
    let names = vec![s("x"), s("y"), s("x")];
    assert_eq!(find_name(&names, &s("x")), 0);
    assert_eq!(find_name(&names, &s("y")), 1);
    assert_eq!(find_name(&names, &s("z")), 3);
}

#[test]
fn setting_a_key_replaces_or_inserts() {
    let mut entries: Vec<(String, u64)> = vec![(s("a"), 1), (s("c"), 2)];
    set_sorted(&mut entries, s("c"), 3);
    assert_eq!(entries, vec![(s("a"), 1), (s("c"), 3)]);
    set_sorted(&mut entries, s("b"), 4);
    assert_eq!(entries, vec![(s("a"), 1), (s("b"), 4), (s("c"), 3)]);
}
