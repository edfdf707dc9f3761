use powdr::free_input::{answer_query, QueryError};
use powdr::number::Number;

fn inputs() -> Vec<Number> {
    [165, 5, 11, 22, 33, 44, 55].iter().map(|v| Number::from_i64(*v)).collect()
}

fn n(value: i64) -> Option<Number> {
    Some(Number::from_i64(value))
}

#[test]
fn query_is_answered_by_the_group_of_the_current_program_counter() {
    let query = "4, 3, 0, \"input\", 1, 3, \"input\", 2, 7, \"input\", 0";
    assert_eq!(answer_query(query, &inputs()), Ok(n(11)));
    let query = "9, 7, 0, \"input\", 1, 3, \"input\", 2, 7, \"input\", 0";
    assert_eq!(answer_query(query, &inputs()), Ok(n(165)));
    let query = "0, 0, 0, \"input\", 1, 3, \"input\", 2, 7, \"input\", 0";
    assert_eq!(answer_query(query, &inputs()), Ok(n(5)));
}

#[test]
fn query_without_matching_group_has_no_answer() {
    let query = "4, 5, 0, \"input\", 1, 3, \"input\", 2";
    assert_eq!(answer_query(query, &inputs()), Ok(None));
    assert_eq!(answer_query("4, 5", &inputs()), Ok(None));
    assert_eq!(answer_query(",", &inputs()), Ok(None));
}

#[test]
fn query_takes_the_first_matching_group() {
    let query = "0,3,3,\"input\",6,3,\"input\",1";
    assert_eq!(answer_query(query, &inputs()), Ok(n(55)));
    let query = "0,3,3,\"input\",x,3,\"input\",1";
    assert_eq!(answer_query(query, &inputs()), Err(QueryError::BadIndex));
    let query = "0,3,1,\"output\",x,3,\"input\",1";
    assert_eq!(answer_query(query, &inputs()), Ok(n(5)));
}

#[test]
fn query_fields_are_trimmed() {
    let query = " 4 ,\t3\n, 3 ,  \"input\" ,\u{a0}2\u{3000}";
    assert_eq!(answer_query(query, &inputs()), Ok(n(11)));
    let query = "4,3,3,\"in put\",2";
    assert_eq!(answer_query(query, &inputs()), Err(QueryError::NotAnInput));
    let query = "4,3,3,\"input\",2 0";
    assert_eq!(answer_query(query, &inputs()), Err(QueryError::BadIndex));
    let query = "4, p c, pc, \"input\", 1, p c, \"input\", 2";
    assert_eq!(answer_query(query, &inputs()), Ok(n(11)));
}

#[test]
fn index_beyond_the_inputs_has_no_answer() {
    assert_eq!(answer_query("0, 1, 1, \"input\", 7", &inputs()), Ok(None));
    assert_eq!(answer_query("0, 1, 1, \"input\", 6", &inputs()), Ok(n(55)));
    assert_eq!(answer_query("0, 1, 1, \"input\", 0", &vec![]), Ok(None));
}

#[test]
fn index_is_a_decimal_number() {
    assert_eq!(answer_query("0, 1, 1, \"input\", +2", &inputs()), Ok(n(11)));
    assert_eq!(answer_query("0, 1, 1, \"input\", 0002", &inputs()), Ok(n(11)));
    assert_eq!(
        answer_query("0, 1, 1, \"input\", 99999999999999999999", &inputs()),
        Err(QueryError::BadIndex)
    );
    for bad in ["", "+", "-1", "2a", "a", "1.0", "0x1", "++1", "٣"] {
        let query = format!("0, 1, 1, \"input\", {bad}");
        assert_eq!(answer_query(&query, &inputs()), Err(QueryError::BadIndex));
        assert!(bad.parse::<usize>().is_err());
    }
    for good in ["0", "+0", "6", "006", "+6"] {
        let query = format!("0, 1, 1, \"input\", {good}");
        let index: usize = good.parse().unwrap();
        assert_eq!(answer_query(&query, &inputs()), Ok(Some(inputs()[index].duplicate())));
    }
    let largest = format!("0, 1, 1, \"input\", {}", usize::MAX);
    assert_eq!(answer_query(&largest, &inputs()), Ok(None));
}

#[test]
fn query_needs_a_program_counter() {
    assert_eq!(answer_query("", &inputs()), Err(QueryError::MissingProgramCounter));
    assert_eq!(answer_query("4", &inputs()), Err(QueryError::MissingProgramCounter));
    assert_eq!(answer_query("  ", &inputs()), Err(QueryError::MissingProgramCounter));
}

#[test]
fn query_needs_whole_groups() {
    assert_eq!(answer_query("4, 3, 3", &inputs()), Err(QueryError::IncompleteGroup));
    assert_eq!(answer_query("4, 3, 3, \"input\"", &inputs()), Err(QueryError::IncompleteGroup));
    assert_eq!(
        answer_query("4, 3, 3, \"input\", 1, 3", &inputs()),
        Err(QueryError::IncompleteGroup)
    );
    assert_eq!(answer_query("4, 3,", &inputs()), Err(QueryError::IncompleteGroup));
}

#[test]
fn group_of_the_program_counter_must_ask_for_an_input() {
    assert_eq!(answer_query("4, 3, 3, input, 1", &inputs()), Err(QueryError::NotAnInput));
    assert_eq!(answer_query("4, 3, 3, \"in\", 1", &inputs()), Err(QueryError::NotAnInput));
    assert_eq!(answer_query("4, 3, 3, , 1", &inputs()), Err(QueryError::NotAnInput));
}

#[test]
fn query_trimming_agrees_with_the_trimming_of_strings() {
    let spaces = [
        '\u{9}', '\u{a}', '\u{b}', '\u{c}', '\u{d}', ' ', '\u{85}', '\u{a0}', '\u{1680}',
        '\u{2000}', '\u{2005}', '\u{200a}', '\u{2028}', '\u{2029}', '\u{202f}', '\u{205f}',
        '\u{3000}',
    ];
    for c in spaces {
        assert!(c.is_whitespace());
        let query = format!("0,{c}1{c},1,{c}{c}\"input\"{c},{c}3");
        assert_eq!(answer_query(&query, &inputs()), Ok(n(22)));
    }
    let others = ['\u{8}', '\u{e}', '\u{1f}', '\u{200b}', '\u{2060}', '\u{feff}', '_', '0'];
    for c in others {
        assert!(!c.is_whitespace());
        let query = format!("0,1,1,\"input\",{c}3{c}");
        assert_eq!(query.split(',').last().unwrap().trim().len(), 2 * c.len_utf8() + 1);
        let answer = answer_query(&query, &inputs());
        if c == '0' {
            assert_eq!(answer, Ok(None));
        } else {
            assert_eq!(answer, Err(QueryError::BadIndex));
        }
    }
}
