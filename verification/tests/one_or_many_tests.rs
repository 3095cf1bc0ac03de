use ytdl_cron::one_or_many::{vec_or_one, EmptySequence, VecOrOne};

#[test]
fn single_value_becomes_one_element_list() {
    let single = vec_or_one(VecOrOne::One("https://example.org".to_string()));
    assert_eq!(single, Ok(vec!["https://example.org".to_string()]));
}

#[test]
fn single_value_equals_list_of_that_value() {
    let single = vec_or_one(VecOrOne::One("a".to_string()));
    let list = vec_or_one(VecOrOne::Vec(vec!["a".to_string()]));
    assert_eq!(single, list);
}

#[test]
fn list_is_kept_in_order() {
    let list = vec_or_one(VecOrOne::Vec(vec![3u32, 1, 2]));
    assert_eq!(list, Ok(vec![3u32, 1, 2]));
}

#[test]
fn empty_list_is_refused() {
    let empty: Result<Vec<String>, EmptySequence> = vec_or_one(VecOrOne::Vec(Vec::new()));
    assert_eq!(empty, Err(EmptySequence));
}

#[test]
fn empty_sequence_message() {
    assert_eq!(EmptySequence.message(), "cannot deserialize from an empty sequence");
}
