use aza::enhance::{split_commas, update_data_from_answers};

#[test]
fn keywords_become_three_tags_and_a_marker() {
    let d = update_data_from_answers("A study\nof ice\n", " glaciers, sea level ,ice cores, albedo");
    assert_eq!(d.abstract_note, Some("A studyof ice".to_string()));
    let tags: Vec<String> = d.tags.unwrap().into_iter().map(|t| t.tag).collect();
    assert_eq!(tags, vec!["glaciers", "sea level", "ice cores", "ayda"]);
    assert!(d.title.is_none() && d.creators.is_none());
}

#[test]
fn few_keywords_give_few_tags() {
    let d = update_data_from_answers("", "climate");
    assert_eq!(d.abstract_note, Some(String::new()));
    let tags: Vec<String> = d.tags.unwrap().into_iter().map(|t| t.tag).collect();
    assert_eq!(tags, vec!["climate", "ayda"]);
    let empty = update_data_from_answers("x", "");
    let tags: Vec<String> = empty.tags.unwrap().into_iter().map(|t| t.tag).collect();
    assert_eq!(tags, vec!["", "ayda"]);
}

#[test]
fn splitting_on_commas() {
    assert_eq!(split_commas("a,b"), vec!["a", "b"]);
    assert_eq!(split_commas(""), vec![""]);
    assert_eq!(split_commas("a,"), vec!["a", ""]);
    assert_eq!(split_commas(",,"), vec!["", "", ""]);
    assert_eq!(split_commas("é,ü x"), vec!["é", "ü x"]);
}
