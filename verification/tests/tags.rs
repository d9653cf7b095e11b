use blog_core::tags::{chars_of, contains_text, split_tags, TAG_DELIMITER};

fn strings(items: &[&str]) -> Vec<String> {
    items.iter().map(|s| s.to_string()).collect()
}

#[test]
fn delimiter_is_a_comma() {
    assert_eq!(TAG_DELIMITER, ',');
}

#[test]
fn split_on_commas() {
    assert_eq!(split_tags("intro,misc"), strings(&["intro", "misc"]));
    assert_eq!(split_tags("one"), strings(&["one"]));
}

#[test]
fn split_trims_each_tag() {
    assert_eq!(split_tags(" a , b ,c  "), strings(&["a", "b", "c"]));
    assert_eq!(split_tags("\ta\n,\r\nb"), strings(&["a", "b"]));
}

#[test]
fn split_keeps_inner_white_space() {
    assert_eq!(split_tags("big data, machine  learning "), strings(&["big data", "machine  learning"]));
}

#[test]
fn split_trims_unicode_white_space() {
    assert_eq!(split_tags("\u{2003}a\u{00a0},\u{3000}b"), strings(&["a", "b"]));
    assert_eq!(split_tags("é ,日本語"), strings(&["é", "日本語"]));
}

#[test]
fn split_keeps_empty_pieces() {
    assert_eq!(split_tags(""), strings(&[""]));
    assert_eq!(split_tags(","), strings(&["", ""]));
    assert_eq!(split_tags("a,,b"), strings(&["a", "", "b"]));
    assert_eq!(split_tags("a,"), strings(&["a", ""]));
    assert_eq!(split_tags(",a"), strings(&["", "a"]));
    assert_eq!(split_tags("  "), strings(&[""]));
    assert_eq!(split_tags(" , "), strings(&["", ""]));
}

#[test]
fn split_keeps_repeated_tags() {
    assert_eq!(split_tags("a,b,a"), strings(&["a", "b", "a"]));
}

#[test]
fn split_is_what_std_makes_of_it() {
    for joined in ["x, y,z", "", ",,", " lead", "trail ", "a ,\u{2009}b\u{2009}", "no delimiter"] {
        let expected: Vec<String> = joined.split(',').map(|s| s.trim().to_string()).collect();
        assert_eq!(split_tags(joined), expected);
    }
}

#[test]
fn chars_of_lists_the_characters() {
    assert_eq!(chars_of("aé,"), vec!['a', 'é', ',']);
    assert_eq!(chars_of(""), Vec::<char>::new());
}

#[test]
fn contains_text_finds_equal_strings() {
    let list = strings(&["a", "b"]);
    assert!(contains_text(&list, &"a".to_string()));
    assert!(contains_text(&list, &"b".to_string()));
    assert!(!contains_text(&list, &"c".to_string()));
    assert!(!contains_text(&list, &"".to_string()));
    assert!(!contains_text(&Vec::new(), &"a".to_string()));
}
