use bucatini::cli::{list_str, match_source, parse_selection, select_source, server_name, source_lines, SourceMatch};
use bucatini::ndi::Source;

fn names() -> Vec<String> {
    vec![
        "STUDIO (Camera 1)".to_string(),
        "STUDIO (Camera 2)".to_string(),
        "LAPTOP (Screen)".to_string(),
    ]
}

#[test]
fn no_match_returns_none() {
    assert!(matches!(match_source(&names(), "xyz"), SourceMatch::NoMatch));
}

#[test]
fn unique_substring_returns_one() {
    match match_source(&names(), "laptop") {
        SourceMatch::One(i) => assert_eq!(i, 2),
        other => panic!("expected One, got {:?}", other),
    }
}

#[test]
fn ambiguous_substring_returns_many() {
    match match_source(&names(), "camera") {
        SourceMatch::Many(v) => assert_eq!(v, vec![0, 1]),
        other => panic!("expected Many, got {:?}", other),
    }
}

#[test]
fn exact_match_wins_over_substring() {
    let n = vec!["Cam".to_string(), "Cam (extra)".to_string()];
    match match_source(&n, "cam") {
        SourceMatch::One(i) => assert_eq!(i, 0),
        other => panic!("expected One, got {:?}", other),
    }
}

#[test]
fn selection_valid_is_zero_based() {
    assert_eq!(parse_selection("2", 3), Ok(1));
}

#[test]
fn selection_trims_whitespace() {
    assert_eq!(parse_selection("  1\n", 3), Ok(0));
}

#[test]
fn selection_zero_is_error() {
    assert!(parse_selection("0", 3).is_err());
}

#[test]
fn selection_out_of_range_is_error() {
    assert!(parse_selection("4", 3).is_err());
}

#[test]
fn selection_non_numeric_is_error() {
    assert!(parse_selection("abc", 3).is_err());
}

#[test]
fn selection_error_messages() {
    assert_eq!(parse_selection("  abc \t", 3), Err("'abc' is not a number".to_string()));
    assert_eq!(parse_selection("0", 3), Err("choose 1..=3".to_string()));
    assert_eq!(parse_selection("12", 10), Err("choose 1..=10".to_string()));
    assert_eq!(parse_selection("", 3), Err("'' is not a number".to_string()));
}

#[test]
fn selection_number_forms() {
    assert_eq!(parse_selection("+3", 3), Ok(2));
    assert_eq!(parse_selection("003", 3), Ok(2));
    assert!(parse_selection("-1", 3).is_err());
    assert!(parse_selection("+", 3).is_err());
    assert!(parse_selection("1 2", 30).is_err());
    assert!(parse_selection("99999999999999999999999", 3).is_err());
    assert_eq!(
        parse_selection("99999999999999999999999", 3),
        Err("'99999999999999999999999' is not a number".to_string())
    );
}

#[test]
fn match_is_case_insensitive_and_exact_is_whole_name() {
    let n = vec!["studio a".to_string(), "Studio".to_string()];
    match match_source(&n, "STUDIO") {
        SourceMatch::One(i) => assert_eq!(i, 1),
        other => panic!("expected One, got {:?}", other),
    }
    match match_source(&n, "") {
        SourceMatch::Many(v) => assert_eq!(v, vec![0, 1]),
        other => panic!("expected Many, got {:?}", other),
    }
    assert!(matches!(match_source(&[], "x"), SourceMatch::NoMatch));
}

fn sources() -> Vec<Source> {
    vec![
        Source { name: "STUDIO (Camera 1)".to_string(), url: "10.0.0.2:5961".to_string() },
        Source { name: "LAPTOP (Screen)".to_string(), url: "10.0.0.3:5961".to_string() },
    ]
}

#[test]
fn listing_numbers_sources_from_one() {
    assert_eq!(list_str(&sources()), "  1: STUDIO (Camera 1)\n  2: LAPTOP (Screen)");
    assert_eq!(list_str(&[]), "");
}

#[test]
fn printed_lines_show_name_and_url() {
    assert_eq!(
        source_lines(&sources()),
        vec!["1: STUDIO (Camera 1) (10.0.0.2:5961)".to_string(), "2: LAPTOP (Screen) (10.0.0.3:5961)".to_string()]
    );
    assert_eq!(source_lines(&[]), vec!["(no NDI sources found)".to_string()]);
}

#[test]
fn listed_number_selects_listed_source() {
    let s = sources();
    for (i, line) in source_lines(&s).iter().enumerate() {
        let number = line.split(':').next().unwrap();
        assert_eq!(parse_selection(number, s.len()), Ok(i));
    }
}

#[test]
fn select_source_names_matches_or_explains() {
    let s = vec![
        Source { name: "STUDIO (Camera 1)".to_string(), url: String::new() },
        Source { name: "STUDIO (Camera 2)".to_string(), url: String::new() },
        Source { name: "LAPTOP (Screen)".to_string(), url: String::new() },
    ];
    assert_eq!(select_source(&s, "Laptop"), Ok(2));
    assert_eq!(
        select_source(&s, "xyz"),
        Err("no source matches 'xyz'. Available:\n  1: STUDIO (Camera 1)\n  2: STUDIO (Camera 2)\n  3: LAPTOP (Screen)".to_string())
    );
    assert_eq!(
        select_source(&s, "Camera"),
        Err("'Camera' is ambiguous (2 matches). Be more specific:\n  1: STUDIO (Camera 1)\n  2: STUDIO (Camera 2)\n  3: LAPTOP (Screen)".to_string())
    );
}

#[test]
fn server_name_defaults_to_source_name() {
    let s = Source { name: "Cam".to_string(), url: String::new() };
    assert_eq!(server_name(&None, &s), "Cam");
    assert_eq!(server_name(&Some("MyFeed".to_string()), &s), "MyFeed");
}

#[test]
fn listed_numbers_select_with_surrounding_whitespace() {
    for count in [1usize, 9, 10, 1234] {
        for i in [0, count / 2, count - 1] {
            assert_eq!(parse_selection(&(i + 1).to_string(), count), Ok(i));
            assert_eq!(parse_selection(&format!(" {}\n", i + 1), count), Ok(i));
            assert_eq!(parse_selection(&format!("\u{3000}\t{}\r\n", i + 1), count), Ok(i));
        }
    }
}
