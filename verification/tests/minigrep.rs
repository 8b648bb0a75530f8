use worker_pool::minigrep::{search, search_case_insensitive, select_lines, split_lines, Config};
use worker_pool::text::{chars_of, line_bounds, occurs_in, same_text};

#[test]
fn case_sensitive() {
    let query = "duct";
    let contents = "\
Rust:
safe, fast, productive.
Pick three.
Duct tape.";

    assert_eq!(vec!["safe, fast, productive."], search(query, contents));
}

#[test]
fn case_insensitive() {
    let query = "rUsT";
    let contents = "\
Rust:
safe, fast, productive.
Pick three.
Trust me.";

    assert_eq!(
        vec!["Rust:", "Trust me."],
        search_case_insensitive(query, contents)
    );
}

#[test]
fn lines_are_split_as_std_splits_them() {
    for text in [
        "",
        "\n",
        "a",
        "a\n",
        "a\nb",
        "a\r\nb\r\n",
        "a\rb\n",
        "a\n\nb",
        "\r\n",
        "\r",
        "tail\r",
        "x\r\r\ny",
        "\n\n\n",
        "gr\u{fc}\u{df}e\nw\u{f6}rld\n",
    ] {
        let expected: Vec<&str> = text.lines().collect();
        assert_eq!(split_lines(text), expected, "for {:?}", text);
    }
}

#[test]
fn line_bounds_of_a_small_text() {
    let text = chars_of("ab\r\n\ncd");
    assert_eq!(line_bounds(&text), vec![(0, 2), (4, 4), (5, 7)]);
    assert_eq!(line_bounds(&chars_of("")), Vec::<(usize, usize)>::new());
}

#[test]
fn chars_are_read_in_order() {
    assert_eq!(chars_of("h\u{e9}!"), vec!['h', '\u{e9}', '!']);
    assert!(chars_of("").is_empty());
}

#[test]
fn occurrence_is_found_within_bounds_only() {
    let hay = chars_of("abcabd");
    assert!(occurs_in(&hay, 0, 6, &chars_of("abd")));
    assert!(!occurs_in(&hay, 0, 5, &chars_of("abd")));
    assert!(occurs_in(&hay, 3, 6, &chars_of("abd")));
    assert!(!occurs_in(&hay, 4, 6, &chars_of("abd")));
    assert!(occurs_in(&hay, 2, 2, &chars_of("")));
    assert!(!occurs_in(&hay, 0, 6, &chars_of("abcabda")));
    assert!(!occurs_in(&hay, 0, 6, &chars_of("ac")));
    assert!(occurs_in(&hay, 0, 6, &chars_of("abcabd")));
}

#[test]
fn same_text_compares_contents() {
    assert!(same_text("", ""));
    assert!(same_text("abc", "abc"));
    assert!(!same_text("abc", "abd"));
    assert!(!same_text("abc", "ab"));
    assert!(!same_text("", "a"));
}

#[test]
fn empty_query_matches_every_line() {
    assert_eq!(search("", "one\ntwo\n"), vec!["one", "two"]);
    assert_eq!(search("x", ""), Vec::<&str>::new());
    assert_eq!(search("two", "one\r\ntwo\r\n"), vec!["two"]);
}

#[test]
fn case_matters_unless_ignored() {
    let contents = "Alpha\nalpha\nBETA";
    assert_eq!(search("alpha", contents), vec!["alpha"]);
    assert_eq!(search_case_insensitive("ALPHA", contents), vec!["Alpha", "alpha"]);
    assert_eq!(search_case_insensitive("beta", contents), vec!["BETA"]);
    assert_eq!(search("beta", contents), Vec::<&str>::new());
}

#[test]
fn lines_are_selected_by_their_keys() {
    let lines = vec!["one", "two", "three"];
    let keys = vec![chars_of("xay"), chars_of("b"), chars_of("a")];
    assert_eq!(select_lines(&lines, &keys, &chars_of("a")), vec!["one", "three"]);
    assert_eq!(select_lines(&lines, &keys, &chars_of("")), vec!["one", "two", "three"]);
    assert_eq!(select_lines(&lines, &keys, &chars_of("zz")), Vec::<&str>::new());
}

#[test]
fn config_is_read_off_the_arguments() {
    let args = vec![String::from("minigrep"), String::from("needle"), String::from("hay.txt")];
    match Config::build(&args, true) {
        Ok(config) => {
            assert_eq!(config.query, "needle");
            assert_eq!(config.file_path, "hay.txt");
            assert!(config.ignore_case);
        },
        Err(e) => panic!("{}", e),
    }
    let more = vec![
        String::from("minigrep"),
        String::from("q"),
        String::from("p"),
        String::from("extra"),
    ];
    match Config::build(&more, false) {
        Ok(config) => {
            assert_eq!(config.query, "q");
            assert_eq!(config.file_path, "p");
            assert!(!config.ignore_case);
        },
        Err(e) => panic!("{}", e),
    }
}

#[test]
fn config_names_what_is_missing() {
    let none: Vec<String> = Vec::new();
    assert_eq!(Config::build(&none, false).err(), Some("Didn't get a query string"));
    let one = vec![String::from("minigrep")];
    assert_eq!(Config::build(&one, false).err(), Some("Didn't get a query string"));
    let two = vec![String::from("minigrep"), String::from("needle")];
    assert_eq!(Config::build(&two, true).err(), Some("Didn't get a file path"));
}

#[test]
fn config_picks_the_search() {
    let contents = "Rust:\nTrust me.\nrust";
    let exact = Config {
        query: String::from("rust"),
        file_path: String::from("poem.txt"),
        ignore_case: false,
    };
    assert_eq!(exact.matches(contents), vec!["Trust me.", "rust"]);
    let loose = Config {
        query: String::from("rust"),
        file_path: String::from("poem.txt"),
        ignore_case: true,
    };
    assert_eq!(loose.matches(contents), vec!["Rust:", "Trust me.", "rust"]);
}
