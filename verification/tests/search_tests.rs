use grepdef::query_regex::regex_pattern_for_query;
use grepdef::{
    does_file_match_regexp, get_regex_for_query, search_file_line_by_line,
    try_get_regex_for_query, Args, ColorOption, Config, FileType, ResultLimiter,
    SearchEventType, SearchMethod, SearchResult, SearchResultFormat, Searcher,
};

const RS_FIXTURE: &str = "pub fn query_db() -> bool {}
pub fn query_db_fake() -> bool {}

mod Wrapper {
    fn private_func() {}
    pub fn public_func() -> bool {}
}

struct ContainerWithoutBlock;

struct ContainerWithBlock {
    name: &str,
}

impl ContainerWithBlock {
    pub fn container_method() {}
}

enum FileType {
    JS,
    PHP,
    RS,
}

impl FileType {
    pub fn file_type_method() {}
}

fn search_file<F>(re: &Regex, file_path: &str, config: &Config, callback: F)
where
    F: FnOnce(Vec<SearchResult>) + Send + 'static,
{
}
";

const JS_LINES: &str = "function queryDb() {
}

function parseQuery() {
  return 1;
}
const makeQuery = (a) => a;
let other = { shorthandFunction(x) { return x; }, longhandProperty: 3 };
/** @typedef {Object} TypeDefObject */
";

fn lines_of(text: &str) -> Vec<Option<String>> {
    text.lines().map(|l| Some(String::from(l))).collect()
}

fn config_for(query: &str, file_type: &str, line_number: bool) -> Config {
    let args = Args::new(
        String::from(query),
        Some(String::from(file_type)),
        Some(vec![String::from("./fixture")]),
        line_number,
    );
    Config::new(args, &vec![], Some(4)).unwrap()
}

fn search_lines(query: &str, file_type: FileType, text: &str, line_number: bool) -> Vec<SearchResult> {
    let config = config_for(query, &file_type.to_string(), line_number);
    let re = get_regex_for_query(query, &file_type);
    search_file_line_by_line(&re, "./fixture", &lines_of(text), &config)
}

#[test]
fn rust_definitions_are_found_on_their_lines() {
    for (query, line) in [
        ("query_db", 1),
        ("public_func", 6),
        ("Wrapper", 4),
        ("ContainerWithoutBlock", 9),
        ("ContainerWithBlock", 11),
        ("FileType", 19),
        ("search_file", 29),
    ] {
        let found = search_lines(query, FileType::RS, RS_FIXTURE, true);
        assert_eq!(1, found.len(), "query {}", query);
        assert_eq!(Some(line), found[0].line_number, "query {}", query);
    }
}

#[test]
fn a_rust_match_holds_the_trimmed_line() {
    let found = search_lines("public_func", FileType::RS, RS_FIXTURE, true);
    assert_eq!(
        vec![SearchResult {
            event_type: SearchEventType::NONE,
            file_path: String::from("./fixture"),
            line_number: Some(6),
            text: String::from("pub fn public_func() -> bool {}"),
        }],
        found
    );
}

#[test]
fn js_definitions_of_each_kind_are_found() {
    for (query, line) in [
        ("queryDb", 1),
        ("parseQuery", 4),
        ("makeQuery", 7),
        ("shorthandFunction", 8),
        ("TypeDefObject", 9),
    ] {
        let found = search_lines(query, FileType::JS, JS_LINES, true);
        assert_eq!(1, found.len(), "query {}", query);
        assert_eq!(Some(line), found[0].line_number, "query {}", query);
    }
    assert_eq!(0, search_lines("thisFunctionDoesNotExist", FileType::JS, JS_LINES, true).len());
}

#[test]
fn php_python_and_ruby_definitions_are_found() {
    let php = "<?php\nfunction parseQuery() {\n}\nclass Foo {}\ndefine('GLOBALDEFINESINGLE', 1);\ndefine( \"GLOBALDEFINEDOUBLE\", 2);\nconst GLOBALCONSTANT = 3;\n";
    assert_eq!(Some(2), search_lines("parseQuery", FileType::PHP, php, true)[0].line_number);
    assert_eq!(Some(4), search_lines("Foo", FileType::PHP, php, true)[0].line_number);
    assert_eq!(Some(5), search_lines("GLOBALDEFINESINGLE", FileType::PHP, php, true)[0].line_number);
    assert_eq!(Some(6), search_lines("GLOBALDEFINEDOUBLE", FileType::PHP, php, true)[0].line_number);
    assert_eq!(Some(7), search_lines("GLOBALCONSTANT", FileType::PHP, php, true)[0].line_number);
    let py = "import os\n\nasync def fetch_data():\n    pass\nclass Model:\n    def save(self):\n";
    assert_eq!(Some(3), search_lines("fetch_data", FileType::PY, py, true)[0].line_number);
    assert_eq!(Some(5), search_lines("Model", FileType::PY, py, true)[0].line_number);
    assert_eq!(Some(6), search_lines("save", FileType::PY, py, true)[0].line_number);
    let rb = "module Store\n  def self.load\n  end\nclass Item\nend\n";
    assert_eq!(Some(1), search_lines("Store", FileType::RB, rb, true)[0].line_number);
    assert_eq!(Some(2), search_lines("load", FileType::RB, rb, true)[0].line_number);
    assert_eq!(Some(4), search_lines("Item", FileType::RB, rb, true)[0].line_number);
}

#[test]
fn several_definitions_come_in_line_order() {
    let php = "class A {\n  public function similarMethod() {}\n}\nclass B {\n  public function similarMethod() {}\n}\n";
    let found = search_lines("similarMethod", FileType::PHP, php, true);
    let numbers: Vec<Option<usize>> = found.iter().map(|r| r.line_number).collect();
    assert_eq!(vec![Some(2), Some(5)], numbers);
}

#[test]
fn unreadable_lines_count_but_never_match() {
    let config = config_for("query_db", "rs", true);
    let re = get_regex_for_query("query_db", &FileType::RS);
    let lines = vec![None, Some(String::from("fn query_db() {}")), None];
    let found = search_file_line_by_line(&re, "a.rs", &lines, &config);
    assert_eq!(1, found.len());
    assert_eq!(Some(2), found[0].line_number);
}

#[test]
fn line_numbers_are_left_out_unless_asked_for() {
    let found = search_lines("query_db", FileType::RS, RS_FIXTURE, false);
    assert_eq!(None, found[0].line_number);
}

#[test]
fn json_list_results_carry_the_match_event() {
    let args = Args {
        format: Some(SearchResultFormat::JsonList),
        ..Args::new(
            String::from("query_db"),
            Some(String::from("rs")),
            None,
            true,
        )
    };
    let config = Config::new(args, &vec![], None).unwrap();
    let re = get_regex_for_query("query_db", &FileType::RS);
    let found = search_file_line_by_line(&re, "a.rs", &lines_of(RS_FIXTURE), &config);
    assert_eq!(SearchEventType::MATCH, found[0].event_type);
}

#[test]
fn regex_patterns_per_file_type() {
    assert_eq!(
        r"\b(?:fn|trait|enum|struct|mod) foo\b",
        regex_pattern_for_query("foo", &FileType::RS)
    );
    assert_eq!(
        r"\b(?:(?:async\s+)?def|class)\s+foo\b",
        regex_pattern_for_query("foo", &FileType::PY)
    );
    assert_eq!(
        r"\b(?:def|class|module)\s+(?:self\.)?foo\b",
        regex_pattern_for_query("foo", &FileType::RB)
    );
    assert_eq!(
        r#"\b(?:function|class|trait|interface|enum|const) foo\b|\bdefine\s*\(\s*['"]foo['"]"#,
        regex_pattern_for_query("foo", &FileType::PHP)
    );
    assert_eq!(
        r"(?:\b(?:function|var|let|const|class|interface|type)\s+foo\b|\bfoo\([^)]*\)\s*(?::[^\{]+)?\{|\bfoo:|@typedef\s*(?:\{[^\}]+\})?\s*foo\b)",
        regex_pattern_for_query("foo", &FileType::JS)
    );
    assert_eq!(
        regex_pattern_for_query("foo", &FileType::JS),
        get_regex_for_query("foo", &FileType::JS).pattern()
    );
}

#[test]
fn a_query_that_breaks_the_pattern_gives_no_regex() {
    assert!(try_get_regex_for_query("foo(", &FileType::RS).is_none());
    assert!(try_get_regex_for_query("foo", &FileType::RS).is_some());
}

#[test]
fn regex_prescan_needs_readable_nonempty_matching_contents() {
    let re = get_regex_for_query("parseQuery", &FileType::JS);
    assert!(does_file_match_regexp(Some(JS_LINES), &re));
    assert!(!does_file_match_regexp(Some(""), &re));
    assert!(!does_file_match_regexp(None, &re));
    assert!(!does_file_match_regexp(Some("parseQueryX"), &re));
}

#[test]
fn args_from_query_has_the_defaults() {
    let config = Args::from_query("parseQuery");
    assert_eq!(config.query, String::from("parseQuery"));
    assert_eq!(config.file_path, None);
    assert_eq!(config.file_type, None);
    assert_eq!(config.line_number, false);
    assert_eq!(config.limit, None);
    assert_eq!(config.format, None);
}

#[test]
fn args_new_sets_its_four_fields() {
    let args = Args::new(
        String::from("q"),
        Some(String::from("php")),
        Some(vec![String::from("a"), String::from("b")]),
        true,
    );
    assert_eq!("q", args.query);
    assert_eq!(Some(String::from("php")), args.file_type);
    assert_eq!(Some(vec![String::from("a"), String::from("b")]), args.file_path);
    assert!(args.line_number);
    assert!(!args.debug);
    assert_eq!(vec![String::from("a"), String::from("b")], args.resolved_file_paths());
    assert_eq!(vec![String::from(".")], Args::from_query("q").resolved_file_paths());
}

#[test]
fn config_new_fills_in_the_defaults() {
    let args = Args::new(String::from("parseQuery"), Some(String::from("typescript")), None, true);
    let config = Config::new(args, &vec![], Some(8)).unwrap();
    assert_eq!("parseQuery", config.query);
    assert_eq!(vec![String::from(".")], config.file_paths);
    assert_eq!(FileType::JS, config.file_type);
    assert!(config.line_number);
    assert_eq!(ColorOption::AUTO, config.color);
    assert_eq!(SearchMethod::PrescanRegex, config.search_method);
    assert_eq!(SearchResultFormat::Grep, config.format);
    assert_eq!(8, config.num_threads);
    let config = Config::new(Args::new(String::from("q"), Some(String::from("rs")), None, false), &vec![], None).unwrap();
    assert_eq!(5, config.num_threads);
    let args = Args {
        threads: Some(2),
        color: Some(String::from("never")),
        search_method: Some(SearchMethod::NoPrescan),
        limit: Some(3),
        ..Args::new(String::from("q"), Some(String::from("rs")), None, false)
    };
    let config = Config::new(args, &vec![], Some(8)).unwrap();
    assert_eq!(2, config.num_threads);
    assert_eq!(ColorOption::NEVER, config.color);
    assert_eq!(SearchMethod::NoPrescan, config.search_method);
    assert_eq!(Some(3), config.limit);
}

#[test]
fn config_new_guesses_the_file_type_from_the_walks() {
    let args = Args::new(String::from("otherPhpFunction"), None, Some(vec![String::from("./only-php")]), true);
    let walks = vec![vec![String::from("./only-php/other-php-fixture.php")]];
    let config = Config::new(args, &walks, None).unwrap();
    assert_eq!(FileType::PHP, config.file_type);
}

#[test]
fn config_new_reports_each_error() {
    let bad_type = Args::new(String::from("q"), Some(String::from("cobol")), None, false);
    assert_eq!(
        String::from("Invalid file type 'cobol'"),
        Config::new(bad_type, &vec![], None).unwrap_err()
    );
    let unguessable = Args::from_query("q");
    assert_eq!(
        String::from("Unable to guess file type from file paths"),
        Config::new(unguessable, &vec![vec![String::from("x.txt")]], None).unwrap_err()
    );
    let bad_color = Args {
        color: Some(String::from("sometimes")),
        ..Args::new(String::from("q"), Some(String::from("rs")), None, false)
    };
    assert_eq!(
        String::from("Invalid color option 'sometimes'"),
        Config::new(bad_color, &vec![], None).unwrap_err()
    );
    let both = Args {
        color: Some(String::from("sometimes")),
        ..Args::new(String::from("q"), Some(String::from("cobol")), None, false)
    };
    assert_eq!(
        String::from("Invalid file type 'cobol'"),
        Config::new(both, &vec![], None).unwrap_err()
    );
}

#[test]
fn color_option_from_string() {
    assert_eq!(Ok(ColorOption::ALWAYS), ColorOption::from_string("always"));
    assert_eq!(Ok(ColorOption::NEVER), ColorOption::from_string("never"));
    assert_eq!(Ok(ColorOption::AUTO), ColorOption::from_string("auto"));
    assert_eq!(
        Err(String::from("Invalid color option 'Always'")),
        ColorOption::from_string("Always")
    );
}

#[test]
fn searcher_new_keeps_the_configuration() {
    let searcher = Searcher::new(Args::new(String::from("parseQuery"), Some(String::from("js")), None, true), &vec![], None).unwrap();
    assert_eq!("parseQuery", searcher.config().query);
    assert_eq!(FileType::JS, searcher.config().file_type);
    assert!(Searcher::new(Args::from_query("q"), &vec![], None).is_err());
}

fn result(event_type: SearchEventType, line_number: Option<usize>) -> SearchResult {
    SearchResult {
        event_type,
        file_path: String::from("./tests/fixtures/by-language/js-fixture.js"),
        line_number,
        text: String::from("function parseQuery() {"),
    }
}

#[test]
fn grep_output_with_and_without_color() {
    colored::control::set_override(false);
    assert_eq!(
        "./tests/fixtures/by-language/js-fixture.js:7:function parseQuery() {",
        result(SearchEventType::NONE, Some(7)).to_grep()
    );
    assert_eq!(
        "./tests/fixtures/by-language/js-fixture.js:function parseQuery() {",
        result(SearchEventType::NONE, None).to_grep()
    );
    let searcher = Searcher::new(Args::new(String::from("parseQuery"), Some(String::from("js")), None, true), &vec![], None).unwrap();
    let results = vec![result(SearchEventType::NONE, Some(7)), result(SearchEventType::NONE, Some(9))];
    assert_eq!(
        vec![
            String::from("./tests/fixtures/by-language/js-fixture.js:7:function parseQuery() {"),
            String::from("./tests/fixtures/by-language/js-fixture.js:9:function parseQuery() {"),
        ],
        searcher.search_and_format(&results)
    );
    assert!(searcher.format_prologue().is_empty());
    colored::control::set_override(true);
    let r = SearchResult {
        event_type: SearchEventType::NONE,
        file_path: String::from("a.js"),
        line_number: Some(12),
        text: String::from("function f() {"),
    };
    let out = r.to_grep();
    let nested = SearchResult {
        event_type: SearchEventType::NONE,
        file_path: String::from("x\u{1b}[0my"),
        line_number: None,
        text: String::from("t"),
    }
    .to_grep();
    colored::control::unset_override();
    assert_eq!("\u{1b}[35ma.js\u{1b}[0m:\u{1b}[32m12\u{1b}[0m:function f() {", out);
    assert_eq!("\u{1b}[35mx\u{1b}[0m\u{1b}[35my\u{1b}[0m:t", nested);
}

fn serde_json_of(r: &SearchResult) -> String {
    let mut map = serde_json::Map::new();
    if r.event_type != SearchEventType::NONE {
        map.insert(
            String::from("event_type"),
            serde_json::Value::String(format!("{:?}", r.event_type)),
        );
    }
    map.insert(String::from("file_path"), serde_json::Value::String(r.file_path.clone()));
    map.insert(
        String::from("line_number"),
        match r.line_number {
            Some(n) => serde_json::Value::from(n),
            None => serde_json::Value::Null,
        },
    );
    map.insert(String::from("text"), serde_json::Value::String(r.text.clone()));
    serde_json::to_string(&serde_json::Value::Object(map)).unwrap()
}

#[test]
fn json_per_match_with_and_without_number() {
    assert_eq!(
        "{\"file_path\":\"./tests/fixtures/by-language/js-fixture.js\",\"line_number\":7,\"text\":\"function parseQuery() {\"}",
        result(SearchEventType::NONE, Some(7)).to_json_per_match()
    );
    assert_eq!(
        "{\"file_path\":\"./tests/fixtures/by-language/js-fixture.js\",\"line_number\":null,\"text\":\"function parseQuery() {\"}",
        result(SearchEventType::NONE, None).to_json_per_match()
    );
}

#[test]
fn json_in_list_carries_the_event_and_a_comma() {
    assert_eq!(
        "{\"event_type\":\"MATCH\",\"file_path\":\"./tests/fixtures/by-language/js-fixture.js\",\"line_number\":7,\"text\":\"function parseQuery() {\"},",
        result(SearchEventType::MATCH, Some(7)).to_json_in_list()
    );
}

#[test]
fn json_output_agrees_with_serde_json() {
    let tricky = SearchResult {
        event_type: SearchEventType::MATCH,
        file_path: String::from("dir with \"quotes\"\\and\tcontrol\u{1}.js"),
        line_number: Some(1234567),
        text: String::from("const s = \"\u{8}\u{c}\n\r é 🎉\";"),
    };
    for r in [tricky, result(SearchEventType::NONE, None), result(SearchEventType::MATCH, Some(0))] {
        assert_eq!(serde_json_of(&r), r.to_json_per_match());
        assert_eq!(serde_json_of(&r) + ",", r.to_json_in_list());
    }
}

#[test]
fn json_list_output_is_framed_by_the_markers() {
    let args = Args {
        format: Some(SearchResultFormat::JsonList),
        ..Args::new(String::from("parseQuery"), Some(String::from("js")), None, true)
    };
    let searcher = Searcher::new(args, &vec![], None).unwrap();
    let results = vec![result(SearchEventType::MATCH, Some(7))];
    let lines = searcher.search_and_format(&results);
    assert_eq!(
        vec![
            String::from("["),
            String::from("{\"event_type\":\"START\"},"),
            String::from("{\"event_type\":\"MATCH\",\"file_path\":\"./tests/fixtures/by-language/js-fixture.js\",\"line_number\":7,\"text\":\"function parseQuery() {\"},"),
            String::from("{\"event_type\":\"END\"}"),
            String::from("]"),
        ],
        lines
    );
    assert_eq!(2, searcher.format_prologue().len());
    assert_eq!(2, searcher.format_epilogue().len());
}

#[test]
fn json_per_match_output_has_no_frame() {
    let args = Args {
        format: Some(SearchResultFormat::JsonPerMatch),
        ..Args::new(String::from("parseQuery"), Some(String::from("js")), None, false)
    };
    let searcher = Searcher::new(args, &vec![], None).unwrap();
    assert!(searcher.format_prologue().is_empty());
    assert!(searcher.format_epilogue().is_empty());
    assert_eq!(
        "{\"file_path\":\"./tests/fixtures/by-language/js-fixture.js\",\"line_number\":null,\"text\":\"function parseQuery() {\"}",
        searcher.format_result(&result(SearchEventType::NONE, None))
    );
}

fn numbered(numbers: &[usize]) -> Vec<SearchResult> {
    numbers.iter().map(|n| result(SearchEventType::NONE, Some(*n))).collect()
}

#[test]
fn limiter_delivers_up_to_the_limit_across_batches() {
    let mut limiter = ResultLimiter::new(Some(3));
    let (first, stop) = limiter.take_batch(numbered(&[1, 2]));
    assert_eq!(numbered(&[1, 2]), first);
    assert!(!stop);
    let (second, stop) = limiter.take_batch(numbered(&[3, 4, 5]));
    assert_eq!(numbered(&[3]), second);
    assert!(stop);
    assert_eq!(3, limiter.count());
}

#[test]
fn limiter_without_limit_delivers_everything() {
    let mut limiter = ResultLimiter::new(None);
    for _ in 0..3 {
        let (out, stop) = limiter.take_batch(numbered(&[1, 2, 3]));
        assert_eq!(3, out.len());
        assert!(!stop);
    }
    let (out, stop) = limiter.take_batch(vec![]);
    assert!(out.is_empty());
    assert!(!stop);
    assert_eq!(9, limiter.count());
}

#[test]
fn a_limit_of_zero_still_delivers_one_result() {
    let mut limiter = ResultLimiter::new(Some(0));
    let (out, stop) = limiter.take_batch(numbered(&[48, 51, 54]));
    assert_eq!(numbered(&[48]), out);
    assert!(stop);
}

#[test]
fn an_empty_batch_does_not_stop_a_limited_search() {
    let mut limiter = ResultLimiter::new(Some(1));
    let (out, stop) = limiter.take_batch(vec![]);
    assert!(out.is_empty());
    assert!(!stop);
    let (out, stop) = limiter.take_batch(numbered(&[48, 51]));
    assert_eq!(numbered(&[48]), out);
    assert!(stop);
}

#[test]
fn event_type_is_empty_only_for_none() {
    assert!(SearchEventType::NONE.is_empty());
    assert!(!SearchEventType::MATCH.is_empty());
    assert!(!SearchEventType::START.is_empty());
    assert!(!SearchEventType::END.is_empty());
}
