use grepdef::file_type::file_type_of_path;
use grepdef::{
    does_file_match_query, guess_file_type_from_file_path, path_matches_file_type, FileType,
    QueryPrescan,
};
use std::path::Path;

fn std_file_type(path: &str) -> Option<FileType> {
    let ext = Path::new(path)
        .extension()
        .and_then(|e| e.to_str())
        .unwrap_or("");
    match ext {
        "js" | "jsx" | "ts" | "tsx" | "mjs" | "cjs" => Some(FileType::JS),
        "php" => Some(FileType::PHP),
        "rs" => Some(FileType::RS),
        "py" => Some(FileType::PY),
        "rb" => Some(FileType::RB),
        _ => None,
    }
}

#[test]
fn file_type_of_path_agrees_with_std_extension() {
    let cases = [
        "", "/", ".", "..", "./", "../", "a.js", "./src/queries.js", "dir/file.php", "lib.rs",
        "x.py", "y.rb", "z.jsx", "z.ts", "z.tsx", "z.mjs", "z.cjs", "z.txt", "noext", ".js",
        ".hidden.js", "a.js/", "a.js//", "a.js/.", "a.js/./", "a.js/..", "a/../b.rs",
        "dir.rs/file", "file.", "file..rs", "...", "..rs", "x/.rs", "x/..rs", "a.tar.gz",
        "./tests/fixtures/by-language/js-fixture.js", "é/ü.py", "a//b//c.rb", "/abs/path.php",
        "a.JS", "a.Rs", "./.", "a/./b.js/.",
    ];
    for case in cases {
        assert_eq!(std_file_type(case), file_type_of_path(case), "path {:?}", case);
    }
}

#[test]
fn path_matches_file_type_by_extension() {
    assert!(path_matches_file_type("./src/queries.js", &FileType::JS));
    assert!(path_matches_file_type("a.tsx", &FileType::JS));
    assert!(path_matches_file_type("a.mjs", &FileType::JS));
    assert!(!path_matches_file_type("a.js", &FileType::PHP));
    assert!(path_matches_file_type("index.php", &FileType::PHP));
    assert!(path_matches_file_type("main.rs", &FileType::RS));
    assert!(path_matches_file_type("x.py", &FileType::PY));
    assert!(path_matches_file_type("x.rb", &FileType::RB));
    assert!(!path_matches_file_type(".rs", &FileType::RS));
    assert!(!path_matches_file_type("README", &FileType::RS));
}

#[test]
fn guess_takes_the_first_file_with_a_known_type() {
    let walked = vec![
        String::from("./README.md"),
        String::from("./only-php/other-php-fixture.php"),
        String::from("./src/main.rs"),
    ];
    assert_eq!(Some(FileType::PHP), guess_file_type_from_file_path(&walked));
    assert_eq!(None, guess_file_type_from_file_path(&vec![]));
    assert_eq!(
        None,
        guess_file_type_from_file_path(&vec![String::from("a.txt"), String::from("b")])
    );
}

#[test]
fn from_file_paths_guesses_from_the_first_walk_that_allows_it() {
    let walks = vec![
        vec![String::from("a.txt")],
        vec![],
        vec![String::from("b.md"), String::from("c.rb"), String::from("d.js")],
        vec![String::from("e.php")],
    ];
    assert_eq!(Ok(FileType::RB), FileType::from_file_paths(&walks));
    assert_eq!(
        Err("Unable to guess file type from file paths"),
        FileType::from_file_paths(&vec![vec![String::from("a.txt")]])
    );
    assert_eq!(
        Err("Unable to guess file type from file paths"),
        FileType::from_file_paths(&vec![])
    );
}

#[test]
fn from_string_accepts_names_and_aliases() {
    for name in [
        "js",
        "ts",
        "jsx",
        "tsx",
        "javascript",
        "javascript.jsx",
        "javascriptreact",
        "typescript",
        "typescript.tsx",
        "typescriptreact",
    ] {
        assert_eq!(Ok(FileType::JS), FileType::from_string(name));
    }
    assert_eq!(Ok(FileType::PHP), FileType::from_string("php"));
    assert_eq!(Ok(FileType::RS), FileType::from_string("rs"));
    assert_eq!(Ok(FileType::RS), FileType::from_string("rust"));
    assert_eq!(Ok(FileType::PY), FileType::from_string("py"));
    assert_eq!(Ok(FileType::PY), FileType::from_string("python"));
    assert_eq!(Ok(FileType::RB), FileType::from_string("rb"));
    assert_eq!(Ok(FileType::RB), FileType::from_string("ruby"));
}

#[test]
fn from_string_rejects_unknown_names() {
    assert_eq!(
        Err(String::from("Invalid file type 'cobol'")),
        FileType::from_string("cobol")
    );
    assert_eq!(Err(String::from("Invalid file type ''")), FileType::from_string(""));
    assert_eq!(Err(String::from("Invalid file type 'JS'")), FileType::from_string("JS"));
}

#[test]
fn to_string_names_round_trip() {
    for (t, name) in [
        (FileType::JS, "js"),
        (FileType::PHP, "php"),
        (FileType::RS, "rs"),
        (FileType::PY, "py"),
        (FileType::RB, "rb"),
    ] {
        assert_eq!(name, t.to_string());
        assert_eq!(Ok(t), FileType::from_string(&t.to_string()));
    }
}

fn chunked(contents: &[u8], size: usize) -> Vec<Vec<u8>> {
    contents.chunks(size).map(|c| c.to_vec()).collect()
}

#[test]
fn does_file_match_query_finds_occurrences_across_chunk_boundaries() {
    let contents = b"const x = 1;\nfunction parseQuery() {\n}\n";
    for size in 1..=contents.len() {
        let chunks = chunked(contents, size);
        assert!(does_file_match_query(&chunks, "parseQuery"), "chunk size {}", size);
        assert!(!does_file_match_query(&chunks, "parseQueries"), "chunk size {}", size);
        assert!(does_file_match_query(&chunks, "}\n"), "chunk size {}", size);
    }
}

#[test]
fn does_file_match_query_on_empty_file_and_empty_query() {
    assert!(!does_file_match_query(&vec![], "x"));
    assert!(!does_file_match_query(&vec![], ""));
    assert!(does_file_match_query(&vec![b"a".to_vec()], ""));
    assert!(does_file_match_query(&vec![b"ab".to_vec(), b"c".to_vec()], "abc"));
    assert!(!does_file_match_query(&vec![b"ab".to_vec(), b"c".to_vec()], "abcd"));
    assert!(does_file_match_query(&vec!["é".as_bytes().to_vec()], "é"));
}

#[test]
fn query_prescan_stops_at_the_chunk_that_completes_a_match() {
    let mut scan = QueryPrescan::new("needle");
    assert!(!scan.feed(b"hay hay nee"));
    assert!(!scan.feed(b"d"));
    assert!(scan.feed(b"le hay"));
    let mut other = QueryPrescan::new("needle");
    assert!(!other.feed(b"needl"));
    assert!(!other.feed(b"x needl"));
    assert!(other.feed(b"e"));
}

#[test]
fn a_path_matches_the_type_guessed_from_it_alone() {
    for path in ["a.js", "b.php", "c.rs", "d.py", "e.rb", "f.txt", "g", ".js"] {
        let guessed = guess_file_type_from_file_path(&vec![String::from(path)]);
        for t in [FileType::JS, FileType::PHP, FileType::RS, FileType::PY, FileType::RB] {
            assert_eq!(guessed == Some(t), path_matches_file_type(path, &t), "path {}", path);
        }
    }
}
