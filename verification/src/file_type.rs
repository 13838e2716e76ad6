//! File types: their names, how a path's extension selects one, and how a type is
//! guessed from the files that a walk of the search paths yields.
use vstd::prelude::*;
use vstd::string::*;
use crate::text::{chars_of, range_eq, str_eq};
use crate::query_regex::{regex_is_match, QueryRegex};

verus! {

/// The supported file types to search.
///
/// A string turns into a [FileType] with [FileType::from_string], which also accepts
/// aliases like `javascript`, `javascriptreact` or `typescript.tsx`.
#[derive(Clone, Copy, Debug, PartialEq, Eq, Structural)]
pub enum FileType {
    /// The JS (or TS) file type
    JS,
    /// The PHP file type
    PHP,
    /// The Rust file type
    RS,
    /// The Python file type
    PY,
    /// The Ruby file type
    RB,
}

/// The file type that a name given on the command line selects, if any.
pub open spec fn file_type_named(s: Seq<char>) -> Option<FileType> {
    if s == "js"@ || s == "ts"@ || s == "jsx"@ || s == "tsx"@ || s == "javascript"@ || s
        == "javascript.jsx"@ || s == "javascriptreact"@ || s == "typescript"@ || s
        == "typescript.tsx"@ || s == "typescriptreact"@ {
        Some(FileType::JS)
    } else if s == "php"@ {
        Some(FileType::PHP)
    } else if s == "rs"@ || s == "rust"@ {
        Some(FileType::RS)
    } else if s == "py"@ || s == "python"@ {
        Some(FileType::PY)
    } else if s == "rb"@ || s == "ruby"@ {
        Some(FileType::RB)
    } else {
        None
    }
}

/// The short name of a file type.
pub open spec fn file_type_name(t: FileType) -> Seq<char> {
    match t {
        FileType::JS => "js"@,
        FileType::PHP => "php"@,
        FileType::RS => "rs"@,
        FileType::PY => "py"@,
        FileType::RB => "rb"@,
    }
}

/// The message of the error that an unknown file type name gives.
pub open spec fn invalid_file_type_message(s: Seq<char>) -> Seq<char> {
    "Invalid file type '"@ + s + "'"@
}

/// The message of the error given when no file type could be guessed.
pub open spec fn unguessable_message() -> Seq<char> {
    "Unable to guess file type from file paths"@
}

// ---------------------------------------------------------------------------
// The extension of a path, as std's `Path::extension` takes it on Unix: the
// path's last component is its file name, where repeated and trailing `/` and
// `.` components do not count and `..` or no component at all gives none; the
// extension is what follows the last `.` of the file name, where a name without
// a `.`, or whose only `.` is its first character, has none.
// ---------------------------------------------------------------------------

/// Where the `/`-separated segment of `p` that ends at `end` starts.
pub open spec fn segment_start(p: Seq<char>, end: int) -> int
    decreases end,
{
    if end <= 0 {
        0
    } else if p[end - 1] == '/' {
        end
    } else {
        segment_start(p, end - 1)
    }
}

/// `segment_start` lies between the start of the path and `end`.
pub proof fn lemma_segment_start_bounds(p: Seq<char>, end: int)
    requires
        0 <= end,
    ensures
        0 <= segment_start(p, end) <= end,
    decreases end,
{
    if end > 0 && p[end - 1] != '/' {
        lemma_segment_start_bounds(p, end - 1);
    }
}

/// The file name of the path `p[..end]`.
pub open spec fn file_name_before(p: Seq<char>, end: int) -> Option<Seq<char>>
    decreases end,
{
    if end <= 0 {
        None
    } else {
        let s = segment_start(p, end);
        proof {
            lemma_segment_start_bounds(p, end);
        }
        if s == end {
            file_name_before(p, end - 1)
        } else if p.subrange(s, end) == seq!['.'] {
            file_name_before(p, s)
        } else if p.subrange(s, end) == seq!['.', '.'] {
            None
        } else {
            Some(p.subrange(s, end))
        }
    }
}

/// The file name of a path.
pub open spec fn file_name(p: Seq<char>) -> Option<Seq<char>> {
    file_name_before(p, p.len() as int)
}

/// The index of the last `.` in `n[..end]`, or -1.
pub open spec fn last_dot_before(n: Seq<char>, end: int) -> int
    decreases end,
{
    if end <= 0 {
        -1
    } else if n[end - 1] == '.' {
        end - 1
    } else {
        last_dot_before(n, end - 1)
    }
}

/// The extension of a file name.
pub open spec fn name_extension(n: Seq<char>) -> Option<Seq<char>> {
    let d = last_dot_before(n, n.len() as int);
    if d <= 0 {
        None
    } else {
        Some(n.subrange(d + 1, n.len() as int))
    }
}

/// The extension of a path.
pub open spec fn path_extension(p: Seq<char>) -> Option<Seq<char>> {
    match file_name(p) {
        Some(n) => name_extension(n),
        None => None,
    }
}

/// The file type that files with the extension `e` have.
pub open spec fn file_type_for_extension(e: Seq<char>) -> Option<FileType> {
    if e == "js"@ || e == "jsx"@ || e == "ts"@ || e == "tsx"@ || e == "mjs"@ || e == "cjs"@ {
        Some(FileType::JS)
    } else if e == "php"@ {
        Some(FileType::PHP)
    } else if e == "rs"@ {
        Some(FileType::RS)
    } else if e == "py"@ {
        Some(FileType::PY)
    } else if e == "rb"@ {
        Some(FileType::RB)
    } else {
        None
    }
}

/// The file type of a path, by its extension.
pub open spec fn path_file_type(p: Seq<char>) -> Option<FileType> {
    match path_extension(p) {
        Some(e) => file_type_for_extension(e),
        None => None,
    }
}

/// Where the extension of the path `v` lies in it, if it has one.
fn extension_range(v: &Vec<char>) -> (r: Option<(usize, usize)>)
    ensures
        match r {
            Some((lo, hi)) => lo <= hi <= v@.len() && path_extension(v@) == Some(
                v@.subrange(lo as int, hi as int),
            ),
            None => path_extension(v@) is None,
        },
{
    let ghost p = v@;
    let mut end: usize = v.len();
    loop
        invariant
            p == v@,
            end <= v@.len(),
            file_name(p) == file_name_before(p, end as int),
        decreases end,
    {
        if end == 0 {
            return None;
        }
        let mut s: usize = end;
        while s > 0 && v[s - 1] != '/'
            invariant
                p == v@,
                s <= end <= v@.len(),
                segment_start(p, end as int) == segment_start(p, s as int),
            decreases s,
        {
            s = s - 1;
        }
        assert(segment_start(p, end as int) == s);
        if s == end {
            end = end - 1;
        } else if end - s == 1 && v[s] == '.' {
            assert(p.subrange(s as int, end as int) =~= seq!['.']);
            end = s;
        } else if end - s == 2 && v[s] == '.' && v[s + 1] == '.' {
            assert(p.subrange(s as int, end as int) =~= seq!['.', '.']);
            return None;
        } else {
            assert(p.subrange(s as int, end as int) != seq!['.']) by {
                let dot1: Seq<char> = seq!['.'];
                assert(dot1.len() == 1 && dot1[0] == '.');
                if end - s == 1 {
                    assert(p.subrange(s as int, end as int)[0] == p[s as int]);
                }
            }
            assert(p.subrange(s as int, end as int) != seq!['.', '.']) by {
                let dot2: Seq<char> = seq!['.', '.'];
                assert(dot2.len() == 2 && dot2[0] == '.' && dot2[1] == '.');
                if end - s == 2 {
                    assert(p.subrange(s as int, end as int)[0] == p[s as int]);
                    assert(p.subrange(s as int, end as int)[1] == p[s + 1]);
                }
            }
            let ghost name = p.subrange(s as int, end as int);
            assert(file_name(p) == Some(name));
            let mut d: usize = end;
            while d > s && v[d - 1] != '.'
                invariant
                    p == v@,
                    s <= d <= end <= v@.len(),
                    name == p.subrange(s as int, end as int),
                    last_dot_before(name, name.len() as int) == last_dot_before(name, d - s),
                decreases d,
            {
                assert(name[d - s - 1] == p[d - 1]);
                d = d - 1;
            }
            if d == s {
                return None;
            }
            assert(name[d - s - 1] == p[d - 1]);
            if d - 1 == s {
                return None;
            }
            assert(name.subrange(d - s, name.len() as int) =~= p.subrange(d as int, end as int));
            return Some((d, end));
        }
    }
}

/// The file type of a path, by its extension (`None` where the extension is not
/// one of the supported ones, or there is none).
pub fn file_type_of_path(path: &str) -> (res: Option<FileType>)
    ensures
        res == path_file_type(path@),
{
    let v = chars_of(path);
    match extension_range(&v) {
        None => None,
        Some((lo, hi)) => {
            if range_eq(&v, lo, hi, "js") || range_eq(&v, lo, hi, "jsx") || range_eq(
                &v,
                lo,
                hi,
                "ts",
            ) || range_eq(&v, lo, hi, "tsx") || range_eq(&v, lo, hi, "mjs") || range_eq(
                &v,
                lo,
                hi,
                "cjs",
            ) {
                Some(FileType::JS)
            } else if range_eq(&v, lo, hi, "php") {
                Some(FileType::PHP)
            } else if range_eq(&v, lo, hi, "rs") {
                Some(FileType::RS)
            } else if range_eq(&v, lo, hi, "py") {
                Some(FileType::PY)
            } else if range_eq(&v, lo, hi, "rb") {
                Some(FileType::RB)
            } else {
                None
            }
        },
    }
}

/// Whether the extension of `path` is one that files of `file_type` have.
pub fn path_matches_file_type(path: &str, file_type: &FileType) -> (res: bool)
    ensures
        res == (path_file_type(path@) == Some(*file_type)),
{
    match file_type_of_path(path) {
        Some(t) => t == *file_type,
        None => false,
    }
}

/// Two names differ where their lengths or one of their first three characters do.
proof fn lemma_names_differ(a: Seq<char>, b: Seq<char>)
    requires
        a.len() != b.len() || (a.len() > 0 && b.len() > 0 && a[0] != b[0]) || (a.len() > 1
            && b.len() > 1 && a[1] != b[1]) || (a.len() > 2 && b.len() > 2 && a[2] != b[2]),
    ensures
        a != b,
{
}

/// A file type's short name names that file type again.
pub proof fn lemma_file_type_name_round_trip(t: FileType)
    ensures
        file_type_named(file_type_name(t)) == Some(t),
{
    reveal_strlit("js");
    reveal_strlit("ts");
    reveal_strlit("jsx");
    reveal_strlit("tsx");
    reveal_strlit("javascript");
    reveal_strlit("javascript.jsx");
    reveal_strlit("javascriptreact");
    reveal_strlit("typescript");
    reveal_strlit("typescript.tsx");
    reveal_strlit("typescriptreact");
    reveal_strlit("php");
    reveal_strlit("rs");
    reveal_strlit("rust");
    reveal_strlit("py");
    reveal_strlit("python");
    reveal_strlit("rb");
    reveal_strlit("ruby");
    match t {
        FileType::JS => {
            lemma_names_differ("js"@, "php"@);
            lemma_names_differ("js"@, "rs"@);
            lemma_names_differ("js"@, "rust"@);
            lemma_names_differ("js"@, "py"@);
            lemma_names_differ("js"@, "python"@);
            lemma_names_differ("js"@, "rb"@);
            lemma_names_differ("js"@, "ruby"@);
        },
        FileType::PHP => {
            lemma_names_differ("php"@, "js"@);
            lemma_names_differ("php"@, "ts"@);
            lemma_names_differ("php"@, "jsx"@);
            lemma_names_differ("php"@, "tsx"@);
            lemma_names_differ("php"@, "javascript"@);
            lemma_names_differ("php"@, "javascript.jsx"@);
            lemma_names_differ("php"@, "javascriptreact"@);
            lemma_names_differ("php"@, "typescript"@);
            lemma_names_differ("php"@, "typescript.tsx"@);
            lemma_names_differ("php"@, "typescriptreact"@);
            lemma_names_differ("php"@, "rs"@);
            lemma_names_differ("php"@, "rust"@);
            lemma_names_differ("php"@, "py"@);
            lemma_names_differ("php"@, "python"@);
            lemma_names_differ("php"@, "rb"@);
            lemma_names_differ("php"@, "ruby"@);
        },
        FileType::RS => {
            lemma_names_differ("rs"@, "js"@);
            lemma_names_differ("rs"@, "ts"@);
            lemma_names_differ("rs"@, "jsx"@);
            lemma_names_differ("rs"@, "tsx"@);
            lemma_names_differ("rs"@, "javascript"@);
            lemma_names_differ("rs"@, "javascript.jsx"@);
            lemma_names_differ("rs"@, "javascriptreact"@);
            lemma_names_differ("rs"@, "typescript"@);
            lemma_names_differ("rs"@, "typescript.tsx"@);
            lemma_names_differ("rs"@, "typescriptreact"@);
            lemma_names_differ("rs"@, "php"@);
            lemma_names_differ("rs"@, "py"@);
            lemma_names_differ("rs"@, "python"@);
            lemma_names_differ("rs"@, "rb"@);
            lemma_names_differ("rs"@, "ruby"@);
        },
        FileType::PY => {
            lemma_names_differ("py"@, "js"@);
            lemma_names_differ("py"@, "ts"@);
            lemma_names_differ("py"@, "jsx"@);
            lemma_names_differ("py"@, "tsx"@);
            lemma_names_differ("py"@, "javascript"@);
            lemma_names_differ("py"@, "javascript.jsx"@);
            lemma_names_differ("py"@, "javascriptreact"@);
            lemma_names_differ("py"@, "typescript"@);
            lemma_names_differ("py"@, "typescript.tsx"@);
            lemma_names_differ("py"@, "typescriptreact"@);
            lemma_names_differ("py"@, "php"@);
            lemma_names_differ("py"@, "rs"@);
            lemma_names_differ("py"@, "rust"@);
            lemma_names_differ("py"@, "rb"@);
            lemma_names_differ("py"@, "ruby"@);
        },
        FileType::RB => {
            lemma_names_differ("rb"@, "js"@);
            lemma_names_differ("rb"@, "ts"@);
            lemma_names_differ("rb"@, "jsx"@);
            lemma_names_differ("rb"@, "tsx"@);
            lemma_names_differ("rb"@, "javascript"@);
            lemma_names_differ("rb"@, "javascript.jsx"@);
            lemma_names_differ("rb"@, "javascriptreact"@);
            lemma_names_differ("rb"@, "typescript"@);
            lemma_names_differ("rb"@, "typescript.tsx"@);
            lemma_names_differ("rb"@, "typescriptreact"@);
            lemma_names_differ("rb"@, "php"@);
            lemma_names_differ("rb"@, "rs"@);
            lemma_names_differ("rb"@, "rust"@);
            lemma_names_differ("rb"@, "py"@);
            lemma_names_differ("rb"@, "python"@);
        },
    }
}

/// The views of a sequence of strings.
pub open spec fn string_views(v: Seq<String>) -> Seq<Seq<char>> {
    v.map_values(|s: String| s@)
}

/// The file type of the first of `paths` whose extension selects one.
pub open spec fn first_file_type(paths: Seq<Seq<char>>) -> Option<FileType>
    decreases paths.len(),
{
    if paths.len() == 0 {
        None
    } else {
        match path_file_type(paths[0]) {
            Some(t) => Some(t),
            None => first_file_type(paths.drop_first()),
        }
    }
}

/// The file type guessed from several walks: that of the first walk in which one
/// can be guessed.
pub open spec fn first_file_type_in_walks(walks: Seq<Seq<Seq<char>>>) -> Option<FileType>
    decreases walks.len(),
{
    if walks.len() == 0 {
        None
    } else {
        match first_file_type(walks[0]) {
            Some(t) => Some(t),
            None => first_file_type_in_walks(walks.drop_first()),
        }
    }
}

/// The views of the walks, one sequence of file paths per walk.
pub open spec fn walk_views(w: Seq<Vec<String>>) -> Seq<Seq<Seq<char>>> {
    w.map_values(|v: Vec<String>| string_views(v@))
}

/// A path matches a file type exactly when guessing from a walk that yields only
/// that path gives that type.
pub proof fn lemma_match_agrees_with_guess(p: Seq<char>, t: FileType)
    ensures
        (path_file_type(p) == Some(t)) <==> (first_file_type(seq![p]) == Some(t)),
{
    let one = seq![p];
    assert(one.drop_first() =~= Seq::<Seq<char>>::empty());
    assert(one[0] == p);
    assert(first_file_type(one.drop_first()) is None);
}

/// The guess from a walk is the type of the first path anywhere in it that has one:
/// there is none exactly when no path has a type; a guess is the type of a path that
/// only untyped paths precede; and the first typed path always gives the guess.
pub proof fn lemma_guess_is_the_first_typed_path(ps: Seq<Seq<char>>)
    ensures
        first_file_type(ps) is None <==> forall|i: int|
            0 <= i < ps.len() ==> #[trigger] path_file_type(ps[i]) is None,
        first_file_type(ps) matches Some(t) ==> exists|i: int|
            0 <= i < ps.len() && #[trigger] path_file_type(ps[i]) == Some(t) && forall|j: int|
                0 <= j < i ==> path_file_type(ps[j]) is None,
        forall|i: int|
            0 <= i < ps.len() && #[trigger] path_file_type(ps[i]) is Some && (forall|j: int|
                0 <= j < i ==> path_file_type(ps[j]) is None) ==> first_file_type(ps)
                == path_file_type(ps[i]),
    decreases ps.len(),
{
    if ps.len() > 0 {
        let rest = ps.drop_first();
        lemma_guess_is_the_first_typed_path(rest);
        assert forall|i: int| 0 < i < ps.len() implies ps[i] == rest[i - 1] by {}
        if path_file_type(ps[0]) is None {
            assert forall|i: int|
                0 <= i < ps.len() && #[trigger] path_file_type(ps[i]) is Some && (forall|j: int|
                    0 <= j < i ==> path_file_type(ps[j]) is None) implies first_file_type(ps)
                == path_file_type(ps[i]) by {
                assert(i > 0);
                assert(path_file_type(rest[i - 1]) is Some);
                assert forall|j: int| 0 <= j < i - 1 implies path_file_type(rest[j]) is None by {
                    assert(rest[j] == ps[j + 1]);
                }
            }
            if let Some(t) = first_file_type(ps) {
                let k = choose|k: int|
                    0 <= k < rest.len() && #[trigger] path_file_type(rest[k]) == Some(t) && forall|
                        j: int,
                    |
                        0 <= j < k ==> path_file_type(rest[j]) is None;
                assert(path_file_type(ps[k + 1]) == Some(t));
                assert forall|j: int| 0 <= j < k + 1 implies path_file_type(ps[j]) is None by {
                    if j > 0 {
                        assert(ps[j] == rest[j - 1]);
                    }
                }
            }
            if first_file_type(ps) is None {
                assert forall|i: int| 0 <= i < ps.len() implies #[trigger] path_file_type(ps[i])
                    is None by {
                    if i > 0 {
                        assert(ps[i] == rest[i - 1]);
                    }
                }
            }
        } else {
            assert(path_file_type(ps[0]) == first_file_type(ps));
        }
    }
}

/// Guessing from several walks is guessing from all their files, in order: the walks
/// one after the other.
pub proof fn lemma_walks_guess_as_one_walk(walks: Seq<Seq<Seq<char>>>)
    ensures
        first_file_type_in_walks(walks) == first_file_type(walks.flatten()),
    decreases walks.len(),
{
    if walks.len() > 0 {
        lemma_walks_guess_as_one_walk(walks.drop_first());
        lemma_first_file_type_concat(walks[0], walks.drop_first().flatten());
    }
}

/// The guess from two walks one after the other: from the first, or else from the
/// second.
pub proof fn lemma_first_file_type_concat(a: Seq<Seq<char>>, b: Seq<Seq<char>>)
    ensures
        first_file_type(a + b) == match first_file_type(a) {
            Some(t) => Some(t),
            None => first_file_type(b),
        },
    decreases a.len(),
{
    if a.len() == 0 {
        assert(a + b =~= b);
    } else {
        lemma_first_file_type_concat(a.drop_first(), b);
        assert((a + b).drop_first() =~= a.drop_first() + b);
        assert((a + b)[0] == a[0]);
    }
}

/// Guesses a file type from the files that a walk of one search path yields, in the
/// order of the walk: the type of the first file whose extension selects one.
pub fn guess_file_type_from_file_path(walked_files: &Vec<String>) -> (res: Option<FileType>)
    ensures
        res == first_file_type(string_views(walked_files@)),
{
    let ghost all = string_views(walked_files@);
    let mut i: usize = 0;
    assert(all.skip(0) =~= all);
    while i < walked_files.len()
        invariant
            i <= walked_files@.len(),
            all == string_views(walked_files@),
            first_file_type(all) == first_file_type(all.skip(i as int)),
        decreases walked_files@.len() - i,
    {
        assert(all.skip(i as int).drop_first() =~= all.skip(i + 1));
        assert(all.skip(i as int)[0] == walked_files@[i as int]@);
        if let Some(t) = file_type_of_path(walked_files[i].as_str()) {
            return Some(t);
        }
        i = i + 1;
    }
    assert(all.skip(i as int).len() == 0);
    None
}

impl FileType {
    /// Turns a name into a [FileType]; besides the short names (`js`, `php`, `rs`,
    /// `py`, `rb`) this accepts aliases like `javascript`, `jsx`, `typescript.tsx`,
    /// `rust`, `python` or `ruby`.
    pub fn from_string(file_type_string: &str) -> (res: Result<FileType, String>)
        ensures
            match file_type_named(file_type_string@) {
                Some(t) => res == Ok::<FileType, String>(t),
                None => res is Err && res->Err_0@ == invalid_file_type_message(
                    file_type_string@,
                ),
            },
    {
        let s = file_type_string;
        if str_eq(s, "js") || str_eq(s, "ts") || str_eq(s, "jsx") || str_eq(s, "tsx") || str_eq(
            s,
            "javascript",
        ) || str_eq(s, "javascript.jsx") || str_eq(s, "javascriptreact") || str_eq(
            s,
            "typescript",
        ) || str_eq(s, "typescript.tsx") || str_eq(s, "typescriptreact") {
            Ok(FileType::JS)
        } else if str_eq(s, "php") {
            Ok(FileType::PHP)
        } else if str_eq(s, "rs") || str_eq(s, "rust") {
            Ok(FileType::RS)
        } else if str_eq(s, "py") || str_eq(s, "python") {
            Ok(FileType::PY)
        } else if str_eq(s, "rb") || str_eq(s, "ruby") {
            Ok(FileType::RB)
        } else {
            let mut msg = String::from_str("Invalid file type '");
            msg.append(s);
            msg.append("'");
            Err(msg)
        }
    }

    /// The short name of the file type (`js`, `php`, `rs`, `py` or `rb`).
    pub fn to_string(&self) -> (res: String)
        ensures
            res@ == file_type_name(*self),
    {
        match self {
            FileType::JS => String::from_str("js"),
            FileType::PHP => String::from_str("php"),
            FileType::RS => String::from_str("rs"),
            FileType::PY => String::from_str("py"),
            FileType::RB => String::from_str("rb"),
        }
    }

    /// Guesses a [FileType] from walks of the search paths: `walks[i]` holds the files
    /// that a walk of the i-th search path yields, in the walk's order. The guess is
    /// the type of the first file, in the first walk that has one, whose extension
    /// selects a type. If the paths hold several supported types this may not be the
    /// one that was meant; giving the type explicitly is more reliable.
    pub fn from_file_paths(walks: &Vec<Vec<String>>) -> (res: Result<FileType, &'static str>)
        ensures
            match first_file_type_in_walks(walk_views(walks@)) {
                Some(t) => res == Ok::<FileType, &'static str>(t),
                None => res is Err && res->Err_0@ == unguessable_message(),
            },
    {
        let ghost all = walk_views(walks@);
        let mut i: usize = 0;
        assert(all.skip(0) =~= all);
        while i < walks.len()
            invariant
                i <= walks@.len(),
                all == walk_views(walks@),
                first_file_type_in_walks(all) == first_file_type_in_walks(all.skip(i as int)),
            decreases walks@.len() - i,
        {
            assert(all.skip(i as int).drop_first() =~= all.skip(i + 1));
            assert(all.skip(i as int)[0] == string_views(walks@[i as int]@));
            if let Some(t) = guess_file_type_from_file_path(&walks[i]) {
                return Ok(t);
            }
            i = i + 1;
        }
        assert(all.skip(i as int).len() == 0);
        Err("Unable to guess file type from file paths")
    }
}

/// Whether a file's contents, read whole as text, show a match of `re`: `contents` is
/// `None` where the file could not be read as text. An empty or unreadable file never
/// matches.
pub fn does_file_match_regexp(contents: Option<&str>, re: &QueryRegex) -> (res: bool)
    ensures
        res == (contents matches Some(c) && c@.len() > 0 && regex_is_match(re@, c@)),
{
    match contents {
        None => false,
        Some(c) => {
            if c.is_empty() {
                false
            } else {
                re.is_match(c)
            }
        },
    }
}

/// Whether `needle` occurs in `hay` at index `i`.
pub open spec fn occurs_at(hay: Seq<u8>, needle: Seq<u8>, i: int) -> bool {
    0 <= i && i + needle.len() <= hay.len() && hay.subrange(i, i + needle.len()) == needle
}

/// Whether `needle` occurs anywhere in `hay`.
pub open spec fn occurs(hay: Seq<u8>, needle: Seq<u8>) -> bool {
    exists|i: int| occurs_at(hay, needle, i)
}

/// Calls `memchr::memmem::find`, which returns the index of the first occurrence of
/// `needle` in `haystack` (an empty needle occurs at every index, so at 0).
#[verifier::external_body]
fn memmem_find(haystack: &[u8], needle: &[u8]) -> (res: Option<usize>)
    ensures
        match res {
            Some(i) => occurs_at(haystack@, needle@, i as int) && forall|j: int|
                0 <= j < i ==> !occurs_at(haystack@, needle@, j),
            None => forall|j: int| !occurs_at(haystack@, needle@, j),
        },
{
    memchr::memmem::find(haystack, needle)
}

/// A search for the bytes of a query in a file that is read in chunks, which stops
/// at the first chunk that completes an occurrence. Between chunks it keeps only the
/// last `query.len() - 1` bytes read, enough for an occurrence that spans a chunk
/// boundary.
pub struct QueryPrescan {
    needle: Vec<u8>,
    window: Vec<u8>,
    seen: Ghost<Seq<u8>>,
}

impl QueryPrescan {
    /// The bytes searched for.
    pub closed spec fn needle(&self) -> Seq<u8> {
        self.needle@
    }

    /// All the bytes fed so far.
    pub closed spec fn seen(&self) -> Seq<u8> {
        self.seen@
    }

    /// How many of the last bytes fed are kept.
    pub closed spec fn overlap(&self) -> int {
        if self.needle@.len() == 0 {
            0
        } else {
            self.needle@.len() - 1
        }
    }

    /// Whether the search may go on: nothing fed so far shows an occurrence, and the
    /// kept bytes are the last ones fed.
    pub closed spec fn searching(&self) -> bool {
        let seen = self.seen@;
        let w = if seen.len() < self.overlap() {
            seen.len() as int
        } else {
            self.overlap()
        };
        &&& self.window@ == seen.subrange(seen.len() - w, seen.len() as int)
        &&& !(seen.len() > 0 && occurs(seen, self.needle@))
    }

    /// A search for the bytes of `query`, with nothing read yet.
    pub fn new(query: &str) -> (res: QueryPrescan)
        ensures
            res.needle() == query.spec_bytes(),
            res.seen() == Seq::<u8>::empty(),
            res.searching(),
    {
        let needle = query.as_bytes_vec();
        let res = QueryPrescan { needle, window: Vec::new(), seen: Ghost(Seq::empty()) };
        assert(res.seen@.subrange(0, 0) =~= res.window@);
        res
    }

    /// Feeds the next chunk read from the file; `true` where the bytes fed so far
    /// hold an occurrence of the query, after which the search is over.
    pub fn feed(&mut self, chunk: &[u8]) -> (found: bool)
        requires
            old(self).searching(),
            chunk@.len() > 0,
        ensures
            final(self).needle() == old(self).needle(),
            final(self).seen() == old(self).seen() + chunk@,
            found == occurs(final(self).seen(), final(self).needle()),
            !found ==> final(self).searching(),
    {
        let ghost old_seen = self.seen@;
        let ghost needle = self.needle@;
        let ghost ov = self.overlap();
        let ghost w = self.window@.len() as int;
        let ghost new_seen = old_seen + chunk@;
        let mut full: Vec<u8> = Vec::new();
        let mut i: usize = 0;
        while i < self.window.len()
            invariant
                i <= self.window@.len(),
                full@ == self.window@.subrange(0, i as int),
            decreases self.window@.len() - i,
        {
            full.push(self.window[i]);
            assert(full@ =~= self.window@.subrange(0, i + 1));
            i = i + 1;
        }
        let mut k: usize = 0;
        while k < chunk.len()
            invariant
                k <= chunk@.len(),
                full@ == self.window@ + chunk@.subrange(0, k as int),
            decreases chunk@.len() - k,
        {
            full.push(chunk[k]);
            assert(full@ =~= self.window@ + chunk@.subrange(0, k + 1));
            k = k + 1;
        }
        assert(chunk@.subrange(0, chunk@.len() as int) =~= chunk@);
        // `full` is the suffix of everything fed that starts `w` bytes before the chunk.
        let ghost off = old_seen.len() - w;
        assert(full@ =~= new_seen.subrange(off, new_seen.len() as int));
        self.seen = Ghost(new_seen);
        let found = memmem_find(full.as_slice(), self.needle.as_slice());
        match found {
            Some(j) => {
                assert(new_seen.subrange(off + j, off + j + needle.len()) =~= full@.subrange(
                    j as int,
                    j + needle.len(),
                ));
                assert(occurs_at(new_seen, needle, off + j));
            },
            None => {
                assert forall|x: int| !occurs_at(new_seen, needle, x) by {
                    if occurs_at(new_seen, needle, x) {
                        if x + needle.len() <= old_seen.len() {
                            assert(old_seen.subrange(x, x + needle.len()) =~= new_seen.subrange(
                                x,
                                x + needle.len(),
                            ));
                            assert(occurs_at(old_seen, needle, x));
                            if old_seen.len() == 0 {
                                assert(full@.subrange(0, 0) =~= needle);
                                assert(occurs_at(full@, needle, 0));
                            }
                        } else {
                            assert(x >= off);
                            assert(full@.subrange(x - off, x - off + needle.len())
                                =~= new_seen.subrange(x, x + needle.len()));
                            assert(occurs_at(full@, needle, x - off));
                        }
                    }
                }
                let ov: usize = if self.needle.len() == 0 {
                    0
                } else {
                    self.needle.len() - 1
                };
                if full.len() > ov {
                    let kept = full.split_off(full.len() - ov);
                    assert(kept@ =~= new_seen.subrange(new_seen.len() - ov, new_seen.len() as int));
                    self.window = kept;
                } else {
                    assert(full@.len() == new_seen.len()) by {
                        assert(w == old_seen.len());
                    }
                    assert(full@ =~= new_seen.subrange(0, new_seen.len() as int));
                    self.window = full;
                }
            },
        }
        found.is_some()
    }
}

/// The bytes of several chunks, one after the other.
pub open spec fn concatenation(chunks: Seq<Seq<u8>>) -> Seq<u8>
    decreases chunks.len(),
{
    if chunks.len() == 0 {
        Seq::empty()
    } else {
        concatenation(chunks.drop_last()) + chunks.last()
    }
}

/// The views of a sequence of byte vectors.
pub open spec fn chunk_views(chunks: Seq<Vec<u8>>) -> Seq<Seq<u8>> {
    chunks.map_values(|c: Vec<u8>| c@)
}

/// An occurrence stays one when more bytes follow.
pub proof fn lemma_occurs_extend(a: Seq<u8>, b: Seq<u8>, needle: Seq<u8>)
    requires
        occurs(a, needle),
    ensures
        occurs(a + b, needle),
{
    let i = choose|i: int| occurs_at(a, needle, i);
    assert((a + b).subrange(i, i + needle.len()) =~= a.subrange(i, i + needle.len()));
    assert(occurs_at(a + b, needle, i));
}

/// Whether a file, given as the chunks that reading it returned up to its end,
/// contains the bytes of `query`. The chunks are searched one after the other,
/// stopping at the first that completes an occurrence; the answer does not depend on
/// how the contents are cut into chunks. An empty file never matches.
pub fn does_file_match_query(chunks: &Vec<Vec<u8>>, query: &str) -> (res: bool)
    requires
        forall|i: int| 0 <= i < chunks@.len() ==> chunks@[i]@.len() > 0,
    ensures
        res == ({
            let contents = concatenation(chunk_views(chunks@));
            contents.len() > 0 && occurs(contents, query.spec_bytes())
        }),
{
    let ghost views = chunk_views(chunks@);
    let mut scan = QueryPrescan::new(query);
    let mut i: usize = 0;
    assert(views.take(0) =~= Seq::<Seq<u8>>::empty());
    while i < chunks.len()
        invariant
            i <= chunks@.len(),
            views == chunk_views(chunks@),
            forall|k: int| 0 <= k < chunks@.len() ==> chunks@[k]@.len() > 0,
            scan.searching(),
            scan.needle() == query.spec_bytes(),
            scan.seen() == concatenation(views.take(i as int)),
        decreases chunks@.len() - i,
    {
        assert(views.take(i + 1).drop_last() =~= views.take(i as int));
        assert(views[i as int] == chunks@[i as int]@);
        let found = scan.feed(chunks[i].as_slice());
        if found {
            let ghost rest = views.skip(i + 1);
            proof {
                lemma_concatenation_split(views, i + 1);
                lemma_occurs_extend(scan.seen(), concatenation(rest), query.spec_bytes());
            }
            return true;
        }
        i = i + 1;
    }
    assert(views.take(i as int) =~= views);
    false
}

/// Concatenating all chunks is concatenating the first `k` and then the rest.
pub proof fn lemma_concatenation_split(chunks: Seq<Seq<u8>>, k: int)
    requires
        0 <= k <= chunks.len(),
    ensures
        concatenation(chunks) =~= concatenation(chunks.take(k)) + concatenation(chunks.skip(k)),
    decreases chunks.len() - k,
{
    if k == chunks.len() {
        assert(chunks.take(k) =~= chunks);
        assert(chunks.skip(k) =~= Seq::<Seq<u8>>::empty());
    } else {
        lemma_concatenation_split(chunks, k + 1);
        lemma_concatenation_prepend(chunks.skip(k));
        assert(chunks.skip(k).drop_first() =~= chunks.skip(k + 1));
        assert(chunks.take(k + 1).drop_last() =~= chunks.take(k));
    }
}

/// Concatenating a nonempty list of chunks is its first chunk, then the others.
pub proof fn lemma_concatenation_prepend(chunks: Seq<Seq<u8>>)
    requires
        chunks.len() > 0,
    ensures
        concatenation(chunks) =~= chunks[0] + concatenation(chunks.drop_first()),
    decreases chunks.len(),
{
    if chunks.len() > 1 {
        lemma_concatenation_prepend(chunks.drop_last());
        assert(chunks.drop_last().drop_first() =~= chunks.drop_first().drop_last());
    } else {
        assert(chunks.drop_first() =~= Seq::<Seq<u8>>::empty());
        assert(chunks.drop_last() =~= Seq::<Seq<u8>>::empty());
    }
}

} // verus!
