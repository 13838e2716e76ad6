//! The regular expression that finds the definition of a symbol in each file type.
use vstd::prelude::*;
use vstd::string::*;
use crate::file_type::FileType;
use crate::compiled_regex::compile_regex;
pub use crate::compiled_regex::{regex_compiles, regex_is_match, QueryRegex};

verus! {

/// The pattern that finds a definition of the symbol `q` in files of type `t`.
pub open spec fn query_pattern(q: Seq<char>, t: FileType) -> Seq<char> {
    match t {
        FileType::JS => r"(?:\b(?:function|var|let|const|class|interface|type)\s+"@ + q
            + r"\b|\b"@ + q + r"\([^)]*\)\s*(?::[^\{]+)?\{|\b"@ + q
            + r":|@typedef\s*(?:\{[^\}]+\})?\s*"@ + q + r"\b)"@,
        FileType::PHP => r"\b(?:function|class|trait|interface|enum|const) "@ + q
            + r#"\b|\bdefine\s*\(\s*['"]"#@ + q + r#"['"]"#@,
        FileType::RS => r"\b(?:fn|trait|enum|struct|mod) "@ + q + r"\b"@,
        FileType::PY => r"\b(?:(?:async\s+)?def|class)\s+"@ + q + r"\b"@,
        FileType::RB => r"\b(?:def|class|module)\s+(?:self\.)?"@ + q + r"\b"@,
    }
}

/// The pattern that finds a definition of `query` in files of type `file_type`.
pub fn regex_pattern_for_query(query: &str, file_type: &FileType) -> (res: String)
    ensures
        res@ == query_pattern(query@, *file_type),
{
    let mut p: String;
    match file_type {
        FileType::JS => {
            p = String::from_str(r"(?:\b(?:function|var|let|const|class|interface|type)\s+");
            p.append(query);
            p.append(r"\b|\b");
            p.append(query);
            p.append(r"\([^)]*\)\s*(?::[^\{]+)?\{|\b");
            p.append(query);
            p.append(r":|@typedef\s*(?:\{[^\}]+\})?\s*");
            p.append(query);
            p.append(r"\b)");
        },
        FileType::PHP => {
            p = String::from_str(r"\b(?:function|class|trait|interface|enum|const) ");
            p.append(query);
            p.append(r#"\b|\bdefine\s*\(\s*['"]"#);
            p.append(query);
            p.append(r#"['"]"#);
        },
        FileType::RS => {
            p = String::from_str(r"\b(?:fn|trait|enum|struct|mod) ");
            p.append(query);
            p.append(r"\b");
        },
        FileType::PY => {
            p = String::from_str(r"\b(?:(?:async\s+)?def|class)\s+");
            p.append(query);
            p.append(r"\b");
        },
        FileType::RB => {
            p = String::from_str(r"\b(?:def|class|module)\s+(?:self\.)?");
            p.append(query);
            p.append(r"\b");
        },
    }
    p
}

/// The compiled expression that finds a definition of `query` in files of type
/// `file_type`. The query is put into the pattern as it is, so its characters keep
/// their meaning in regular expressions; the pattern must compile.
pub fn get_regex_for_query(query: &str, file_type: &FileType) -> (res: QueryRegex)
    requires
        regex_compiles(query_pattern(query@, *file_type)),
    ensures
        res@ == query_pattern(query@, *file_type),
{
    let pattern = regex_pattern_for_query(query, file_type);
    compile_regex(pattern).expect("Could not create regex for file type query")
}

/// Like [get_regex_for_query], but `None` where the pattern does not compile (for a
/// query with characters that are special in regular expressions, such as `(`).
pub fn try_get_regex_for_query(query: &str, file_type: &FileType) -> (res: Option<QueryRegex>)
    ensures
        res is Some <==> regex_compiles(query_pattern(query@, *file_type)),
        res matches Some(r) ==> r@ == query_pattern(query@, *file_type),
{
    let pattern = regex_pattern_for_query(query, file_type);
    match compile_regex(pattern) {
        Ok(_) => Some(get_regex_for_query(query, file_type)),
        Err(_) => None,
    }
}

} // verus!
