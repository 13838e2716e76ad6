//! The search: its arguments and configuration, how a file's lines are matched, how
//! many results are delivered, and how results are written out.
use vstd::prelude::*;
use vstd::string::*;
use crate::file_type::{
    file_type_named, first_file_type_in_walks, invalid_file_type_message, string_views,
    unguessable_message, walk_views, FileType,
};
use crate::query_regex::{regex_is_match, QueryRegex};
use crate::text::{decimal, json_string, push_decimal, push_json_string, str_eq, trim, trimmed};

verus! {

/// (Advanced) The search algorithm to use for each file.
///
/// A pre-scan quickly skips the files that cannot hold a match, which should be
/// most files; the default rarely needs changing.
#[derive(Clone, Copy, Debug, PartialEq, Eq, Structural)]
pub enum SearchMethod {
    /// Pre-scan each file by reading it whole and matching the regular expression
    PrescanRegex,
    /// Pre-scan each file by reading bytes until the query is found
    PrescanMemmem,
    /// Don't pre-scan files
    NoPrescan,
}

impl Default for SearchMethod {
    fn default() -> (res: SearchMethod)
        ensures
            res == SearchMethod::PrescanRegex,
    {
        SearchMethod::PrescanRegex
    }
}

/// The output format of a [SearchResult].
#[derive(Clone, Copy, Debug, PartialEq, Eq, Structural)]
pub enum SearchResultFormat {
    /// grep-like output: colon-separated path, line number and text
    Grep,
    /// JSON output: one document per match
    JsonPerMatch,
    /// JSON output: one array document with all results
    JsonList,
}

impl Default for SearchResultFormat {
    fn default() -> (res: SearchResultFormat)
        ensures
            res == SearchResultFormat::Grep,
    {
        SearchResultFormat::Grep
    }
}

/// The arguments to color output.
#[derive(Clone, Copy, Debug, PartialEq, Eq, Structural)]
pub enum ColorOption {
    /// Always colorize
    ALWAYS,
    /// Never colorize
    NEVER,
    /// Auto-detect colorize
    AUTO,
}

/// The color option that a name selects, if any.
pub open spec fn color_option_named(s: Seq<char>) -> Option<ColorOption> {
    if s == "always"@ {
        Some(ColorOption::ALWAYS)
    } else if s == "never"@ {
        Some(ColorOption::NEVER)
    } else if s == "auto"@ {
        Some(ColorOption::AUTO)
    } else {
        None
    }
}

/// The message of the error that an unknown color option gives.
pub open spec fn invalid_color_message(s: Seq<char>) -> Seq<char> {
    "Invalid color option '"@ + s + "'"@
}

impl ColorOption {
    /// Turns `always`, `never` or `auto` into a [ColorOption].
    pub fn from_string(color_option_string: &str) -> (res: Result<ColorOption, String>)
        ensures
            match color_option_named(color_option_string@) {
                Some(c) => res == Ok::<ColorOption, String>(c),
                None => res is Err && res->Err_0@ == invalid_color_message(color_option_string@),
            },
    {
        if str_eq(color_option_string, "always") {
            Ok(ColorOption::ALWAYS)
        } else if str_eq(color_option_string, "never") {
            Ok(ColorOption::NEVER)
        } else if str_eq(color_option_string, "auto") {
            Ok(ColorOption::AUTO)
        } else {
            let mut msg = String::from_str("Invalid color option '");
            msg.append(color_option_string);
            msg.append("'");
            Err(msg)
        }
    }
}

/// The command-line arguments of a search.
///
/// The only required field is [Args::query].
#[derive(Debug)]
pub struct Args {
    /// (Required) The symbol name (function, class, etc.) to search for
    pub query: String,
    /// The file path(s) to search; directories are searched recursively, respecting .gitignore
    pub file_path: Option<Vec<String>>,
    /// The file type to search (js, php, rs, ts, py, rb); guessed if not set
    pub file_type: Option<String>,
    /// Show line numbers of matches if set
    pub line_number: bool,
    /// Control color output ("never", "always", "auto"); default "auto"
    pub color: Option<String>,
    /// Disable color
    pub no_color: bool,
    /// Limit the number of results
    pub limit: Option<usize>,
    /// (Advanced) Print debugging information
    pub debug: bool,
    /// (Advanced) The searching method
    pub search_method: Option<SearchMethod>,
    /// (Advanced) The number of threads to use; never zero
    pub threads: Option<usize>,
    /// The output format; defaults to 'grep'
    pub format: Option<SearchResultFormat>,
}

/// Whether `args` holds the given query, file type, paths and line-number choice,
/// and the defaults in every other field.
pub open spec fn args_with(
    args: Args,
    query: Seq<char>,
    file_type: Option<String>,
    file_path: Option<Vec<String>>,
    line_number: bool,
) -> bool {
    &&& args.query@ == query
    &&& args.file_type == file_type
    &&& args.file_path == file_path
    &&& args.line_number == line_number
    &&& args.color is None
    &&& !args.no_color
    &&& args.limit is None
    &&& !args.debug
    &&& args.search_method is None
    &&& args.threads is None
    &&& args.format is None
}

impl Default for Args {
    fn default() -> (res: Args)
        ensures
            args_with(res, Seq::empty(), None, None, false),
    {
        Args {
            query: String::new(),
            file_path: None,
            file_type: None,
            line_number: false,
            color: None,
            no_color: false,
            limit: None,
            debug: false,
            search_method: None,
            threads: None,
            format: None,
        }
    }
}

impl Args {
    /// Arguments for a search of `query` with the minimal configuration: the current
    /// directory, a guessed file type, no line numbers.
    pub fn from_query(query: &str) -> (res: Args)
        ensures
            args_with(res, query@, None, None, false),
    {
        Args { query: String::from_str(query), ..Args::default() }
    }

    /// Arguments for a search with the given query, file type, paths and choice of
    /// line numbers, and the defaults otherwise.
    pub fn new(
        query: String,
        file_type: Option<String>,
        file_path: Option<Vec<String>>,
        line_number: bool,
    ) -> (res: Args)
        ensures
            args_with(res, query@, file_type, file_path, line_number),
    {
        Args { query, file_type, file_path, line_number, ..Args::default() }
    }

    /// The paths to search: those given, or the current directory.
    pub fn resolved_file_paths(&self) -> (res: Vec<String>)
        ensures
            string_views(res@) == resolved_paths(self.file_path),
    {
        match &self.file_path {
            None => {
                let mut v: Vec<String> = Vec::new();
                v.push(String::from_str("."));
                assert(string_views(v@) =~= seq!["."@]);
                v
            },
            Some(paths) => {
                let mut v: Vec<String> = Vec::new();
                let mut i: usize = 0;
                while i < paths.len()
                    invariant
                        i <= paths@.len(),
                        v@.len() == i,
                        forall|k: int| 0 <= k < i ==> v@[k]@ == paths@[k]@,
                    decreases paths@.len() - i,
                {
                    let c = paths[i].clone();
                    v.push(c);
                    i = i + 1;
                }
                assert(string_views(v@) =~= string_views(paths@));
                v
            },
        }
    }
}

/// The paths that a search covers: those given, or the current directory.
pub open spec fn resolved_paths(file_path: Option<Vec<String>>) -> Seq<Seq<char>> {
    match file_path {
        Some(v) => string_views(v@),
        None => seq!["."@],
    }
}

/// The configuration of a [Searcher], made from [Args] by [Config::new].
#[derive(Clone, Debug)]
pub struct Config {
    /// The symbol name (function, class, etc.) being searched for
    pub query: String,
    /// The paths to search, ignoring invisible or gitignored files
    pub file_paths: Vec<String>,
    /// The type of files to scan
    pub file_type: FileType,
    /// Include line numbers in results if true
    pub line_number: bool,
    /// Output debugging info during the search if true
    pub debug: bool,
    /// Limit the number of results
    pub limit: Option<usize>,
    /// Explicitly disable color output if true
    pub no_color: bool,
    /// Explicitly control color output
    pub color: ColorOption,
    /// The [SearchMethod] to use
    pub search_method: SearchMethod,
    /// The number of threads to use for searching files; never zero
    pub num_threads: usize,
    /// The output format
    pub format: SearchResultFormat,
}

/// The file type of a search: the one named in the arguments, or else the one
/// guessed from the walks of the search paths; or the error message.
pub open spec fn configured_file_type(args: Args, walks: Seq<Seq<Seq<char>>>) -> Result<
    FileType,
    Seq<char>,
> {
    match args.file_type {
        Some(s) => match file_type_named(s@) {
            Some(t) => Ok(t),
            None => Err(invalid_file_type_message(s@)),
        },
        None => match first_file_type_in_walks(walks) {
            Some(t) => Ok(t),
            None => Err(unguessable_message()),
        },
    }
}

/// The color option of a search (`AUTO` unless one is named); or the error message.
pub open spec fn configured_color(args: Args) -> Result<ColorOption, Seq<char>> {
    match args.color {
        Some(s) => match color_option_named(s@) {
            Some(c) => Ok(c),
            None => Err(invalid_color_message(s@)),
        },
        None => Ok(ColorOption::AUTO),
    }
}

/// The number of threads of a search: the one asked for, or else the parallelism
/// that the machine offers, or else five.
pub open spec fn configured_threads(args: Args, available: Option<usize>) -> usize {
    match args.threads {
        Some(n) => n,
        None => match available {
            Some(n) => n,
            None => 5,
        },
    }
}

/// Whether `c` is the configuration that `args` give, with the file type `t`, the
/// color option `color` and the machine's parallelism `available`.
pub open spec fn configured(
    c: Config,
    args: Args,
    t: FileType,
    color: ColorOption,
    available: Option<usize>,
) -> bool {
    &&& c.query@ == args.query@
    &&& string_views(c.file_paths@) == resolved_paths(args.file_path)
    &&& c.file_type == t
    &&& c.line_number == args.line_number
    &&& c.debug == args.debug
    &&& c.limit == args.limit
    &&& c.no_color == args.no_color
    &&& c.color == color
    &&& c.search_method == match args.search_method {
        Some(m) => m,
        None => SearchMethod::PrescanRegex,
    }
    &&& c.num_threads == configured_threads(args, available)
    &&& c.format == match args.format {
        Some(f) => f,
        None => SearchResultFormat::Grep,
    }
}

/// What [Config::new] gives for `args`, the walks and the machine's parallelism.
pub open spec fn config_result(
    res: Result<Config, String>,
    args: Args,
    walks: Seq<Seq<Seq<char>>>,
    available: Option<usize>,
) -> bool {
    match configured_file_type(args, walks) {
        Err(m) => res is Err && res->Err_0@ == m,
        Ok(t) => match configured_color(args) {
            Err(m) => res is Err && res->Err_0@ == m,
            Ok(color) => res is Ok && configured(res->Ok_0, args, t, color, available),
        },
    }
}

/// A configuration keeps what the arguments say: it searches exactly the paths given
/// (the current directory only when none is given), keeps the query and the choices
/// of line numbers, limit, debugging and color, takes the file type named (or else
/// the one guessed from the walks) and the threads asked for (or else those the
/// machine offers, or else five); and making one fails exactly when the file type
/// named is unknown, none can be guessed, or the color option named is unknown.
pub proof fn lemma_config_follows_the_arguments(
    res: Result<Config, String>,
    args: Args,
    walks: Seq<Seq<Seq<char>>>,
    available: Option<usize>,
)
    requires
        config_result(res, args, walks, available),
    ensures
        res is Err <==> ({
            ||| args.file_type matches Some(s) && file_type_named(s@) is None
            ||| args.file_type is None && first_file_type_in_walks(walks) is None
            ||| args.color matches Some(c) && color_option_named(c@) is None
        }),
        res matches Ok(c) ==> {
            &&& args.file_path matches Some(v) ==> string_views(c.file_paths@) == string_views(
                v@,
            )
            &&& args.file_path is None ==> c.file_paths@.len() == 1 && c.file_paths@[0]@ == "."@
            &&& c.query@ == args.query@
            &&& c.line_number == args.line_number
            &&& c.limit == args.limit
            &&& c.debug == args.debug
            &&& c.no_color == args.no_color
            &&& args.file_type matches Some(s) ==> file_type_named(s@) == Some(c.file_type)
            &&& args.file_type is None ==> first_file_type_in_walks(walks) == Some(c.file_type)
            &&& args.color matches Some(s) ==> color_option_named(s@) == Some(c.color)
            &&& args.color is None ==> c.color == ColorOption::AUTO
            &&& args.threads matches Some(n) ==> c.num_threads == n
            &&& args.threads is None ==> (available matches Some(n) ==> c.num_threads == n)
            &&& (args.threads is None && available is None) ==> c.num_threads == 5
            &&& args.search_method matches Some(m) ==> c.search_method == m
            &&& args.format matches Some(f) ==> c.format == f
        },
{
    if let Ok(c) = res {
        if args.file_path is None {
            let dot: Seq<Seq<char>> = seq!["."@];
            assert(dot.len() == 1 && dot[0] == "."@);
            assert(string_views(c.file_paths@) == dot);
            assert(string_views(c.file_paths@).len() == c.file_paths@.len());
            assert(string_views(c.file_paths@)[0] == c.file_paths@[0]@);
        }
    }
}

impl Config {
    /// Makes the configuration of a search from its arguments.
    ///
    /// Where no file type is given it is guessed from `walks`: `walks[i]` holds the
    /// files that a walk of the i-th search path yields (see
    /// [FileType::from_file_paths]); it is not looked at otherwise. `available_threads`
    /// is the parallelism that the machine offers, if known; it is the number of
    /// threads unless the arguments name one.
    pub fn new(args: Args, walks: &Vec<Vec<String>>, available_threads: Option<usize>) -> (res:
        Result<Config, String>)
        requires
            args.threads != Some(0usize),
            available_threads != Some(0usize),
        ensures
            config_result(res, args, walk_views(walks@), available_threads),
            res matches Ok(c) ==> c.num_threads > 0,
    {
        let file_paths = match args.file_path {
            Some(file_path) => file_path,
            None => {
                let mut v: Vec<String> = Vec::new();
                v.push(String::from_str("."));
                assert(string_views(v@) =~= seq!["."@]);
                v
            },
        };
        let file_type = match &args.file_type {
            Some(name) => match FileType::from_string(name.as_str()) {
                Ok(t) => t,
                Err(e) => {
                    return Err(e);
                },
            },
            None => match FileType::from_file_paths(walks) {
                Ok(t) => t,
                Err(e) => {
                    return Err(String::from_str(e));
                },
            },
        };
        let color = match &args.color {
            Some(name) => match ColorOption::from_string(name.as_str()) {
                Ok(c) => c,
                Err(e) => {
                    return Err(e);
                },
            },
            None => ColorOption::AUTO,
        };
        let num_threads = match args.threads {
            Some(n) => n,
            None => match available_threads {
                Some(n) => n,
                None => 5,
            },
        };
        let search_method = match args.search_method {
            Some(m) => m,
            None => SearchMethod::PrescanRegex,
        };
        let format = match args.format {
            Some(f) => f,
            None => SearchResultFormat::Grep,
        };
        Ok(
            Config {
                query: args.query,
                file_paths,
                file_type,
                line_number: args.line_number,
                debug: args.debug,
                no_color: args.no_color,
                color,
                search_method,
                limit: args.limit,
                num_threads,
                format,
            },
        )
    }
}

/// A search, ready to run.
pub struct Searcher {
    config: Config,
}

impl Searcher {
    /// The configuration of the search.
    pub closed spec fn settings(&self) -> Config {
        self.config
    }

    /// Makes a searcher from the arguments of a search, as [Config::new] does.
    pub fn new(args: Args, walks: &Vec<Vec<String>>, available_threads: Option<usize>) -> (res:
        Result<Searcher, String>)
        requires
            args.threads != Some(0usize),
            available_threads != Some(0usize),
        ensures
            match res {
                Ok(s) => config_result(
                    Ok(s.settings()),
                    args,
                    walk_views(walks@),
                    available_threads,
                ) && s.settings().num_threads > 0,
                Err(e) => config_result(Err(e), args, walk_views(walks@), available_threads),
            },
    {
        match Config::new(args, walks, available_threads) {
            Ok(config) => Ok(Searcher { config }),
            Err(e) => Err(e),
        }
    }

    /// The configuration of the search.
    pub fn config(&self) -> (res: &Config)
        ensures
            *res == self.settings(),
    {
        &self.config
    }
}

/// The type of a search event.
///
/// Events only show in the [SearchResultFormat::JsonList] format: its list starts
/// with a [SearchEventType::START] marker and ends with a [SearchEventType::END]
/// marker, and each match carries [SearchEventType::MATCH]. In the other formats
/// every result carries [SearchEventType::NONE], which its JSON leaves out.
#[derive(Clone, Copy, Debug, PartialEq, Eq, Structural)]
pub enum SearchEventType {
    /// The start of a search. Only present in [SearchResultFormat::JsonList].
    START,
    /// The end of a search. Only present in [SearchResultFormat::JsonList].
    END,
    /// A match. Each result carries this in [SearchResultFormat::JsonList].
    MATCH,
    /// No event; what results carry in the other formats.
    NONE,
}

/// The name of an event type as JSON writes it.
pub open spec fn event_type_name(e: SearchEventType) -> Seq<char> {
    match e {
        SearchEventType::START => "START"@,
        SearchEventType::END => "END"@,
        SearchEventType::MATCH => "MATCH"@,
        SearchEventType::NONE => "NONE"@,
    }
}

impl SearchEventType {
    /// Whether this is [SearchEventType::NONE], which JSON output leaves out.
    pub fn is_empty(&self) -> (res: bool)
        ensures
            res == (*self == SearchEventType::NONE),
    {
        match self {
            SearchEventType::NONE => true,
            _ => false,
        }
    }

    fn name(&self) -> (res: &'static str)
        ensures
            res@ == event_type_name(*self),
    {
        match self {
            SearchEventType::START => "START",
            SearchEventType::END => "END",
            SearchEventType::MATCH => "MATCH",
            SearchEventType::NONE => "NONE",
        }
    }
}

/// The JSON object of a search event marker.
pub open spec fn event_json(e: SearchEventType) -> Seq<char> {
    "{\"event_type\":"@ + json_string(event_type_name(e)) + "}"@
}

/// How a search event marker stands in a [SearchResultFormat::JsonList] list: the
/// end marker is the last element, the others are followed by a comma, and
/// [SearchEventType::NONE] is not written.
pub open spec fn event_json_in_list(e: SearchEventType) -> Seq<char> {
    match e {
        SearchEventType::START => event_json(e) + ","@,
        SearchEventType::END => event_json(e),
        SearchEventType::MATCH => event_json(e) + ","@,
        SearchEventType::NONE => Seq::empty(),
    }
}

/// A search event that is not a result but a marker, which the
/// [SearchResultFormat::JsonList] format needs at the start and the end.
struct SearchEventResult {
    event_type: SearchEventType,
}

impl SearchEventResult {
    fn to_json_in_list(&self) -> (res: String)
        ensures
            res@ == event_json_in_list(self.event_type),
    {
        match self.event_type {
            SearchEventType::NONE => String::new(),
            _ => {
                let mut out = String::from_str("{\"event_type\":");
                push_json_string(&mut out, self.event_type.name());
                out.append("}");
                match self.event_type {
                    SearchEventType::END => {},
                    _ => out.append(","),
                }
                out
            },
        }
    }
}

/// A search result: a line where the symbol is defined.
///
/// `line_number` is set only where line numbers were asked for.
#[derive(Debug, PartialEq, Clone)]
pub struct SearchResult {
    /// The event type: [SearchEventType::MATCH] in the [SearchResultFormat::JsonList]
    /// format, [SearchEventType::NONE] otherwise
    pub event_type: SearchEventType,
    /// The path to the file that holds the definition
    pub file_path: String,
    /// The line number of the definition in the file (from 1)
    pub line_number: Option<usize>,
    /// The line of the definition, without surrounding white space
    pub text: String,
}

/// The value of a [SearchResult].
pub struct SearchResultView {
    /// The event type
    pub event_type: SearchEventType,
    /// The path to the file that holds the definition
    pub file_path: Seq<char>,
    /// The line number of the definition
    pub line_number: Option<usize>,
    /// The line of the definition
    pub text: Seq<char>,
}

impl View for SearchResult {
    type V = SearchResultView;

    open spec fn view(&self) -> SearchResultView {
        SearchResultView {
            event_type: self.event_type,
            file_path: self.file_path@,
            line_number: self.line_number,
            text: self.text@,
        }
    }
}

/// The values of a sequence of results.
pub open spec fn results_view(v: Seq<SearchResult>) -> Seq<SearchResultView> {
    v.map_values(|r: SearchResult| r@)
}

/// The JSON object of a search result: `event_type` (left out where it is
/// [SearchEventType::NONE]), `file_path`, `line_number` (`null` where there is none)
/// and `text`, in this order and without white space.
pub open spec fn result_json(r: SearchResultView) -> Seq<char> {
    "{"@ + (if r.event_type == SearchEventType::NONE {
        Seq::empty()
    } else {
        "\"event_type\":"@ + json_string(event_type_name(r.event_type)) + ","@
    }) + "\"file_path\":"@ + json_string(r.file_path) + ",\"line_number\":"@ + (
    match r.line_number {
        Some(n) => decimal(n as nat),
        None => "null"@,
    }) + ",\"text\":"@ + json_string(r.text) + "}"@
}

/// The ANSI sequence that ends a style.
pub open spec fn ansi_reset() -> Seq<char> {
    seq!['\x1b', '[', '0', 'm']
}

/// The ANSI sequence that starts the style with code `code`.
pub open spec fn ansi_style(code: Seq<char>) -> Seq<char> {
    seq!['\x1b', '['] + code + seq!['m']
}

/// `s` with `style` put again after each reset sequence inside it, so that a reset
/// within `s` does not end the style of the whole.
pub open spec fn restyled(s: Seq<char>, style: Seq<char>) -> Seq<char>
    decreases s.len(),
{
    if s.len() == 0 {
        Seq::empty()
    } else if s.len() >= 4 && s.take(4) == ansi_reset() {
        ansi_reset() + style + restyled(s.skip(4), style)
    } else {
        seq![s[0]] + restyled(s.drop_first(), style)
    }
}

/// `s` painted with the color code `code`, as the `colored` crate writes it.
pub open spec fn painted(code: Seq<char>, s: Seq<char>) -> Seq<char> {
    ansi_style(code) + restyled(s, ansi_style(code)) + ansi_reset()
}

/// Whether `out` is `s` as the `colored` crate may show it in the color `code`:
/// plain where coloring is off, painted where it is on.
pub open spec fn shown_in_color(s: Seq<char>, code: Seq<char>, out: Seq<char>) -> bool {
    out == s || out == painted(code, s)
}

/// `s` in magenta: calls `colored::Colorize::magenta` and writes the result with its
/// `Display`. Whether coloring is on depends on the `colored` crate's global override
/// and on the environment, so the contract claims only that the result is either `s`
/// or `s` painted with color code 35 (the crate decides this three times while it
/// writes the string; the claim needs the setting not to change in between).
#[verifier::external_body]
fn magenta(s: &str) -> (res: String)
    ensures
        shown_in_color(s@, "35"@, res@),
{
    colored::Colorize::magenta(s).to_string()
}

/// `s` in green: calls `colored::Colorize::green` and writes the result with its
/// `Display`. Whether coloring is on depends on the `colored` crate's global override
/// and on the environment, so the contract claims only that the result is either `s`
/// or `s` painted with color code 32 (the crate decides this three times while it
/// writes the string; the claim needs the setting not to change in between).
#[verifier::external_body]
fn green(s: &str) -> (res: String)
    ensures
        shown_in_color(s@, "32"@, res@),
{
    colored::Colorize::green(s).to_string()
}

/// Whether `out` is the grep line of the result `r`: `path:text`, or
/// `path:line number:text` where the line number is set, with the path shown in
/// magenta and the line number in green where coloring is on.
pub open spec fn is_grep_line(r: SearchResultView, out: Seq<char>) -> bool {
    let p = r.file_path;
    let pc = painted("35"@, p);
    match r.line_number {
        Some(n) => {
            let l = decimal(n as nat);
            let lc = painted("32"@, l);
            ||| out == p + ":"@ + l + ":"@ + r.text
            ||| out == pc + ":"@ + l + ":"@ + r.text
            ||| out == p + ":"@ + lc + ":"@ + r.text
            ||| out == pc + ":"@ + lc + ":"@ + r.text
        },
        None => out == p + ":"@ + r.text || out == pc + ":"@ + r.text,
    }
}

/// The grep line of the result with coloring off.
pub open spec fn plain_grep_line(r: SearchResultView) -> Seq<char> {
    match r.line_number {
        Some(n) => r.file_path + ":"@ + decimal(n as nat) + ":"@ + r.text,
        None => r.file_path + ":"@ + r.text,
    }
}

impl SearchResult {
    /// The result in the "grep" format: `file path:text`, or
    /// `file path:line number:text` where the line number is set.
    pub fn to_grep(&self) -> (res: String)
        ensures
            is_grep_line(self@, res@),
    {
        let mut out = magenta(self.file_path.as_str());
        let ghost p = out@;
        out.append(":");
        match self.line_number {
            Some(n) => {
                let mut digits = String::new();
                push_decimal(&mut digits, n);
                assert(digits@ =~= decimal(n as nat));
                let l = green(digits.as_str());
                out.append(l.as_str());
                out.append(":");
                out.append(self.text.as_str());
                assert(out@ =~= p + ":"@ + l@ + ":"@ + self.text@);
            },
            None => {
                out.append(self.text.as_str());
            },
        }
        out
    }

    /// The result in the [SearchResultFormat::JsonPerMatch] format: its JSON object.
    pub fn to_json_per_match(&self) -> (res: String)
        ensures
            res@ == result_json(self@),
    {
        let mut out = String::from_str("{");
        match self.event_type {
            SearchEventType::NONE => {},
            _ => {
                out.append("\"event_type\":");
                push_json_string(&mut out, self.event_type.name());
                out.append(",");
            },
        }
        out.append("\"file_path\":");
        push_json_string(&mut out, self.file_path.as_str());
        out.append(",\"line_number\":");
        match self.line_number {
            Some(n) => push_decimal(&mut out, n),
            None => out.append("null"),
        }
        out.append(",\"text\":");
        push_json_string(&mut out, self.text.as_str());
        out.append("}");
        out
    }

    /// The result in the [SearchResultFormat::JsonList] format: its JSON object,
    /// followed by a comma.
    pub fn to_json_in_list(&self) -> (res: String)
        ensures
            res@ == result_json(self@) + ","@,
    {
        let mut out = self.to_json_per_match();
        out.append(",");
        out
    }
}

/// The views of lines read from a file; `None` for a line that could not be read.
pub open spec fn line_views(lines: Seq<Option<String>>) -> Seq<Option<Seq<char>>> {
    lines.map_values(
        |o: Option<String>|
            match o {
                Some(s) => Some(s@),
                None => None,
            },
    )
}

/// The event type that results carry in the format `format`.
pub open spec fn result_event_type(format: SearchResultFormat) -> SearchEventType {
    if format == SearchResultFormat::JsonList {
        SearchEventType::MATCH
    } else {
        SearchEventType::NONE
    }
}

/// The result for the line `line`, numbered `number`, of the file `path`.
pub open spec fn line_result(
    path: Seq<char>,
    number: int,
    line: Seq<char>,
    format: SearchResultFormat,
    numbered: bool,
) -> SearchResultView {
    SearchResultView {
        event_type: result_event_type(format),
        file_path: path,
        line_number: if numbered {
            Some(number as usize)
        } else {
            None
        },
        text: trimmed(line),
    }
}

/// The results for the lines of the file `path`: one for each line, in order, that
/// could be read and that `pattern` matches, numbered from 1 among all lines.
pub open spec fn line_results(
    pattern: Seq<char>,
    path: Seq<char>,
    lines: Seq<Option<Seq<char>>>,
    format: SearchResultFormat,
    numbered: bool,
) -> Seq<SearchResultView>
    decreases lines.len(),
{
    if lines.len() == 0 {
        Seq::empty()
    } else {
        let earlier = line_results(pattern, path, lines.drop_last(), format, numbered);
        match lines.last() {
            Some(l) => if regex_is_match(pattern, l) {
                earlier.push(line_result(path, lines.len() as int, l, format, numbered))
            } else {
                earlier
            },
            None => earlier,
        }
    }
}

/// The results of a line search with line numbers are exactly the matching lines:
/// each result names, by its number (from 1), a line that was read and that the
/// pattern matches, and holds that line's trimmed text; each such line has a result;
/// and the results come in the order of the lines.
pub proof fn lemma_line_results_are_the_matching_lines(
    pattern: Seq<char>,
    path: Seq<char>,
    lines: Seq<Option<Seq<char>>>,
    format: SearchResultFormat,
)
    requires
        lines.len() <= usize::MAX,
    ensures
        ({
            let r = line_results(pattern, path, lines, format, true);
            &&& forall|i: int|
                #![trigger r[i]]
                0 <= i < r.len() ==> {
                    &&& r[i].line_number is Some
                    &&& 1 <= r[i].line_number->0 <= lines.len()
                    &&& lines[r[i].line_number->0 - 1] matches Some(l) && regex_is_match(
                        pattern,
                        l,
                    ) && r[i].text == trimmed(l)
                    &&& r[i].file_path == path
                    &&& r[i].event_type == result_event_type(format)
                }
            &&& forall|i: int, j: int|
                #![trigger r[i], r[j]]
                0 <= i < j < r.len() ==> r[i].line_number->0 < r[j].line_number->0
            &&& forall|k: int|
                #![trigger lines[k]]
                0 <= k < lines.len() && (lines[k] matches Some(l) && regex_is_match(pattern, l))
                    ==> exists|i: int|
                    #![trigger r[i]]
                    0 <= i < r.len() && r[i].line_number == Some((k + 1) as usize)
        }),
    decreases lines.len(),
{
    let r = line_results(pattern, path, lines, format, true);
    if lines.len() > 0 {
        let prev = lines.drop_last();
        lemma_line_results_are_the_matching_lines(pattern, path, prev, format);
        let e = line_results(pattern, path, prev, format, true);
        assert forall|i: int| 0 <= i < e.len() implies #[trigger] e[i].line_number->0 <= prev.len() by {
            assert(1 <= e[i].line_number->0 <= prev.len());
        }
        assert forall|k: int|
            #![trigger lines[k]]
            0 <= k < lines.len() && (lines[k] matches Some(l) && regex_is_match(pattern, l))
                implies exists|i: int|
            #![trigger r[i]]
            0 <= i < r.len() && r[i].line_number == Some((k + 1) as usize) by {
            if k < lines.len() - 1 {
                assert(prev[k] == lines[k]);
                let i = choose|i: int|
                    #![trigger e[i]]
                    0 <= i < e.len() && e[i].line_number == Some((k + 1) as usize);
                assert(r[i] == e[i]);
            } else {
                assert(r[r.len() - 1].line_number == Some((k + 1) as usize));
            }
        }
        assert forall|i: int|
            #![trigger r[i]]
            0 <= i < r.len() implies {
            &&& r[i].line_number is Some
            &&& 1 <= r[i].line_number->0 <= lines.len()
            &&& lines[r[i].line_number->0 - 1] matches Some(l) && regex_is_match(pattern, l)
                && r[i].text == trimmed(l)
            &&& r[i].file_path == path
            &&& r[i].event_type == result_event_type(format)
        } by {
            if i < e.len() {
                assert(r[i] == e[i]);
                assert(prev[e[i].line_number->0 - 1] == lines[e[i].line_number->0 - 1]);
            }
        }
    }
}

/// Whether line numbers are asked for changes nothing but the numbers: a line search
/// without them finds the same lines, in the same order, with the same file path,
/// event type and text as one with them, each without a line number.
pub proof fn lemma_unnumbered_results_are_the_numbered_ones(
    pattern: Seq<char>,
    path: Seq<char>,
    lines: Seq<Option<Seq<char>>>,
    format: SearchResultFormat,
)
    ensures
        ({
            let u = line_results(pattern, path, lines, format, false);
            let n = line_results(pattern, path, lines, format, true);
            &&& u.len() == n.len()
            &&& forall|i: int|
                #![trigger u[i]]
                0 <= i < u.len() ==> {
                    &&& u[i].line_number is None
                    &&& u[i].event_type == n[i].event_type
                    &&& u[i].file_path == n[i].file_path
                    &&& u[i].text == n[i].text
                }
        }),
    decreases lines.len(),
{
    if lines.len() > 0 {
        lemma_unnumbered_results_are_the_numbered_ones(pattern, path, lines.drop_last(), format);
    }
}

/// Searches the lines read from the file `file_path` for definitions: a result for
/// each line, in order, that `re` matches. Lines that could not be read (`None`) never
/// match but are counted in the line numbers.
pub fn search_file_line_by_line(
    re: &QueryRegex,
    file_path: &str,
    lines: &Vec<Option<String>>,
    config: &Config,
) -> (res: Vec<SearchResult>)
    ensures
        results_view(res@) == line_results(
            re@,
            file_path@,
            line_views(lines@),
            config.format,
            config.line_number,
        ),
{
    let ghost views = line_views(lines@);
    let mut res: Vec<SearchResult> = Vec::new();
    let mut i: usize = 0;
    assert(views.take(0) =~= Seq::<Option<Seq<char>>>::empty());
    while i < lines.len()
        invariant
            i <= lines@.len(),
            views == line_views(lines@),
            results_view(res@) == line_results(
                re@,
                file_path@,
                views.take(i as int),
                config.format,
                config.line_number,
            ),
        decreases lines@.len() - i,
    {
        assert(views.take(i + 1).drop_last() =~= views.take(i as int));
        let ghost before = res@;
        match &lines[i] {
            Some(line) => {
                assert(views[i as int] == Some(line@));
                if re.is_match(line.as_str()) {
                    let event_type = match config.format {
                        SearchResultFormat::JsonList => SearchEventType::MATCH,
                        _ => SearchEventType::NONE,
                    };
                    let line_number = if config.line_number {
                        Some(i + 1)
                    } else {
                        None
                    };
                    let r = SearchResult {
                        event_type,
                        file_path: String::from_str(file_path),
                        line_number,
                        text: trim(line.as_str()),
                    };
                    res.push(r);
                    assert(results_view(res@) =~= results_view(before).push(r@));
                }
            },
            None => {
                assert(views[i as int] is None);
            },
        }
        i = i + 1;
    }
    assert(views.take(i as int) =~= views);
    res
}

/// The most results a search delivers under the limit `limit`: each result is
/// delivered before it is counted and the search stops once the count reaches the
/// limit, so a limit of 0 still lets one result through.
pub open spec fn result_cap(limit: Option<usize>) -> Option<nat> {
    match limit {
        Some(i) => Some(if i == 0 {
            1
        } else {
            i as nat
        }),
        None => None,
    }
}

/// Decides which of the results that a search finds are delivered, batch by batch
/// as they arrive, and when the search must stop because of its limit.
pub struct ResultLimiter {
    limit: Option<usize>,
    delivered: usize,
}

impl ResultLimiter {
    /// The limit on the number of results.
    pub closed spec fn limit(&self) -> Option<usize> {
        self.limit
    }

    /// The number of results delivered so far.
    pub closed spec fn delivered(&self) -> nat {
        self.delivered as nat
    }

    /// Whether more results may be delivered.
    pub open spec fn accepting(&self) -> bool {
        match result_cap(self.limit()) {
            Some(c) => self.delivered() < c,
            None => true,
        }
    }

    /// Nothing delivered yet, under the limit `limit`.
    pub fn new(limit: Option<usize>) -> (res: ResultLimiter)
        ensures
            res.limit() == limit,
            res.delivered() == 0,
            res.accepting(),
    {
        ResultLimiter { limit, delivered: 0 }
    }

    /// Takes the next batch of results found, in the order found; returns those of
    /// them to deliver (the first ones, as many as the limit still allows) and
    /// whether the search must stop now.
    pub fn take_batch(&mut self, batch: Vec<SearchResult>) -> (res: (Vec<SearchResult>, bool))
        requires
            old(self).accepting(),
            old(self).delivered() + batch@.len() <= usize::MAX,
        ensures
            final(self).limit() == old(self).limit(),
            res.0@ == batch@.take(res.0@.len() as int),
            final(self).delivered() == old(self).delivered() + res.0@.len(),
            match result_cap(old(self).limit()) {
                Some(c) => {
                    &&& res.0@.len() == if batch@.len() <= c - old(self).delivered() {
                        batch@.len() as int
                    } else {
                        c - old(self).delivered()
                    }
                    &&& res.1 == (final(self).delivered() >= c)
                },
                None => res.0@.len() == batch@.len() && !res.1,
            },
            !res.1 ==> final(self).accepting(),
    {
        let n = batch.len();
        match self.limit {
            None => {
                self.delivered = self.delivered + n;
                assert(batch@.take(n as int) =~= batch@);
                (batch, false)
            },
            Some(i) => {
                let cap: usize = if i == 0 {
                    1
                } else {
                    i
                };
                let room: usize = cap - self.delivered;
                let k: usize = if n <= room {
                    n
                } else {
                    room
                };
                let mut out = batch;
                out.truncate(k);
                self.delivered = self.delivered + k;
                assert(out@ =~= batch@.take(k as int));
                (out, self.delivered >= cap)
            },
        }
    }

    /// The number of results delivered so far.
    pub fn count(&self) -> (res: usize)
        ensures
            res == self.delivered(),
    {
        self.delivered
    }
}

/// The lines written before the results in the format `format`: for
/// [SearchResultFormat::JsonList] the opening bracket and the start marker.
pub open spec fn prologue_lines(format: SearchResultFormat) -> Seq<Seq<char>> {
    if format == SearchResultFormat::JsonList {
        seq!["["@, event_json_in_list(SearchEventType::START)]
    } else {
        Seq::empty()
    }
}

/// The lines written after the results in the format `format`: for
/// [SearchResultFormat::JsonList] the end marker and the closing bracket.
pub open spec fn epilogue_lines(format: SearchResultFormat) -> Seq<Seq<char>> {
    if format == SearchResultFormat::JsonList {
        seq![event_json_in_list(SearchEventType::END), "]"@]
    } else {
        Seq::empty()
    }
}

/// Whether `out` is the line of the result `r` in the format `format`.
pub open spec fn is_formatted_result(
    r: SearchResultView,
    format: SearchResultFormat,
    out: Seq<char>,
) -> bool {
    match format {
        SearchResultFormat::Grep => is_grep_line(r, out),
        SearchResultFormat::JsonPerMatch => out == result_json(r),
        SearchResultFormat::JsonList => out == result_json(r) + ","@,
    }
}

impl Searcher {
    /// The lines to write before the results.
    pub fn format_prologue(&self) -> (res: Vec<String>)
        ensures
            string_views(res@) == prologue_lines(self.settings().format),
    {
        let mut res: Vec<String> = Vec::new();
        if self.config.format == SearchResultFormat::JsonList {
            res.push(String::from_str("["));
            let event = SearchEventResult { event_type: SearchEventType::START };
            res.push(event.to_json_in_list());
        }
        assert(string_views(res@) =~= prologue_lines(self.settings().format));
        res
    }

    /// The lines to write after the results.
    pub fn format_epilogue(&self) -> (res: Vec<String>)
        ensures
            string_views(res@) == epilogue_lines(self.settings().format),
    {
        let mut res: Vec<String> = Vec::new();
        if self.config.format == SearchResultFormat::JsonList {
            let event = SearchEventResult { event_type: SearchEventType::END };
            res.push(event.to_json_in_list());
            res.push(String::from_str("]"));
        }
        assert(string_views(res@) =~= epilogue_lines(self.settings().format));
        res
    }

    /// The line that writes the result `result` in the output format of the search.
    pub fn format_result(&self, result: &SearchResult) -> (res: String)
        ensures
            is_formatted_result(result@, self.settings().format, res@),
    {
        match self.config.format {
            SearchResultFormat::Grep => result.to_grep(),
            SearchResultFormat::JsonPerMatch => result.to_json_per_match(),
            SearchResultFormat::JsonList => result.to_json_in_list(),
        }
    }

    /// The lines of a whole search in the output format: the lines before the
    /// results, a line for each result in order, and the lines after them.
    pub fn search_and_format(&self, results: &Vec<SearchResult>) -> (res: Vec<String>)
        ensures
            ({
                let pro = prologue_lines(self.settings().format);
                let epi = epilogue_lines(self.settings().format);
                let out = string_views(res@);
                &&& out.len() == pro.len() + results@.len() + epi.len()
                &&& out.take(pro.len() as int) == pro
                &&& forall|i: int|
                    0 <= i < results@.len() ==> is_formatted_result(
                        #[trigger] results@[i]@,
                        self.settings().format,
                        out[pro.len() + i],
                    )
                &&& out.skip((pro.len() + results@.len()) as int) == epi
            }),
    {
        let ghost fmt = self.settings().format;
        let mut res = self.format_prologue();
        let ghost pro = string_views(res@);
        let mut i: usize = 0;
        while i < results.len()
            invariant
                i <= results@.len(),
                fmt == self.settings().format,
                pro == prologue_lines(fmt),
                string_views(res@).len() == pro.len() + i,
                string_views(res@).take(pro.len() as int) == pro,
                forall|k: int|
                    0 <= k < i ==> is_formatted_result(
                        #[trigger] results@[k]@,
                        fmt,
                        string_views(res@)[pro.len() + k],
                    ),
            decreases results@.len() - i,
        {
            let line = self.format_result(&results[i]);
            let ghost before = string_views(res@);
            res.push(line);
            assert(string_views(res@) =~= before.push(line@));
            assert(string_views(res@).take(pro.len() as int) =~= before.take(pro.len() as int));
            i = i + 1;
        }
        let ghost mid = string_views(res@);
        let epi = self.format_epilogue();
        let mut j: usize = 0;
        while j < epi.len()
            invariant
                j <= epi@.len(),
                string_views(epi@) == epilogue_lines(fmt),
                fmt == self.settings().format,
                string_views(res@) == mid + string_views(epi@).take(j as int),
                mid.len() == pro.len() + results@.len(),
            decreases epi@.len() - j,
        {
            let ghost before = string_views(res@);
            let c = epi[j].clone();
            assert(c@ == string_views(epi@)[j as int]);
            res.push(c);
            assert(string_views(res@) =~= before.push(c@));
            assert(string_views(epi@).take(j + 1) =~= string_views(epi@).take(j as int).push(c@));
            assert(string_views(res@) =~= mid + string_views(epi@).take(j + 1));
            j = j + 1;
        }
        assert(string_views(epi@).take(j as int) =~= string_views(epi@));
        assert(string_views(res@).take(pro.len() as int) =~= mid.take(pro.len() as int));
        assert(string_views(res@).skip((pro.len() + results@.len()) as int) =~= string_views(epi@));
        res
    }
}

} // verus!
