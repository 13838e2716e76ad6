//! Character-level helpers: decimal numbers, whitespace trimming and JSON strings.
use vstd::prelude::*;

verus! {

/// Appends one character to a `String` (std's `String::push`, which the std
/// documentation describes as appending the given char to the end of the string).
#[verifier::external_body]
pub(crate) fn push_char(s: &mut String, c: char)
    ensures
        final(s)@ == old(s)@.push(c),
{
    s.push(c);
}

/// The characters of a string, collected into a vector.
pub fn chars_of(s: &str) -> (res: Vec<char>)
    ensures
        res@ == s@,
{
    let mut res: Vec<char> = Vec::new();
    for c in it: s.chars()
        invariant
            res@ == it.seq().take(it.index()),
            it.seq() == s@,
    {
        res.push(c);
    }
    res
}

/// Whether `v[lo..hi]` holds exactly the characters of `t`.
pub fn range_eq(v: &Vec<char>, lo: usize, hi: usize, t: &str) -> (res: bool)
    requires
        lo <= hi <= v@.len(),
    ensures
        res == (v@.subrange(lo as int, hi as int) == t@),
{
    let w = chars_of(t);
    if hi - lo != w.len() {
        return false;
    }
    let mut i: usize = 0;
    while i < w.len()
        invariant
            lo <= hi <= v@.len(),
            hi - lo == w@.len(),
            w@ == t@,
            i <= w@.len(),
            forall|k: int| 0 <= k < i ==> v@[lo + k] == w@[k],
        decreases w@.len() - i,
    {
        if v[lo + i] != w[i] {
            assert(v@.subrange(lo as int, hi as int)[i as int] != t@[i as int]);
            return false;
        }
        i = i + 1;
    }
    assert(v@.subrange(lo as int, hi as int) =~= t@);
    true
}

/// Whether two strings hold the same characters.
pub fn str_eq(a: &str, b: &str) -> (res: bool)
    ensures
        res == (a@ == b@),
{
    let v = chars_of(a);
    assert(v@.subrange(0, v@.len() as int) =~= a@);
    range_eq(&v, 0, v.len(), b)
}

/// The ASCII digit of a number below ten.
pub open spec fn digit_char(d: int) -> char {
    (d + 48) as char
}

/// The decimal notation of a natural number, most significant digit first, without
/// leading zeros.
pub open spec fn decimal(n: nat) -> Seq<char>
    decreases n,
{
    if n < 10 {
        seq![digit_char(n as int)]
    } else {
        decimal(n / 10).push(digit_char((n % 10) as int))
    }
}

fn digit(d: usize) -> (c: char)
    requires
        d < 10,
    ensures
        c == digit_char(d as int),
{
    let b: u8 = d as u8;
    (b + 48u8) as char
}

/// Appends the decimal notation of `n` to `out`.
pub fn push_decimal(out: &mut String, n: usize)
    ensures
        final(out)@ == old(out)@ + decimal(n as nat),
    decreases n,
{
    if n >= 10 {
        push_decimal(out, n / 10);
    }
    push_char(out, digit(n % 10));
}

/// The decimal notation of `n` as a new string.
pub fn decimal_string(n: usize) -> (res: String)
    ensures
        res@ == decimal(n as nat),
{
    let mut res = String::new();
    push_decimal(&mut res, n);
    res
}

/// Whether a character has the Unicode `White_Space` property (what std's
/// `char::is_whitespace` decides, and what `str::trim` removes).
pub open spec fn is_white_space(c: char) -> bool {
    let v = c as u32;
    ||| 0x09 <= v <= 0x0d
    ||| v == 0x20
    ||| v == 0x85
    ||| v == 0xa0
    ||| v == 0x1680
    ||| 0x2000 <= v <= 0x200a
    ||| v == 0x2028
    ||| v == 0x2029
    ||| v == 0x202f
    ||| v == 0x205f
    ||| v == 0x3000
}

/// Decides `is_white_space`.
pub fn is_whitespace(c: char) -> (res: bool)
    ensures
        res == is_white_space(c),
{
    let v: u32 = c as u32;
    (0x09 <= v && v <= 0x0d) || v == 0x20 || v == 0x85 || v == 0xa0 || v == 0x1680 || (0x2000
        <= v && v <= 0x200a) || v == 0x2028 || v == 0x2029 || v == 0x202f || v == 0x205f || v
        == 0x3000
}

/// `s` without its leading white space.
pub open spec fn trim_start(s: Seq<char>) -> Seq<char>
    decreases s.len(),
{
    if s.len() > 0 && is_white_space(s[0]) {
        trim_start(s.drop_first())
    } else {
        s
    }
}

/// `s` without its trailing white space.
pub open spec fn trim_end(s: Seq<char>) -> Seq<char>
    decreases s.len(),
{
    if s.len() > 0 && is_white_space(s.last()) {
        trim_end(s.drop_last())
    } else {
        s
    }
}

/// `s` without leading and trailing white space.
pub open spec fn trimmed(s: Seq<char>) -> Seq<char> {
    trim_end(trim_start(s))
}

proof fn lemma_trim_start(s: Seq<char>)
    ensures
        trim_start(s).len() <= s.len(),
        trim_start(s) == s.skip(s.len() - trim_start(s).len()),
        trim_start(s).len() > 0 ==> !is_white_space(trim_start(s)[0]),
    decreases s.len(),
{
    if s.len() > 0 && is_white_space(s[0]) {
        lemma_trim_start(s.drop_first());
        let t = trim_start(s.drop_first());
        assert(s.drop_first().skip(s.drop_first().len() - t.len()) =~= s.skip(s.len() - t.len()));
    } else {
        assert(s.skip(0) =~= s);
    }
}

proof fn lemma_trim_end(s: Seq<char>)
    ensures
        trim_end(s).len() <= s.len(),
        trim_end(s) == s.take(trim_end(s).len() as int),
        trim_end(s).len() > 0 ==> !is_white_space(trim_end(s).last()),
    decreases s.len(),
{
    if s.len() > 0 && is_white_space(s.last()) {
        lemma_trim_end(s.drop_last());
        let t = trim_end(s.drop_last());
        assert(s.drop_last().take(t.len() as int) =~= s.take(t.len() as int));
    } else {
        assert(s.take(s.len() as int) =~= s);
    }
}

/// What trimming leaves starts and ends with a character that is not white space,
/// and trimming it again changes nothing.
pub proof fn lemma_trimmed_ends(s: Seq<char>)
    ensures
        trimmed(s).len() > 0 ==> !is_white_space(trimmed(s)[0]) && !is_white_space(
            trimmed(s).last(),
        ),
        trimmed(trimmed(s)) == trimmed(s),
{
    let a = trim_start(s);
    lemma_trim_start(s);
    lemma_trim_end(a);
    let t = trim_end(a);
    if t.len() > 0 {
        assert(t[0] == a[0]);
    }
    lemma_trim_end(t);
    if t.len() > 0 {
        assert(trim_start(t) == t);
        assert(trim_end(t) == t);
    } else {
        assert(trim_start(t) == t);
    }
}

/// A copy of `s` without leading and trailing white space.
pub fn trim(s: &str) -> (res: String)
    ensures
        res@ == trimmed(s@),
{
    let v = chars_of(s);
    let n = v.len();
    let mut lo: usize = 0;
    assert(s@.subrange(0, n as int) =~= s@);
    while lo < n && is_whitespace(v[lo])
        invariant
            lo <= n,
            n == v@.len(),
            v@ == s@,
            trim_start(s@) == trim_start(s@.subrange(lo as int, n as int)),
        decreases n - lo,
    {
        assert(s@.subrange(lo as int, n as int).drop_first() =~= s@.subrange(lo + 1, n as int));
        lo = lo + 1;
    }
    assert(trim_start(s@) == s@.subrange(lo as int, n as int));
    let mut hi: usize = n;
    while hi > lo && is_whitespace(v[hi - 1])
        invariant
            lo <= hi <= n,
            n == v@.len(),
            v@ == s@,
            trimmed(s@) == trim_end(s@.subrange(lo as int, hi as int)),
        decreases hi - lo,
    {
        assert(s@.subrange(lo as int, hi as int).drop_last() =~= s@.subrange(lo as int, hi - 1));
        hi = hi - 1;
    }
    let mut res = String::new();
    let mut i: usize = lo;
    while i < hi
        invariant
            lo <= i <= hi <= n,
            n == v@.len(),
            v@ == s@,
            res@ == s@.subrange(lo as int, i as int),
        decreases hi - i,
    {
        push_char(&mut res, v[i]);
        assert(s@.subrange(lo as int, i + 1) =~= s@.subrange(lo as int, i as int).push(s@[i as int]));
        i = i + 1;
    }
    res
}

/// A lowercase hexadecimal digit of a number below sixteen.
pub open spec fn hex_char(d: int) -> char {
    if d < 10 {
        (d + 48) as char
    } else {
        (d + 87) as char
    }
}

/// How a JSON string literal writes one character: `"` and `\` and the control
/// characters below U+0020 are escaped (the short forms `\b \t \n \f \r` where JSON
/// has them, `\u00XX` with lowercase hex digits otherwise); every other character
/// stands for itself.
pub open spec fn json_escaped_char(c: char) -> Seq<char> {
    let v = c as u32;
    if c == '"' {
        seq!['\\', '"']
    } else if c == '\\' {
        seq!['\\', '\\']
    } else if v == 0x08 {
        seq!['\\', 'b']
    } else if v == 0x09 {
        seq!['\\', 't']
    } else if v == 0x0a {
        seq!['\\', 'n']
    } else if v == 0x0c {
        seq!['\\', 'f']
    } else if v == 0x0d {
        seq!['\\', 'r']
    } else if v < 0x20 {
        seq!['\\', 'u', '0', '0', hex_char((v / 16) as int), hex_char((v % 16) as int)]
    } else {
        seq![c]
    }
}

/// The escaped body of a JSON string literal.
pub open spec fn json_escaped(s: Seq<char>) -> Seq<char>
    decreases s.len(),
{
    if s.len() == 0 {
        Seq::empty()
    } else {
        json_escaped(s.drop_last()) + json_escaped_char(s.last())
    }
}

/// The JSON string literal of `s`, quotes included.
pub open spec fn json_string(s: Seq<char>) -> Seq<char> {
    seq!['"'] + json_escaped(s) + seq!['"']
}

/// JSON writes a character as itself unless it must escape it: every character
/// other than `"`, `\` and the controls below U+0020 stands for itself, and the
/// others become an escape sequence that starts with `\`.
pub proof fn lemma_json_escapes_only_what_it_must(c: char)
    ensures
        (c != '"' && c != '\\' && (c as u32) >= 0x20) ==> json_escaped_char(c) == seq![c],
        !(c != '"' && c != '\\' && (c as u32) >= 0x20) ==> json_escaped_char(c).len() >= 2
            && json_escaped_char(c)[0] == '\\',
{
}

/// The value of a hexadecimal digit, or -1.
pub open spec fn hex_value(c: char) -> int {
    let v = c as u32;
    if 48 <= v <= 57 {
        v - 48
    } else if 97 <= v <= 102 {
        v - 87
    } else if 65 <= v <= 70 {
        v - 55
    } else {
        -1
    }
}

/// `o` with `c` put in front, if it is there.
pub open spec fn prepend(c: char, o: Option<Seq<char>>) -> Option<Seq<char>> {
    match o {
        Some(r) => Some(seq![c] + r),
        None => None,
    }
}

/// The character that a JSON escape `\e` with a single letter stands for, if any.
pub open spec fn json_short_escape(e: char) -> Option<char> {
    if e == '"' {
        Some('"')
    } else if e == '\\' {
        Some('\\')
    } else if e == '/' {
        Some('/')
    } else if e == 'b' {
        Some('\x08')
    } else if e == 'f' {
        Some('\x0c')
    } else if e == 'n' {
        Some('\n')
    } else if e == 'r' {
        Some('\r')
    } else if e == 't' {
        Some('\t')
    } else {
        None
    }
}

/// The characters that the body of a JSON string literal stands for, read by the
/// JSON grammar (RFC 8259), or `None` where it is not a valid body: an unescaped `"`
/// or control character, a `\` that starts no valid escape, or a `\u` escape of a
/// lone surrogate.
pub open spec fn json_unescaped(t: Seq<char>) -> Option<Seq<char>>
    decreases t.len(),
{
    if t.len() == 0 {
        Some(Seq::empty())
    } else if t[0] == '\\' {
        if t.len() < 2 {
            None
        } else {
            match json_short_escape(t[1]) {
                Some(c) => prepend(c, json_unescaped(t.skip(2))),
                None => if t[1] == 'u' && t.len() >= 6 && hex_value(t[2]) >= 0 && hex_value(t[3])
                    >= 0 && hex_value(t[4]) >= 0 && hex_value(t[5]) >= 0 {
                    let v = 4096 * hex_value(t[2]) + 256 * hex_value(t[3]) + 16 * hex_value(t[4])
                        + hex_value(t[5]);
                    if 0xd800 <= v <= 0xdfff {
                        None
                    } else {
                        prepend((v as u32) as char, json_unescaped(t.skip(6)))
                    }
                } else {
                    None
                },
            }
        }
    } else if t[0] == '"' || (t[0] as u32) < 0x20 {
        None
    } else {
        prepend(t[0], json_unescaped(t.drop_first()))
    }
}

proof fn lemma_unescape_char(c: char, rest: Seq<char>)
    ensures
        json_unescaped(json_escaped_char(c) + rest) == prepend(c, json_unescaped(rest)),
{
    let t = json_escaped_char(c) + rest;
    let v = c as u32;
    if c == '"' || c == '\\' || v == 0x08 || v == 0x09 || v == 0x0a || v == 0x0c || v == 0x0d {
        assert(t.skip(2) =~= rest);
        assert(t[0] == '\\');
    } else if v < 0x20 {
        assert(t.skip(6) =~= rest);
        assert(t[0] == '\\' && t[1] == 'u' && t[2] == '0' && t[3] == '0');
        assert(t[4] == hex_char((v / 16) as int));
        assert(t[5] == hex_char((v % 16) as int));
        assert(hex_value(t[4]) == v / 16);
        assert(hex_value(t[5]) == v % 16);
        assert(hex_value(t[2]) == 0 && hex_value(t[3]) == 0);
        assert(((v as int) as u32) as char == c);
    } else {
        assert(t.drop_first() =~= rest);
        assert(t[0] == c);
    }
}

proof fn lemma_json_escaped_prepend(c: char, s: Seq<char>)
    ensures
        json_escaped(seq![c] + s) == json_escaped_char(c) + json_escaped(s),
    decreases s.len(),
{
    if s.len() == 0 {
        assert(seq![c] + s =~= seq![c]);
        let one: Seq<char> = seq![c];
        assert(one.drop_last() =~= Seq::<char>::empty());
        assert(one.last() == c);
        assert(json_escaped(one) == json_escaped(one.drop_last()) + json_escaped_char(c));
        assert(Seq::<char>::empty() + json_escaped_char(c) =~= json_escaped_char(c));
        assert(json_escaped(s) == Seq::<char>::empty());
        assert(json_escaped_char(c) + Seq::<char>::empty() =~= json_escaped_char(c));
    } else {
        lemma_json_escaped_prepend(c, s.drop_last());
        assert((seq![c] + s).drop_last() =~= seq![c] + s.drop_last());
        assert((seq![c] + s).last() == s.last());
        assert(json_escaped_char(c) + json_escaped(s.drop_last()) + json_escaped_char(s.last())
            =~= json_escaped_char(c) + (json_escaped(s.drop_last()) + json_escaped_char(
            s.last(),
        )));
    }
}

/// A JSON string body written for `s` reads back, by the JSON grammar, as `s`: every
/// escape is a valid one and stands for the character it replaced.
pub proof fn lemma_json_escaped_reads_back(s: Seq<char>)
    ensures
        json_unescaped(json_escaped(s)) == Some(s),
    decreases s.len(),
{
    if s.len() > 0 {
        let r = s.drop_first();
        lemma_json_escaped_reads_back(r);
        assert(seq![s[0]] + r =~= s);
        lemma_json_escaped_prepend(s[0], r);
        lemma_unescape_char(s[0], json_escaped(r));
    }
}

fn hex(d: u32) -> (c: char)
    requires
        d < 16,
    ensures
        c == hex_char(d as int),
{
    let b: u8 = d as u8;
    if b < 10 {
        (b + 48u8) as char
    } else {
        (b + 87u8) as char
    }
}

fn push_json_char(out: &mut String, c: char)
    ensures
        final(out)@ == old(out)@ + json_escaped_char(c),
{
    let v: u32 = c as u32;
    let ghost start = out@;
    if c == '"' || c == '\\' {
        push_char(out, '\\');
        push_char(out, c);
    } else if v == 0x08 {
        push_char(out, '\\');
        push_char(out, 'b');
    } else if v == 0x09 {
        push_char(out, '\\');
        push_char(out, 't');
    } else if v == 0x0a {
        push_char(out, '\\');
        push_char(out, 'n');
    } else if v == 0x0c {
        push_char(out, '\\');
        push_char(out, 'f');
    } else if v == 0x0d {
        push_char(out, '\\');
        push_char(out, 'r');
    } else if v < 0x20 {
        push_char(out, '\\');
        push_char(out, 'u');
        push_char(out, '0');
        push_char(out, '0');
        push_char(out, hex(v / 16));
        push_char(out, hex(v % 16));
    } else {
        push_char(out, c);
    }
    assert(out@ =~= start + json_escaped_char(c));
}

/// Appends the JSON string literal of `s` to `out`.
pub fn push_json_string(out: &mut String, s: &str)
    ensures
        final(out)@ == old(out)@ + json_string(s@),
{
    let ghost start = out@;
    push_char(out, '"');
    for c in it: s.chars()
        invariant
            it.seq() == s@,
            out@ == start + seq!['"'] + json_escaped(s@.take(it.index())),
    {
        assert(s@.take(it.index() + 1).drop_last() =~= s@.take(it.index()));
        push_json_char(out, c);
    }
    assert(s@.take(s@.len() as int) =~= s@);
    push_char(out, '"');
    assert(out@ =~= start + json_string(s@));
}

} // verus!
