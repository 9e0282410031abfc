//! The manifest text format: a TOML-style grammar, serialized and parsed by
//! verified code.
//!
//! A manifest is a sequence of lines: blank lines and comments, section
//! headers (`[project]`, `[dependencies]`, `[dependencies.<key>]`), and
//! key-value lines whose value is a quoted string or an array of quoted
//! strings. The serializer emits one canonical text per configuration; the
//! parser folds any well-formed text back into a configuration. Parsing a
//! serialized configuration returns that configuration: the round-trip law
//! at the bottom of this file.

use vstd::prelude::*;
use vstd::string::StrSliceExecFns;
use vstd::string::StringExecFns;
use crate::config::{Config, ConfigView, Dependency, DependencyView, Project, ProjectView};

verus! {

// ---------------------------------------------------------------------------
// Characters and scanning
// ---------------------------------------------------------------------------

/// Horizontal whitespace: what is trimmed around tokens on one line.
pub open spec fn is_ws(c: char) -> bool {
    c == ' ' || c == '\t' || c == '\r'
}

/// The characters a bare key may consist of.
pub open spec fn is_bare_key_char(c: char) -> bool {
    ('a' <= c && c <= 'z') || ('A' <= c && c <= 'Z') || ('0' <= c && c <= '9') || c == '_' || c
        == '-'
}

/// A non-empty run of bare key characters.
pub open spec fn is_bare_key(s: Seq<char>) -> bool {
    s.len() > 0 && (forall|i: int| 0 <= i < s.len() ==> is_bare_key_char(#[trigger] s[i]))
}

/// A string value that the format can carry verbatim: no quote and no line
/// break.
pub open spec fn clean(s: Seq<char>) -> bool {
    forall|i: int| 0 <= i < s.len() ==> !(#[trigger] s[i] == '"' || s[i] == '\n')
}

/// How many characters from `pos` on are whitespace.
pub open spec fn ws_run(s: Seq<char>, pos: int) -> nat
    decreases s.len() - pos,
{
    if pos < 0 || pos >= s.len() {
        0
    } else if is_ws(s[pos]) {
        1 + ws_run(s, pos + 1)
    } else {
        0
    }
}

/// How many characters lie strictly before `till`, at the end of that
/// prefix, that are whitespace.
pub open spec fn ws_tail(s: Seq<char>, till: int) -> nat
    decreases till,
{
    if till <= 0 || till > s.len() {
        0
    } else if is_ws(s[till - 1]) {
        1 + ws_tail(s, till - 1)
    } else {
        0
    }
}

/// The distance from `pos` to the first occurrence of `c` at or after it;
/// reaches the end of the string when `c` does not occur.
pub open spec fn dist_to(s: Seq<char>, pos: int, c: char) -> nat
    decreases s.len() - pos,
{
    if pos < 0 || pos >= s.len() {
        0
    } else if s[pos] == c {
        0
    } else {
        1 + dist_to(s, pos + 1, c)
    }
}

pub proof fn lemma_ws_run_bound(s: Seq<char>, pos: int)
    requires
        0 <= pos <= s.len(),
    ensures
        pos + ws_run(s, pos) <= s.len(),
        forall|j: int| pos <= j < pos + ws_run(s, pos) ==> is_ws(#[trigger] s[j]),
        pos + ws_run(s, pos) < s.len() ==> !is_ws(s[pos + ws_run(s, pos)]),
    decreases s.len() - pos,
{
    if pos < s.len() && is_ws(s[pos]) {
        lemma_ws_run_bound(s, pos + 1);
    }
}

pub proof fn lemma_ws_tail_bound(s: Seq<char>, till: int)
    requires
        0 <= till <= s.len(),
    ensures
        ws_tail(s, till) <= till,
        forall|j: int| till - ws_tail(s, till) <= j < till ==> is_ws(#[trigger] s[j]),
        ws_tail(s, till) < till ==> !is_ws(s[till - ws_tail(s, till) - 1]),
    decreases till,
{
    if till > 0 && is_ws(s[till - 1]) {
        lemma_ws_tail_bound(s, till - 1);
    }
}

pub proof fn lemma_dist_to_bound(s: Seq<char>, pos: int, c: char)
    requires
        0 <= pos <= s.len(),
    ensures
        pos + dist_to(s, pos, c) <= s.len(),
        forall|j: int| pos <= j < pos + dist_to(s, pos, c) ==> #[trigger] s[j] != c,
        pos + dist_to(s, pos, c) < s.len() ==> s[pos + dist_to(s, pos, c)] == c,
    decreases s.len() - pos,
{
    if pos < s.len() && s[pos] != c {
        lemma_dist_to_bound(s, pos + 1, c);
    }
}

/// Exact whitespace test.
fn ws_char(c: char) -> (r: bool)
    ensures
        r == is_ws(c),
{
    c == ' ' || c == '\t' || c == '\r'
}

/// The first index at or after `pos` holding a non-whitespace character.
fn skip_ws(v: &Vec<char>, pos: usize) -> (r: usize)
    requires
        pos <= v@.len(),
    ensures
        r == pos + ws_run(v@, pos as int),
    decreases v@.len() - pos,
{
    if pos < v.len() && ws_char(v[pos]) {
        skip_ws(v, pos + 1)
    } else {
        pos
    }
}

/// The first index before `till` bounding the trailing whitespace run.
fn skip_ws_back(v: &Vec<char>, till: usize) -> (r: usize)
    requires
        till <= v@.len(),
    ensures
        r == till - ws_tail(v@, till as int),
    decreases till,
{
    if till > 0 && ws_char(v[till - 1]) {
        skip_ws_back(v, till - 1)
    } else {
        till
    }
}

/// The first index at or after `pos` holding `c`, or the length when `c`
/// does not occur after `pos`.
fn find_from(v: &Vec<char>, pos: usize, c: char) -> (r: usize)
    requires
        pos <= v@.len(),
    ensures
        r == pos + dist_to(v@, pos as int, c),
    decreases v@.len() - pos,
{
    if pos < v.len() {
        if v[pos] == c {
            pos
        } else {
            find_from(v, pos + 1, c)
        }
    } else {
        pos
    }
}

/// A copy of `v[lo..hi]`.
pub(crate) fn subvec(v: &Vec<char>, lo: usize, hi: usize) -> (r: Vec<char>)
    requires
        lo <= hi <= v@.len(),
    ensures
        r@ == v@.subrange(lo as int, hi as int),
{
    let mut out: Vec<char> = Vec::new();
    let mut k = lo;
    while k < hi
        invariant
            lo <= k <= hi <= v@.len(),
            out@ == v@.subrange(lo as int, k as int),
        decreases hi - k,
    {
        out.push(v[k]);
        proof {
            assert(out@ =~= v@.subrange(lo as int, k + 1 as int));
        }
        k += 1;
    }
    out
}

/// The characters of `s`, as a vector.
pub(crate) fn chars_of(s: &str) -> (r: Vec<char>)
    ensures
        r@ == s@,
{
    let n = s.unicode_len();
    let mut out: Vec<char> = Vec::new();
    let mut k: usize = 0;
    while k < n
        invariant
            k <= n,
            n == s@.len(),
            out@ == s@.subrange(0, k as int),
        decreases n - k,
    {
        out.push(s.get_char(k));
        proof {
            assert(out@ =~= s@.subrange(0, k + 1 as int));
        }
        k += 1;
    }
    proof {
        assert(out@ =~= s@);
    }
    out
}

/// Whether the text is clean: a value the manifest format carries verbatim.
pub fn clean_text(s: &str) -> (r: bool)
    ensures
        r == clean(s@),
{
    let v = chars_of(s);
    let n = v.len();
    let mut k: usize = 0;
    while k < n
        invariant
            k <= n,
            n == v@.len(),
            v@ == s@,
            forall|j: int| 0 <= j < k ==> !(#[trigger] s@[j] == '"' || s@[j] == '\n'),
        decreases n - k,
    {
        if v[k] == '"' || v[k] == '\n' {
            proof {
                assert(!clean(s@));
            }
            return false;
        }
        k += 1;
    }
    true
}

/// Relies on `String`'s `FromIterator<char>` impl (`collect`): the returned
/// string consists of exactly the characters of `v`, in order.
#[verifier::external_body]
pub(crate) fn string_from_chars(v: &Vec<char>) -> (r: String)
    ensures
        r@ == v@,
{
    v.iter().collect()
}

// ---------------------------------------------------------------------------
// Trimming and line splitting
// ---------------------------------------------------------------------------

/// `s` without its leading and trailing whitespace.
pub open spec fn trim(s: Seq<char>) -> Seq<char> {
    let a = ws_run(s, 0) as int;
    let b = s.len() - ws_tail(s, s.len() as int);
    if a >= b {
        Seq::empty()
    } else {
        s.subrange(a, b)
    }
}

/// A string that starts and ends with a non-whitespace character trims to
/// itself.
pub proof fn lemma_trim_identity(s: Seq<char>)
    requires
        s.len() > 0,
        !is_ws(s[0]),
        !is_ws(s[s.len() - 1]),
    ensures
        trim(s) == s,
{
    assert(trim(s) =~= s);
}

fn trim_vec(v: &Vec<char>) -> (r: Vec<char>)
    ensures
        r@ == trim(v@),
{
    let a = skip_ws(v, 0);
    let b = skip_ws_back(v, v.len());
    proof {
        lemma_ws_run_bound(v@, 0);
        lemma_ws_tail_bound(v@, v@.len() as int);
    }
    if a >= b {
        let empty: Vec<char> = Vec::new();
        proof {
            assert(empty@ =~= trim(v@));
        }
        empty
    } else {
        subvec(v, a, b)
    }
}

/// The views of a sequence of character vectors.
pub open spec fn views(ls: Seq<Vec<char>>) -> Seq<Seq<char>> {
    ls.map_values(|l: Vec<char>| l@)
}

/// The lines of `s` from `pos` on, split at every line feed. The line feeds
/// themselves belong to no line; a text ending in a line feed ends with an
/// empty line.
pub open spec fn split_lines_from(s: Seq<char>, pos: int) -> Seq<Seq<char>>
    decreases s.len() - pos,
{
    let d = dist_to(s, pos, '\n') as int;
    if pos + d >= s.len() {
        seq![s.subrange(pos, s.len() as int)]
    } else {
        seq![s.subrange(pos, pos + d)] + split_lines_from(s, pos + d + 1)
    }
}

fn split_lines_vec(v: &Vec<char>, pos: usize) -> (r: Vec<Vec<char>>)
    requires
        pos <= v@.len(),
    ensures
        views(r@) == split_lines_from(v@, pos as int),
    decreases v@.len() - pos,
{
    proof {
        lemma_dist_to_bound(v@, pos as int, '\n');
    }
    let d = find_from(v, pos, '\n');
    if d >= v.len() {
        let line = subvec(v, pos, v.len());
        let mut out: Vec<Vec<char>> = Vec::new();
        out.push(line);
        proof {
            assert(views(out@) =~= split_lines_from(v@, pos as int));
        }
        out
    } else {
        let line = subvec(v, pos, d);
        let mut rest = split_lines_vec(v, d + 1);
        rest.insert(0, line);
        proof {
            assert(views(rest@) =~= seq![v@.subrange(pos as int, d as int)] + split_lines_from(
                v@,
                d + 1,
            ));
        }
        rest
    }
}

// ---------------------------------------------------------------------------
// One line of the manifest
// ---------------------------------------------------------------------------

/// The value of one key-value line: a quoted string, or an array of quoted
/// strings.
pub ghost enum ValueV {
    Str(Seq<char>),
    Arr(Seq<Seq<char>>),
}

/// One classified line.
pub ghost enum LineV {
    /// Nothing but whitespace, or a comment.
    Blank,
    /// `[project]`
    SecProject,
    /// `[dependencies]`
    SecDependencies,
    /// `[dependencies.<key>]`
    SecDep { key: Seq<char> },
    /// `<key> = <value>`
    Kv { key: Seq<char>, value: ValueV },
}

/// The items of an array value, scanned from `pos` on: quoted strings
/// separated by commas, with whitespace in between and an optional trailing
/// comma. `None` when the region is not of that shape.
pub open spec fn parse_items_at(s: Seq<char>, pos: int) -> Option<Seq<Seq<char>>>
    decreases s.len() - pos,
{
    let p = pos + ws_run(s, pos) as int;
    if p >= s.len() {
        Some(seq![])
    } else if s[p] != '"' {
        None
    } else {
        let d = dist_to(s, p + 1, '"') as int;
        if p + 1 + d >= s.len() {
            None
        } else {
            let item = s.subrange(p + 1, p + 1 + d);
            let q = p + 2 + d + ws_run(s, p + 2 + d) as int;
            if q >= s.len() {
                Some(seq![item])
            } else if s[q] == ',' {
                match parse_items_at(s, q + 1) {
                    Some(rest) => Some(seq![item] + rest),
                    None => None,
                }
            } else {
                None
            }
        }
    }
}

/// A trimmed value region as a value: a quoted string with no quote inside,
/// or a bracketed array of items.
pub open spec fn parse_value(raw: Seq<char>) -> Option<ValueV> {
    if raw.len() >= 2 && raw[0] == '"' && raw[raw.len() - 1] == '"' && dist_to(raw, 1, '"') as int
        == raw.len() - 2 {
        Some(ValueV::Str(raw.subrange(1, raw.len() - 1)))
    } else if raw.len() >= 2 && raw[0] == '[' && raw[raw.len() - 1] == ']' {
        match parse_items_at(raw.subrange(1, raw.len() - 1), 0) {
            Some(items) => Some(ValueV::Arr(items)),
            None => None,
        }
    } else {
        None
    }
}

/// One line, classified; `None` when the line is malformed.
pub open spec fn parse_line(l: Seq<char>) -> Option<LineV> {
    let t = trim(l);
    if t.len() == 0 {
        Some(LineV::Blank)
    } else if t[0] == '#' {
        Some(LineV::Blank)
    } else if t[0] == '[' {
        if t.len() >= 2 && t[t.len() - 1] == ']' {
            let inner = t.subrange(1, t.len() - 1);
            let pfx = "dependencies."@;
            if inner == "project"@ {
                Some(LineV::SecProject)
            } else if inner == "dependencies"@ {
                Some(LineV::SecDependencies)
            } else if inner.len() > pfx.len() && inner.subrange(0, pfx.len() as int) == pfx
                && is_bare_key(inner.subrange(pfx.len() as int, inner.len() as int)) {
                Some(LineV::SecDep { key: inner.subrange(pfx.len() as int, inner.len() as int) })
            } else {
                None
            }
        } else {
            None
        }
    } else {
        let d = dist_to(t, 0, '=') as int;
        if d >= t.len() {
            None
        } else {
            let key = trim(t.subrange(0, d));
            let raw = trim(t.subrange(d + 1, t.len() as int));
            if !is_bare_key(key) {
                None
            } else {
                match parse_value(raw) {
                    Some(v) => Some(LineV::Kv { key, value: v }),
                    None => None,
                }
            }
        }
    }
}

/// The executable form of a classified line.
enum Line {
    Blank,
    SecProject,
    SecDependencies,
    SecDep(Vec<char>),
    Kv(Vec<char>, Value),
}

enum Value {
    Str(Vec<char>),
    Arr(Vec<Vec<char>>),
}

impl View for Value {
    type V = ValueV;

    closed spec fn view(&self) -> ValueV {
        match self {
            Value::Str(s) => ValueV::Str(s@),
            Value::Arr(items) => ValueV::Arr(views(items@)),
        }
    }
}

impl View for Line {
    type V = LineV;

    closed spec fn view(&self) -> LineV {
        match self {
            Line::Blank => LineV::Blank,
            Line::SecProject => LineV::SecProject,
            Line::SecDependencies => LineV::SecDependencies,
            Line::SecDep(key) => LineV::SecDep { key: key@ },
            Line::Kv(key, value) => LineV::Kv { key: key@, value: value@ },
        }
    }
}

/// Exact comparison of a character vector and a string.
pub(crate) fn vec_eq_str(v: &Vec<char>, s: &str) -> (r: bool)
    ensures
        r == (v@ == s@),
{
    let w = chars_of(s);
    if v.len() != w.len() {
        proof {
            assert(v@ != s@);
        }
        return false;
    }
    let n = v.len();
    let mut k: usize = 0;
    while k < n
        invariant
            k <= n,
            n == v@.len() == w@.len(),
            w@ == s@,
            forall|j: int| 0 <= j < k ==> v@[j] == w@[j],
        decreases n - k,
    {
        if v[k] != w[k] {
            proof {
                assert(v@ != s@);
            }
            return false;
        }
        k += 1;
    }
    proof {
        assert(v@ =~= s@);
    }
    true
}

fn bare_key_char(c: char) -> (r: bool)
    ensures
        r == is_bare_key_char(c),
{
    ('a' <= c && c <= 'z') || ('A' <= c && c <= 'Z') || ('0' <= c && c <= '9') || c == '_' || c
        == '-'
}

fn bare_key(v: &Vec<char>, lo: usize, hi: usize) -> (r: bool)
    requires
        lo <= hi <= v@.len(),
    ensures
        r == is_bare_key(v@.subrange(lo as int, hi as int)),
{
    if lo >= hi {
        return false;
    }
    let mut k = lo;
    while k < hi
        invariant
            lo <= k <= hi <= v@.len(),
            forall|j: int| lo <= j < k ==> is_bare_key_char(#[trigger] v@[j]),
        decreases hi - k,
    {
        if !bare_key_char(v[k]) {
            proof {
                assert(!is_bare_key_char(v@.subrange(lo as int, hi as int)[k - lo]));
            }
            return false;
        }
        k += 1;
    }
    proof {
        assert forall|j: int| 0 <= j < hi - lo implies is_bare_key_char(
            #[trigger] v@.subrange(lo as int, hi as int)[j],
        ) by {
            assert(v@.subrange(lo as int, hi as int)[j] == v@[lo + j]);
        }
    }
    true
}

fn parse_items_vec(s: &Vec<char>, pos: usize) -> (r: Option<Vec<Vec<char>>>)
    requires
        pos <= s@.len(),
    ensures
        match r {
            Some(items) => parse_items_at(s@, pos as int) == Some(views(items@)),
            None => parse_items_at(s@, pos as int) is None,
        },
    decreases s@.len() - pos,
{
    proof {
        lemma_ws_run_bound(s@, pos as int);
    }
    let p = skip_ws(s, pos);
    if p >= s.len() {
        let items: Vec<Vec<char>> = Vec::new();
        proof {
            assert(views(items@) =~= Seq::<Seq<char>>::empty());
        }
        Some(items)
    } else if s[p] != '"' {
        None
    } else {
        proof {
            lemma_dist_to_bound(s@, p + 1, '"');
        }
        let close = find_from(s, p + 1, '"');
        if close >= s.len() {
            None
        } else {
            let item = subvec(s, p + 1, close);
            proof {
                lemma_ws_run_bound(s@, close + 1);
            }
            let q = skip_ws(s, close + 1);
            if q >= s.len() {
                let mut items: Vec<Vec<char>> = Vec::new();
                items.push(item);
                proof {
                    assert(views(items@) =~= seq![s@.subrange(p + 1, close as int)]);
                }
                Some(items)
            } else if s[q] == ',' {
                match parse_items_vec(s, q + 1) {
                    Some(rest) => {
                        let mut items = rest;
                        items.insert(0, item);
                        proof {
                            let tail = parse_items_at(s@, q + 1)->Some_0;
                            assert(views(items@) =~= seq![s@.subrange(p + 1, close as int)]
                                + tail);
                        }
                        Some(items)
                    },
                    None => None,
                }
            } else {
                None
            }
        }
    }
}

fn parse_value_vec(raw: &Vec<char>) -> (r: Option<Value>)
    ensures
        match r {
            Some(v) => parse_value(raw@) == Some(v@),
            None => parse_value(raw@) is None,
        },
{
    let n = raw.len();
    if n >= 2 && raw[0] == '"' && raw[n - 1] == '"' {
        proof {
            lemma_dist_to_bound(raw@, 1, '"');
        }
        let close = find_from(raw, 1, '"');
        if close == n - 1 {
            Some(Value::Str(subvec(raw, 1, n - 1)))
        } else {
            None
        }
    } else if n >= 2 && raw[0] == '[' && raw[n - 1] == ']' {
        let region = subvec(raw, 1, n - 1);
        match parse_items_vec(&region, 0) {
            Some(items) => Some(Value::Arr(items)),
            None => None,
        }
    } else {
        None
    }
}

fn parse_line_vec(l: &Vec<char>) -> (r: Option<Line>)
    ensures
        match r {
            Some(line) => parse_line(l@) == Some(line@),
            None => parse_line(l@) is None,
        },
{
    let t = trim_vec(l);
    let n = t.len();
    if n == 0 {
        Some(Line::Blank)
    } else if t[0] == '#' {
        Some(Line::Blank)
    } else if t[0] == '[' {
        if n >= 2 && t[n - 1] == ']' {
            let inner = subvec(&t, 1, n - 1);
            let pfx = chars_of("dependencies.");
            if vec_eq_str(&inner, "project") {
                Some(Line::SecProject)
            } else if vec_eq_str(&inner, "dependencies") {
                Some(Line::SecDependencies)
            } else if inner.len() > pfx.len() && {
                let head = subvec(&inner, 0, pfx.len());
                vec_eq_str(&head, "dependencies.")
            } && bare_key(&inner, pfx.len(), inner.len()) {
                Some(Line::SecDep(subvec(&inner, pfx.len(), inner.len())))
            } else {
                None
            }
        } else {
            None
        }
    } else {
        proof {
            lemma_dist_to_bound(t@, 0, '=');
        }
        let d = find_from(&t, 0, '=');
        if d >= n {
            None
        } else {
            let key_region = subvec(&t, 0, d);
            let key = trim_vec(&key_region);
            let raw_region = subvec(&t, d + 1, n);
            let raw = trim_vec(&raw_region);
            if !bare_key(&key, 0, key.len()) {
                proof {
                    assert(key@.subrange(0, key@.len() as int) =~= key@);
                }
                None
            } else {
                proof {
                    assert(key@.subrange(0, key@.len() as int) =~= key@);
                }
                match parse_value_vec(&raw) {
                    Some(v) => Some(Line::Kv(key, v)),
                    None => None,
                }
            }
        }
    }
}

// ---------------------------------------------------------------------------
// Folding lines into a configuration
// ---------------------------------------------------------------------------

/// Which section the parser stands in.
pub ghost enum SectionV {
    /// Before any section header.
    Preamble,
    /// Inside `[project]`.
    InProject,
    /// Directly inside `[dependencies]`.
    InDeps,
    /// Inside one `[dependencies.<key>]` table.
    InDep,
}

/// One dependency table under construction.
#[verifier::ext_equal]
pub ghost struct PDepV {
    pub key: Seq<char>,
    pub name: Option<Seq<char>>,
    pub version: Option<Seq<char>>,
}

/// The parser state: what the lines seen so far established.
#[verifier::ext_equal]
pub ghost struct PStateV {
    pub section: SectionV,
    pub seen_project: bool,
    pub seen_deps: bool,
    pub name: Option<Seq<char>>,
    pub version: Option<Seq<char>>,
    pub authors: Option<Seq<Seq<char>>>,
    pub description: Option<Seq<char>>,
    pub license: Option<Seq<char>>,
    pub repository: Option<Seq<char>>,
    pub dep_keys: Seq<Seq<char>>,
    pub deps: Seq<DependencyView>,
    pub cur: Option<PDepV>,
}

/// The state before any line.
pub open spec fn init_state() -> PStateV {
    PStateV {
        section: SectionV::Preamble,
        seen_project: false,
        seen_deps: false,
        name: None,
        version: None,
        authors: None,
        description: None,
        license: None,
        repository: None,
        dep_keys: Seq::empty(),
        deps: Seq::empty(),
        cur: None,
    }
}

/// Close the dependency table under construction, if any: both of its
/// fields must have been given.
pub open spec fn close_dep(st: PStateV) -> Option<PStateV> {
    match st.cur {
        None => Some(st),
        Some(pd) => match (pd.name, pd.version) {
            (Some(n), Some(v)) => Some(
                PStateV {
                    cur: None,
                    deps: st.deps.push(DependencyView { name: n, version: v }),
                    ..st
                },
            ),
            _ => None,
        },
    }
}

/// One key of the `[project]` section. A known key must carry a value of
/// its type and must not repeat; an unknown key is ignored.
pub open spec fn step_project(st: PStateV, key: Seq<char>, value: ValueV) -> Option<PStateV> {
    if key == "name"@ {
        match (value, st.name) {
            (ValueV::Str(s), Option::<Seq<char>>::None) => Some(PStateV { name: Some(s), ..st }),
            _ => None,
        }
    } else if key == "version"@ {
        match (value, st.version) {
            (ValueV::Str(s), Option::<Seq<char>>::None) => Some(
                PStateV { version: Some(s), ..st },
            ),
            _ => None,
        }
    } else if key == "authors"@ {
        match (value, st.authors) {
            (ValueV::Arr(items), Option::<Seq<Seq<char>>>::None) => Some(
                PStateV { authors: Some(items), ..st },
            ),
            _ => None,
        }
    } else if key == "description"@ {
        match (value, st.description) {
            (ValueV::Str(s), Option::<Seq<char>>::None) => Some(
                PStateV { description: Some(s), ..st },
            ),
            _ => None,
        }
    } else if key == "license"@ {
        match (value, st.license) {
            (ValueV::Str(s), Option::<Seq<char>>::None) => Some(
                PStateV { license: Some(s), ..st },
            ),
            _ => None,
        }
    } else if key == "repository"@ {
        match (value, st.repository) {
            (ValueV::Str(s), Option::<Seq<char>>::None) => Some(
                PStateV { repository: Some(s), ..st },
            ),
            _ => None,
        }
    } else {
        Some(st)
    }
}

/// One key of a `[dependencies.<key>]` table.
pub open spec fn step_dep(st: PStateV, key: Seq<char>, value: ValueV) -> Option<PStateV> {
    match st.cur {
        None => None,
        Some(pd) => {
            if key == "name"@ {
                match (value, pd.name) {
                    (ValueV::Str(s), Option::<Seq<char>>::None) => Some(
                        PStateV { cur: Some(PDepV { name: Some(s), ..pd }), ..st },
                    ),
                    _ => None,
                }
            } else if key == "version"@ {
                match (value, pd.version) {
                    (ValueV::Str(s), Option::<Seq<char>>::None) => Some(
                        PStateV { cur: Some(PDepV { version: Some(s), ..pd }), ..st },
                    ),
                    _ => None,
                }
            } else {
                Some(st)
            }
        },
    }
}

/// One classified line applied to the parser state.
pub open spec fn step(st: PStateV, l: LineV) -> Option<PStateV> {
    match l {
        LineV::Blank => Some(st),
        LineV::SecProject => match close_dep(st) {
            None => None,
            Some(st1) => if st1.seen_project {
                None
            } else {
                Some(PStateV { section: SectionV::InProject, seen_project: true, ..st1 })
            },
        },
        LineV::SecDependencies => match close_dep(st) {
            None => None,
            Some(st1) => if st1.seen_deps {
                None
            } else {
                Some(PStateV { section: SectionV::InDeps, seen_deps: true, ..st1 })
            },
        },
        LineV::SecDep { key } => match close_dep(st) {
            None => None,
            Some(st1) => if st1.dep_keys.contains(key) {
                None
            } else {
                Some(
                    PStateV {
                        section: SectionV::InDep,
                        dep_keys: st1.dep_keys.push(key),
                        cur: Some(PDepV { key, name: None, version: None }),
                        ..st1
                    },
                )
            },
        },
        LineV::Kv { key, value } => match st.section {
            SectionV::Preamble => if key == "project"@ || key == "dependencies"@ {
                None
            } else {
                Some(st)
            },
            SectionV::InProject => step_project(st, key, value),
            SectionV::InDeps => None,
            SectionV::InDep => step_dep(st, key, value),
        },
    }
}

/// The configuration a finished parse yields: the project name, version and
/// author list must have been given, the name and version must be non-empty,
/// and the dependency table must have appeared, by its header or by an
/// entry. A loaded configuration therefore never satisfies the emptiness
/// predicate.
pub open spec fn finish(st: PStateV) -> Option<ConfigView> {
    match close_dep(st) {
        None => None,
        Some(st1) => match (st1.name, st1.version, st1.authors) {
            (Some(n), Some(v), Some(a)) => if n.len() > 0 && v.len() > 0 && (st1.seen_deps
                || st1.deps.len() > 0) {
                Some(
                    ConfigView {
                        project: ProjectView {
                            name: n,
                            version: v,
                            authors: a,
                            description: st1.description,
                            license: st1.license,
                            repository: st1.repository,
                        },
                        dependencies: st1.deps,
                    },
                )
            } else {
                None
            },
            _ => None,
        },
    }
}

/// The given lines folded over the state, then finished.
pub open spec fn parse_lines(lines: Seq<Seq<char>>, st: PStateV) -> Option<ConfigView>
    decreases lines.len(),
{
    if lines.len() == 0 {
        finish(st)
    } else {
        match parse_line(lines[0]) {
            None => None,
            Some(l) => match step(st, l) {
                None => None,
                Some(st2) => parse_lines(lines.drop_first(), st2),
            },
        }
    }
}

/// The configuration denoted by a manifest text, if the text is well-formed.
pub open spec fn spec_parse(s: Seq<char>) -> Option<ConfigView> {
    parse_lines(split_lines_from(s, 0), init_state())
}

/// The executable parser state, mirroring `PStateV`.
struct PState {
    section: Section,
    seen_project: bool,
    seen_deps: bool,
    name: Option<Vec<char>>,
    version: Option<Vec<char>>,
    authors: Option<Vec<Vec<char>>>,
    description: Option<Vec<char>>,
    license: Option<Vec<char>>,
    repository: Option<Vec<char>>,
    dep_keys: Vec<Vec<char>>,
    deps: Vec<(Vec<char>, Vec<char>)>,
    cur: Option<PDep>,
}

enum Section {
    Preamble,
    InProject,
    InDeps,
    InDep,
}

struct PDep {
    key: Vec<char>,
    name: Option<Vec<char>>,
    version: Option<Vec<char>>,
}

impl View for Section {
    type V = SectionV;

    closed spec fn view(&self) -> SectionV {
        match self {
            Section::Preamble => SectionV::Preamble,
            Section::InProject => SectionV::InProject,
            Section::InDeps => SectionV::InDeps,
            Section::InDep => SectionV::InDep,
        }
    }
}

impl View for PDep {
    type V = PDepV;

    closed spec fn view(&self) -> PDepV {
        PDepV {
            key: self.key@,
            name: match &self.name {
                Some(n) => Some(n@),
                None => None,
            },
            version: match &self.version {
                Some(v) => Some(v@),
                None => None,
            },
        }
    }
}

/// The views of the accumulated dependency pairs.
pub open spec fn dep_views(deps: Seq<(Vec<char>, Vec<char>)>) -> Seq<DependencyView> {
    deps.map_values(|d: (Vec<char>, Vec<char>)| DependencyView { name: d.0@, version: d.1@ })
}

impl View for PState {
    type V = PStateV;

    closed spec fn view(&self) -> PStateV {
        PStateV {
            section: self.section@,
            seen_project: self.seen_project,
            seen_deps: self.seen_deps,
            name: match &self.name {
                Some(n) => Some(n@),
                None => None,
            },
            version: match &self.version {
                Some(v) => Some(v@),
                None => None,
            },
            authors: match &self.authors {
                Some(a) => Some(views(a@)),
                None => None,
            },
            description: match &self.description {
                Some(d) => Some(d@),
                None => None,
            },
            license: match &self.license {
                Some(l) => Some(l@),
                None => None,
            },
            repository: match &self.repository {
                Some(r) => Some(r@),
                None => None,
            },
            dep_keys: views(self.dep_keys@),
            deps: dep_views(self.deps@),
            cur: match &self.cur {
                Some(pd) => Some(pd@),
                None => None,
            },
        }
    }
}

impl PState {
    fn init() -> (r: PState)
        ensures
            r@ == init_state(),
    {
        let r = PState {
            section: Section::Preamble,
            seen_project: false,
            seen_deps: false,
            name: None,
            version: None,
            authors: None,
            description: None,
            license: None,
            repository: None,
            dep_keys: Vec::new(),
            deps: Vec::new(),
            cur: None,
        };
        proof {
            assert(r@.dep_keys =~= init_state().dep_keys);
            assert(r@.deps =~= init_state().deps);
            assert(r@ =~~= init_state());
        }
        r
    }
}

/// Whether one of the used dependency keys equals `key`.
fn contains_key(keys: &Vec<Vec<char>>, key: &Vec<char>) -> (r: bool)
    ensures
        r == views(keys@).contains(key@),
{
    let n = keys.len();
    let mut k: usize = 0;
    while k < n
        invariant
            k <= n,
            n == keys@.len(),
            forall|j: int| 0 <= j < k ==> views(keys@)[j] != key@,
        decreases n - k,
    {
        if vec_eq(&keys[k], key) {
            proof {
                assert(views(keys@)[k as int] == key@);
                assert(views(keys@).contains(key@));
            }
            return true;
        }
        proof {
            assert(views(keys@)[k as int] == keys@[k as int]@);
        }
        k += 1;
    }
    false
}

/// Exact comparison of two character vectors.
fn vec_eq(a: &Vec<char>, b: &Vec<char>) -> (r: bool)
    ensures
        r == (a@ == b@),
{
    if a.len() != b.len() {
        return false;
    }
    let n = a.len();
    let mut k: usize = 0;
    while k < n
        invariant
            k <= n,
            n == a@.len() == b@.len(),
            forall|j: int| 0 <= j < k ==> a@[j] == b@[j],
        decreases n - k,
    {
        if a[k] != b[k] {
            return false;
        }
        k += 1;
    }
    proof {
        assert(a@ =~= b@);
    }
    true
}

fn close_dep_exec(st: PState) -> (r: Option<PState>)
    ensures
        match r {
            Some(st2) => close_dep(st@) == Some(st2@),
            None => close_dep(st@) is None,
        },
{
    let ghost st0 = st@;
    let PState {
        section,
        seen_project,
        seen_deps,
        name,
        version,
        authors,
        description,
        license,
        repository,
        dep_keys,
        mut deps,
        cur,
    } = st;
    match cur {
        None => {
            let st2 = PState {
                section,
                seen_project,
                seen_deps,
                name,
                version,
                authors,
                description,
                license,
                repository,
                dep_keys,
                deps,
                cur: None,
            };
            proof {
                assert(st2@ =~~= st0);
            }
            Some(st2)
        },
        Some(pd) => {
            let PDep { key: _, name: dep_name, version: dep_version } = pd;
            match (dep_name, dep_version) {
                (Some(n), Some(v)) => {
                    deps.push((n, v));
                    let st2 = PState {
                        section,
                        seen_project,
                        seen_deps,
                        name,
                        version,
                        authors,
                        description,
                        license,
                        repository,
                        dep_keys,
                        deps,
                        cur: None,
                    };
                    proof {
                        let target = close_dep(st0)->Some_0;
                        assert(st2@.deps =~= target.deps);
                        assert(st2@ =~~= target);
                    }
                    Some(st2)
                },
                (other_name, other_version) => {
                    None
                },
            }
        },
    }
}

fn step_project_exec(st: PState, key: Vec<char>, value: Value) -> (r: Option<PState>)
    ensures
        match r {
            Some(st2) => step_project(st@, key@, value@) == Some(st2@),
            None => step_project(st@, key@, value@) is None,
        },
{
    let ghost st0 = st@;
    let ghost v0 = value@;
    if vec_eq_str(&key, "name") {
        match value {
            Value::Str(s) => {
                if st.name.is_none() {
                    let st2 = PState { name: Some(s), ..st };
                    proof {
                        assert(st2@ =~~= step_project(st0, key@, v0)->Some_0);
                    }
                    Some(st2)
                } else {
                    None
                }
            },
            _ => None,
        }
    } else if vec_eq_str(&key, "version") {
        match value {
            Value::Str(s) => {
                if st.version.is_none() {
                    let st2 = PState { version: Some(s), ..st };
                    proof {
                        assert(st2@ =~~= step_project(st0, key@, v0)->Some_0);
                    }
                    Some(st2)
                } else {
                    None
                }
            },
            _ => None,
        }
    } else if vec_eq_str(&key, "authors") {
        match value {
            Value::Arr(items) => {
                if st.authors.is_none() {
                    let st2 = PState { authors: Some(items), ..st };
                    proof {
                        assert(st2@ =~~= step_project(st0, key@, v0)->Some_0);
                    }
                    Some(st2)
                } else {
                    None
                }
            },
            _ => None,
        }
    } else if vec_eq_str(&key, "description") {
        match value {
            Value::Str(s) => {
                if st.description.is_none() {
                    let st2 = PState { description: Some(s), ..st };
                    proof {
                        assert(st2@ =~~= step_project(st0, key@, v0)->Some_0);
                    }
                    Some(st2)
                } else {
                    None
                }
            },
            _ => None,
        }
    } else if vec_eq_str(&key, "license") {
        match value {
            Value::Str(s) => {
                if st.license.is_none() {
                    let st2 = PState { license: Some(s), ..st };
                    proof {
                        assert(st2@ =~~= step_project(st0, key@, v0)->Some_0);
                    }
                    Some(st2)
                } else {
                    None
                }
            },
            _ => None,
        }
    } else if vec_eq_str(&key, "repository") {
        match value {
            Value::Str(s) => {
                if st.repository.is_none() {
                    let st2 = PState { repository: Some(s), ..st };
                    proof {
                        assert(st2@ =~~= step_project(st0, key@, v0)->Some_0);
                    }
                    Some(st2)
                } else {
                    None
                }
            },
            _ => None,
        }
    } else {
        Some(st)
    }
}

fn step_dep_exec(st: PState, key: Vec<char>, value: Value) -> (r: Option<PState>)
    ensures
        match r {
            Some(st2) => step_dep(st@, key@, value@) == Some(st2@),
            None => step_dep(st@, key@, value@) is None,
        },
{
    let ghost st0 = st@;
    let ghost v0 = value@;
    let PState {
        section,
        seen_project,
        seen_deps,
        name,
        version,
        authors,
        description,
        license,
        repository,
        dep_keys,
        deps,
        cur,
    } = st;
    match cur {
        None => None,
        Some(pd) => {
            let PDep { key: dep_key, name: dep_name, version: dep_version } = pd;
            if vec_eq_str(&key, "name") {
                match (value, dep_name) {
                    (Value::Str(s), None) => {
                        let st2 = PState {
                            section,
                            seen_project,
                            seen_deps,
                            name,
                            version,
                            authors,
                            description,
                            license,
                            repository,
                            dep_keys,
                            deps,
                            cur: Some(
                                PDep { key: dep_key, name: Some(s), version: dep_version },
                            ),
                        };
                        proof {
                            assert(st2@ =~~= step_dep(st0, key@, v0)->Some_0);
                        }
                        Some(st2)
                    },
                    _ => None,
                }
            } else if vec_eq_str(&key, "version") {
                match (value, dep_version) {
                    (Value::Str(s), None) => {
                        let st2 = PState {
                            section,
                            seen_project,
                            seen_deps,
                            name,
                            version,
                            authors,
                            description,
                            license,
                            repository,
                            dep_keys,
                            deps,
                            cur: Some(PDep { key: dep_key, name: dep_name, version: Some(s) }),
                        };
                        proof {
                            assert(st2@ =~~= step_dep(st0, key@, v0)->Some_0);
                        }
                        Some(st2)
                    },
                    _ => None,
                }
            } else {
                let st2 = PState {
                    section,
                    seen_project,
                    seen_deps,
                    name,
                    version,
                    authors,
                    description,
                    license,
                    repository,
                    dep_keys,
                    deps,
                    cur: Some(PDep { key: dep_key, name: dep_name, version: dep_version }),
                };
                proof {
                    assert(st2@ =~~= st0);
                }
                Some(st2)
            }
        },
    }
}

fn step_exec(st: PState, line: Line) -> (r: Option<PState>)
    ensures
        match r {
            Some(st2) => step(st@, line@) == Some(st2@),
            None => step(st@, line@) is None,
        },
{
    let ghost st0 = st@;
    let ghost l0 = line@;
    match line {
        Line::Blank => Some(st),
        Line::SecProject => match close_dep_exec(st) {
            None => None,
            Some(st1) => {
                if st1.seen_project {
                    None
                } else {
                    let st2 = PState {
                        section: Section::InProject,
                        seen_project: true,
                        ..st1
                    };
                    proof {
                        assert(st2@ =~~= step(st0, l0)->Some_0);
                    }
                    Some(st2)
                }
            },
        },
        Line::SecDependencies => match close_dep_exec(st) {
            None => None,
            Some(st1) => {
                if st1.seen_deps {
                    None
                } else {
                    let st2 = PState { section: Section::InDeps, seen_deps: true, ..st1 };
                    proof {
                        assert(st2@ =~~= step(st0, l0)->Some_0);
                    }
                    Some(st2)
                }
            },
        },
        Line::SecDep(key) => match close_dep_exec(st) {
            None => None,
            Some(st1) => {
                if contains_key(&st1.dep_keys, &key) {
                    None
                } else {
                    let key_copy = subvec(&key, 0, key.len());
                    proof {
                        assert(key_copy@ =~= key@);
                    }
                    let mut st2 = st1;
                    st2.dep_keys.push(key_copy);
                    st2.cur = Some(PDep { key, name: None, version: None });
                    st2.section = Section::InDep;
                    proof {
                        assert(st2@.dep_keys =~= step(st0, l0)->Some_0.dep_keys);
                        assert(st2@ =~~= step(st0, l0)->Some_0);
                    }
                    Some(st2)
                }
            },
        },
        Line::Kv(key, value) => {
            let in_project = matches!(&st.section, Section::InProject);
            let in_deps = matches!(&st.section, Section::InDeps);
            let in_dep = matches!(&st.section, Section::InDep);
            if in_project {
                step_project_exec(st, key, value)
            } else if in_dep {
                step_dep_exec(st, key, value)
            } else if in_deps {
                None
            } else {
                if vec_eq_str(&key, "project") || vec_eq_str(&key, "dependencies") {
                    None
                } else {
                    Some(st)
                }
            }
        },
    }
}

fn finish_exec(st: PState) -> (r: Option<Config>)
    ensures
        match r {
            Some(cfg) => finish(st@) == Some(cfg@),
            None => finish(st@) is None,
        },
{
    let ghost st0 = st@;
    match close_dep_exec(st) {
        None => None,
        Some(st1) => {
            let PState {
                section: _,
                seen_project: _,
                seen_deps,
                name,
                version,
                authors,
                description,
                license,
                repository,
                dep_keys: _,
                deps,
                cur: _,
            } = st1;
            match (name, version, authors) {
                (Some(n), Some(v), Some(a)) => {
                    if n.len() > 0 && v.len() > 0 && (seen_deps || deps.len() > 0) {
                        let mut author_strings: Vec<String> = Vec::new();
                        let m = a.len();
                        let mut k: usize = 0;
                        while k < m
                            invariant
                                k <= m,
                                m == a@.len(),
                                author_strings@.map_values(|x: String| x@) =~= views(
                                    a@,
                                ).subrange(0, k as int),
                            decreases m - k,
                        {
                            let ghost acc0 = author_strings@;
                            let item = string_from_chars(&a[k]);
                            author_strings.push(item);
                            proof {
                                let f = |x: String| x@;
                                assert(acc0.map_values(f).len() == acc0.len());
                                assert(acc0.len() == k as int);
                                assert(author_strings@ == acc0.push(item));
                                assert(author_strings@.len() == k + 1);
                                assert forall|i: int| 0 <= i < k + 1 implies author_strings@
                                    .map_values(f)[i] == views(a@).subrange(0, k + 1 as int)[i]
                                by {
                                    if i < k {
                                        assert(acc0.map_values(f)[i] == views(a@).subrange(
                                            0,
                                            k as int,
                                        )[i]);
                                        assert(author_strings@[i] == acc0[i]);
                                    } else {
                                        assert(author_strings@[i] == item);
                                    }
                                }
                                assert(author_strings@.map_values(f) =~= views(a@).subrange(
                                    0,
                                    k + 1 as int,
                                ));
                            }
                            k += 1;
                        }
                        let mut dep_list: Vec<Dependency> = Vec::new();
                        let dn = deps.len();
                        let mut j: usize = 0;
                        while j < dn
                            invariant
                                j <= dn,
                                dn == deps@.len(),
                                dep_list@.map_values(|d: Dependency| d@) =~= dep_views(
                                    deps@,
                                ).subrange(0, j as int),
                            decreases dn - j,
                        {
                            let dep = Dependency {
                                name: string_from_chars(&deps[j].0),
                                version: string_from_chars(&deps[j].1),
                            };
                            let ghost acc0 = dep_list@;
                            dep_list.push(dep);
                            proof {
                                let f = |d: Dependency| d@;
                                assert(acc0.map_values(f).len() == acc0.len());
                                assert(acc0.len() == j as int);
                                assert(dep_list@ == acc0.push(dep));
                                assert(dep_list@.len() == j + 1);
                                assert forall|i: int| 0 <= i < j + 1 implies dep_list@.map_values(
                                    f,
                                )[i] == dep_views(deps@).subrange(0, j + 1 as int)[i] by {
                                    if i < j {
                                        assert(acc0.map_values(f)[i] == dep_views(
                                            deps@,
                                        ).subrange(0, j as int)[i]);
                                        assert(dep_list@[i] == acc0[i]);
                                    } else {
                                        assert(dep_list@[i] == dep);
                                    }
                                }
                                assert(dep_list@.map_values(f) =~= dep_views(deps@).subrange(
                                    0,
                                    j + 1 as int,
                                ));
                            }
                            j += 1;
                        }
                        let cfg = Config {
                            project: Project {
                                name: string_from_chars(&n),
                                version: string_from_chars(&v),
                                authors: author_strings,
                                description: match &description {
                                    Some(d) => Some(string_from_chars(d)),
                                    None => None,
                                },
                                license: match &license {
                                    Some(l) => Some(string_from_chars(l)),
                                    None => None,
                                },
                                repository: match &repository {
                                    Some(rp) => Some(string_from_chars(rp)),
                                    None => None,
                                },
                            },
                            dependencies: dep_list,
                        };
                        proof {
                            let target = finish(st0)->Some_0;
                            assert(cfg@.project.authors =~= target.project.authors);
                            assert(cfg@.dependencies =~= target.dependencies);
                            assert(cfg@ =~~= target);
                        }
                        Some(cfg)
                    } else {
                        None
                    }
                },
                _ => None,
            }
        },
    }
}

/// A malformed manifest: the parse failed, with a human-readable message.
#[derive(Debug)]
pub struct ParseError {
    pub message: String,
}

impl Config {
    /// Parse a manifest from its text. Exactly the well-formed texts parse:
    /// the result is the configuration the text denotes, and a text that
    /// denotes none is rejected.
    pub fn from_str(text: &str) -> (r: Result<Config, ParseError>)
        ensures
            match spec_parse(text@) {
                Some(c) => r matches Ok(cfg) && cfg@ == c,
                None => r is Err,
            },
    {
        let chars = chars_of(text);
        let mut lines = split_lines_vec(&chars, 0);
        let mut st = PState::init();
        proof {
            assert(parse_lines(views(lines@), st@) == spec_parse(text@));
        }
        while lines.len() > 0
            invariant
                parse_lines(views(lines@), st@) == spec_parse(text@),
            decreases lines@.len(),
        {
            let ghost before = views(lines@);
            let line = lines.remove(0);
            proof {
                assert(views(lines@) =~= before.drop_first());
                assert(before[0] == line@);
            }
            match parse_line_vec(&line) {
                None => {
                    return Err(ParseError { message: "malformed manifest line".to_owned() });
                },
                Some(l) => {
                    match step_exec(st, l) {
                        None => {
                            return Err(
                                ParseError {
                                    message: "invalid or duplicate manifest entry".to_owned(),
                                },
                            );
                        },
                        Some(st2) => {
                            st = st2;
                        },
                    }
                },
            }
        }
        proof {
            assert(views(lines@) =~= Seq::<Seq<char>>::empty());
        }
        match finish_exec(st) {
            Some(cfg) => Ok(cfg),
            None => Err(ParseError { message: "manifest is missing required entries".to_owned() }),
        }
    }
}

// ---------------------------------------------------------------------------
// Serializing a configuration
// ---------------------------------------------------------------------------

/// `v` in quotes.
pub open spec fn quoted(v: Seq<char>) -> Seq<char> {
    "\""@ + v + "\""@
}

/// One key-value line, with its line feed.
pub open spec fn kv_text(key: Seq<char>, v: Seq<char>) -> Seq<char> {
    key + " = "@ + quoted(v) + "\n"@
}

/// The items of an array value, quoted and comma-separated.
pub open spec fn items_text(items: Seq<Seq<char>>) -> Seq<char>
    decreases items.len(),
{
    if items.len() == 0 {
        Seq::empty()
    } else if items.len() == 1 {
        quoted(items[0])
    } else {
        quoted(items[0]) + ", "@ + items_text(items.drop_first())
    }
}

/// One array line, with its line feed.
pub open spec fn arr_text(key: Seq<char>, items: Seq<Seq<char>>) -> Seq<char> {
    key + " = ["@ + items_text(items) + "]\n"@
}

/// One optional key-value line: nothing when the field is absent.
pub open spec fn opt_kv_text(key: Seq<char>, o: Option<Seq<char>>) -> Seq<char> {
    match o {
        Some(v) => kv_text(key, v),
        None => Seq::empty(),
    }
}

/// One dependency table: its header and its two keys.
pub open spec fn dep_text(d: DependencyView) -> Seq<char> {
    "[dependencies."@ + d.name + "]\n"@ + kv_text("name"@, d.name) + kv_text("version"@, d.version)
}

/// All dependency tables, in order.
pub open spec fn deps_text(deps: Seq<DependencyView>) -> Seq<char>
    decreases deps.len(),
{
    if deps.len() == 0 {
        Seq::empty()
    } else {
        dep_text(deps[0]) + deps_text(deps.drop_first())
    }
}

/// The canonical text of a configuration.
pub open spec fn manifest_text(c: ConfigView) -> Seq<char> {
    "[project]\n"@ + kv_text("name"@, c.project.name) + kv_text("version"@, c.project.version)
        + arr_text("authors"@, c.project.authors) + opt_kv_text(
        "description"@,
        c.project.description,
    ) + opt_kv_text("license"@, c.project.license) + opt_kv_text(
        "repository"@,
        c.project.repository,
    ) + "[dependencies]\n"@ + deps_text(c.dependencies)
}

/// Appending one more item extends the rendered item list at its end.
pub proof fn lemma_items_text_push(items: Seq<Seq<char>>, x: Seq<char>)
    ensures
        items_text(items.push(x)) == if items.len() == 0 {
            quoted(x)
        } else {
            items_text(items) + ", "@ + items_text(seq![x])
        },
    decreases items.len(),
{
    let p = items.push(x);
    if items.len() == 0 {
        assert(p.len() == 1);
        assert(p[0] == x);
    } else {
        assert(p.len() >= 2);
        assert(p[0] == items[0]);
        assert(p.drop_first() =~= items.drop_first().push(x));
        lemma_items_text_push(items.drop_first(), x);
        if items.len() == 1 {
            assert(items_text(items) == quoted(items[0]));
            assert(items_text(p) == quoted(items[0]) + ", "@ + items_text(seq![x]));
        } else {
            assert(items_text(p) == quoted(items[0]) + ", "@ + items_text(
                items.drop_first().push(x),
            ));
            assert(items_text(items.drop_first().push(x)) == items_text(items.drop_first())
                + ", "@ + items_text(seq![x]));
            assert((quoted(items[0]) + ", "@ + items_text(items.drop_first())) + ", "@
                + items_text(seq![x]) =~= quoted(items[0]) + ", "@ + (items_text(
                items.drop_first(),
            ) + ", "@ + items_text(seq![x])));
        }
    }
}

/// Appending one more dependency extends the rendered tables at their end.
pub proof fn lemma_deps_text_push(deps: Seq<DependencyView>, d: DependencyView)
    ensures
        deps_text(deps.push(d)) == deps_text(deps) + dep_text(d),
    decreases deps.len(),
{
    let p = deps.push(d);
    if deps.len() == 0 {
        assert(p.drop_first() =~= Seq::<DependencyView>::empty());
        assert(p[0] == d);
        assert(deps_text(p.drop_first()) == Seq::<char>::empty());
        assert(deps_text(p) == dep_text(d) + Seq::<char>::empty());
        assert(dep_text(d) + Seq::<char>::empty() =~= dep_text(d));
        assert(Seq::<char>::empty() + dep_text(d) =~= dep_text(d));
    } else {
        assert(p[0] == deps[0]);
        assert(p.drop_first() =~= deps.drop_first().push(d));
        lemma_deps_text_push(deps.drop_first(), d);
        assert((dep_text(deps[0]) + deps_text(deps.drop_first())) + dep_text(d) =~= dep_text(
            deps[0],
        ) + (deps_text(deps.drop_first()) + dep_text(d)));
    }
}

/// Append one key-value line.
fn push_kv(out: &mut String, key: &str, value: &String)
    ensures
        final(out)@ == old(out)@ + kv_text(key@, value@),
{
    out.append(key);
    out.append(" = ");
    out.append("\"");
    out.append(value.as_str());
    out.append("\"");
    out.append("\n");
    proof {
        assert(final(out)@ =~= old(out)@ + kv_text(key@, value@));
    }
}

/// Append one array line.
fn push_arr(out: &mut String, key: &str, items: &Vec<String>)
    ensures
        final(out)@ == old(out)@ + arr_text(key@, items@.map_values(|x: String| x@)),
{
    out.append(key);
    out.append(" = [");
    let ghost base = out@;
    let ghost all = items@.map_values(|x: String| x@);
    let n = items.len();
    let mut k: usize = 0;
    while k < n
        invariant
            k <= n,
            n == items@.len(),
            all == items@.map_values(|x: String| x@),
            out@ == base + items_text(all.subrange(0, k as int)),
        decreases n - k,
    {
        let ghost prefix = all.subrange(0, k as int);
        if k > 0 {
            out.append(", ");
        }
        out.append("\"");
        out.append(items[k].as_str());
        out.append("\"");
        proof {
            lemma_items_text_push(prefix, items@[k as int]@);
            assert(all[k as int] == items@[k as int]@);
            assert forall|i: int| 0 <= i < k + 1 implies prefix.push(items@[k as int]@)[i]
                == all.subrange(0, k + 1 as int)[i] by {
                if i < k {
                    assert(prefix[i] == all[i]);
                } else {
                    assert(prefix.push(items@[k as int]@)[i] == items@[k as int]@);
                }
            }
            assert(prefix.push(items@[k as int]@) =~= all.subrange(0, k + 1 as int));
            if k == 0 {
                assert(prefix.len() == 0);
                assert(out@ =~= base + items_text(all.subrange(0, k + 1 as int)));
            } else {
                assert(items_text(seq![items@[k as int]@]) == quoted(items@[k as int]@));
                assert(out@ =~= base + items_text(all.subrange(0, k + 1 as int)));
            }
        }
        k += 1;
    }
    out.append("]\n");
    proof {
        assert(all.subrange(0, n as int) =~= all);
        assert(final(out)@ =~= old(out)@ + arr_text(key@, items@.map_values(|x: String| x@)));
    }
}

impl Config {
    /// Serialize the configuration to its canonical manifest text.
    pub fn to_text(&self) -> (r: String)
        ensures
            r@ == manifest_text(self@),
    {
        let mut out = String::new();
        out.append("[project]\n");
        push_kv(&mut out, "name", &self.project.name);
        push_kv(&mut out, "version", &self.project.version);
        push_arr(&mut out, "authors", &self.project.authors);
        match &self.project.description {
            Some(d) => push_kv(&mut out, "description", d),
            None => {
                proof {
                    assert(out@ + opt_kv_text("description"@, self@.project.description) =~= out@);
                }
            },
        }
        match &self.project.license {
            Some(l) => push_kv(&mut out, "license", l),
            None => {
                proof {
                    assert(out@ + opt_kv_text("license"@, self@.project.license) =~= out@);
                }
            },
        }
        match &self.project.repository {
            Some(rp) => push_kv(&mut out, "repository", rp),
            None => {
                proof {
                    assert(out@ + opt_kv_text("repository"@, self@.project.repository) =~= out@);
                }
            },
        }
        out.append("[dependencies]\n");
        let ghost base = out@;
        let n = self.dependencies.len();
        let mut k: usize = 0;
        while k < n
            invariant
                k <= n,
                n == self@.dependencies.len(),
                out@ == base + deps_text(self@.dependencies.subrange(0, k as int)),
        decreases n - k,
        {
            let ghost prefix = self@.dependencies.subrange(0, k as int);
            let dep = &self.dependencies[k];
            out.append("[dependencies.");
            out.append(dep.name.as_str());
            out.append("]\n");
            push_kv(&mut out, "name", &dep.name);
            push_kv(&mut out, "version", &dep.version);
            proof {
                lemma_deps_text_push(prefix, self@.dependencies[k as int]);
                assert(prefix.push(self@.dependencies[k as int]) =~= self@.dependencies.subrange(
                    0,
                    k + 1 as int,
                ));
                assert(out@ =~= base + deps_text(self@.dependencies.subrange(0, k + 1 as int)));
            }
            k += 1;
        }
        proof {
            assert(self@.dependencies.subrange(0, n as int) =~= self@.dependencies);
            assert(out@ =~= manifest_text(self@));
        }
        out
    }
}

// ---------------------------------------------------------------------------
// The round-trip law: parsing a serialized configuration returns it
// ---------------------------------------------------------------------------

/// A configuration the manifest format can carry verbatim: the project name
/// and version are non-empty, every string is clean, dependency names are
/// bare keys, and dependency names are pairwise distinct.
pub open spec fn wf_config(c: ConfigView) -> bool {
    &&& c.project.name.len() > 0
    &&& c.project.version.len() > 0
    &&& clean(c.project.name)
    &&& clean(c.project.version)
    &&& forall|i: int| 0 <= i < c.project.authors.len() ==> clean(#[trigger] c.project.authors[i])
    &&& match c.project.description {
        Some(d) => clean(d),
        None => true,
    }
    &&& match c.project.license {
        Some(l) => clean(l),
        None => true,
    }
    &&& match c.project.repository {
        Some(r) => clean(r),
        None => true,
    }
    &&& forall|i: int|
        0 <= i < c.dependencies.len() ==> is_bare_key((#[trigger] c.dependencies[i]).name)
            && clean(c.dependencies[i].version)
    &&& forall|i: int, j: int|
        0 <= i < j < c.dependencies.len() ==> c.dependencies[i].name != c.dependencies[j].name
}

proof fn lemma_dist_to_exact(s: Seq<char>, pos: int, c: char, i: int)
    requires
        0 <= pos <= i < s.len(),
        s[i] == c,
        forall|j: int| pos <= j < i ==> s[j] != c,
    ensures
        dist_to(s, pos, c) == i - pos,
    decreases i - pos,
{
    if pos < i {
        lemma_dist_to_exact(s, pos + 1, c, i);
    }
}

/// The given lines, each terminated by a line feed.
pub open spec fn joined(ls: Seq<Seq<char>>) -> Seq<char>
    decreases ls.len(),
{
    if ls.len() == 0 {
        Seq::empty()
    } else {
        ls[0] + "\n"@ + joined(ls.drop_first())
    }
}

proof fn lemma_joined_concat(a: Seq<Seq<char>>, b: Seq<Seq<char>>)
    ensures
        joined(a + b) == joined(a) + joined(b),
    decreases a.len(),
{
    if a.len() == 0 {
        assert(a + b =~= b);
        assert(joined(a) + joined(b) =~= joined(b));
    } else {
        assert((a + b)[0] == a[0]);
        assert((a + b).len() > 0);
        assert((a + b).drop_first() =~= a.drop_first() + b);
        lemma_joined_concat(a.drop_first(), b);
        assert(joined(a + b) == a[0] + "\n"@ + (joined(a.drop_first()) + joined(b)));
        assert(a[0] + "\n"@ + (joined(a.drop_first()) + joined(b)) =~= (a[0] + "\n"@ + joined(
            a.drop_first(),
        )) + joined(b));
    }
}

/// No line feed inside the line.
pub open spec fn line_clean(l: Seq<char>) -> bool {
    forall|i: int| 0 <= i < l.len() ==> #[trigger] l[i] != '\n'
}

/// No line feed inside any line.
pub open spec fn lines_clean(ls: Seq<Seq<char>>) -> bool {
    forall|i: int| 0 <= i < ls.len() ==> line_clean(#[trigger] ls[i])
}

proof fn lemma_split_joined(s: Seq<char>, pos: int, ls: Seq<Seq<char>>)
    requires
        0 <= pos <= s.len(),
        s.subrange(pos, s.len() as int) == joined(ls),
        lines_clean(ls),
    ensures
        split_lines_from(s, pos) == ls + seq![Seq::<char>::empty()],
    decreases ls.len(),
{
    reveal_strlit("\n");
    let suffix = s.subrange(pos, s.len() as int);
    if ls.len() == 0 {
        assert(suffix.len() == 0);
        assert(pos == s.len());
        assert(dist_to(s, pos, '\n') == 0);
        assert(split_lines_from(s, pos) =~= seq![Seq::<char>::empty()]);
        assert(ls + seq![Seq::<char>::empty()] =~= seq![Seq::<char>::empty()]);
    } else {
        let l0 = ls[0];
        let rest = ls.drop_first();
        assert(joined(ls) == l0 + "\n"@ + joined(rest));
        assert(suffix.len() == l0.len() + 1 + joined(rest).len());
        assert forall|j: int| pos <= j < pos + l0.len() implies s[j] != '\n' by {
            assert(suffix[j - pos] == l0[j - pos]);
            assert(l0[j - pos] != '\n');
        }
        assert(s[pos + l0.len()] == suffix[l0.len() as int]);
        assert(suffix[l0.len() as int] == '\n');
        lemma_dist_to_exact(s, pos, '\n', pos + l0.len());
        let d = dist_to(s, pos, '\n') as int;
        assert(d == l0.len());
        assert(pos + d < s.len());
        assert(s.subrange(pos, pos + d) =~= l0);
        assert(s.subrange(pos + d + 1, s.len() as int) =~= suffix.subrange(
            d + 1,
            suffix.len() as int,
        ));
        assert(suffix.subrange(d + 1, suffix.len() as int) =~= joined(rest));
        assert(lines_clean(rest));
        lemma_split_joined(s, pos + d + 1, rest);
        assert(split_lines_from(s, pos) == seq![l0] + (rest + seq![Seq::<char>::empty()]));
        assert(seq![l0] + (rest + seq![Seq::<char>::empty()]) =~= ls + seq![
            Seq::<char>::empty(),
        ]);
    }
}

/// One key-value line, without its terminator.
pub open spec fn kv_line(key: Seq<char>, v: Seq<char>) -> Seq<char> {
    key + " = "@ + quoted(v)
}

/// One array line, without its terminator.
pub open spec fn arr_line(key: Seq<char>, items: Seq<Seq<char>>) -> Seq<char> {
    key + " = ["@ + items_text(items) + "]"@
}

/// Zero or one key-value lines, for an optional field.
pub open spec fn opt_lines(key: Seq<char>, o: Option<Seq<char>>) -> Seq<Seq<char>> {
    match o {
        Some(v) => seq![kv_line(key, v)],
        None => Seq::empty(),
    }
}

/// The three lines of one dependency table.
pub open spec fn dep_lines(d: DependencyView) -> Seq<Seq<char>> {
    seq![
        "[dependencies."@ + d.name + "]"@,
        kv_line("name"@, d.name),
        kv_line("version"@, d.version),
    ]
}

/// The lines of all dependency tables, in order.
pub open spec fn deps_lines(deps: Seq<DependencyView>) -> Seq<Seq<char>>
    decreases deps.len(),
{
    if deps.len() == 0 {
        Seq::empty()
    } else {
        dep_lines(deps[0]) + deps_lines(deps.drop_first())
    }
}

/// The canonical text, line by line.
pub open spec fn canonical_lines(c: ConfigView) -> Seq<Seq<char>> {
    seq![
        "[project]"@,
        kv_line("name"@, c.project.name),
        kv_line("version"@, c.project.version),
        arr_line("authors"@, c.project.authors),
    ] + opt_lines("description"@, c.project.description) + opt_lines(
        "license"@,
        c.project.license,
    ) + opt_lines("repository"@, c.project.repository) + seq!["[dependencies]"@] + deps_lines(
        c.dependencies,
    )
}

proof fn lemma_kv_text_joined(key: Seq<char>, v: Seq<char>)
    ensures
        kv_text(key, v) == joined(seq![kv_line(key, v)]),
{
    assert(seq![kv_line(key, v)].drop_first() =~= Seq::<Seq<char>>::empty());
    assert(joined(Seq::<Seq<char>>::empty()) == Seq::<char>::empty());
    assert(joined(seq![kv_line(key, v)]) == kv_line(key, v) + "\n"@ + Seq::<char>::empty());
    assert(kv_line(key, v) + "\n"@ + Seq::<char>::empty() =~= kv_text(key, v));
}

proof fn lemma_arr_text_joined(key: Seq<char>, items: Seq<Seq<char>>)
    ensures
        arr_text(key, items) == joined(seq![arr_line(key, items)]),
{
    reveal_strlit("]");
    reveal_strlit("\n");
    reveal_strlit("]\n");
    assert(seq![arr_line(key, items)].drop_first() =~= Seq::<Seq<char>>::empty());
    assert(joined(Seq::<Seq<char>>::empty()) == Seq::<char>::empty());
    assert(joined(seq![arr_line(key, items)]) == arr_line(key, items) + "\n"@
        + Seq::<char>::empty());
    assert(arr_line(key, items) + "\n"@ + Seq::<char>::empty() =~= arr_text(key, items));
}

proof fn lemma_opt_text_joined(key: Seq<char>, o: Option<Seq<char>>)
    ensures
        opt_kv_text(key, o) == joined(opt_lines(key, o)),
{
    match o {
        Some(v) => {
            lemma_kv_text_joined(key, v);
        },
        None => {
            assert(joined(Seq::<Seq<char>>::empty()) =~= Seq::<char>::empty());
            assert(opt_kv_text(key, o) =~= Seq::<char>::empty());
        },
    }
}

proof fn lemma_dep_text_joined(d: DependencyView)
    ensures
        dep_text(d) == joined(dep_lines(d)),
{
    reveal_strlit("]");
    reveal_strlit("\n");
    reveal_strlit("]\n");
    let header = "[dependencies."@ + d.name + "]"@;
    let ls = dep_lines(d);
    lemma_kv_text_joined("name"@, d.name);
    lemma_kv_text_joined("version"@, d.version);
    assert(ls =~= seq![header] + (seq![kv_line("name"@, d.name)] + seq![
        kv_line("version"@, d.version),
    ]));
    lemma_joined_concat(
        seq![header],
        seq![kv_line("name"@, d.name)] + seq![kv_line("version"@, d.version)],
    );
    lemma_joined_concat(seq![kv_line("name"@, d.name)], seq![kv_line("version"@, d.version)]);
    assert(seq![header].drop_first() =~= Seq::<Seq<char>>::empty());
    assert(joined(Seq::<Seq<char>>::empty()) == Seq::<char>::empty());
    assert(joined(seq![header]) == header + "\n"@ + Seq::<char>::empty());
    assert(joined(ls) == (header + "\n"@ + Seq::<char>::empty()) + (kv_text("name"@, d.name)
        + kv_text("version"@, d.version)));
    assert((header + "\n"@ + Seq::<char>::empty()) + (kv_text("name"@, d.name) + kv_text(
        "version"@,
        d.version,
    )) =~= dep_text(d));
}

proof fn lemma_deps_text_joined(deps: Seq<DependencyView>)
    ensures
        deps_text(deps) == joined(deps_lines(deps)),
    decreases deps.len(),
{
    if deps.len() == 0 {
        assert(joined(deps_lines(deps)) =~= Seq::<char>::empty());
        assert(deps_text(deps) =~= Seq::<char>::empty());
    } else {
        lemma_dep_text_joined(deps[0]);
        lemma_deps_text_joined(deps.drop_first());
        lemma_joined_concat(dep_lines(deps[0]), deps_lines(deps.drop_first()));
    }
}

proof fn lemma_header_joined(header: Seq<char>)
    ensures
        joined(seq![header]) == header + "\n"@,
{
    assert(seq![header].drop_first() =~= Seq::<Seq<char>>::empty());
    assert(joined(Seq::<Seq<char>>::empty()) == Seq::<char>::empty());
    assert(joined(seq![header]) == header + "\n"@ + Seq::<char>::empty());
    assert(header + "\n"@ + Seq::<char>::empty() =~= header + "\n"@);
}

proof fn lemma_text_is_joined(c: ConfigView)
    ensures
        manifest_text(c) == joined(canonical_lines(c)),
{
    reveal_strlit("[project]");
    reveal_strlit("[project]\n");
    reveal_strlit("[dependencies]");
    reveal_strlit("[dependencies]\n");
    reveal_strlit("\n");
    let p = c.project;
    let head = seq![
        "[project]"@,
        kv_line("name"@, p.name),
        kv_line("version"@, p.version),
        arr_line("authors"@, p.authors),
    ];
    let d_lines = opt_lines("description"@, p.description);
    let l_lines = opt_lines("license"@, p.license);
    let r_lines = opt_lines("repository"@, p.repository);
    let dep_hd = seq!["[dependencies]"@];
    let tail = deps_lines(c.dependencies);

    lemma_header_joined("[project]"@);
    lemma_header_joined("[dependencies]"@);
    lemma_kv_text_joined("name"@, p.name);
    lemma_kv_text_joined("version"@, p.version);
    lemma_arr_text_joined("authors"@, p.authors);
    lemma_opt_text_joined("description"@, p.description);
    lemma_opt_text_joined("license"@, p.license);
    lemma_opt_text_joined("repository"@, p.repository);
    lemma_deps_text_joined(c.dependencies);

    assert("[project]\n"@ =~= "[project]"@ + "\n"@);
    assert("[dependencies]\n"@ =~= "[dependencies]"@ + "\n"@);

    assert(head =~= seq!["[project]"@] + seq![kv_line("name"@, p.name)] + seq![
        kv_line("version"@, p.version),
    ] + seq![arr_line("authors"@, p.authors)]);
    lemma_joined_concat(seq!["[project]"@], seq![kv_line("name"@, p.name)]);
    lemma_joined_concat(
        seq!["[project]"@] + seq![kv_line("name"@, p.name)],
        seq![kv_line("version"@, p.version)],
    );
    lemma_joined_concat(
        seq!["[project]"@] + seq![kv_line("name"@, p.name)] + seq![
            kv_line("version"@, p.version),
        ],
        seq![arr_line("authors"@, p.authors)],
    );
    lemma_kv_text_joined("name"@, p.name);
    assert(joined(head) == joined(seq!["[project]"@]) + joined(seq![kv_line("name"@, p.name)])
        + joined(seq![kv_line("version"@, p.version)]) + joined(
        seq![arr_line("authors"@, p.authors)],
    ));
    lemma_header_joined(kv_line("name"@, p.name));
    lemma_header_joined(kv_line("version"@, p.version));
    lemma_header_joined(arr_line("authors"@, p.authors));

    let all = head + d_lines + l_lines + r_lines + dep_hd + tail;
    assert(canonical_lines(c) == all);
    lemma_joined_concat(head, d_lines);
    lemma_joined_concat(head + d_lines, l_lines);
    lemma_joined_concat(head + d_lines + l_lines, r_lines);
    lemma_joined_concat(head + d_lines + l_lines + r_lines, dep_hd);
    lemma_joined_concat(head + d_lines + l_lines + r_lines + dep_hd, tail);
    assert(joined(all) == joined(head) + joined(d_lines) + joined(l_lines) + joined(r_lines)
        + joined(dep_hd) + joined(tail));
    assert(manifest_text(c) =~= joined(all));
}

proof fn lemma_bare_not_special(c: char)
    requires
        is_bare_key_char(c),
    ensures
        !is_ws(c),
        c != '=',
        c != '"',
        c != '[',
        c != ']',
        c != '#',
        c != '\n',
        c != ',',
{
}

proof fn lemma_parse_kv_line(key: Seq<char>, v: Seq<char>)
    requires
        is_bare_key(key),
        clean(v),
    ensures
        parse_line(kv_line(key, v)) == Some(LineV::Kv { key, value: ValueV::Str(v) }),
{
    reveal_strlit(" = ");
    reveal_strlit("\"");
    let s = kv_line(key, v);
    let k = key.len() as int;
    let n = s.len() as int;
    assert(n == k + 4 + v.len() + 1);
    assert(s[0] == key[0]);
    assert(s[k] == ' ' && s[k + 1] == '=' && s[k + 2] == ' ');
    assert(s[k + 3] == '"');
    assert forall|j: int| 0 <= j < v.len() implies s[k + 4 + j] == v[j] by {}
    assert(s[n - 1] == '"');
    lemma_bare_not_special(key[0]);
    lemma_trim_identity(s);
    let t = trim(s);
    assert(t == s);
    assert(t[0] != '#' && t[0] != '[');

    // The first equals sign stands right after the key and one space.
    assert forall|j: int| 0 <= j < k + 1 implies s[j] != '=' by {
        if j < k {
            lemma_bare_not_special(key[j]);
        }
    }
    lemma_dist_to_exact(s, 0, '=', k + 1);
    let d = k + 1;
    assert(dist_to(t, 0, '=') == d);
    assert(d < n);

    // The key region trims to the key itself.
    let kp = s.subrange(0, d);
    assert(kp.len() == k + 1);
    assert(kp[k] == ' ');
    assert(ws_run(kp, 0) == 0) by {
        lemma_bare_not_special(kp[0]);
    }
    assert(ws_tail(kp, k) == 0) by {
        lemma_bare_not_special(kp[k - 1]);
    }
    assert(ws_tail(kp, k + 1) == 1);
    assert(trim(kp) =~= key);

    // The value region trims to the quoted value.
    let rr = s.subrange(d + 1, n);
    assert(rr.len() == 1 + v.len() + 2);
    assert(rr[0] == ' ');
    assert(rr[1] == '"');
    assert(ws_run(rr, 1) == 0);
    assert(ws_run(rr, 0) == 1);
    assert(rr[rr.len() - 1] == '"');
    assert(ws_tail(rr, rr.len() as int) == 0);
    let raw = trim(rr);
    assert(raw =~= quoted(v));

    // The quoted value parses back to the value.
    let qn = raw.len() as int;
    assert(qn == v.len() + 2);
    assert(raw[0] == '"' && raw[qn - 1] == '"');
    assert forall|j: int| 1 <= j < qn - 1 implies raw[j] != '"' by {
        assert(raw[j] == v[j - 1]);
    }
    lemma_dist_to_exact(raw, 1, '"', qn - 1);
    assert(dist_to(raw, 1, '"') == qn - 2);
    assert(raw.subrange(1, qn - 1) =~= v);
    assert(parse_value(raw) == Some(ValueV::Str(v)));
}

proof fn lemma_items_skip_ws(s: Seq<char>, pos: int)
    requires
        0 <= pos < s.len(),
        is_ws(s[pos]),
    ensures
        parse_items_at(s, pos) == parse_items_at(s, pos + 1),
{
    assert(pos + ws_run(s, pos) as int == (pos + 1) + ws_run(s, pos + 1) as int);
}

proof fn lemma_parse_items(s: Seq<char>, pos: int, items: Seq<Seq<char>>)
    requires
        0 <= pos <= s.len(),
        s.subrange(pos, s.len() as int) == items_text(items),
        forall|i: int| 0 <= i < items.len() ==> clean(#[trigger] items[i]),
    ensures
        parse_items_at(s, pos) == Some(items),
    decreases items.len(),
{
    reveal_strlit(", ");
    reveal_strlit("\"");
    let suffix = s.subrange(pos, s.len() as int);
    if items.len() == 0 {
        assert(suffix.len() == 0);
        assert(pos == s.len());
        assert(ws_run(s, pos) == 0);
        assert(parse_items_at(s, pos) == Some(Seq::<Seq<char>>::empty()));
        assert(Seq::<Seq<char>>::empty() =~= items);
    } else if items.len() == 1 {
        let i0 = items[0];
        let n0 = i0.len() as int;
        assert(suffix == quoted(i0));
        assert(suffix.len() == n0 + 2);
        assert(s.len() == pos + n0 + 2);
        assert(s[pos] == suffix[0]);
        assert(suffix[0] == '"');
        assert(ws_run(s, pos) == 0);
        assert forall|j: int| pos + 1 <= j < pos + 1 + n0 implies s[j] != '"' by {
            assert(s[j] == suffix[j - pos]);
            assert(suffix[j - pos] == i0[j - pos - 1]);
        }
        assert(s[pos + 1 + n0] == suffix[n0 + 1]);
        assert(suffix[n0 + 1] == '"');
        lemma_dist_to_exact(s, pos + 1, '"', pos + 1 + n0);
        let close = pos + 1 + n0;
        assert(close < s.len());
        assert forall|j: int| 0 <= j < n0 implies s.subrange(pos + 1, close)[j] == i0[j] by {
            assert(s.subrange(pos + 1, close)[j] == s[pos + 1 + j]);
            assert(s[pos + 1 + j] == suffix[1 + j]);
            assert(suffix[1 + j] == i0[j]);
        }
        assert(s.subrange(pos + 1, close) =~= i0);
        assert(close + 1 == s.len());
        assert(ws_run(s, close + 1) == 0);
        assert(parse_items_at(s, pos) == Some(seq![i0]));
        assert(seq![i0] =~= items);
    } else {
        let i0 = items[0];
        let rest = items.drop_first();
        let n0 = i0.len() as int;
        assert(items_text(items) == quoted(i0) + ", "@ + items_text(rest));
        assert(suffix.len() == n0 + 4 + items_text(rest).len());
        assert(items_text(rest).len() > 0) by {
            assert(rest.len() >= 1);
            if rest.len() == 1 {
                assert(items_text(rest) == quoted(rest[0]));
            } else {
                assert(items_text(rest) == quoted(rest[0]) + ", "@ + items_text(
                    rest.drop_first(),
                ));
            }
            assert(quoted(rest[0]).len() >= 2);
        }
        assert(s[pos] == suffix[0]);
        assert(suffix[0] == '"');
        assert(ws_run(s, pos) == 0);
        assert forall|j: int| pos + 1 <= j < pos + 1 + n0 implies s[j] != '"' by {
            assert(s[j] == suffix[j - pos]);
            assert(suffix[j - pos] == i0[j - pos - 1]);
        }
        assert(s[pos + 1 + n0] == suffix[n0 + 1]);
        assert(suffix[n0 + 1] == '"');
        lemma_dist_to_exact(s, pos + 1, '"', pos + 1 + n0);
        let close = pos + 1 + n0;
        assert(close < s.len());
        assert forall|j: int| 0 <= j < n0 implies s.subrange(pos + 1, close)[j] == i0[j] by {
            assert(s.subrange(pos + 1, close)[j] == s[pos + 1 + j]);
            assert(s[pos + 1 + j] == suffix[1 + j]);
            assert(suffix[1 + j] == i0[j]);
        }
        assert(s.subrange(pos + 1, close) =~= i0);
        assert(s[close + 1] == suffix[n0 + 2]);
        assert(suffix[n0 + 2] == ',');
        assert(ws_run(s, close + 1) == 0);
        let q = close + 1;
        assert(s[q] == ',');
        assert(s[q + 1] == suffix[n0 + 3]);
        assert(suffix[n0 + 3] == ' ');
        assert(q + 1 < s.len());
        lemma_items_skip_ws(s, q + 1);
        assert(s.subrange(q + 2, s.len() as int) =~= suffix.subrange(
            n0 + 4,
            suffix.len() as int,
        ));
        assert(suffix.subrange(n0 + 4, suffix.len() as int) =~= items_text(rest));
        lemma_parse_items(s, q + 2, rest);
        assert(parse_items_at(s, q + 1) == Some(rest));
        assert(parse_items_at(s, pos) == Some(seq![i0] + rest));
        assert(seq![i0] + rest =~= items);
    }
}

#[verifier::rlimit(80)]
#[verifier::spinoff_prover]
proof fn lemma_parse_arr_line(key: Seq<char>, items: Seq<Seq<char>>)
    requires
        is_bare_key(key),
        forall|i: int| 0 <= i < items.len() ==> clean(#[trigger] items[i]),
    ensures
        parse_line(arr_line(key, items)) == Some(LineV::Kv { key, value: ValueV::Arr(items) }),
{
    reveal_strlit(" = [");
    reveal_strlit("]");
    let s = arr_line(key, items);
    let k = key.len() as int;
    let w = items_text(items).len() as int;
    let n = s.len() as int;
    assert(n == k + 4 + w + 1);
    assert(s[0] == key[0]);
    assert(s[k] == ' ' && s[k + 1] == '=' && s[k + 2] == ' ' && s[k + 3] == '[');
    assert forall|j: int| 0 <= j < w implies s[k + 4 + j] == items_text(items)[j] by {}
    assert(s[n - 1] == ']');
    lemma_bare_not_special(key[0]);
    lemma_trim_identity(s);
    let t = trim(s);
    assert(t == s);
    assert(t[0] != '#' && t[0] != '[');

    assert forall|j: int| 0 <= j < k + 1 implies s[j] != '=' by {
        if j < k {
            lemma_bare_not_special(key[j]);
        }
    }
    lemma_dist_to_exact(s, 0, '=', k + 1);
    let d = k + 1;
    assert(dist_to(t, 0, '=') == d);
    assert(d < n);

    let kp = s.subrange(0, d);
    assert(kp.len() == k + 1);
    assert(kp[k] == ' ');
    assert(ws_run(kp, 0) == 0) by {
        lemma_bare_not_special(kp[0]);
    }
    assert(ws_tail(kp, k) == 0) by {
        lemma_bare_not_special(kp[k - 1]);
    }
    assert(ws_tail(kp, k + 1) == 1);
    assert(trim(kp) =~= key);

    let rr = s.subrange(d + 1, n);
    assert(rr.len() == 1 + w + 2);
    assert(rr[0] == ' ');
    assert(rr[1] == '[');
    assert(ws_run(rr, 1) == 0);
    assert(ws_run(rr, 0) == 1);
    assert(rr[rr.len() - 1] == ']');
    assert(ws_tail(rr, rr.len() as int) == 0);
    let raw = trim(rr);
    assert(raw =~= "["@ + items_text(items) + "]"@) by {
        reveal_strlit("[");
    }

    let qn = raw.len() as int;
    assert(qn == w + 2);
    assert(raw[0] == '[') by {
        reveal_strlit("[");
    }
    assert(raw[0] != '"');
    assert(raw[qn - 1] == ']');
    let region = raw.subrange(1, qn - 1);
    assert(region =~= items_text(items));
    assert(region.subrange(0, region.len() as int) =~= region);
    lemma_parse_items(region, 0, items);
    assert(parse_value(raw) == Some(ValueV::Arr(items)));
}

proof fn lemma_parse_project_header()
    ensures
        parse_line("[project]"@) == Some(LineV::SecProject),
{
    reveal_strlit("[project]");
    reveal_strlit("project");
    let s = "[project]"@;
    assert(s.len() == 9);
    assert(!is_ws(s[0]) && !is_ws(s[8]));
    lemma_trim_identity(s);
    assert(s[0] == '[' && s[8] == ']');
    assert(s.subrange(1, 8) =~= "project"@);
}

proof fn lemma_parse_deps_header()
    ensures
        parse_line("[dependencies]"@) == Some(LineV::SecDependencies),
{
    reveal_strlit("[dependencies]");
    reveal_strlit("dependencies");
    reveal_strlit("project");
    let s = "[dependencies]"@;
    assert(s.len() == 14);
    assert(!is_ws(s[0]) && !is_ws(s[13]));
    lemma_trim_identity(s);
    assert(s[0] == '[' && s[13] == ']');
    let inner = s.subrange(1, 13);
    assert(inner =~= "dependencies"@);
    assert(inner.len() != "project"@.len());
    assert(inner != "project"@);
}

proof fn lemma_parse_dep_header(name: Seq<char>)
    requires
        is_bare_key(name),
    ensures
        parse_line("[dependencies."@ + name + "]"@) == Some(LineV::SecDep { key: name }),
{
    reveal_strlit("[dependencies.");
    reveal_strlit("dependencies.");
    reveal_strlit("dependencies");
    reveal_strlit("project");
    reveal_strlit("]");
    let s = "[dependencies."@ + name + "]"@;
    let k = name.len() as int;
    let n = s.len() as int;
    assert(n == 14 + k + 1);
    assert(s[0] == '[');
    assert(s[n - 1] == ']');
    lemma_trim_identity(s);
    let inner = s.subrange(1, n - 1);
    assert(inner.len() == 13 + k);
    assert(inner =~= "dependencies."@ + name);
    assert(inner.len() != "project"@.len());
    assert(inner != "project"@);
    assert(inner.len() != "dependencies"@.len());
    assert(inner != "dependencies"@);
    let pfx = "dependencies."@;
    assert(pfx.len() == 13);
    assert(inner.len() > pfx.len());
    assert(inner.subrange(0, 13) =~= pfx);
    assert(inner.subrange(13, inner.len() as int) =~= name);
}

proof fn lemma_parse_blank_line()
    ensures
        parse_line(Seq::<char>::empty()) == Some(LineV::Blank),
{
    let s = Seq::<char>::empty();
    assert(ws_run(s, 0) == 0);
    assert(ws_tail(s, 0) == 0);
    assert(trim(s).len() == 0);
}

proof fn lemma_bare_key_clean(s: Seq<char>)
    requires
        is_bare_key(s),
    ensures
        clean(s),
        line_clean(s),
{
    assert forall|i: int| 0 <= i < s.len() implies !(#[trigger] s[i] == '"' || s[i] == '\n') by {
        lemma_bare_not_special(s[i]);
    }
}

proof fn lemma_keys_bare()
    ensures
        is_bare_key("name"@),
        is_bare_key("version"@),
        is_bare_key("authors"@),
        is_bare_key("description"@),
        is_bare_key("license"@),
        is_bare_key("repository"@),
{
    reveal_strlit("name");
    reveal_strlit("version");
    reveal_strlit("authors");
    reveal_strlit("description");
    reveal_strlit("license");
    reveal_strlit("repository");
}

proof fn lemma_kv_line_clean(key: Seq<char>, v: Seq<char>)
    requires
        is_bare_key(key),
        clean(v),
    ensures
        line_clean(kv_line(key, v)),
{
    reveal_strlit(" = ");
    reveal_strlit("\"");
    let s = kv_line(key, v);
    let k = key.len() as int;
    assert forall|i: int| 0 <= i < s.len() implies #[trigger] s[i] != '\n' by {
        if i < k {
            lemma_bare_not_special(key[i]);
        } else if i < k + 3 {
            assert(s[i] == " = "@[i - k]);
        } else if i == k + 3 {
            assert(s[i] == '"');
        } else if i < k + 4 + v.len() {
            assert(s[i] == v[i - k - 4]);
        } else {
            assert(s[i] == '"');
        }
    }
}

proof fn lemma_items_text_clean(items: Seq<Seq<char>>)
    requires
        forall|i: int| 0 <= i < items.len() ==> clean(#[trigger] items[i]),
    ensures
        line_clean(items_text(items)),
    decreases items.len(),
{
    reveal_strlit("\"");
    reveal_strlit(", ");
    if items.len() == 0 {
    } else if items.len() == 1 {
        let q = quoted(items[0]);
        assert forall|i: int| 0 <= i < q.len() implies #[trigger] q[i] != '\n' by {
            if 1 <= i < q.len() - 1 {
                assert(q[i] == items[0][i - 1]);
            }
        }
    } else {
        lemma_items_text_clean(items.drop_first());
        let q = quoted(items[0]);
        let s = items_text(items);
        assert(s == q + ", "@ + items_text(items.drop_first()));
        assert forall|i: int| 0 <= i < s.len() implies #[trigger] s[i] != '\n' by {
            if i < q.len() {
                if 1 <= i < q.len() - 1 {
                    assert(q[i] == items[0][i - 1]);
                }
            } else if i < q.len() + 2 {
                assert(s[i] == ", "@[i - q.len()]);
            } else {
                assert(s[i] == items_text(items.drop_first())[i - q.len() - 2]);
            }
        }
    }
}

proof fn lemma_arr_line_clean(key: Seq<char>, items: Seq<Seq<char>>)
    requires
        is_bare_key(key),
        forall|i: int| 0 <= i < items.len() ==> clean(#[trigger] items[i]),
    ensures
        line_clean(arr_line(key, items)),
{
    reveal_strlit(" = [");
    reveal_strlit("]");
    lemma_items_text_clean(items);
    let s = arr_line(key, items);
    let k = key.len() as int;
    let w = items_text(items).len() as int;
    assert forall|i: int| 0 <= i < s.len() implies #[trigger] s[i] != '\n' by {
        if i < k {
            lemma_bare_not_special(key[i]);
        } else if i < k + 4 {
            assert(s[i] == " = ["@[i - k]);
        } else if i < k + 4 + w {
            assert(s[i] == items_text(items)[i - k - 4]);
        } else {
            assert(s[i] == ']');
        }
    }
}

proof fn lemma_dep_header_clean(name: Seq<char>)
    requires
        is_bare_key(name),
    ensures
        line_clean("[dependencies."@ + name + "]"@),
{
    reveal_strlit("[dependencies.");
    reveal_strlit("]");
    let s = "[dependencies."@ + name + "]"@;
    assert forall|i: int| 0 <= i < s.len() implies #[trigger] s[i] != '\n' by {
        if i < 14 {
            assert(s[i] == "[dependencies."@[i]);
        } else if i < 14 + name.len() {
            lemma_bare_not_special(name[i - 14]);
            assert(s[i] == name[i - 14]);
        } else {
            assert(s[i] == ']');
        }
    }
}

proof fn lemma_lines_clean_concat(a: Seq<Seq<char>>, b: Seq<Seq<char>>)
    requires
        lines_clean(a),
        lines_clean(b),
    ensures
        lines_clean(a + b),
{
    assert forall|i: int| 0 <= i < (a + b).len() implies line_clean(#[trigger] (a + b)[i]) by {
        if i < a.len() {
            assert((a + b)[i] == a[i]);
        } else {
            assert((a + b)[i] == b[i - a.len()]);
        }
    }
}

proof fn lemma_deps_lines_clean(ds: Seq<DependencyView>)
    requires
        forall|i: int|
            0 <= i < ds.len() ==> is_bare_key((#[trigger] ds[i]).name) && clean(ds[i].version),
    ensures
        lines_clean(deps_lines(ds)),
    decreases ds.len(),
{
    if ds.len() > 0 {
        let d0 = ds[0];
        lemma_dep_header_clean(d0.name);
        lemma_keys_bare();
        lemma_bare_key_clean(d0.name);
        lemma_kv_line_clean("name"@, d0.name);
        lemma_kv_line_clean("version"@, d0.version);
        assert(lines_clean(dep_lines(d0))) by {
            assert forall|i: int| 0 <= i < 3 implies line_clean(#[trigger] dep_lines(d0)[i]) by {
                if i == 0 {
                } else if i == 1 {
                } else {
                }
            }
        }
        lemma_deps_lines_clean(ds.drop_first());
        lemma_lines_clean_concat(dep_lines(d0), deps_lines(ds.drop_first()));
    }
}

proof fn lemma_canonical_lines_clean(c: ConfigView)
    requires
        wf_config(c),
    ensures
        lines_clean(canonical_lines(c)),
{
    reveal_strlit("[project]");
    reveal_strlit("[dependencies]");
    let p = c.project;
    lemma_keys_bare();
    lemma_kv_line_clean("name"@, p.name);
    lemma_kv_line_clean("version"@, p.version);
    lemma_arr_line_clean("authors"@, p.authors);
    let head = seq![
        "[project]"@,
        kv_line("name"@, p.name),
        kv_line("version"@, p.version),
        arr_line("authors"@, p.authors),
    ];
    assert(lines_clean(head)) by {
        assert forall|i: int| 0 <= i < 4 implies line_clean(#[trigger] head[i]) by {
            if i == 0 {
                assert(line_clean("[project]"@));
            }
        }
    }
    let d_lines = opt_lines("description"@, p.description);
    assert(lines_clean(d_lines)) by {
        match p.description {
            Some(v) => {
                lemma_kv_line_clean("description"@, v);
                assert(d_lines[0] == kv_line("description"@, v));
            },
            None => {},
        }
    }
    let l_lines = opt_lines("license"@, p.license);
    assert(lines_clean(l_lines)) by {
        match p.license {
            Some(v) => {
                lemma_kv_line_clean("license"@, v);
                assert(l_lines[0] == kv_line("license"@, v));
            },
            None => {},
        }
    }
    let r_lines = opt_lines("repository"@, p.repository);
    assert(lines_clean(r_lines)) by {
        match p.repository {
            Some(v) => {
                lemma_kv_line_clean("repository"@, v);
                assert(r_lines[0] == kv_line("repository"@, v));
            },
            None => {},
        }
    }
    let dep_hd = seq!["[dependencies]"@];
    assert(lines_clean(dep_hd)) by {
        assert(line_clean("[dependencies]"@));
        assert(dep_hd[0] == "[dependencies]"@);
    }
    lemma_deps_lines_clean(c.dependencies);
    lemma_lines_clean_concat(head, d_lines);
    lemma_lines_clean_concat(head + d_lines, l_lines);
    lemma_lines_clean_concat(head + d_lines + l_lines, r_lines);
    lemma_lines_clean_concat(head + d_lines + l_lines + r_lines, dep_hd);
    lemma_lines_clean_concat(
        head + d_lines + l_lines + r_lines + dep_hd,
        deps_lines(c.dependencies),
    );
}

#[verifier::rlimit(100)]
#[verifier::spinoff_prover]
proof fn lemma_parse_deps(ds: Seq<DependencyView>, st: PStateV)
    requires
        forall|i: int|
            0 <= i < ds.len() ==> is_bare_key((#[trigger] ds[i]).name) && clean(ds[i].version),
        forall|i: int, j: int| 0 <= i < j < ds.len() ==> ds[i].name != ds[j].name,
        close_dep(st) is Some,
        close_dep(st)->Some_0.name is Some,
        close_dep(st)->Some_0.name->Some_0.len() > 0,
        close_dep(st)->Some_0.version is Some,
        close_dep(st)->Some_0.version->Some_0.len() > 0,
        close_dep(st)->Some_0.authors is Some,
        close_dep(st)->Some_0.seen_deps,
        forall|i: int|
            0 <= i < ds.len() ==> !close_dep(st)->Some_0.dep_keys.contains(
                (#[trigger] ds[i]).name,
            ),
    ensures
        parse_lines(deps_lines(ds) + seq![Seq::<char>::empty()], st) == Some(
            ConfigView {
                project: ProjectView {
                    name: close_dep(st)->Some_0.name->Some_0,
                    version: close_dep(st)->Some_0.version->Some_0,
                    authors: close_dep(st)->Some_0.authors->Some_0,
                    description: close_dep(st)->Some_0.description,
                    license: close_dep(st)->Some_0.license,
                    repository: close_dep(st)->Some_0.repository,
                },
                dependencies: close_dep(st)->Some_0.deps + ds,
            },
        ),
    decreases ds.len(),
{
    let stc = close_dep(st)->Some_0;
    let target = ConfigView {
        project: ProjectView {
            name: stc.name->Some_0,
            version: stc.version->Some_0,
            authors: stc.authors->Some_0,
            description: stc.description,
            license: stc.license,
            repository: stc.repository,
        },
        dependencies: stc.deps + ds,
    };
    if ds.len() == 0 {
        let lines = deps_lines(ds) + seq![Seq::<char>::empty()];
        assert(lines =~= seq![Seq::<char>::empty()]);
        lemma_parse_blank_line();
        assert(lines[0] == Seq::<char>::empty());
        assert(parse_line(lines[0]) == Some(LineV::Blank));
        assert(step(st, LineV::Blank) == Some(st));
        assert(lines.drop_first() =~= Seq::<Seq<char>>::empty());
        assert(parse_lines(lines, st) == parse_lines(Seq::<Seq<char>>::empty(), st));
        assert(parse_lines(Seq::<Seq<char>>::empty(), st) == finish(st));
        assert(finish(st) is Some);
        let got = finish(st)->Some_0;
        assert(got.dependencies == stc.deps);
        assert(stc.deps + ds =~= stc.deps);
        assert(got =~~= target);
    } else {
        let d0 = ds[0];
        let rest = ds.drop_first();
        let l0 = "[dependencies."@ + d0.name + "]"@;
        let l1 = kv_line("name"@, d0.name);
        let l2 = kv_line("version"@, d0.version);
        let lines = deps_lines(ds) + seq![Seq::<char>::empty()];
        assert(deps_lines(ds) == dep_lines(d0) + deps_lines(rest));
        let tail = deps_lines(rest) + seq![Seq::<char>::empty()];
        assert(lines =~= seq![l0, l1, l2] + tail);

        lemma_keys_bare();
        lemma_bare_key_clean(d0.name);
        lemma_parse_dep_header(d0.name);
        lemma_parse_kv_line("name"@, d0.name);
        lemma_parse_kv_line("version"@, d0.version);

        // The header closes nothing new and opens the table for d0.
        assert(lines[0] == l0);
        assert(parse_line(l0) == Some(LineV::SecDep { key: d0.name }));
        assert(!stc.dep_keys.contains(d0.name));
        assert(step(st, LineV::SecDep { key: d0.name }) is Some);
        let st1 = step(st, LineV::SecDep { key: d0.name })->Some_0;
        assert(st1.section == SectionV::InDep);
        assert(st1.cur == Some(PDepV { key: d0.name, name: None, version: None }));

        // The two keys fill the table.
        assert(step(st1, LineV::Kv { key: "name"@, value: ValueV::Str(d0.name) }) is Some) by {
            reveal_strlit("name");
            reveal_strlit("version");
        }
        let st2 = step(st1, LineV::Kv { key: "name"@, value: ValueV::Str(d0.name) })->Some_0;
        assert(st2.cur == Some(PDepV { key: d0.name, name: Some(d0.name), version: None }));
        assert(step(st2, LineV::Kv { key: "version"@, value: ValueV::Str(d0.version) })
            is Some) by {
            reveal_strlit("name");
            reveal_strlit("version");
        }
        let st3 = step(st2, LineV::Kv { key: "version"@, value: ValueV::Str(d0.version) })
            ->Some_0;
        assert(st3.cur == Some(
            PDepV { key: d0.name, name: Some(d0.name), version: Some(d0.version) },
        ));

        // Stepping through the three lines.
        assert(lines.drop_first() =~= seq![l1, l2] + tail);
        assert(parse_lines(lines, st) == parse_lines(seq![l1, l2] + tail, st1));
        assert((seq![l1, l2] + tail)[0] == l1);
        assert((seq![l1, l2] + tail).drop_first() =~= seq![l2] + tail);
        assert(step(st1, LineV::Kv { key: "name"@, value: ValueV::Str(d0.name) }) == Some(st2));
        assert(parse_lines(seq![l1, l2] + tail, st1) == parse_lines(seq![l2] + tail, st2));
        assert((seq![l2] + tail)[0] == l2);
        assert((seq![l2] + tail).drop_first() =~= tail);
        assert(step(st2, LineV::Kv { key: "version"@, value: ValueV::Str(d0.version) }) == Some(
            st3,
        ));
        assert(parse_lines(seq![l2] + tail, st2) == parse_lines(tail, st3));
        assert(parse_lines(lines, st) == parse_lines(tail, st3));

        // The closed table is exactly d0.
        assert(close_dep(st3) is Some);
        let stc3 = close_dep(st3)->Some_0;
        assert(DependencyView { name: d0.name, version: d0.version } =~= d0);
        assert(stc3.deps == st3.deps.push(d0));
        assert(st3.deps == stc.deps);
        assert(st3.dep_keys == stc.dep_keys.push(d0.name));
        assert(stc3.dep_keys == stc.dep_keys.push(d0.name));
        assert(stc3.name == stc.name && stc3.version == stc.version && stc3.authors
            == stc.authors);
        assert(stc3.seen_deps == stc.seen_deps);

        // The remaining names stay fresh.
        assert forall|i: int| 0 <= i < rest.len() implies !stc3.dep_keys.contains(
            (#[trigger] rest[i]).name,
        ) by {
            assert(rest[i] == ds[i + 1]);
            assert(ds[i + 1].name != d0.name);
            assert(!stc.dep_keys.contains(ds[i + 1].name));
            if stc3.dep_keys.contains(rest[i].name) {
                let j = choose|j: int|
                    0 <= j < stc3.dep_keys.len() && stc3.dep_keys[j] == rest[i].name;
                if j < stc.dep_keys.len() {
                    assert(stc.dep_keys[j] == rest[i].name);
                    assert(stc.dep_keys.contains(rest[i].name));
                } else {
                    assert(stc3.dep_keys[j] == d0.name);
                }
                assert(false);
            }
        }
        lemma_parse_deps(rest, st3);
        assert(stc3.deps + rest =~= stc.deps + ds);
        let got = ConfigView {
            project: ProjectView {
                name: stc3.name->Some_0,
                version: stc3.version->Some_0,
                authors: stc3.authors->Some_0,
                description: stc3.description,
                license: stc3.license,
                repository: stc3.repository,
            },
            dependencies: stc3.deps + rest,
        };
        assert(parse_lines(tail, st3) == Some(got));
        assert(got =~~= target);
    }
}

/// The lines that follow the required project keys.
pub open spec fn tail_after_head(c: ConfigView) -> Seq<Seq<char>> {
    opt_lines("description"@, c.project.description) + opt_lines("license"@, c.project.license)
        + opt_lines("repository"@, c.project.repository) + seq!["[dependencies]"@] + deps_lines(
        c.dependencies,
    ) + seq![Seq::<char>::empty()]
}

#[verifier::rlimit(100)]
#[verifier::spinoff_prover]
proof fn lemma_parse_head(c: ConfigView) -> (st: PStateV)
    requires
        wf_config(c),
    ensures
        parse_lines(canonical_lines(c) + seq![Seq::<char>::empty()], init_state())
            == parse_lines(tail_after_head(c), st),
        st.section == SectionV::InProject,
        st.cur is None,
        st.seen_project,
        !st.seen_deps,
        st.name == Some(c.project.name),
        st.version == Some(c.project.version),
        st.authors == Some(c.project.authors),
        st.description is None,
        st.license is None,
        st.repository is None,
        st.deps == Seq::<DependencyView>::empty(),
        st.dep_keys == Seq::<Seq<char>>::empty(),
{
    reveal_strlit("name");
    reveal_strlit("version");
    reveal_strlit("authors");
    let p = c.project;
    let lines = canonical_lines(c) + seq![Seq::<char>::empty()];
    let d_lines = opt_lines("description"@, p.description);
    let l_lines = opt_lines("license"@, p.license);
    let r_lines = opt_lines("repository"@, p.repository);
    lemma_keys_bare();
    lemma_parse_project_header();
    lemma_parse_kv_line("name"@, p.name);
    lemma_parse_kv_line("version"@, p.version);
    lemma_parse_arr_line("authors"@, p.authors);

    // The required keys are pairwise distinct.
    assert("version"@[0] == 'v' && "authors"@[0] == 'a');
    assert("version"@ != "authors"@);

    let l_name = kv_line("name"@, p.name);
    let l_version = kv_line("version"@, p.version);
    let l_authors = arr_line("authors"@, p.authors);
    let tail0 = tail_after_head(c);
    assert(tail0 =~= d_lines + l_lines + r_lines + seq!["[dependencies]"@] + deps_lines(
        c.dependencies,
    ) + seq![Seq::<char>::empty()]);
    assert(lines =~= seq!["[project]"@, l_name, l_version, l_authors] + tail0);

    let st0 = init_state();
    assert(step(st0, LineV::SecProject) is Some);
    let st1 = step(st0, LineV::SecProject)->Some_0;
    assert(st1.section == SectionV::InProject);

    assert(step_project(st1, "name"@, ValueV::Str(p.name)) is Some);
    let st2 = step_project(st1, "name"@, ValueV::Str(p.name))->Some_0;
    assert(st2.name == Some(p.name));

    assert(step_project(st2, "version"@, ValueV::Str(p.version)) is Some);
    let st3 = step_project(st2, "version"@, ValueV::Str(p.version))->Some_0;
    assert(st3.version == Some(p.version));

    assert(step_project(st3, "authors"@, ValueV::Arr(p.authors)) is Some);
    let st4 = step_project(st3, "authors"@, ValueV::Arr(p.authors))->Some_0;
    assert(st4.authors == Some(p.authors));

    assert(step(st1, LineV::Kv { key: "name"@, value: ValueV::Str(p.name) }) == Some(st2));
    assert(step(st2, LineV::Kv { key: "version"@, value: ValueV::Str(p.version) }) == Some(st3));
    assert(step(st3, LineV::Kv { key: "authors"@, value: ValueV::Arr(p.authors) }) == Some(st4));
    assert((seq!["[project]"@, l_name, l_version, l_authors] + tail0)[0] == "[project]"@);
    assert((seq!["[project]"@, l_name, l_version, l_authors] + tail0).drop_first() =~= seq![
        l_name,
        l_version,
        l_authors,
    ] + tail0);
    assert(parse_lines(lines, st0) == parse_lines(seq![l_name, l_version, l_authors] + tail0, st1));
    assert((seq![l_name, l_version, l_authors] + tail0)[0] == l_name);
    assert((seq![l_name, l_version, l_authors] + tail0).drop_first() =~= seq![
        l_version,
        l_authors,
    ] + tail0);
    assert(parse_lines(seq![l_name, l_version, l_authors] + tail0, st1) == parse_lines(
        seq![l_version, l_authors] + tail0,
        st2,
    ));
    assert((seq![l_version, l_authors] + tail0)[0] == l_version);
    assert((seq![l_version, l_authors] + tail0).drop_first() =~= seq![l_authors] + tail0);
    assert(parse_lines(seq![l_version, l_authors] + tail0, st2) == parse_lines(
        seq![l_authors] + tail0,
        st3,
    ));
    assert((seq![l_authors] + tail0)[0] == l_authors);
    assert((seq![l_authors] + tail0).drop_first() =~= tail0);
    assert(parse_lines(seq![l_authors] + tail0, st3) == parse_lines(tail0, st4));
    assert(parse_lines(lines, st0) == parse_lines(tail0, st4));


    assert(st4.deps =~= Seq::<DependencyView>::empty());
    assert(st4.dep_keys =~= Seq::<Seq<char>>::empty());
    st4
}

proof fn lemma_parse_one_kv(st: PStateV, key: Seq<char>, v: Seq<char>, rest: Seq<Seq<char>>)
    requires
        is_bare_key(key),
        clean(v),
        st.section == SectionV::InProject,
        step_project(st, key, ValueV::Str(v)) is Some,
    ensures
        parse_lines(seq![kv_line(key, v)] + rest, st) == parse_lines(
            rest,
            step_project(st, key, ValueV::Str(v))->Some_0,
        ),
{
    lemma_parse_kv_line(key, v);
    assert((seq![kv_line(key, v)] + rest)[0] == kv_line(key, v));
    assert((seq![kv_line(key, v)] + rest).drop_first() =~= rest);
    assert(step(st, LineV::Kv { key, value: ValueV::Str(v) }) == Some(
        step_project(st, key, ValueV::Str(v))->Some_0,
    ));
}

#[verifier::rlimit(100)]
#[verifier::spinoff_prover]
proof fn lemma_parse_project_prefix(c: ConfigView) -> (st: PStateV)
    requires
        wf_config(c),
    ensures
        parse_lines(canonical_lines(c) + seq![Seq::<char>::empty()], init_state())
            == parse_lines(deps_lines(c.dependencies) + seq![Seq::<char>::empty()], st),
        st.cur is None,
        st.seen_deps,
        st.name == Some(c.project.name),
        st.version == Some(c.project.version),
        st.authors == Some(c.project.authors),
        st.description == c.project.description,
        st.license == c.project.license,
        st.repository == c.project.repository,
        st.deps == Seq::<DependencyView>::empty(),
        st.dep_keys == Seq::<Seq<char>>::empty(),
{
    reveal_strlit("name");
    reveal_strlit("version");
    reveal_strlit("authors");
    reveal_strlit("description");
    reveal_strlit("license");
    reveal_strlit("repository");
    let p = c.project;
    let st4 = lemma_parse_head(c);
    lemma_keys_bare();
    // The project keys are pairwise distinct.
    assert("version"@[0] == 'v' && "authors"@[0] == 'a' && "license"@[0] == 'l');
    assert("version"@ != "authors"@ && "version"@ != "license"@ && "authors"@ != "license"@);

    let tail4 = deps_lines(c.dependencies) + seq![Seq::<char>::empty()];
    let tail3 = seq!["[dependencies]"@] + tail4;
    let tail2 = opt_lines("repository"@, p.repository) + tail3;
    let tail1 = opt_lines("license"@, p.license) + tail2;
    let tail0 = opt_lines("description"@, p.description) + tail1;
    assert(tail_after_head(c) =~= tail0);

    let st5: PStateV = match p.description {
        Some(v) => {
            assert(step_project(st4, "description"@, ValueV::Str(v)) is Some);
            assert(tail0 == seq![kv_line("description"@, v)] + tail1);
            lemma_parse_one_kv(st4, "description"@, v, tail1);
            step_project(st4, "description"@, ValueV::Str(v))->Some_0
        },
        None => {
            assert(tail0 =~= tail1);
            st4
        },
    };
    assert(parse_lines(tail0, st4) == parse_lines(tail1, st5));
    assert(st5.description == p.description);
    assert(st5.section == SectionV::InProject && st5.cur is None && !st5.seen_deps);

    let st6: PStateV = match p.license {
        Some(v) => {
            assert(step_project(st5, "license"@, ValueV::Str(v)) is Some);
            assert(tail1 == seq![kv_line("license"@, v)] + tail2);
            lemma_parse_one_kv(st5, "license"@, v, tail2);
            step_project(st5, "license"@, ValueV::Str(v))->Some_0
        },
        None => {
            assert(tail1 =~= tail2);
            st5
        },
    };
    assert(parse_lines(tail1, st5) == parse_lines(tail2, st6));
    assert(st6.license == p.license);
    assert(st6.section == SectionV::InProject && st6.cur is None && !st6.seen_deps);

    let st7: PStateV = match p.repository {
        Some(v) => {
            assert(step_project(st6, "repository"@, ValueV::Str(v)) is Some);
            assert(tail2 == seq![kv_line("repository"@, v)] + tail3);
            lemma_parse_one_kv(st6, "repository"@, v, tail3);
            step_project(st6, "repository"@, ValueV::Str(v))->Some_0
        },
        None => {
            assert(tail2 =~= tail3);
            st6
        },
    };
    assert(parse_lines(tail2, st6) == parse_lines(tail3, st7));
    assert(st7.repository == p.repository);
    assert(st7.name == Some(p.name) && st7.version == Some(p.version) && st7.authors == Some(
        p.authors,
    ));
    assert(st7.description == p.description && st7.license == p.license);
    assert(st7.section == SectionV::InProject && st7.cur is None && !st7.seen_deps);

    // The dependency table header.
    lemma_parse_deps_header();
    assert(step(st7, LineV::SecDependencies) is Some);
    let st8 = step(st7, LineV::SecDependencies)->Some_0;
    assert(st8.seen_deps && st8.section == SectionV::InDeps && st8.cur is None);
    assert(tail3[0] == "[dependencies]"@);
    assert(tail3.drop_first() =~= tail4);
    assert(parse_lines(tail3, st7) == parse_lines(tail4, st8));

    assert(st8.deps =~= Seq::<DependencyView>::empty());
    assert(st8.dep_keys =~= Seq::<Seq<char>>::empty());
    st8
}

/// The round-trip law: serializing any well-formed configuration and parsing
/// the text back yields exactly that configuration.
#[verifier::rlimit(100)]
#[verifier::spinoff_prover]
pub proof fn lemma_manifest_round_trip(c: ConfigView)
    requires
        wf_config(c),
    ensures
        spec_parse(manifest_text(c)) == Some(c),
{
    let text = manifest_text(c);
    lemma_text_is_joined(c);
    lemma_canonical_lines_clean(c);
    assert(text.subrange(0, text.len() as int) =~= text);
    lemma_split_joined(text, 0, canonical_lines(c));
    let lines = canonical_lines(c) + seq![Seq::<char>::empty()];
    assert(split_lines_from(text, 0) == lines);
    let st8 = lemma_parse_project_prefix(c);
    let tail4 = deps_lines(c.dependencies) + seq![Seq::<char>::empty()];

    assert(close_dep(st8) == Some(st8));
    assert forall|i: int| 0 <= i < c.dependencies.len() implies !st8.dep_keys.contains(
        (#[trigger] c.dependencies[i]).name,
    ) by {
        assert(st8.dep_keys.len() == 0);
    }
    lemma_parse_deps(c.dependencies, st8);
    let got = ConfigView {
        project: ProjectView {
            name: st8.name->Some_0,
            version: st8.version->Some_0,
            authors: st8.authors->Some_0,
            description: st8.description,
            license: st8.license,
            repository: st8.repository,
        },
        dependencies: st8.deps + c.dependencies,
    };
    assert(parse_lines(tail4, st8) == Some(got));
    assert(st8.deps + c.dependencies =~= c.dependencies);
    assert(got =~~= c);
    assert(spec_parse(text) == parse_lines(lines, init_state()));
    assert(spec_parse(text) == Some(c));
}

} // verus!
