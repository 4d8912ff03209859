//! Installing the Remote Script into Ableton Live's User Library.
//!
//! Since Live 10.1.13, third-party control surfaces are loaded from
//! `<User Library>/Remote Scripts/`. The similarly named
//! `Preferences/User Remote Scripts/` is for legacy instant-mapping files and
//! is not scanned for Python scripts, so it is deliberately not a candidate.
//!
//! The files and folders are read by the caller; what is decided from them
//! is here.
use vstd::prelude::*;

use quick_xml::events::Event;

use crate::text::{
    all_digits, chars_of, digits_value, has_prefix, is_ascii_digit, parse_unsigned,
    starts_with_chars, str_eq, string_from, sub_chars, trim_chars, trim_seq, trim_start_chars,
    trim_start_seq, unsigned_text,
};

verus! {

broadcast use vstd::std_specs::vec::group_vec_axioms;

/// Live names a Control Surface after its folder. Deliberately not
/// "AbletonMCP": the upstream project installs under that name, and this
/// script is designed to sit alongside it rather than replace it.
pub const SCRIPT_FOLDER: &'static str = "Crableton";

#[verifier::external_type_specification]
#[verifier::external_body]
pub struct ExPathBuf(std::path::PathBuf);

/// Where the script was written, and whether it replaced something.
pub struct Installed {
    pub path: std::path::PathBuf,
    pub replaced_version: Option<String>,
}

/// Where the first occurrence of `c` in `s` is, or the length of `s` when
/// there is none.
pub open spec fn char_end(s: Seq<char>, c: char) -> nat
    decreases s.len(),
{
    if s.len() == 0 {
        0
    } else if s[0] == c {
        0
    } else {
        1 + char_end(s.drop_first(), c)
    }
}

pub proof fn lemma_char_end(s: Seq<char>, c: char)
    ensures
        char_end(s, c) <= s.len(),
        char_end(s, c) < s.len() ==> s[char_end(s, c) as int] == c,
        forall|i: int| 0 <= i < char_end(s, c) ==> s[i] != c,
    decreases s.len(),
{
    if s.len() > 0 && s[0] != c {
        lemma_char_end(s.drop_first(), c);
        assert forall|i: int| 0 <= i < char_end(s, c) implies s[i] != c by {
            if i > 0 {
                assert(s[i] == s.drop_first()[i - 1]);
            }
        }
    }
}

/// The version a line declares: `SCRIPT_VERSION`, optional spaces, `=`,
/// then a double-quoted value (read up to the next quote, or the end).
pub open spec fn line_version(line: Seq<char>) -> Option<Seq<char>> {
    let key = "SCRIPT_VERSION"@;
    if !has_prefix(line, key) {
        None
    } else {
        let a = trim_start_seq(line.skip(key.len() as int));
        if a.len() == 0 || a[0] != '=' {
            None
        } else {
            let b = trim_seq(a.drop_first());
            if b.len() == 0 || b[0] != '"' {
                None
            } else {
                let c = b.drop_first();
                Some(c.take(char_end(c, '"') as int))
            }
        }
    }
}

/// The first line of `s`, without its line ending (`\n` or `\r\n`).
pub open spec fn first_line(s: Seq<char>) -> Seq<char> {
    let n = char_end(s, '\n');
    if n < s.len() && n > 0 && s[n - 1] == '\r' {
        s.take(n - 1)
    } else {
        s.take(n as int)
    }
}

/// The version declared by the first line of `s` that declares one, reading
/// the lines as `str::lines` splits them.
pub open spec fn script_version(s: Seq<char>) -> Option<Seq<char>>
    decreases s.len(),
{
    if s.len() == 0 {
        None
    } else {
        let n = char_end(s, '\n');
        match line_version(first_line(s)) {
            Some(v) => Some(v),
            None => if n < s.len() {
                proof {
                    lemma_char_end(s, '\n');
                }
                script_version(s.skip(n + 1 as int))
            } else {
                None
            },
        }
    }
}

/// Where `c` first occurs in `s[from..]`, or the length of `s`.
fn find_char(s: &Vec<char>, from: usize, c: char) -> (r: usize)
    requires
        from <= s@.len(),
    ensures
        r == from + char_end(s@.skip(from as int), c),
{
    let mut i = from;
    while i < s.len() && s[i] != c
        invariant
            from <= i <= s@.len(),
            forall|k: int| from <= k < i ==> s@[k] != c,
        decreases s.len() - i,
    {
        i += 1;
    }
    proof {
        let t = s@.skip(from as int);
        lemma_char_end(t, c);
        let e = char_end(t, c);
        if e < i - from {
            assert(t[e as int] == s@[from + e]);
        }
        if i < s@.len() {
            assert(t[i - from] == s@[i as int]);
        }
    }
    i
}

/// The version a single line declares.
fn version_of_line(line: &Vec<char>) -> (r: Option<Vec<char>>)
    ensures
        match r {
            Some(v) => line_version(line@) == Some(v@),
            None => line_version(line@) is None,
        },
{
    let key = chars_of("SCRIPT_VERSION");
    proof {
        reveal_strlit("SCRIPT_VERSION");
    }
    if !starts_with_chars(line, &key) {
        return None;
    }
    let rest = sub_chars(line, key.len(), line.len());
    assert(rest@ =~= line@.skip(key@.len() as int));
    let a = trim_start_chars(&rest);
    if a.len() == 0 || a[0] != '=' {
        return None;
    }
    let after = sub_chars(&a, 1, a.len());
    assert(after@ =~= a@.drop_first());
    let b = trim_chars(&after);
    if b.len() == 0 || b[0] != '"' {
        return None;
    }
    let c = sub_chars(&b, 1, b.len());
    assert(c@ =~= b@.drop_first());
    let end = find_char(&c, 0, '"');
    assert(c@.skip(0) =~= c@);
    proof {
        lemma_char_end(c@, '"');
    }
    let v = sub_chars(&c, 0, end);
    assert(v@ =~= c@.take(end as int));
    Some(v)
}

/// Read `SCRIPT_VERSION = "..."` out of an installed script.
pub fn installed_version(source: &str) -> (r: Option<String>)
    ensures
        match r {
            Some(v) => script_version(source@) == Some(v@),
            None => script_version(source@) is None,
        },
{
    let s = chars_of(source);
    let mut start: usize = 0;
    assert(s@.skip(0) =~= s@);
    while start < s.len()
        invariant
            start <= s@.len(),
            s@ == source@,
            script_version(s@) == script_version(s@.skip(start as int)),
        decreases s.len() - start,
    {
        let ghost rest = s@.skip(start as int);
        let end = find_char(&s, start, '\n');
        proof {
            lemma_char_end(rest, '\n');
        }
        let n = end - start;
        let line = if end < s.len() && n > 0 && s[end - 1] == '\r' {
            sub_chars(&s, start, end - 1)
        } else {
            sub_chars(&s, start, end)
        };
        proof {
            if end < s.len() && n > 0 && s@[end - 1] == '\r' {
                assert(rest[n - 1] == s@[end - 1]);
                assert(line@ =~= rest.take(n - 1));
            } else {
                if end < s@.len() {
                    assert(rest[n as int] == s@[end as int]);
                }
                assert(line@ =~= rest.take(n as int));
            }
            assert(line@ == first_line(rest));
        }
        match version_of_line(&line) {
            Some(v) => {
                return Some(string_from(&v));
            },
            None => {},
        }
        if end >= s.len() {
            assert(script_version(rest) is None);
            return None;
        }
        assert(rest.skip(n + 1) =~= s@.skip(end + 1));
        start = end + 1;
    }
    assert(s@.skip(start as int) =~= Seq::<char>::empty());
    None
}

/// The numbers a run of digits contributes to a version key: its value,
/// when it is a run at all and fits in a `u32`.
pub open spec fn run_key(run: Seq<char>) -> Seq<u32> {
    if run.len() > 0 && digits_value(run) <= u32::MAX {
        seq![digits_value(run) as u32]
    } else {
        seq![]
    }
}

/// The version key of `s`, with `cur` the digits of the current run so far.
pub open spec fn key_from(s: Seq<char>, cur: Seq<char>) -> Seq<u32>
    decreases s.len(),
{
    if s.len() == 0 {
        run_key(cur)
    } else if is_ascii_digit(s[0]) {
        key_from(s.drop_first(), cur.push(s[0]))
    } else {
        run_key(cur) + key_from(s.drop_first(), Seq::empty())
    }
}

/// The numbers in a folder name such as `Live 12.10.0`: its runs of ASCII
/// digits, each read as a `u32` (a run too large for one is left out).
pub open spec fn version_key_of(name: Seq<char>) -> Seq<u32> {
    key_from(name, Seq::empty())
}

/// The version key of a folder name.
pub fn version_key(name: &str) -> (r: Vec<u32>)
    ensures
        r@ == version_key_of(name@),
{
    let s = chars_of(name);
    let mut out: Vec<u32> = Vec::new();
    let mut cur: Vec<char> = Vec::new();
    let mut i: usize = 0;
    assert(s@.skip(0) =~= s@);
    assert(cur@ =~= Seq::<char>::empty());
    while i < s.len()
        invariant
            i <= s@.len(),
            all_digits(cur@),
            out@ + key_from(s@.skip(i as int), cur@) == version_key_of(s@),
        decreases s.len() - i,
    {
        let c = s[i];
        let ghost rest = s@.skip(i as int);
        assert(rest[0] == c);
        assert(rest.drop_first() =~= s@.skip(i + 1));
        if '0' <= c && c <= '9' {
            cur.push(c);
            assert(all_digits(cur@));
        } else {
            let ghost before = out@;
            let ghost k = run_key(cur@);
            if cur.len() > 0 {
                match parse_unsigned(&cur, 4294967295u64) {
                    Some(v) => {
                        out.push(v as u32);
                    },
                    None => {},
                }
                assert(out@ =~= before + k);
            } else {
                assert(out@ =~= before + k);
            }
            assert(before + (k + key_from(s@.skip(i + 1), Seq::empty())) =~= out@ + key_from(s@.skip(i + 1), Seq::empty()));
            cur = Vec::new();
            assert(cur@ =~= Seq::<char>::empty());
        }
        i += 1;
    }
    let ghost before = out@;
    if cur.len() > 0 {
        match parse_unsigned(&cur, 4294967295u64) {
            Some(v) => {
                out.push(v as u32);
            },
            None => {},
        }
    }
    assert(s@.skip(i as int) =~= Seq::<char>::empty());
    assert(out@ =~= before + run_key(cur@));
    out
}

/// `a` sorts before `b` as `Vec<u32>` does: element by element, a proper
/// prefix first.
pub open spec fn lex_lt(a: Seq<u32>, b: Seq<u32>) -> bool
    decreases a.len(),
{
    if a.len() == 0 {
        b.len() > 0
    } else if b.len() == 0 {
        false
    } else if a[0] != b[0] {
        a[0] < b[0]
    } else {
        lex_lt(a.drop_first(), b.drop_first())
    }
}

pub proof fn lemma_lex_irreflexive(a: Seq<u32>)
    ensures
        !lex_lt(a, a),
    decreases a.len(),
{
    if a.len() > 0 {
        lemma_lex_irreflexive(a.drop_first());
    }
}

pub proof fn lemma_lex_asymmetric(a: Seq<u32>, b: Seq<u32>)
    ensures
        lex_lt(a, b) ==> !lex_lt(b, a),
    decreases a.len(),
{
    if a.len() > 0 && b.len() > 0 && a[0] == b[0] {
        lemma_lex_asymmetric(a.drop_first(), b.drop_first());
    }
}

/// Not sorting before is transitive.
pub proof fn lemma_lex_not_lt_trans(a: Seq<u32>, b: Seq<u32>, c: Seq<u32>)
    requires
        !lex_lt(a, b),
        !lex_lt(b, c),
    ensures
        !lex_lt(a, c),
    decreases a.len(),
{
    if a.len() > 0 && b.len() > 0 && c.len() > 0 && a[0] == b[0] && b[0] == c[0] {
        lemma_lex_not_lt_trans(a.drop_first(), b.drop_first(), c.drop_first());
    }
}

/// Whether `a` sorts before `b`.
fn key_lt(a: &Vec<u32>, b: &Vec<u32>) -> (r: bool)
    ensures
        r == lex_lt(a@, b@),
{
    let mut i: usize = 0;
    assert(a@.skip(0) =~= a@);
    assert(b@.skip(0) =~= b@);
    while i < a.len() && i < b.len() && a[i] == b[i]
        invariant
            i <= a@.len(),
            i <= b@.len(),
            lex_lt(a@, b@) == lex_lt(a@.skip(i as int), b@.skip(i as int)),
        decreases a.len() - i,
    {
        assert(a@.skip(i as int).drop_first() =~= a@.skip(i + 1));
        assert(b@.skip(i as int).drop_first() =~= b@.skip(i + 1));
        i += 1;
    }
    if i == a.len() {
        i < b.len()
    } else if i == b.len() {
        false
    } else {
        a[i] < b[i]
    }
}

/// `order` lists indices into `keys` newest first, as a stable sort by
/// descending key does: a permutation, descending, ties in the order they
/// were given.
pub open spec fn newest_first_order(keys: Seq<Seq<u32>>, order: Seq<usize>) -> bool {
    &&& order.len() == keys.len()
    &&& forall|i: int| 0 <= i < order.len() ==> order[i] < keys.len()
    &&& forall|i: int, j: int| 0 <= i < j < order.len() ==> order[i] != order[j]
    &&& forall|i: int, j: int|
        0 <= i < j < order.len() ==> !lex_lt(#[trigger] keys[order[i] as int], #[trigger] keys[order[j] as int])
    &&& forall|i: int, j: int|
        0 <= i < j < order.len() && keys[order[i] as int] == keys[order[j] as int] ==> order[i] < order[j]
}

/// The order in which to try Ableton's preference folders, named `names`:
/// newest Live first, comparing version numbers rather than strings so
/// "Live 12.10" sorts above "Live 12.9".
pub fn newest_first(names: &Vec<String>) -> (r: Vec<usize>)
    ensures
        newest_first_order(Seq::new(names@.len(), |i: int| version_key_of(names@[i]@)), r@),
{
    let ghost ks = Seq::new(names@.len(), |i: int| version_key_of(names@[i]@));
    let mut keys: Vec<Vec<u32>> = Vec::new();
    let mut m: usize = 0;
    while m < names.len()
        invariant
            m <= names@.len(),
            keys@.len() == m,
            ks == Seq::new(names@.len(), |i: int| version_key_of(names@[i]@)),
            forall|i: int| 0 <= i < m ==> (#[trigger] keys@[i])@ == ks[i],
        decreases names.len() - m,
    {
        keys.push(version_key(names[m].as_str()));
        m += 1;
    }
    let mut order: Vec<usize> = Vec::new();
    let mut m: usize = 0;
    while m < keys.len()
        invariant
            m <= keys@.len(),
            keys@.len() == names@.len(),
            ks.len() == names@.len(),
            forall|i: int| 0 <= i < keys@.len() ==> (#[trigger] keys@[i])@ == ks[i],
            newest_first_order(ks.take(m as int), order@),
        decreases keys.len() - m,
    {
        let mut pos = order.len();
        assert(ks.take(m as int).len() == m);
        while pos > 0 && key_lt(&keys[order[pos - 1]], &keys[m])
            invariant
                pos <= order@.len(),
                m < keys@.len(),
                ks.len() == keys@.len(),
                ks.take(m as int).len() == m,
                forall|i: int| 0 <= i < keys@.len() ==> (#[trigger] keys@[i])@ == ks[i],
                newest_first_order(ks.take(m as int), order@),
                forall|b: int| pos <= b < order@.len() ==> lex_lt(ks[order@[b] as int], ks[m as int]),
            decreases pos,
        {
            assert(keys@[order@[pos - 1] as int]@ == ks[order@[pos - 1] as int]);
            assert(keys@[m as int]@ == ks[m as int]);
            pos -= 1;
        }
        let ghost old_order = order@;
        let ghost km = ks[m as int];
        proof {
            let t = ks.take(m as int);
            assert forall|a: int| 0 <= a < pos implies !lex_lt(#[trigger] ks[old_order[a] as int], km) by {
                assert(!lex_lt(ks[old_order[pos - 1] as int], km));
                if a < pos - 1 {
                    assert(t[old_order[a] as int] == ks[old_order[a] as int]);
                    assert(t[old_order[pos - 1] as int] == ks[old_order[pos - 1] as int]);
                    assert(!lex_lt(t[old_order[a] as int], t[old_order[pos - 1] as int]));
                    lemma_lex_not_lt_trans(ks[old_order[a] as int], ks[old_order[pos - 1] as int], km);
                }
            }
        }
        order.insert(pos, m);
        proof {
            let t = ks.take(m + 1);
            let o = order@;
            assert forall|i: int| 0 <= i < o.len() implies o[i] < t.len() by {
                if i < pos {
                    assert(o[i] == old_order[i]);
                } else if i > pos {
                    assert(o[i] == old_order[i - 1]);
                }
            }
            assert forall|i: int| 0 <= i < o.len() implies #[trigger] t[o[i] as int] == ks[o[i] as int] by {
                if i < pos {
                    assert(o[i] == old_order[i]);
                } else if i > pos {
                    assert(o[i] == old_order[i - 1]);
                }
            }
            assert forall|i: int, j: int| 0 <= i < j < o.len() implies o[i] != o[j] by {
                if i != pos && j != pos {
                    let i2 = if i < pos { i } else { i - 1 };
                    let j2 = if j < pos { j } else { j - 1 };
                    assert(o[i] == old_order[i2]);
                    assert(o[j] == old_order[j2]);
                } else if i == pos {
                    assert(o[j] == old_order[j - 1]);
                } else {
                    assert(o[i] == old_order[i]);
                }
            }
            assert forall|i: int, j: int|
                0 <= i < j < o.len() implies !lex_lt(#[trigger] t[o[i] as int], #[trigger] t[o[j] as int]) by {
                if i != pos && j != pos {
                    let i2 = if i < pos { i } else { i - 1 };
                    let j2 = if j < pos { j } else { j - 1 };
                    assert(o[i] == old_order[i2]);
                    assert(o[j] == old_order[j2]);
                    assert(ks.take(m as int)[old_order[i2] as int] == ks[old_order[i2] as int]);
                    assert(ks.take(m as int)[old_order[j2] as int] == ks[old_order[j2] as int]);
                } else if i == pos {
                    assert(o[j] == old_order[j - 1]);
                    lemma_lex_asymmetric(ks[old_order[j - 1] as int], km);
                } else {
                    assert(o[i] == old_order[i]);
                }
            }
            assert forall|i: int, j: int|
                0 <= i < j < o.len() && t[o[i] as int] == t[o[j] as int] implies o[i] < o[j] by {
                if i != pos && j != pos {
                    let i2 = if i < pos { i } else { i - 1 };
                    let j2 = if j < pos { j } else { j - 1 };
                    assert(o[i] == old_order[i2]);
                    assert(o[j] == old_order[j2]);
                    assert(ks.take(m as int)[old_order[i2] as int] == ks[old_order[i2] as int]);
                    assert(ks.take(m as int)[old_order[j2] as int] == ks[old_order[j2] as int]);
                } else if i == pos {
                    assert(o[j] == old_order[j - 1]);
                    lemma_lex_irreflexive(km);
                } else {
                    assert(o[i] == old_order[i]);
                }
            }
        }
        m += 1;
    }
    assert(ks.take(keys@.len() as int) =~= ks);
    order
}

/// Whether a preference folder's name is one of Live's (`Live 12.1.5`).
pub fn is_live_folder(name: &str) -> (r: bool)
    ensures
        r == has_prefix(name@, "Live "@),
{
    let n = chars_of(name);
    let p = chars_of("Live ");
    starts_with_chars(&n, &p)
}

/// The User Library to use: the one a preference folder's `Library.cfg`
/// names (`configured`, with whether it is a directory) when it is a
/// directory, else the default location (`default`, likewise) when that is
/// one.
pub fn locate_user_library(configured: Option<(String, bool)>, default: Option<(String, bool)>) -> (r: Option<String>)
    ensures
        r == (match configured {
            Some((p, true)) => Some(p),
            _ => match default {
                Some((p, true)) => Some(p),
                _ => None,
            },
        }),
{
    match configured {
        Some((p, true)) => Some(p),
        _ => match default {
            Some((p, true)) => Some(p),
            _ => None,
        },
    }
}

/// Where the User Library sits below the home folder by default.
pub fn default_library_below_home(windows: bool) -> (r: &'static str)
    ensures
        r@ == (if windows {
            "Documents/Ableton/User Library"@
        } else {
            "Music/Ableton/User Library"@
        }),
{
    if windows {
        "Documents/Ableton/User Library"
    } else {
        "Music/Ableton/User Library"
    }
}

#[verifier::external_type_specification]
#[verifier::external_body]
#[verifier::reject_recursive_types(R)]
pub struct ExXmlReader<R>(quick_xml::reader::Reader<R>);

/// One event of an XML reader, with the parts the configuration reader
/// looks at.
pub enum XmlEvent {
    Start(String),
    End(String),
    /// An element without content (`<tag ... />`): its name, and its
    /// attributes in order, each `None` where it is malformed.
    Empty { name: String, attributes: Vec<Option<(String, String)>> },
    Eof,
    /// The reader reported an error.
    Failed,
    /// Anything else: text, comments, declarations.
    Other,
}

pub ghost enum XmlEventV {
    Start(Seq<char>),
    End(Seq<char>),
    Empty(Seq<char>, Seq<Option<(Seq<char>, Seq<char>)>>),
    Eof,
    Failed,
    Other,
}

/// The view of one attribute.
pub open spec fn attribute_view(a: Option<(String, String)>) -> Option<(Seq<char>, Seq<char>)> {
    match a {
        Some((k, v)) => Some((k@, v@)),
        None => None,
    }
}

impl View for XmlEvent {
    type V = XmlEventV;

    open spec fn view(&self) -> XmlEventV {
        match self {
            XmlEvent::Start(n) => XmlEventV::Start(n@),
            XmlEvent::End(n) => XmlEventV::End(n@),
            XmlEvent::Empty { name, attributes } => XmlEventV::Empty(
                name@,
                attributes@.map_values(|a: Option<(String, String)>| attribute_view(a)),
            ),
            XmlEvent::Eof => XmlEventV::Eof,
            XmlEvent::Failed => XmlEventV::Failed,
            XmlEvent::Other => XmlEventV::Other,
        }
    }
}

/// The event at position `index` (counting from zero) that
/// `quick_xml::Reader::from_str(source)` yields when `read_event_into` is
/// called repeatedly: names and attribute keys and values as written, not
/// unescaped.
pub uninterp spec fn xml_event(source: Seq<char>, index: nat) -> XmlEventV;

/// `quick_xml::Reader::from_str`, with the default configuration.
#[verifier::external_body]
fn xml_reader<'a>(source: &'a str) -> quick_xml::reader::Reader<&'a [u8]> {
    quick_xml::reader::Reader::from_str(source)
}

/// A reader over an XML text, with the text it reads and how many events it
/// has handed out.
pub struct XmlCursor<'a> {
    reader: quick_xml::reader::Reader<&'a [u8]>,
    buf: Vec<u8>,
    source: Ghost<Seq<char>>,
    read: Ghost<nat>,
}

impl<'a> XmlCursor<'a> {
    /// The text being read.
    pub closed spec fn source(&self) -> Seq<char> {
        self.source@
    }

    /// How many events have been read.
    pub closed spec fn read(&self) -> nat {
        self.read@
    }

    pub fn open(source: &'a str) -> (r: Self)
        ensures
            r.source() == source@,
            r.read() == 0,
    {
        XmlCursor { reader: xml_reader(source), buf: Vec::new(), source: Ghost(source@), read: Ghost(0) }
    }

    /// `quick_xml::Reader::read_event_into` on the cursor's reader: the next
    /// event of the text, converted.
    #[verifier::external_body]
    pub fn next(&mut self) -> (e: XmlEvent)
        ensures
            e@ == xml_event(old(self).source(), old(self).read()),
            final(self).source() == old(self).source(),
            final(self).read() == old(self).read() + 1,
    {
        self.buf.clear();
        match self.reader.read_event_into(&mut self.buf) {
            Ok(Event::Start(e)) => XmlEvent::Start(e.name().0.to_string()),
            Ok(Event::End(e)) => XmlEvent::End(e.name().0.to_string()),
            Ok(Event::Empty(e)) => XmlEvent::Empty {
                name: e.name().0.to_string(),
                attributes: e.attributes().map(|a| a.ok().map(|a| (a.key.0.to_string(), a.value.into_owned()))).collect(),
            },
            Ok(Event::Eof) => XmlEvent::Eof,
            Ok(_) => XmlEvent::Other,
            Err(_) => XmlEvent::Failed,
        }
    }
}

/// The value of the first well-formed attribute called `Value`.
pub open spec fn value_attribute(attrs: Seq<Option<(Seq<char>, Seq<char>)>>) -> Option<Seq<char>>
    decreases attrs.len(),
{
    if attrs.len() == 0 {
        None
    } else {
        match attrs[0] {
            Some((k, v)) => if k == "Value"@ {
                Some(v)
            } else {
                value_attribute(attrs.drop_first())
            },
            None => value_attribute(attrs.drop_first()),
        }
    }
}

/// What reading `Library.cfg` has found so far: whether the reader is
/// inside `UserLibrary`, and the project path and name seen there.
pub ghost struct LibraryScan {
    pub inside: bool,
    pub path: Option<Seq<char>>,
    pub name: Option<Seq<char>>,
}

/// The effect of one event: the new state, and whether reading stops.
pub open spec fn scan_step(st: LibraryScan, e: XmlEventV) -> (LibraryScan, bool) {
    match e {
        XmlEventV::Eof => (st, true),
        XmlEventV::Failed => (st, true),
        XmlEventV::Start(n) => if n == "UserLibrary"@ {
            (LibraryScan { inside: true, path: st.path, name: st.name }, false)
        } else {
            (st, false)
        },
        XmlEventV::End(n) => (st, n == "UserLibrary"@),
        XmlEventV::Empty(n, attrs) => if !st.inside {
            (st, false)
        } else if n == "ProjectPath"@ {
            match value_attribute(attrs) {
                Some(v) => (LibraryScan { inside: st.inside, path: Some(v), name: st.name }, false),
                None => (st, false),
            }
        } else if n == "ProjectName"@ {
            match value_attribute(attrs) {
                Some(v) => (LibraryScan { inside: st.inside, path: st.path, name: Some(v) }, false),
                None => (st, false),
            }
        } else {
            (st, false)
        },
        XmlEventV::Other => (st, false),
    }
}

/// The state after reading events `index..` of `source`, at most `fuel` of
/// them.
pub open spec fn scan_from(source: Seq<char>, index: nat, fuel: nat, st: LibraryScan) -> LibraryScan
    decreases fuel,
{
    if fuel == 0 {
        st
    } else {
        let (next, stop) = scan_step(st, xml_event(source, index));
        if stop {
            next
        } else {
            scan_from(source, index + 1, (fuel - 1) as nat, next)
        }
    }
}

/// How many events reading `source` takes at most. `quick_xml`'s reader
/// hands out no event without consuming at least one byte of the text (a
/// run of text is read up to the next markup, never empty; markup and
/// references consume their delimiters), until it reports the end or an
/// error; a text of `n` characters holds at most `4 * n` bytes, so its end
/// comes within `4 * n + 1` events.
pub open spec fn event_budget(source: Seq<char>) -> nat {
    4 * source.len() + 1
}

/// The User Library `Library.cfg` (whose text is `source`) names: the
/// project path, and the project name to join to it when that is not empty.
pub open spec fn library_in_config(source: Seq<char>) -> Option<(Seq<char>, Option<Seq<char>>)> {
    let st = scan_from(source, 0, event_budget(source), LibraryScan { inside: false, path: None, name: None });
    match st.path {
        None => None,
        Some(p) => Some(
            (
                p,
                match st.name {
                    Some(n) => if n.len() > 0 {
                        Some(n)
                    } else {
                        None
                    },
                    None => None,
                },
            ),
        ),
    }
}

/// A User Library location: a folder, and the name of the library inside
/// it when the configuration gives one.
pub struct LibraryLocation {
    pub folder: String,
    pub name: Option<String>,
}

/// The view of an optional string.
pub open spec fn opt_view(o: Option<String>) -> Option<Seq<char>> {
    match o {
        Some(s) => Some(s@),
        None => None,
    }
}

/// What reading `Library.cfg` has found so far, as [`LibraryScan`] holds
/// it.
pub struct ScanState {
    pub inside: bool,
    pub path: Option<String>,
    pub name: Option<String>,
}

/// The view of a [`ScanState`].
pub open spec fn scan_view(s: ScanState) -> LibraryScan {
    LibraryScan { inside: s.inside, path: opt_view(s.path), name: opt_view(s.name) }
}

/// One step of reading `Library.cfg`: the state after the event `e`, and
/// whether reading stops there.
pub fn scan_event(state: ScanState, e: &XmlEvent) -> (r: (ScanState, bool))
    ensures
        (scan_view(r.0), r.1) == scan_step(scan_view(state), e@),
{
    let mut state = state;
    let mut stop = false;
    match e {
        XmlEvent::Eof => {
            stop = true;
        },
        XmlEvent::Failed => {
            stop = true;
        },
        XmlEvent::Start(t) => {
            if str_eq(t.as_str(), "UserLibrary") {
                state.inside = true;
            }
        },
        XmlEvent::End(t) => {
            if str_eq(t.as_str(), "UserLibrary") {
                stop = true;
            }
        },
        XmlEvent::Empty { name: t, attributes } => {
            if state.inside {
                if str_eq(t.as_str(), "ProjectPath") {
                    match find_value(attributes) {
                        Some(v) => {
                            state.path = Some(v);
                        },
                        None => {},
                    }
                } else if str_eq(t.as_str(), "ProjectName") {
                    match find_value(attributes) {
                        Some(v) => {
                            state.name = Some(v);
                        },
                        None => {},
                    }
                }
            }
        },
        XmlEvent::Other => {},
    }
    (state, stop)
}

fn find_value(attributes: &Vec<Option<(String, String)>>) -> (r: Option<String>)
    ensures
        opt_view(r) == value_attribute(attributes@.map_values(|a: Option<(String, String)>| attribute_view(a))),
{
    let ghost all = attributes@.map_values(|a: Option<(String, String)>| attribute_view(a));
    let mut i: usize = 0;
    assert(all.skip(0) =~= all);
    while i < attributes.len()
        invariant
            i <= attributes@.len(),
            all == attributes@.map_values(|a: Option<(String, String)>| attribute_view(a)),
            value_attribute(all) == value_attribute(all.skip(i as int)),
        decreases attributes.len() - i,
    {
        assert(all.skip(i as int).drop_first() =~= all.skip(i + 1));
        assert(all.skip(i as int)[0] == attribute_view(attributes@[i as int]));
        match &attributes[i] {
            Some((k, v)) => {
                if str_eq(k.as_str(), "Value") {
                    return Some(v.clone());
                }
            },
            None => {},
        }
        i += 1;
    }
    assert(all.skip(i as int) =~= Seq::<Option<(Seq<char>, Seq<char>)>>::empty());
    None
}

/// Best-effort read of a relocated User Library out of the text of
/// `Library.cfg`.
///
/// Live stores it as a `ProjectPath` (the containing folder) plus a
/// `ProjectName`; the library is their join.
pub fn user_library_from_config(source: &str) -> (r: Option<LibraryLocation>)
    ensures
        match library_in_config(source@) {
            None => r is None,
            Some((p, n)) => r matches Some(l) && l.folder@ == p && opt_view(l.name) == n,
        },
{
    let chars = chars_of(source);
    let mut left: u128 = (chars.len() as u128) * 4;
    let mut cursor = XmlCursor::open(source);
    let mut state = ScanState { inside: false, path: None, name: None };
    let ghost init = LibraryScan { inside: false, path: None, name: None };
    let ghost goal = scan_from(source@, 0, event_budget(source@), init);
    loop
        invariant_except_break
            cursor.source() == source@,
            goal == scan_from(source@, cursor.read(), (left + 1) as nat, scan_view(state)),
        ensures
            goal == scan_view(state),
        decreases left,
    {
        let ghost k = cursor.read();
        let e = cursor.next();
        let (next, stop) = scan_event(state, &e);
        state = next;
        if stop {
            break;
        }
        if left == 0 {
            assert(scan_from(source@, k + 1, 0, scan_view(state)) == scan_view(state));
            break;
        }
        left -= 1;
    }
    let path = state.path;
    let name = state.name;
    match path {
        None => None,
        Some(p) => {
            let n = match name {
                Some(n) => {
                    if chars_of(n.as_str()).len() > 0 {
                        Some(n)
                    } else {
                        None
                    }
                },
                None => None,
            };
            Some(LibraryLocation { folder: p, name: n })
        },
    }
}

} // verus!
