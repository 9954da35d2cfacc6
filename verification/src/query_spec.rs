//! The query specification files of the TPC-H evaluation.
//!
//! A file holds `key: value` metadata lines, then `[section]` headers each
//! followed by its text. Blank lines and lines starting with `#` are skipped
//! outside sections; within a section a blank line ends a paragraph.
use vstd::prelude::*;

use crate::text::{chars_of, extend_chars, same_chars, string_of};

verus! {

/// Whether a character is whitespace in the sense of Rust's
/// `char::is_whitespace` (the Unicode `White_Space` property).
pub open spec fn is_ws(c: char) -> bool {
    ||| c == '\t' || c == '\n' || c == '\u{0B}' || c == '\u{0C}' || c == '\r' || c == ' '
    ||| c == '\u{85}' || c == '\u{A0}' || c == '\u{1680}'
    ||| ('\u{2000}' <= c && c <= '\u{200A}')
    ||| c == '\u{2028}' || c == '\u{2029}' || c == '\u{202F}' || c == '\u{205F}' || c == '\u{3000}'
}

/// `s` without its leading whitespace.
pub open spec fn trim_start(s: Seq<char>) -> Seq<char>
    decreases s.len(),
{
    if s.len() > 0 && is_ws(s[0]) {
        trim_start(s.drop_first())
    } else {
        s
    }
}

/// `s` without its trailing whitespace.
pub open spec fn trim_end(s: Seq<char>) -> Seq<char>
    decreases s.len(),
{
    if s.len() > 0 && is_ws(s.last()) {
        trim_end(s.drop_last())
    } else {
        s
    }
}

/// `s` without leading and trailing whitespace.
pub open spec fn trim(s: Seq<char>) -> Seq<char> {
    trim_end(trim_start(s))
}

/// The lines of a text split at `\n`, and the unterminated rest.
pub open spec fn split_newlines(t: Seq<char>) -> (Seq<Seq<char>>, Seq<char>)
    decreases t.len(),
{
    if t.len() == 0 {
        (Seq::empty(), Seq::empty())
    } else {
        let (done, cur) = split_newlines(t.drop_last());
        if t.last() == '\n' {
            (done.push(cur), Seq::empty())
        } else {
            (done, cur.push(t.last()))
        }
    }
}

/// A line ended by `\n` without a `\r` before that `\n`.
pub open spec fn strip_cr(l: Seq<char>) -> Seq<char> {
    if l.len() > 0 && l.last() == '\r' {
        l.drop_last()
    } else {
        l
    }
}

/// The lines of a text, as Rust's `str::lines` gives them: split at `\n`,
/// with a `\r` before a `\n` dropped, and no empty line after a final `\n`.
pub open spec fn text_lines(t: Seq<char>) -> Seq<Seq<char>> {
    let (done, cur) = split_newlines(t);
    let done = Seq::new(done.len(), |i: int| strip_cr(done[i]));
    if cur.len() > 0 {
        done.push(cur)
    } else {
        done
    }
}

/// The index of the first `:` in `s`, if any.
pub open spec fn find_colon(s: Seq<char>) -> Option<int>
    decreases s.len(),
{
    if s.len() == 0 {
        None
    } else if s[0] == ':' {
        Some(0)
    } else {
        match find_colon(s.drop_first()) {
            Some(k) => Some(k + 1),
            None => None,
        }
    }
}

/// What has been read of a specification file: the metadata and sections
/// recorded so far (a later entry for a key overrides an earlier one), the
/// open section and its text so far.
pub struct ReadState {
    pub meta: Seq<(Seq<char>, Seq<char>)>,
    pub sections: Seq<(Seq<char>, Seq<char>)>,
    pub current: Option<Seq<char>>,
    pub buffer: Seq<char>,
}

/// Whether a text ends with a newline.
pub open spec fn ends_with_newline(b: Seq<char>) -> bool {
    b.len() > 0 && b.last() == '\n'
}

/// Reads one line; the error is a metadata line without `:`.
pub open spec fn read_line(st: ReadState, raw: Seq<char>) -> Result<ReadState, Seq<char>> {
    let line = trim_end(raw);
    if trim(line).len() == 0 {
        Ok(
            if st.current is Some && !ends_with_newline(st.buffer) {
                ReadState { buffer: st.buffer.push('\n'), ..st }
            } else {
                st
            },
        )
    } else if line[0] == '#' {
        Ok(st)
    } else if line[0] == '[' && line.last() == ']' {
        let st = match st.current {
            Some(sec) => ReadState {
                sections: st.sections.push((sec, trim(st.buffer))),
                buffer: Seq::empty(),
                ..st
            },
            None => st,
        };
        Ok(ReadState { current: Some(line.subrange(1, line.len() - 1)), ..st })
    } else if st.current is Some {
        let b = if st.buffer.len() > 0 && !ends_with_newline(st.buffer) {
            st.buffer.push('\n')
        } else {
            st.buffer
        };
        Ok(ReadState { buffer: b + line, ..st })
    } else {
        match find_colon(line) {
            Some(k) => Ok(
                ReadState {
                    meta: st.meta.push((trim(line.subrange(0, k)), trim(line.subrange(k + 1, line.len() as int)))),
                    ..st
                },
            ),
            None => Err(line),
        }
    }
}

/// Reads the first `n` lines.
pub open spec fn read_lines(lines: Seq<Seq<char>>, n: nat) -> Result<ReadState, Seq<char>>
    decreases n,
{
    if n == 0 {
        Ok(ReadState { meta: Seq::empty(), sections: Seq::empty(), current: None, buffer: Seq::empty() })
    } else {
        match read_lines(lines, (n - 1) as nat) {
            Ok(st) => read_line(st, lines[n - 1]),
            Err(e) => Err(e),
        }
    }
}

/// Reads a specification file: its metadata and sections as lists of
/// entries, or the first metadata line without `:`.
pub open spec fn read_spec_text(t: Seq<char>) -> Result<ReadState, Seq<char>> {
    let lines = text_lines(t);
    match read_lines(lines, lines.len()) {
        Ok(st) => Ok(
            match st.current {
                Some(sec) => ReadState { sections: st.sections.push((sec, trim(st.buffer))), ..st },
                None => st,
            },
        ),
        Err(e) => Err(e),
    }
}

/// The value of the last entry for `key`, if any.
pub open spec fn lookup_entry(entries: Seq<(Seq<char>, Seq<char>)>, key: Seq<char>) -> Option<Seq<char>>
    decreases entries.len(),
{
    if entries.len() == 0 {
        None
    } else if entries.last().0 == key {
        Some(entries.last().1)
    } else {
        lookup_entry(entries.drop_last(), key)
    }
}

// ---- executable reading ----

/// Whether a character is whitespace (see [`is_ws`]).
pub fn is_ws_char(c: char) -> (r: bool)
    ensures
        r == is_ws(c),
{
    c == '\t' || c == '\n' || c == '\u{0B}' || c == '\u{0C}' || c == '\r' || c == ' ' || c == '\u{85}'
        || c == '\u{A0}' || c == '\u{1680}' || ('\u{2000}' <= c && c <= '\u{200A}') || c == '\u{2028}'
        || c == '\u{2029}' || c == '\u{202F}' || c == '\u{205F}' || c == '\u{3000}'
}

/// The characters `s[from..to]`.
fn slice_chars(s: &Vec<char>, from: usize, to: usize) -> (r: Vec<char>)
    requires
        from <= to <= s@.len(),
    ensures
        r@ == s@.subrange(from as int, to as int),
{
    let mut r: Vec<char> = Vec::new();
    let mut i = from;
    while i < to
        invariant
            from <= i <= to,
            to <= s@.len(),
            r@ == s@.subrange(from as int, i as int),
        decreases to - i,
    {
        r.push(s[i]);
        assert(s@.subrange(from as int, i + 1) == s@.subrange(from as int, i as int).push(s@[i as int]));
        i = i + 1;
    }
    r
}

/// Trimming the front drops exactly the leading whitespace.
proof fn lemma_trim_start(s: Seq<char>, i: int)
    requires
        0 <= i <= s.len(),
        forall|k: int| 0 <= k < i ==> is_ws(s[k]),
        i == s.len() || !is_ws(s[i]),
    ensures
        trim_start(s) == s.subrange(i, s.len() as int),
    decreases i,
{
    if i > 0 {
        lemma_trim_start(s.drop_first(), i - 1);
        assert(s.drop_first().subrange(i - 1, s.len() - 1) == s.subrange(i, s.len() as int));
    } else {
        assert(s.subrange(0, s.len() as int) == s);
    }
}

/// Trimming the back drops exactly the trailing whitespace.
proof fn lemma_trim_end(s: Seq<char>, j: int)
    requires
        0 <= j <= s.len(),
        forall|k: int| j <= k < s.len() ==> is_ws(s[k]),
        j == 0 || !is_ws(s[j - 1]),
    ensures
        trim_end(s) == s.subrange(0, j),
    decreases s.len() - j,
{
    if j < s.len() {
        lemma_trim_end(s.drop_last(), j);
        assert(s.drop_last().subrange(0, j) == s.subrange(0, j));
    } else {
        assert(s.subrange(0, j) == s);
    }
}

/// `s` without trailing whitespace.
pub fn trim_end_chars(s: &Vec<char>) -> (r: Vec<char>)
    ensures
        r@ == trim_end(s@),
{
    let mut j = s.len();
    while j > 0 && is_ws_char(s[j - 1])
        invariant
            j <= s@.len(),
            forall|k: int| j <= k < s@.len() ==> is_ws(s@[k]),
        decreases j,
    {
        j = j - 1;
    }
    proof {
        lemma_trim_end(s@, j as int);
    }
    slice_chars(s, 0, j)
}

/// `s` without leading and trailing whitespace.
pub fn trim_chars(s: &Vec<char>) -> (r: Vec<char>)
    ensures
        r@ == trim(s@),
{
    let mut i: usize = 0;
    while i < s.len() && is_ws_char(s[i])
        invariant
            i <= s@.len(),
            forall|k: int| 0 <= k < i ==> is_ws(s@[k]),
        decreases s@.len() - i,
    {
        i = i + 1;
    }
    proof {
        lemma_trim_start(s@, i as int);
    }
    let front = slice_chars(s, i, s.len());
    trim_end_chars(&front)
}

/// The lines of a text (see [`text_lines`]).
pub fn lines_of(t: &Vec<char>) -> (r: Vec<Vec<char>>)
    ensures
        r@.len() == text_lines(t@).len(),
        forall|i: int| 0 <= i < r@.len() ==> (#[trigger] r@[i])@ == text_lines(t@)[i],
{
    let mut done: Vec<Vec<char>> = Vec::new();
    let mut cur: Vec<char> = Vec::new();
    let mut i: usize = 0;
    while i < t.len()
        invariant
            i <= t@.len(),
            done@.len() == split_newlines(t@.take(i as int)).0.len(),
            forall|k: int| 0 <= k < done@.len() ==> (#[trigger] done@[k])@ == strip_cr(
                split_newlines(t@.take(i as int)).0[k],
            ),
            cur@ == split_newlines(t@.take(i as int)).1,
        decreases t@.len() - i,
    {
        assert(t@.take(i + 1).drop_last() == t@.take(i as int));
        let c = t[i];
        if c == '\n' {
            let mut line = Vec::new();
            std::mem::swap(&mut line, &mut cur);
            if line.len() > 0 && line[line.len() - 1] == '\r' {
                line.pop();
            }
            done.push(line);
        } else {
            cur.push(c);
        }
        i = i + 1;
    }
    assert(t@.take(t@.len() as int) == t@);
    if cur.len() > 0 {
        done.push(cur);
    }
    done
}

/// The index of the first `:` in `s`, if any (see [`find_colon`]).
fn find_colon_chars(s: &Vec<char>) -> (r: Option<usize>)
    ensures
        match r {
            Some(k) => find_colon(s@) == Some(k as int) && k < s@.len(),
            None => find_colon(s@) is None,
        },
{
    let mut i: usize = 0;
    assert(s@.skip(0) == s@);
    while i < s.len()
        invariant
            i <= s@.len(),
            find_colon(s@) == (match find_colon(s@.skip(i as int)) {
                Some(k) => Some(k + i),
                None => None::<int>,
            }),
        decreases s@.len() - i,
    {
        assert(s@.skip(i as int)[0] == s@[i as int]);
        if s[i] == ':' {
            return Some(i);
        }
        assert(s@.skip(i as int).drop_first() == s@.skip(i + 1));
        i = i + 1;
    }
    None
}


/// The views of a list of entries.
pub open spec fn entry_views(v: Seq<(String, String)>) -> Seq<(Seq<char>, Seq<char>)> {
    Seq::new(v.len(), |i: int| (v[i].0@, v[i].1@))
}

/// The metadata and sections of a specification file, as lists of entries in
/// the order read; a later entry for a key overrides an earlier one.
pub struct SpecText {
    pub meta: Vec<(String, String)>,
    pub sections: Vec<(String, String)>,
}

/// The reading state of a specification file.
struct Reader {
    meta: Vec<(String, String)>,
    sections: Vec<(String, String)>,
    current: Option<Vec<char>>,
    buffer: Vec<char>,
}

impl Reader {
    spec fn state(&self) -> ReadState {
        ReadState {
            meta: entry_views(self.meta@),
            sections: entry_views(self.sections@),
            current: match &self.current {
                Some(c) => Some(c@),
                None => None,
            },
            buffer: self.buffer@,
        }
    }

    /// Closes the open section, if any, recording its trimmed text.
    fn close_section(&mut self)
        ensures
            final(self).state() == (match old(self).state().current {
                Some(sec) => ReadState {
                    sections: old(self).state().sections.push((sec, trim(old(self).state().buffer))),
                    buffer: Seq::empty(),
                    current: None,
                    ..old(self).state()
                },
                None => old(self).state(),
            }),
    {
        let cur = self.current.take();
        match cur {
            Some(sec) => {
                let text = trim_chars(&self.buffer);
                let ghost old_sections = entry_views(self.sections@);
                self.sections.push((string_of(&sec), string_of(&text)));
                assert(entry_views(self.sections@) =~= old_sections.push((sec@, text@)));
                self.buffer = Vec::new();
                assert(self.buffer@ =~= Seq::<char>::empty());
            },
            None => {},
        }
    }

    /// Reads one line (see [`read_line`]).
    fn read(&mut self, raw: &Vec<char>) -> (r: Result<(), Vec<char>>)
        ensures
            match (r, read_line(old(self).state(), raw@)) {
                (Ok(()), Ok(st)) => final(self).state() == st,
                (Err(e), Err(f)) => e@ == f,
                _ => false,
            },
    {
        let line = trim_end_chars(raw);
        let t = trim_chars(&line);
        if t.len() == 0 {
            let open = match &self.current {
                Some(_) => true,
                None => false,
            };
            let ends_nl = self.buffer.len() > 0 && self.buffer[self.buffer.len() - 1] == '\n';
            if open && !ends_nl {
                self.buffer.push('\n');
            }
            return Ok(());
        }
        proof {
            if line@.len() == 0 {
                assert(trim_start(line@) == line@);
                assert(trim_end(line@) == line@);
            }
        }
        let n = line.len();
        if line[0] == '#' {
            return Ok(());
        }
        if line[0] == '[' && line[n - 1] == ']' {
            self.close_section();
            self.current = Some(slice_chars(&line, 1, n - 1));
            return Ok(());
        }
        let open = match &self.current {
            Some(_) => true,
            None => false,
        };
        if open {
            let ends_nl = self.buffer.len() > 0 && self.buffer[self.buffer.len() - 1] == '\n';
            if self.buffer.len() > 0 && !ends_nl {
                self.buffer.push('\n');
            }
            extend_chars(&mut self.buffer, &line);
            return Ok(());
        }
        match find_colon_chars(&line) {
            Some(k) => {
                let key = slice_chars(&line, 0, k);
                let value = slice_chars(&line, k + 1, n);
                let key = trim_chars(&key);
                let value = trim_chars(&value);
                let ghost old_meta = entry_views(self.meta@);
                self.meta.push((string_of(&key), string_of(&value)));
                assert(entry_views(self.meta@) =~= old_meta.push((key@, value@)));
                Ok(())
            },
            None => Err(line),
        }
    }
}

/// Reads a specification file (see [`read_spec_text`]).
fn read_text(text: &str) -> (r: Result<SpecText, Vec<char>>)
    ensures
        match (r, read_spec_text(text@)) {
            (Ok(s), Ok(st)) => entry_views(s.meta@) == st.meta && entry_views(s.sections@) == st.sections,
            (Err(e), Err(f)) => e@ == f,
            _ => false,
        },
{
    let t = chars_of(text);
    let lines = lines_of(&t);
    let ghost ls = text_lines(text@);
    let mut rd = Reader { meta: Vec::new(), sections: Vec::new(), current: None, buffer: Vec::new() };
    assert(entry_views(rd.meta@) =~= Seq::<(Seq<char>, Seq<char>)>::empty());
    assert(entry_views(rd.sections@) =~= Seq::<(Seq<char>, Seq<char>)>::empty());
    assert(rd.buffer@ =~= Seq::<char>::empty());
    let mut i: usize = 0;
    while i < lines.len()
        invariant
            i <= lines@.len(),
            ls == text_lines(text@),
            lines@.len() == ls.len(),
            forall|k: int| 0 <= k < lines@.len() ==> (#[trigger] lines@[k])@ == ls[k],
            read_lines(ls, i as nat) == Ok::<ReadState, Seq<char>>(rd.state()),
        decreases lines@.len() - i,
    {
        let ghost before = rd.state();
        assert(read_lines(ls, (i + 1) as nat) == read_line(before, ls[i as int]));
        match rd.read(&lines[i]) {
            Ok(()) => {},
            Err(e) => {
                proof {
                    assert(read_lines(ls, (i + 1) as nat) == Err::<ReadState, Seq<char>>(e@));
                    lemma_read_error_stays(ls, (i + 1) as nat, ls.len());
                    assert(read_lines(ls, ls.len()) == Err::<ReadState, Seq<char>>(e@));

                }
                return Err(e);
            },
        }
        i = i + 1;
    }
    rd.close_section();
    Ok(SpecText { meta: rd.meta, sections: rd.sections })
}

/// Once a line fails, reading more lines keeps that failure.
proof fn lemma_read_error_stays(lines: Seq<Seq<char>>, k: nat, n: nat)
    requires
        k <= n,
        read_lines(lines, k) is Err,
    ensures
        read_lines(lines, n) == read_lines(lines, k),
    decreases n - k,
{
    if k < n {
        lemma_read_error_stays(lines, k, (n - 1) as nat);
    }
}

/// The first metadata line without `:` of a specification file, if any.
pub fn check_spec_text(text: &str) -> (r: Option<String>)
    ensures
        r is None <==> read_spec_text(text@) is Ok,
        r is Some ==> read_spec_text(text@) == Err::<ReadState, Seq<char>>(r->0@),
{
    match read_text(text) {
        Ok(_) => None,
        Err(e) => Some(string_of(&e)),
    }
}

/// Reads a specification file whose metadata lines all hold a `:` (see
/// [`read_spec_text`]).
pub fn parse_spec_text(text: &str) -> (r: SpecText)
    requires
        read_spec_text(text@) is Ok,
    ensures
        entry_views(r.meta@) == read_spec_text(text@)->Ok_0.meta,
        entry_views(r.sections@) == read_spec_text(text@)->Ok_0.sections,
{
    match read_text(text) {
        Ok(s) => s,
        Err(_) => SpecText { meta: Vec::new(), sections: Vec::new() },
    }
}

/// The value of the last entry for `key`, if any (see [`lookup_entry`]).
pub fn lookup(entries: &Vec<(String, String)>, key: &str) -> (r: Option<String>)
    ensures
        match r {
            Some(v) => lookup_entry(entry_views(entries@), key@) == Some(v@),
            None => lookup_entry(entry_views(entries@), key@) is None,
        },
{
    let k = chars_of(key);
    let ghost e = entry_views(entries@);
    let mut j = entries.len();
    assert(e.take(j as int) == e);
    while j > 0
        invariant
            j <= entries@.len(),
            e == entry_views(entries@),
            k@ == key@,
            lookup_entry(e, key@) == lookup_entry(e.take(j as int), key@),
        decreases j,
    {
        let ghost t = e.take(j as int);
        assert(t.last() == e[j - 1]);
        assert(t.drop_last() == e.take(j - 1));
        let name = chars_of(entries[j - 1].0.as_str());
        if same_chars(&name, &k) {
            return Some(entries[j - 1].1.clone());
        }
        j = j - 1;
    }
    None
}

/// The value of metadata `key`, which the file holds.
pub fn required_meta(meta: &Vec<(String, String)>, key: &str) -> (r: String)
    requires
        lookup_entry(entry_views(meta@), key@) is Some,
    ensures
        lookup_entry(entry_views(meta@), key@) == Some(r@),
{
    match lookup(meta, key) {
        Some(v) => v,
        None => String::new(),
    }
}

/// The text of section `key`, which the file holds.
pub fn required_section(sections: &Vec<(String, String)>, key: &str) -> (r: String)
    requires
        lookup_entry(entry_views(sections@), key@) is Some,
    ensures
        lookup_entry(entry_views(sections@), key@) == Some(r@),
{
    match lookup(sections, key) {
        Some(v) => v,
        None => String::new(),
    }
}

/// A benchmark query, as its specification file gives it: the name, family,
/// note and SQL file of the query, and the lowered plan clauses.
pub struct QuerySpec {
    pub name: String,
    pub family: String,
    pub note: String,
    pub sql_file: String,
    pub select: String,
    pub from: String,
    pub where_: String,
    pub having: String,
    pub groupby: String,
    pub orderby: String,
    pub limit: String,
    pub offset: String,
}

/// The mathematical content of a [`QuerySpec`].
pub struct QuerySpecView {
    pub name: Seq<char>,
    pub family: Seq<char>,
    pub note: Seq<char>,
    pub sql_file: Seq<char>,
    pub select: Seq<char>,
    pub from: Seq<char>,
    pub where_: Seq<char>,
    pub having: Seq<char>,
    pub groupby: Seq<char>,
    pub orderby: Seq<char>,
    pub limit: Seq<char>,
    pub offset: Seq<char>,
}

impl View for QuerySpec {
    type V = QuerySpecView;

    open spec fn view(&self) -> QuerySpecView {
        QuerySpecView {
            name: self.name@,
            family: self.family@,
            note: self.note@,
            sql_file: self.sql_file@,
            select: self.select@,
            from: self.from@,
            where_: self.where_@,
            having: self.having@,
            groupby: self.groupby@,
            orderby: self.orderby@,
            limit: self.limit@,
            offset: self.offset@,
        }
    }
}

/// The value of `key` in `entries`, or `default`.
pub open spec fn entry_or(entries: Seq<(Seq<char>, Seq<char>)>, key: Seq<char>, default: Seq<char>) -> Seq<char> {
    match lookup_entry(entries, key) {
        Some(v) => v,
        None => default,
    }
}

/// Whether a read specification file holds the entries every query needs:
/// the `family` and `note` metadata and the `select` and `from` sections.
pub open spec fn spec_complete(meta: Seq<(Seq<char>, Seq<char>)>, sections: Seq<(Seq<char>, Seq<char>)>) -> bool {
    &&& lookup_entry(meta, "family"@) is Some
    &&& lookup_entry(meta, "note"@) is Some
    &&& lookup_entry(sections, "select"@) is Some
    &&& lookup_entry(sections, "from"@) is Some
}

/// The query of a read specification file whose file stem is `stem`: the
/// name defaults to the stem, the SQL file to the name with `.sql`, a missing
/// WHERE or HAVING clause to `true`, GROUP BY and ORDER BY to the empty list,
/// the limit to `null` and the offset to `0`.
pub open spec fn query_spec_of(
    meta: Seq<(Seq<char>, Seq<char>)>,
    sections: Seq<(Seq<char>, Seq<char>)>,
    stem: Seq<char>,
) -> QuerySpecView {
    let name = entry_or(meta, "name"@, stem);
    QuerySpecView {
        name,
        family: lookup_entry(meta, "family"@)->0,
        note: lookup_entry(meta, "note"@)->0,
        sql_file: entry_or(meta, "sql_file"@, name + ".sql"@),
        select: lookup_entry(sections, "select"@)->0,
        from: lookup_entry(sections, "from"@)->0,
        where_: entry_or(sections, "where"@, "true"@),
        having: entry_or(sections, "having"@, "true"@),
        groupby: entry_or(sections, "groupby"@, "(list)"@),
        orderby: entry_or(sections, "orderby"@, "(list)"@),
        limit: entry_or(sections, "limit"@, "null"@),
        offset: entry_or(sections, "offset"@, "0"@),
    }
}

/// The value of `key` in `entries`, or `default`.
fn lookup_or(entries: &Vec<(String, String)>, key: &str, default: &str) -> (r: String)
    ensures
        r@ == entry_or(entry_views(entries@), key@, default@),
{
    match lookup(entries, key) {
        Some(v) => v,
        None => String::from_str(default),
    }
}

/// The SQL file of a query whose file stem is `stem`: the `sql_file`
/// metadata, or the query's name with `.sql`.
pub fn sql_file_name(meta: &Vec<(String, String)>, stem: &str) -> (r: String)
    ensures
        r@ == entry_or(entry_views(meta@), "sql_file"@, entry_or(entry_views(meta@), "name"@, stem@) + ".sql"@),
{
    match lookup(meta, "sql_file") {
        Some(f) => f,
        None => lookup_or(meta, "name", stem).concat(".sql"),
    }
}

impl QuerySpec {
    /// The query of a read specification file whose file stem is `stem` (see
    /// [`query_spec_of`]).
    pub fn from_text(text: &SpecText, stem: &str) -> (r: QuerySpec)
        requires
            spec_complete(entry_views(text.meta@), entry_views(text.sections@)),
        ensures
            r@ == query_spec_of(entry_views(text.meta@), entry_views(text.sections@), stem@),
    {
        let name = lookup_or(&text.meta, "name", stem);
        let sql_file = sql_file_name(&text.meta, stem);
        QuerySpec {
            name,
            family: required_meta(&text.meta, "family"),
            note: required_meta(&text.meta, "note"),
            sql_file,
            select: required_section(&text.sections, "select"),
            from: required_section(&text.sections, "from"),
            where_: lookup_or(&text.sections, "where", "true"),
            having: lookup_or(&text.sections, "having", "true"),
            groupby: lookup_or(&text.sections, "groupby", "(list)"),
            orderby: lookup_or(&text.sections, "orderby", "(list)"),
            limit: lookup_or(&text.sections, "limit", "null"),
            offset: lookup_or(&text.sections, "offset", "0"),
        }
    }
}
} // verus!
