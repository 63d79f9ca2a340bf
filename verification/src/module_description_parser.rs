//! Section-oriented parser for module description text.
//!
//! A description resource is line-oriented: `//` opens an inline comment,
//! `[Section]` opens a new section, and every other non-empty line belongs
//! to the body of the current section.  The parser produces a map from
//! section name to section body.

use vstd::prelude::*;

use crate::strutil::push_char;
use crate::strutil::starts_with;
use crate::strutil::trim_end_ws;
use crate::strutil::trim_end_ws_str;
use crate::strutil::str_starts_with;

verus! {

/// Drops one trailing carriage return, as Rust's line splitting does.
pub open spec fn strip_cr(l: Seq<char>) -> Seq<char> {
    if l.len() > 0 && l.last() == '\r' {
        l.drop_last()
    } else {
        l
    }
}

/// Line splitting, one character at a time: `cur` is the line under
/// construction and `acc` the lines already complete.
pub open spec fn lines_rec(s: Seq<char>, i: int, cur: Seq<char>, acc: Seq<Seq<char>>) -> Seq<
    Seq<char>,
>
    decreases s.len() - i,
{
    if i < 0 {
        acc
    } else if i >= s.len() {
        if cur.len() > 0 {
            acc.push(cur)
        } else {
            acc
        }
    } else if s[i] == '\n' {
        lines_rec(s, i + 1, Seq::empty(), acc.push(strip_cr(cur)))
    } else {
        lines_rec(s, i + 1, cur.push(s[i]), acc)
    }
}

/// The lines of `s`: split at `'\n'`, one `'\r'` dropped before each split,
/// and no line produced for a trailing newline.
pub open spec fn spec_lines(s: Seq<char>) -> Seq<Seq<char>> {
    lines_rec(s, 0, Seq::empty(), Seq::empty())
}

/// First index where an inline comment `//` starts, or `s.len()`.
pub open spec fn find_comment_from(s: Seq<char>, i: int) -> int
    decreases s.len() - i,
{
    if i < 0 {
        0
    } else if i + 2 > s.len() {
        s.len() as int
    } else if s[i] == '/' && s[i + 1] == '/' {
        i
    } else {
        find_comment_from(s, i + 1)
    }
}

/// A line with its inline comment removed; the remainder keeps no trailing
/// whitespace.  A line without a comment is kept as it is.
pub open spec fn strip_comment(l: Seq<char>) -> Seq<char> {
    let j = find_comment_from(l, 0);
    if j == l.len() {
        l
    } else {
        trim_end_ws(l.take(j))
    }
}

pub open spec fn is_bracket(c: char) -> bool {
    c == '[' || c == ']'
}

pub open spec fn trim_start_brackets(s: Seq<char>) -> Seq<char>
    decreases s.len(),
{
    if s.len() > 0 && is_bracket(s[0]) {
        trim_start_brackets(s.skip(1))
    } else {
        s
    }
}

pub open spec fn trim_end_brackets(s: Seq<char>) -> Seq<char>
    decreases s.len(),
{
    if s.len() > 0 && is_bracket(s.last()) {
        trim_end_brackets(s.drop_last())
    } else {
        s
    }
}

/// A section header with the bracket characters removed from both ends.
pub open spec fn trim_brackets(s: Seq<char>) -> Seq<char> {
    trim_end_brackets(trim_start_brackets(s))
}

/// First index holding key `k`, or `entries.len()` if the key is absent.
pub open spec fn find_key_from(
    entries: Seq<(Seq<char>, Seq<char>)>,
    i: int,
    k: Seq<char>,
) -> int
    decreases entries.len() - i,
{
    if i < 0 {
        0
    } else if i >= entries.len() {
        entries.len() as int
    } else if entries[i].0 == k {
        i
    } else {
        find_key_from(entries, i + 1, k)
    }
}

pub proof fn lemma_find_key_from_props(entries: Seq<(Seq<char>, Seq<char>)>, i: int, k: Seq<char>)
    requires
        0 <= i <= entries.len(),
    ensures
        i <= find_key_from(entries, i, k) <= entries.len(),
        find_key_from(entries, i, k) < entries.len() ==> entries[find_key_from(entries, i, k)].0
            == k,
        forall|m: int| i <= m < find_key_from(entries, i, k) ==> entries[m].0 != k,
    decreases entries.len() - i,
{
    if i < entries.len() && entries[i].0 != k {
        lemma_find_key_from_props(entries, i + 1, k);
    }
}

/// Replaces the value stored under `k`, or appends the pair if `k` is new.
pub open spec fn map_upsert(
    entries: Seq<(Seq<char>, Seq<char>)>,
    k: Seq<char>,
    v: Seq<char>,
) -> Seq<(Seq<char>, Seq<char>)> {
    let j = find_key_from(entries, 0, k);
    if j < entries.len() {
        entries.update(j, (k, v))
    } else {
        entries.push((k, v))
    }
}

/// The parser state after some prefix of the lines: the finished sections,
/// and the name and accumulated body of the section still open.
pub struct ParseState {
    pub entries: Seq<(Seq<char>, Seq<char>)>,
    pub name: Seq<char>,
    pub content: Seq<char>,
}

/// What one line does to the parser state.
pub open spec fn parse_line_step(st: ParseState, line: Seq<char>) -> ParseState {
    let l = strip_comment(line);
    if l.len() == 0 {
        st
    } else if l[0] == '[' {
        let entries2 = if st.name.len() > 0 {
            map_upsert(st.entries, st.name, trim_end_ws(st.content))
        } else {
            st.entries
        };
        ParseState { entries: entries2, name: trim_brackets(l), content: Seq::empty() }
    } else {
        ParseState { entries: st.entries, name: st.name, content: st.content + l + seq!['\n'] }
    }
}

pub open spec fn parse_fold(lines: Seq<Seq<char>>, i: int, st: ParseState) -> ParseState
    decreases lines.len() - i,
{
    if i < 0 || i >= lines.len() {
        st
    } else {
        parse_fold(lines, i + 1, parse_line_step(st, lines[i]))
    }
}

pub proof fn lemma_parse_fold_push(lines: Seq<Seq<char>>, i: int, st: ParseState, l: Seq<char>)
    requires
        0 <= i <= lines.len(),
    ensures
        parse_fold(lines.push(l), i, st) == parse_line_step(parse_fold(lines, i, st), l),
    decreases lines.len() - i,
{
    if i == lines.len() {
        assert(lines.push(l)[i] == l);
        assert(parse_fold(lines.push(l), i + 1, parse_line_step(st, l)) == parse_line_step(st, l));
        assert(parse_fold(lines.push(l), i, st) == parse_line_step(st, l));
    } else {
        assert(lines.push(l)[i] == lines[i]);
        lemma_parse_fold_push(lines, i + 1, parse_line_step(st, lines[i]), l);
        assert(parse_fold(lines.push(l), i, st) == parse_fold(
            lines.push(l),
            i + 1,
            parse_line_step(st, lines[i]),
        ));
        assert(parse_fold(lines, i, st) == parse_fold(lines, i + 1, parse_line_step(st, lines[i])));
    }
}

pub open spec fn empty_parse_state() -> ParseState {
    ParseState { entries: Seq::empty(), name: Seq::empty(), content: Seq::empty() }
}

/// The section map a description text parses to: the fold over its lines,
/// with a final non-empty section flushed at the end.
pub open spec fn spec_parse_module_description(s: Seq<char>) -> Seq<(Seq<char>, Seq<char>)> {
    let st = parse_fold(spec_lines(s), 0, empty_parse_state());
    if st.name.len() > 0 && st.content.len() > 0 {
        map_upsert(st.entries, st.name, trim_end_ws(st.content))
    } else {
        st.entries
    }
}

/// No key occurs twice.
pub open spec fn keys_unique(entries: Seq<(Seq<char>, Seq<char>)>) -> bool {
    forall|i: int, j: int|
        0 <= i < j < entries.len() ==> (#[trigger] entries[i]).0 != (#[trigger] entries[j]).0
}

pub proof fn lemma_map_upsert_unique(entries: Seq<(Seq<char>, Seq<char>)>, k: Seq<char>, v: Seq<char>)
    requires
        keys_unique(entries),
    ensures
        keys_unique(map_upsert(entries, k, v)),
{
    lemma_find_key_from_props(entries, 0, k);
    let j = find_key_from(entries, 0, k);
    if j < entries.len() {
        let r = entries.update(j, (k, v));
        assert forall|a: int, b: int| 0 <= a < b < r.len() implies (#[trigger] r[a]).0 != (
        #[trigger] r[b]).0 by {
            assert(entries[a].0 != entries[b].0);
            assert(r[a].0 == if a == j {
                k
            } else {
                entries[a].0
            });
            assert(r[b].0 == if b == j {
                k
            } else {
                entries[b].0
            });
        }
    } else {
        let r = entries.push((k, v));
        assert forall|a: int, b: int| 0 <= a < b < r.len() implies (#[trigger] r[a]).0 != (
        #[trigger] r[b]).0 by {
            if b < entries.len() {
                assert(entries[a].0 != entries[b].0);
            } else {
                assert(r[b].0 == k);
                assert(r[a].0 == entries[a].0);
                assert(entries[a].0 != k);
            }
        }
    }
}

/// An insertion-ordered map from section name to section body, the keys
/// pairwise distinct.
#[derive(Debug)]
pub struct SectionMap {
    entries: Vec<(String, String)>,
}

impl View for SectionMap {
    type V = Seq<(Seq<char>, Seq<char>)>;

    closed spec fn view(&self) -> Seq<(Seq<char>, Seq<char>)> {
        self.entries@.map_values(|p: (String, String)| (p.0@, p.1@))
    }
}

impl SectionMap {
    /// Keys are pairwise distinct.
    pub open spec fn wf(&self) -> bool {
        keys_unique(self@)
    }

    pub fn new() -> (r: SectionMap)
        ensures
            r@ == Seq::<(Seq<char>, Seq<char>)>::empty(),
            r.wf(),
    {
        let r = SectionMap { entries: Vec::new() };
        proof {
            assert(r@ =~= Seq::<(Seq<char>, Seq<char>)>::empty());
        }
        r
    }

    pub fn len(&self) -> (r: usize)
        ensures
            r == self@.len(),
    {
        self.entries.len()
    }

    pub fn key_at(&self, i: usize) -> (r: &String)
        requires
            i < self@.len(),
        ensures
            r@ == self@[i as int].0,
    {
        &self.entries[i].0
    }

    pub fn value_at(&self, i: usize) -> (r: &String)
        requires
            i < self@.len(),
        ensures
            r@ == self@[i as int].1,
    {
        &self.entries[i].1
    }

    /// Index of the entry whose key reads `k`, if any.
    fn find(&self, k: &str) -> (r: usize)
        ensures
            r == find_key_from(self@, 0, k@),
    {
        proof {
            lemma_find_key_from_props(self@, 0, k@);
        }
        let n = self.entries.len();
        let mut i: usize = 0;
        while i < n
            invariant
                i <= n,
                find_key_from(self@, 0, k@) == find_key_from(self@, i as int, k@),
            decreases n - i,
        {
            if crate::strutil::str_eq(self.entries[i].0.as_str(), k) {
                return i;
            }
            i = i + 1;
        }
        i
    }

    /// Stores `v` under `k`, replacing any value already there.
    pub fn upsert(&mut self, k: String, v: String)
        ensures
            final(self)@ == map_upsert(old(self)@, k@, v@),
            old(self).wf() ==> final(self).wf(),
    {
        proof {
            if old(self).wf() {
                lemma_map_upsert_unique(old(self)@, k@, v@);
            }
        }
        let j = self.find(k.as_str());
        if j < self.entries.len() {
            let ghost before = self@;
            self.entries.remove(j);
            self.entries.insert(j, (k, v));
            proof {
                assert(self@ =~= before.update(j as int, (k@, v@)));
            }
        } else {
            let ghost before = self@;
            self.entries.push((k, v));
            proof {
                assert(self@ =~= before.push((k@, v@)));
            }
        }
    }

    /// The value stored under `k`, if any.
    pub fn get(&self, k: &str) -> (r: Option<&String>)
        ensures
            ({
                let j = find_key_from(self@, 0, k@);
                if j < self@.len() {
                    r matches Some(v) && v@ == self@[j].1
                } else {
                    r is None
                }
            }),
    {
        proof {
            lemma_find_key_from_props(self@, 0, k@);
        }
        let j = self.find(k);
        if j < self.entries.len() {
            Some(&self.entries[j].1)
        } else {
            None
        }
    }

    /// Removes the entry stored under `k` and hands its value back.
    pub fn remove_entry(&mut self, k: &str) -> (r: Option<String>)
        ensures
            ({
                let j = find_key_from(old(self)@, 0, k@);
                if j < old(self)@.len() {
                    r matches Some(v) && v@ == old(self)@[j].1 && final(self)@ == old(
                        self,
                    )@.remove(j)
                } else {
                    r is None && final(self)@ == old(self)@
                }
            }),
            old(self).wf() ==> final(self).wf(),
    {
        proof {
            lemma_find_key_from_props(old(self)@, 0, k@);
        }
        let j = self.find(k);
        if j < self.entries.len() {
            let ghost before = self@;
            let (_, v) = self.entries.remove(j);
            proof {
                assert(self@ =~= before.remove(j as int));
                if old(self).wf() {
                    assert forall|a: int, b: int| 0 <= a < b < self@.len() implies (
                    #[trigger] self@[a]).0 != (#[trigger] self@[b]).0 by {
                        let a0 = if a < j { a } else { a + 1 };
                        let b0 = if b < j { b } else { b + 1 };
                        assert(self@[a].0 == before[a0].0);
                        assert(self@[b].0 == before[b0].0);
                        assert(before[a0].0 != before[b0].0);
                    }
                }
            }
            Some(v)
        } else {
            None
        }
    }

    /// Drops every entry whose key begins with `prefix`.
    pub fn remove_keys_with_prefix(&mut self, prefix: &str)
        ensures
            final(self)@ == old(self)@.filter(
                |e: (Seq<char>, Seq<char>)| !starts_with(e.0, prefix@),
            ),
            old(self).wf() ==> final(self).wf(),
    {
        let ghost pred = |e: (Seq<char>, Seq<char>)| !starts_with(e.0, prefix@);
        let n = self.entries.len();
        let mut kept: Vec<(String, String)> = Vec::new();
        let ghost before = self@;
        let mut i: usize = 0;
        proof {
            assert(before.take(0).filter(pred) =~= kept@.map_values(
                |p: (String, String)| (p.0@, p.1@),
            ));
        }
        while i < n
            invariant
                i <= n,
                n == self.entries@.len(),
                before == self@,
                kept@.map_values(|p: (String, String)| (p.0@, p.1@)) == before.take(i as int).filter(
                    pred,
                ),
            decreases n - i,
        {
            let ghost kv0 = kept@.map_values(|p: (String, String)| (p.0@, p.1@));
            let keep = !str_starts_with(self.entries[i].0.as_str(), prefix);
            if keep {
                let pair = (self.entries[i].0.clone(), self.entries[i].1.clone());
                kept.push(pair);
            }
            proof {
                assert(before.take(i + 1).drop_last() =~= before.take(i as int));
                assert(before.take(i + 1).last() == before[i as int]);
                reveal(Seq::filter);
                if keep {
                    assert(kept@.map_values(|p: (String, String)| (p.0@, p.1@)) =~= kv0.push(
                        before[i as int],
                    ));
                }
            }
            i = i + 1;
        }
        proof {
            assert(before.take(n as int) =~= before);
        }
        self.entries = kept;
        proof {
            if old(self).wf() {
                crate::module_description_parser::lemma_filter_unique(before, pred);
            }
        }
    }
}

/// Finds where an inline comment starts in `s`, or `s.len()` if none does.
fn find_comment(s: &str) -> (r: usize)
    ensures
        r == find_comment_from(s@, 0),
{
    let len = s.unicode_len();
    let mut i: usize = 0;
    while len >= 2 && i <= len - 2 && !(s.get_char(i) == '/' && s.get_char(i + 1) == '/')
        invariant
            i <= len,
            find_comment_from(s@, 0) == find_comment_from(s@, i as int),
        decreases len - i,
    {
        i = i + 1;
    }
    if len >= 2 && i <= len - 2 {
        i
    } else {
        len
    }
}

/// Copies a section header with the brackets removed from both ends.
fn trim_brackets_str(s: &str) -> (r: String)
    ensures
        r@ == trim_brackets(s@),
{
    let len = s.unicode_len();
    let mut a: usize = 0;
    proof {
        assert(s@.skip(0) =~= s@);
    }
    while a < len && (s.get_char(a) == '[' || s.get_char(a) == ']')
        invariant
            a <= len,
            trim_start_brackets(s@) == trim_start_brackets(s@.skip(a as int)),
        decreases len - a,
    {
        proof {
            assert(s@.skip(a as int).skip(1) =~= s@.skip(a as int + 1));
        }
        a = a + 1;
    }
    proof {
        if a == len {
            assert(s@.skip(a as int) =~= Seq::<char>::empty());
        }
        assert(trim_start_brackets(s@) == s@.skip(a as int));
    }
    let ghost t = s@.skip(a as int);
    let mut b: usize = len;
    proof {
        assert(s@.subrange(a as int, len as int) =~= t);
    }
    while b > a && (s.get_char(b - 1) == '[' || s.get_char(b - 1) == ']')
        invariant
            a <= b <= len,
            trim_end_brackets(t) == trim_end_brackets(s@.subrange(a as int, b as int)),
        decreases b,
    {
        proof {
            assert(s@.subrange(a as int, b as int).drop_last() =~= s@.subrange(
                a as int,
                b - 1,
            ));
            assert(s@.subrange(a as int, b as int).last() == s@[b - 1]);
        }
        b = b - 1;
    }
    proof {
        assert(trim_end_brackets(s@.subrange(a as int, b as int)) == s@.subrange(
            a as int,
            b as int,
        ));
    }
    let sub = s.substring_char(a, b);
    String::from_str(sub)
}

/// Copies a finished line, dropping one trailing carriage return.
fn strip_cr_copy(cur: &String) -> (r: String)
    ensures
        r@ == strip_cr(cur@),
{
    let len = cur.as_str().unicode_len();
    if len > 0 && cur.as_str().get_char(len - 1) == '\r' {
        proof {
            assert(cur@.subrange(0, len - 1) =~= cur@.drop_last());
        }
        let sub = cur.as_str().substring_char(0, len - 1);
        String::from_str(sub)
    } else {
        cur.clone()
    }
}

/// Feeds one complete line to the parser state.
fn apply_line(map: &mut SectionMap, name: &mut String, content: &mut String, line: &str)
    requires
        old(map).wf(),
    ensures
        ({
            let st2 = parse_line_step(
                ParseState { entries: old(map)@, name: old(name)@, content: old(content)@ },
                line@,
            );
            final(map)@ == st2.entries && final(name)@ == st2.name && final(content)@ == st2.content
        }),
        final(map).wf(),
{
    let j = find_comment(line);
    let llen = line.unicode_len();
    proof {
        lemma_find_comment_range(line@, 0);
    }
    let stripped: String = if j < llen {
        proof {
            assert(line@.subrange(0, j as int) =~= line@.take(j as int));
        }
        trim_end_ws_str(line.substring_char(0, j))
    } else {
        String::from_str(line)
    };
    proof {
        assert(stripped@ == strip_comment(line@));
    }
    let slen = stripped.as_str().unicode_len();
    if slen == 0 {
        return ;
    }
    if stripped.as_str().get_char(0) == '[' {
        if !name.as_str().is_empty() {
            let v = trim_end_ws_str(content.as_str());
            let kclone = name.clone();
            map.upsert(kclone, v);
        }
        *name = trim_brackets_str(stripped.as_str());
        *content = String::new();
    } else {
        let ghost c0 = content@;
        content.append(stripped.as_str());
        push_char(content, '\n');
        proof {
            assert(content@ =~= c0 + stripped@ + seq!['\n']);
        }
    }
}

pub proof fn lemma_find_comment_range(s: Seq<char>, i: int)
    requires
        0 <= i <= s.len(),
    ensures
        i <= find_comment_from(s, i) <= s.len(),
    decreases s.len() - i,
{
    if i + 2 <= s.len() && !(s[i] == '/' && s[i + 1] == '/') {
        lemma_find_comment_range(s, i + 1);
    }
}

/// Parses a module description into its section map.
///
/// Every line is truncated at the first `//`; lines empty after truncation
/// are skipped; a line beginning with `[` flushes the previous section and
/// opens a new one named by the bracket-trimmed header; any other line is
/// appended to the current section body with a trailing newline.  The final
/// section is flushed when both its name and its body are non-empty.
pub fn parse_module_description(input: &str) -> (r: SectionMap)
    ensures
        r@ == spec_parse_module_description(input@),
        r.wf(),
{
    let len = input.unicode_len();
    let mut map = SectionMap::new();
    let mut name = String::new();
    let mut content = String::new();
    let mut cur = String::new();
    let ghost mut processed: Seq<Seq<char>> = Seq::empty();
    let mut i: usize = 0;
    while i < len
        invariant
            i <= len,
            lines_rec(input@, i as int, cur@, processed) == spec_lines(input@),
            parse_fold(processed, 0, empty_parse_state()) == (ParseState {
                entries: map@,
                name: name@,
                content: content@,
            }),
            map.wf(),
        decreases len - i,
    {
        let c = input.get_char(i);
        if c == '\n' {
            let line = strip_cr_copy(&cur);
            cur = String::new();
            proof {
                lemma_parse_fold_push(processed, 0, empty_parse_state(), line@);
            }
            apply_line(&mut map, &mut name, &mut content, line.as_str());
            proof {
                processed = processed.push(line@);
            }
        } else {
            push_char(&mut cur, c);
        }
        i = i + 1;
    }
    if !cur.as_str().is_empty() {
        proof {
            lemma_parse_fold_push(processed, 0, empty_parse_state(), cur@);
        }
        let line = cur.clone();
        apply_line(&mut map, &mut name, &mut content, line.as_str());
        proof {
            processed = processed.push(line@);
        }
    }
    if !name.as_str().is_empty() && !content.as_str().is_empty() {
        let v = trim_end_ws_str(content.as_str());
        map.upsert(name, v);
    }
    map
}

/// Every element of a filtered sequence is an element of the sequence it
/// was filtered from.
pub proof fn lemma_filter_elems<A>(s: Seq<A>, pred: spec_fn(A) -> bool)
    ensures
        forall|i: int|
            0 <= i < s.filter(pred).len() ==> s.contains(#[trigger] s.filter(pred)[i]),
    decreases s.len(),
{
    reveal(Seq::filter);
    if s.len() > 0 {
        let prefix = s.drop_last();
        lemma_filter_elems(prefix, pred);
        let f = s.filter(pred);
        let fp = prefix.filter(pred);
        assert forall|i: int| 0 <= i < f.len() implies s.contains(#[trigger] f[i]) by {
            if i < fp.len() {
                assert(prefix.contains(fp[i]));
                let w = choose|w: int| 0 <= w < prefix.len() && prefix[w] == fp[i];
                assert(s[w] == f[i]);
            } else {
                assert(f[i] == s.last());
                assert(s[s.len() - 1] == s.last());
            }
        }
    }
}

/// Filtering keeps keys pairwise distinct.
pub proof fn lemma_filter_unique(
    entries: Seq<(Seq<char>, Seq<char>)>,
    pred: spec_fn((Seq<char>, Seq<char>)) -> bool,
)
    requires
        keys_unique(entries),
    ensures
        keys_unique(entries.filter(pred)),
    decreases entries.len(),
{
    reveal(Seq::filter);
    if entries.len() > 0 {
        let prefix = entries.drop_last();
        assert(keys_unique(prefix));
        lemma_filter_unique(prefix, pred);
        let f = entries.filter(pred);
        let fp = prefix.filter(pred);
        lemma_filter_elems(prefix, pred);
        if pred(entries.last()) {
            assert(f == fp.push(entries.last()));
            assert forall|a: int, b: int| 0 <= a < b < f.len() implies (#[trigger] f[a]).0 != (
            #[trigger] f[b]).0 by {
                if b == f.len() - 1 {
                    assert(prefix.contains(fp[a]));
                    let ia = choose|ia: int| 0 <= ia < prefix.len() && prefix[ia] == fp[a];
                    assert(entries[ia].0 != entries[entries.len() - 1].0);
                } else {
                    assert(fp[a].0 != fp[b].0);
                }
            }
        } else {
            assert(f == fp);
        }
    }
}

} // verus!
