//! The pronunciation dictionary: a read-only word table parsed from the
//! dictionary text file.
//!
//! Each non-comment, non-empty line reads `WORD SYM1 SYM2 ...`; variant
//! entries such as `WORD(2)` fold into the base word's ordered pronunciation
//! list, in file order, so the first listed pronunciation is the canonical
//! one. A file without the known header marker is rejected as not being a
//! genuine dictionary.

use vstd::prelude::*;
use crate::arpabet::{split_ws, split_words, views_of};
use crate::strutil::str_eq;
use vstd::string::StrSliceExecFns;

verus! {

/// The ghost model of a dictionary: ordered entries of key and pronunciation
/// list, each pronunciation an ordered list of symbol texts.
pub type DictModel = Seq<(Seq<char>, Seq<Seq<Seq<char>>>)>;

/// Views of a pronunciation list.
pub open spec fn pron_views(ps: Seq<Vec<String>>) -> Seq<Seq<Seq<char>>> {
    ps.map_values(|p: Vec<String>| views_of(p@))
}

/// The header marker that a genuine dictionary file must contain.
pub open spec fn header_marker() -> Seq<char> {
    ";;; # CMUdict"@
}

/// Whether `m` occurs in `s` as a contiguous run.
pub open spec fn contains_seq(s: Seq<char>, m: Seq<char>) -> bool {
    exists|i: int| 0 <= i && i + m.len() <= s.len() && #[trigger] s.subrange(i, i + m.len()) == m
}

/// Index of the first newline in `s`, or its length.
pub open spec fn line_break(s: Seq<char>) -> nat
    decreases s.len(),
{
    if s.len() == 0 || s[0] == '\n' {
        0
    } else {
        1 + line_break(s.drop_first())
    }
}

pub proof fn lemma_line_break_le(s: Seq<char>)
    ensures
        line_break(s) <= s.len(),
    decreases s.len(),
{
    if s.len() == 0 || s[0] == '\n' {
    } else {
        lemma_line_break_le(s.drop_first());
    }
}

/// `s` cut at every newline, keeping empty segments.
pub open spec fn split_nl(s: Seq<char>) -> Seq<Seq<char>>
    decreases s.len(),
    via split_nl_dec
{
    if line_break(s) == s.len() {
        seq![s]
    } else {
        seq![s.take(line_break(s) as int)] + split_nl(s.skip(line_break(s) as int + 1))
    }
}

#[via_fn]
proof fn split_nl_dec(s: Seq<char>) {
    lemma_line_break_le(s);
}

/// Whether a token opens a dictionary comment: three semicolons.
pub open spec fn comment_start(w: Seq<char>) -> bool {
    w.len() >= 3 && w[0] == ';' && w[1] == ';' && w[2] == ';'
}

/// Index of the first `(` in a word token, or its length: variant entries
/// such as `WORD(2)` share the base key before the parenthesis.
pub open spec fn paren_at(s: Seq<char>) -> nat
    decreases s.len(),
{
    if s.len() == 0 || s[0] == '(' {
        0
    } else {
        1 + paren_at(s.drop_first())
    }
}

/// The base key of a word token.
pub open spec fn base_of(w: Seq<char>) -> Seq<char> {
    w.take(paren_at(w) as int)
}

/// Index of the first entry keyed `w`, or the number of entries.
pub open spec fn find_key(m: DictModel, w: Seq<char>) -> nat
    decreases m.len(),
{
    if m.len() == 0 {
        0
    } else if m[0].0 == w {
        0
    } else {
        1 + find_key(m.drop_first(), w)
    }
}

/// The first index holding `w`, given a scan that found it at `i`.
pub proof fn lemma_find_key_at(m: DictModel, w: Seq<char>, i: nat)
    requires
        i <= m.len(),
        forall|j: int| 0 <= j < i ==> (#[trigger] m[j]).0 != w,
        i == m.len() || m[i as int].0 == w,
    ensures
        find_key(m, w) == i,
    decreases i,
{
    if i == 0 {
    } else {
        assert(m[0].0 != w);
        lemma_find_key_at(m.drop_first(), w, (i - 1) as nat);
    }
}

/// Add one pronunciation under a key: appended to an existing entry's list,
/// or opening a new entry at the end.
pub open spec fn upsert(m: DictModel, key: Seq<char>, pron: Seq<Seq<char>>) -> DictModel {
    let i = find_key(m, key);
    if i < m.len() {
        m.update(i as int, (key, m[i as int].1.push(pron)))
    } else {
        m.push((key, seq![pron]))
    }
}

/// Fold one line into the model: comment lines, blank lines and lines with
/// fewer than two fields change nothing.
pub open spec fn apply_line(m: DictModel, line: Seq<char>) -> DictModel {
    let parts = split_ws(line);
    if parts.len() < 2 || comment_start(parts[0]) {
        m
    } else {
        upsert(m, base_of(parts[0]), parts.drop_first())
    }
}

/// The model a sequence of lines parses to.
pub open spec fn parse_lines(lines: Seq<Seq<char>>) -> DictModel
    decreases lines.len(),
{
    if lines.len() == 0 {
        Seq::empty()
    } else {
        apply_line(parse_lines(lines.drop_last()), lines.last())
    }
}

/// Every key appears once, and every entry lists at least one pronunciation.
pub open spec fn model_wf(m: DictModel) -> bool {
    &&& forall|i: int, j: int| 0 <= i < j < m.len() ==> (#[trigger] m[i]).0 != (#[trigger] m[j]).0
    &&& forall|i: int| 0 <= i < m.len() ==> (#[trigger] m[i]).1.len() >= 1
}

/// The word table: loaded once, read-only thereafter.
pub struct Dictionary {
    pub entries: Vec<(String, Vec<Vec<String>>)>,
}

impl Dictionary {
    /// The ghost model of this table.
    pub open spec fn model(&self) -> DictModel {
        self.entries@.map_values(|e: (String, Vec<Vec<String>>)| (e.0@, pron_views(e.1@)))
    }

    pub open spec fn wf(&self) -> bool {
        model_wf(self.model())
    }

    /// Whether a (normalized) word has an entry.
    pub open spec fn contains_word(&self, w: Seq<char>) -> bool {
        find_key(self.model(), w) < self.model().len()
    }

    /// The pronunciation list of a word, in file order.
    pub open spec fn prons_of(&self, w: Seq<char>) -> Seq<Seq<Seq<char>>> {
        self.model()[find_key(self.model(), w) as int].1
    }

    /// An empty table: every lookup misses.
    pub fn new_empty() -> (r: Dictionary)
        ensures
            r.model() == Seq::<(Seq<char>, Seq<Seq<Seq<char>>>)>::empty(),
            r.wf(),
    {
        let r = Dictionary { entries: Vec::new() };
        proof {
            assert(r.model() =~= Seq::<(Seq<char>, Seq<Seq<Seq<char>>>)>::empty());
        }
        r
    }

    /// Look a normalized word up; `Some` exactly when the word has an entry,
    /// holding its pronunciation list.
    pub fn lookup(&self, word: &str) -> (r: Option<&Vec<Vec<String>>>)
        ensures
            r is Some <==> self.contains_word(word@),
            r matches Some(ps) ==> pron_views(ps@) == self.prons_of(word@),
    {
        let n = self.entries.len();
        let mut i: usize = 0;
        while i < n
            invariant
                i <= n,
                n == self.entries@.len(),
                forall|j: int| 0 <= j < i ==> (#[trigger] self.model()[j]).0 != word@,
            decreases n - i,
        {
            if str_eq(self.entries[i].0.as_str(), word) {
                proof {
                    lemma_find_key_at(self.model(), word@, i as nat);
                }
                return Some(&self.entries[i].1);
            }
            i += 1;
        }
        proof {
            lemma_find_key_at(self.model(), word@, n as nat);
        }
        None
    }
}

/// Whether the text holds the dictionary header marker.
pub fn has_header_marker(content: &str) -> (r: bool)
    ensures
        r == contains_seq(content@, header_marker()),
{
    contains_str(content, ";;; # CMUdict")
}

/// Whether `needle` occurs in `hay` as a contiguous run of characters.
pub fn contains_str(hay: &str, needle: &str) -> (r: bool)
    ensures
        r == contains_seq(hay@, needle@),
{
    let n = hay.unicode_len();
    let m = needle.unicode_len();
    if m > n {
        proof {
            lemma_no_room_no_match(hay@, needle@);
        }
        return false;
    }
    let mut i: usize = 0;
    while i <= n - m
        invariant
            0 <= i,
            m <= n,
            i + m <= n + 1,
            n == hay@.len(),
            m == needle@.len(),
            forall|k: int|
                0 <= k < i ==> #[trigger] hay@.subrange(k, k + needle@.len()) != needle@,
        decreases n - i,
    {
        proof {
            assert(i + m <= n);
        }
        let mut j: usize = 0;
        let mut all: bool = true;
        while j < m
            invariant
                0 <= j <= m,
                i + m <= n,
                n == hay@.len(),
                m == needle@.len(),
                all <==> (forall|t: int| 0 <= t < j ==> hay@[i + t] == needle@[t]),
            decreases m - j,
        {
            if hay.get_char(i + j) != needle.get_char(j) {
                all = false;
                proof {
                    assert(hay@[i + j as int] != needle@[j as int]);
                }
                j = m;
            } else {
                j += 1;
            }
        }
        if all {
            proof {
                assert(hay@.subrange(i as int, i + needle@.len()) =~= needle@);
            }
            return true;
        }
        proof {
            assert(hay@.subrange(i as int, i + needle@.len()) != needle@) by {
                let sub = hay@.subrange(i as int, i + needle@.len());
                let t = choose|t: int|
                    0 <= t < needle@.len() && hay@[i + t] != needle@[t];
                assert(sub[t] != needle@[t]);
            }
        }
        i += 1;
    }
    false
}

/// A pattern longer than the text never occurs in it.
proof fn lemma_no_room_no_match(s: Seq<char>, m: Seq<char>)
    requires
        m.len() > s.len(),
    ensures
        !contains_seq(s, m),
{
}

/// Parse dictionary text. `None` when the header marker is absent (the file
/// is not a genuine dictionary); otherwise the folded word table.
pub fn parse_dictionary(content: &str) -> (r: Option<Dictionary>)
    ensures
        r is Some <==> contains_seq(content@, header_marker()),
        r matches Some(d) ==> d.model() == parse_lines(split_nl(content@)) && d.wf(),
{
    if !has_header_marker(content) {
        return None;
    }
    let lines = split_lines(content);
    let mut dict = Dictionary::new_empty();
    let mut i: usize = 0;
    proof {
        assert(lines@.subrange(0, 0) =~= Seq::<String>::empty());
        assert(parse_lines(views_of(lines@.subrange(0, 0))) =~= dict.model());
    }
    while i < lines.len()
        invariant
            i <= lines@.len(),
            views_of(lines@) == split_nl(content@),
            dict.model() == parse_lines(views_of(lines@.subrange(0, i as int))),
            dict.wf(),
        decreases lines@.len() - i,
    {
        let ghost pre = views_of(lines@.subrange(0, i as int));
        add_line(&mut dict, &lines[i]);
        proof {
            assert(views_of(lines@.subrange(0, i + 1)) =~= pre.push(lines@[i as int]@));
            lemma_parse_lines_push(pre, lines@[i as int]@);
        }
        i += 1;
    }
    proof {
        assert(lines@.subrange(0, lines@.len() as int) =~= lines@);
    }
    Some(dict)
}

/// One more line extends the fold by one `apply_line` step.
proof fn lemma_parse_lines_push(lines: Seq<Seq<char>>, l: Seq<char>)
    ensures
        parse_lines(lines.push(l)) == apply_line(parse_lines(lines), l),
{
    assert(lines.push(l).drop_last() =~= lines);
}

/// Fold one line of text into the table.
fn add_line(dict: &mut Dictionary, line: &String)
    requires
        old(dict).wf(),
    ensures
        final(dict).model() == apply_line(old(dict).model(), line@),
        final(dict).wf(),
{
    let parts = split_words(line.as_str());
    if parts.len() < 2 {
        return;
    }
    let head = &parts[0];
    if is_comment_start(head.as_str()) {
        return;
    }
    let key = base_key(head.as_str());
    let mut pron: Vec<String> = Vec::new();
    let mut k: usize = 1;
    proof {
        assert(views_of(pron@) =~= views_of(parts@).subrange(1, 1));
    }
    while k < parts.len()
        invariant
            1 <= k <= parts@.len(),
            views_of(pron@) == views_of(parts@).subrange(1, k as int),
        decreases parts@.len() - k,
    {
        let ghost old_pron = pron@;
        pron.push(parts[k].clone());
        proof {
            assert(views_of(pron@) =~= views_of(old_pron).push(parts@[k as int]@));
            assert(views_of(pron@) =~= views_of(parts@).subrange(1, k + 1));
        }
        k += 1;
    }
    proof {
        assert(views_of(pron@) =~= views_of(parts@).drop_first());
        assert(views_of(parts@).drop_first() =~= split_ws(line@).drop_first());
    }
    insert_pron(dict, key, pron);
}

/// Whether a token opens a comment.
fn is_comment_start(t: &str) -> (r: bool)
    ensures
        r == crate::dict::comment_start(t@),
{
    let n = t.unicode_len();
    if n < 3 {
        return false;
    }
    t.get_char(0) == ';' && t.get_char(1) == ';' && t.get_char(2) == ';'
}

/// The base key of a word token: everything before the first `(`, uppercase
/// in the file already.
fn base_key(t: &str) -> (r: String)
    ensures
        r@ == base_of(t@),
{
    let cs = crate::strutil::chars_of(t);
    let n = cs.len();
    let mut i: usize = 0;
    while i < n && cs[i] != '('
        invariant
            i <= n,
            n == cs@.len(),
            cs@ == t@,
            forall|k: int| 0 <= k < i ==> cs@[k] != '(',
        decreases n - i,
    {
        i += 1;
    }
    proof {
        lemma_paren_at(cs@, i as nat);
    }
    let mut out: Vec<char> = Vec::new();
    let mut k: usize = 0;
    while k < i
        invariant
            k <= i <= n,
            n == cs@.len(),
            out@ == cs@.subrange(0, k as int),
        decreases i - k,
    {
        out.push(cs[k]);
        proof {
            assert(out@ =~= cs@.subrange(0, k + 1));
        }
        k += 1;
    }
    proof {
        assert(out@ =~= base_of(t@));
    }
    crate::strutil::string_from_chars(&out)
}

/// The scan that stopped at `i` found the first parenthesis.
proof fn lemma_paren_at(s: Seq<char>, i: nat)
    requires
        i <= s.len(),
        forall|k: int| 0 <= k < i ==> s[k] != '(',
        i == s.len() || s[i as int] == '(',
    ensures
        paren_at(s) == i,
    decreases i,
{
    if i == 0 {
    } else {
        lemma_paren_at(s.drop_first(), (i - 1) as nat);
    }
}

/// Append a pronunciation under `key`, as `upsert` describes.
fn insert_pron(dict: &mut Dictionary, key: String, pron: Vec<String>)
    requires
        old(dict).wf(),
    ensures
        final(dict).model() == upsert(old(dict).model(), key@, views_of(pron@)),
        final(dict).wf(),
{
    let n = dict.entries.len();
    let mut i: usize = 0;
    while i < n
        invariant
            i <= n,
            n == dict.entries@.len(),
            dict == old(dict),
            old(dict).wf(),
            forall|j: int| 0 <= j < i ==> (#[trigger] dict.model()[j]).0 != key@,
        decreases n - i,
    {
        if str_eq(dict.entries[i].0.as_str(), key.as_str()) {
            proof {
                lemma_find_key_at(dict.model(), key@, i as nat);
            }
            let ghost old_model = dict.model();
            proof {
                assert(old_model == old(dict).model());
                assert(model_wf(old_model));
            }
            let entry = vstd::std_specs::vec::vec_index_mut(&mut dict.entries, i);
            entry.1.push(pron);
            proof {
                let target = old_model.update(
                    i as int,
                    (key@, old_model[i as int].1.push(views_of(pron@))),
                );
                assert(pron_views(dict.entries@[i as int].1@) =~= old_model[i as int].1.push(
                    views_of(pron@),
                ));
                assert(dict.model() =~= target);
                assert(forall|j: int|
                    0 <= j < dict.model().len() && j != i ==> (#[trigger] dict.model()[j])
                        == old_model[j]);
                assert(dict.model()[i as int].0 == old_model[i as int].0);
                assert(dict.model()[i as int].1.len() >= 1);
                assert(forall|j: int|
                    0 <= j < dict.model().len() ==> (#[trigger] dict.model()[j]).0
                        == old_model[j].0);
                assert(forall|p: int, q: int|
                    0 <= p < q < dict.model().len() ==> (#[trigger] dict.model()[p]).0 != (
                    #[trigger] dict.model()[q]).0);
                assert(forall|p: int|
                    0 <= p < dict.model().len() ==> (#[trigger] dict.model()[p]).1.len() >= 1);
            }
            return;
        }
        i += 1;
    }
    proof {
        lemma_find_key_at(dict.model(), key@, n as nat);
    }
    let ghost old_model = dict.model();
    let mut ps: Vec<Vec<String>> = Vec::new();
    ps.push(pron);
    dict.entries.push((key, ps));
    proof {
        let last = dict.model().len() - 1;
        assert(pron_views(dict.entries@[last].1@) =~= seq![views_of(pron@)]);
        assert(dict.model() =~= old_model.push((key@, seq![views_of(pron@)])));
        assert(forall|j: int|
            0 <= j < old_model.len() ==> (#[trigger] dict.model()[j]) == old_model[j]);
    }
}

/// Cut a text at every newline, keeping empty lines, exactly as `split_nl`
/// describes.
pub fn split_lines(content: &str) -> (r: Vec<String>)
    ensures
        views_of(r@) == split_nl(content@),
{
    let cs = crate::strutil::chars_of(content);
    let n = cs.len();
    let mut r: Vec<String> = Vec::new();
    let mut start: usize = 0;
    proof {
        assert(cs@.skip(0) =~= cs@);
    }
    loop
        invariant
            start <= n,
            n == cs@.len(),
            cs@ == content@,
            split_nl(content@) == views_of(r@) + split_nl(cs@.skip(start as int)),
        decreases n - start,
    {
        let mut j = start;
        while j < n && cs[j] != '\n'
            invariant
                start <= j <= n,
                n == cs@.len(),
                forall|k: int| start <= k < j ==> cs@[k] != '\n',
            decreases n - j,
        {
            j += 1;
        }
        let mut line: Vec<char> = Vec::new();
        let mut k = start;
        while k < j
            invariant
                start <= k <= j <= n,
                n == cs@.len(),
                line@ == cs@.subrange(start as int, k as int),
            decreases j - k,
        {
            line.push(cs[k]);
            proof {
                assert(line@ =~= cs@.subrange(start as int, k + 1));
            }
            k += 1;
        }
        let w = crate::strutil::string_from_chars(&line);
        let ghost old_r = r@;
        r.push(w);
        proof {
            let suffix = cs@.skip(start as int);
            assert(forall|t: int| 0 <= t < j - start ==> #[trigger] suffix[t] != '\n');
            lemma_line_break_at(suffix, (j - start) as nat);
            assert(suffix.take((j - start) as int) =~= cs@.subrange(start as int, j as int));
            assert(views_of(r@) =~= views_of(old_r).push(cs@.subrange(start as int, j as int)));
        }
        if j == n {
            proof {
                let suffix = cs@.skip(start as int);
                assert(line_break(suffix) == suffix.len());
                assert(split_nl(suffix) =~= seq![suffix]);
                assert(suffix =~= cs@.subrange(start as int, j as int));
                assert(views_of(r@) + Seq::<Seq<char>>::empty() =~= views_of(r@));
                assert(split_nl(content@) =~= views_of(r@));
            }
            return r;
        }
        proof {
            let suffix = cs@.skip(start as int);
            assert(line_break(suffix) < suffix.len());
            assert(suffix.skip(line_break(suffix) as int + 1) =~= cs@.skip(j + 1));
            assert(split_nl(suffix) =~= seq![cs@.subrange(start as int, j as int)] + split_nl(
                cs@.skip(j + 1),
            ));
        }
        start = j + 1;
    }
}

/// The scan that stopped at `m` found the first newline.
proof fn lemma_line_break_at(s: Seq<char>, m: nat)
    requires
        m <= s.len(),
        forall|k: int| 0 <= k < m ==> s[k] != '\n',
        m == s.len() || s[m as int] == '\n',
    ensures
        line_break(s) == m,
    decreases m,
{
    if m == 0 {
    } else {
        lemma_line_break_at(s.drop_first(), (m - 1) as nat);
    }
}

} // verus!
