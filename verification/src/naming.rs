//! Output naming: folder names derived from text, WAV file names generated
//! from the first words of the input, and the placement of the WAV and
//! lipsync JSON files an export produces.

use vstd::prelude::*;
use crate::arpabet::{split_words, split_ws, views_of};
use crate::lipsync::{file_name_of, parent_of};
use crate::strutil::{
    char_is_alnum, char_is_space, chars_of, is_alnum, is_space, lower_of, string_from_chars,
    to_lower,
};
use vstd::string::StrSliceExecFns;
use vstd::string::StringExecFns;

verus! {

/// Every character that is not alphanumeric becomes an underscore.
pub open spec fn folder_mapped(s: Seq<char>) -> Seq<char> {
    s.map_values(
        |c: char|
            if is_alnum(c) {
                c
            } else {
                '_'
            },
    )
}

/// Clean a string for use as a folder name: alphanumerics kept, everything
/// else an underscore, the whole lowercased.
pub fn clean_for_folder(s: &str) -> (r: String)
    ensures
        r@ == lower_of(folder_mapped(s@)),
{
    let cs = chars_of(s);
    let n = cs.len();
    let mut mapped: Vec<char> = Vec::new();
    let mut i: usize = 0;
    while i < n
        invariant
            i <= n,
            n == cs@.len(),
            cs@ == s@,
            mapped@ == folder_mapped(s@.subrange(0, i as int)),
        decreases n - i,
    {
        let c = cs[i];
        let out: char = if char_is_alnum(c) {
            c
        } else {
            '_'
        };
        mapped.push(out);
        proof {
            assert(mapped@ =~= folder_mapped(s@.subrange(0, i + 1)));
        }
        i += 1;
    }
    proof {
        assert(s@.subrange(0, n as int) =~= s@);
    }
    let m = string_from_chars(&mapped);
    to_lower(m.as_str())
}

/// The folder an export writes into: `output_` plus the cleaned stem.
pub fn export_folder_name(stem: &str) -> (r: String)
    ensures
        r@ == "output_"@ + lower_of(folder_mapped(stem@)),
{
    let cleaned = clean_for_folder(stem);
    let mut r = String::new();
    r.append("output_");
    r.append(cleaned.as_str());
    r
}

/// The characters a generated file name may draw on.
pub open spec fn keep_pred() -> spec_fn(char) -> bool {
    |c: char| is_alnum(c) || is_space(c)
}

/// The first thirty characters of the text, reduced to letters, digits and
/// whitespace.
pub open spec fn cleaned_of(t: Seq<char>) -> Seq<char> {
    let cut = if t.len() < 30 {
        t.len() as int
    } else {
        30
    };
    t.take(cut).filter(keep_pred())
}

/// At most the first five words of the cleaned text.
pub open spec fn first_words(t: Seq<char>) -> Seq<Seq<char>> {
    let ws = split_ws(cleaned_of(t));
    let cut = if ws.len() < 5 {
        ws.len() as int
    } else {
        5
    };
    ws.take(cut)
}

/// Words joined with underscores.
pub open spec fn joined_words(ws: Seq<Seq<char>>) -> Seq<char>
    decreases ws.len(),
{
    if ws.len() == 0 {
        Seq::empty()
    } else if ws.len() == 1 {
        ws[0]
    } else {
        joined_words(ws.drop_last()) + "_"@ + ws.last()
    }
}

/// The generated WAV file name for a text: its first words joined with
/// underscores and lowercased, or `output` when nothing remains.
pub open spec fn filename_of(t: Seq<char>) -> Seq<char> {
    if first_words(t).len() == 0 {
        "output.wav"@
    } else {
        lower_of(joined_words(first_words(t))) + ".wav"@
    }
}

/// One step of `filter` over characters.
proof fn lemma_char_filter_step(s: Seq<char>, x: char, pred: spec_fn(char) -> bool)
    ensures
        s.push(x).filter(pred) == if pred(x) {
            s.filter(pred).push(x)
        } else {
            s.filter(pred)
        },
{
    reveal(Seq::filter);
    assert(s.push(x).drop_last() =~= s);
}

/// Generate a WAV file name from the first words of a text.
pub fn generate_filename_from_text(text: &str) -> (r: String)
    ensures
        r@ == filename_of(text@),
{
    let cs = chars_of(text);
    let n = cs.len();
    let cut: usize = if n < 30 {
        n
    } else {
        30
    };
    let mut kept: Vec<char> = Vec::new();
    let mut i: usize = 0;
    proof {
        assert(cs@.subrange(0, 0).filter(keep_pred()) =~= Seq::<char>::empty());
        assert(kept@ =~= cs@.subrange(0, 0).filter(keep_pred()));
    }
    while i < cut
        invariant
            i <= cut <= n,
            n == cs@.len(),
            cs@ == text@,
            kept@ == cs@.subrange(0, i as int).filter(keep_pred()),
        decreases cut - i,
    {
        let c = cs[i];
        let keep = char_is_alnum(c) || char_is_space(c);
        proof {
            lemma_char_filter_step(cs@.subrange(0, i as int), cs@[i as int], keep_pred());
            assert(cs@.subrange(0, i + 1) =~= cs@.subrange(0, i as int).push(cs@[i as int]));
        }
        if keep {
            kept.push(c);
        }
        i += 1;
    }
    proof {
        assert(cs@.subrange(0, cut as int) =~= text@.take(cut as int));
    }
    let cleaned = string_from_chars(&kept);
    let words = split_words(cleaned.as_str());
    let take: usize = if words.len() < 5 {
        words.len()
    } else {
        5
    };
    if take == 0 {
        let mut r = String::new();
        r.append("output.wav");
        proof {
            assert(first_words(text@).len() == 0);
        }
        return r;
    }
    let mut joined = String::new();
    let mut k: usize = 0;
    proof {
        assert(views_of(words@) == split_ws(cleaned@));
    }
    while k < take
        invariant
            0 < take <= words@.len(),
            views_of(words@) == split_ws(cleaned@),
            k <= take,
            k > 0 ==> joined@ == joined_words(split_ws(cleaned@).take(k as int)),
            k == 0 ==> joined@ == Seq::<char>::empty(),
        decreases take - k,
    {
        if k > 0 {
            joined.append("_");
        }
        joined.append(words[k].as_str());
        proof {
            let ws = split_ws(cleaned@);
            assert(ws.take(k + 1).drop_last() =~= ws.take(k as int));
            assert(ws.take(k + 1).last() == ws[k as int]);
            assert(ws[k as int] == views_of(words@)[k as int]);
        }
        k += 1;
    }
    let lowered = to_lower(joined.as_str());
    let mut r = lowered;
    r.append(".wav");
    proof {
        assert(first_words(text@) =~= split_ws(cleaned@).take(take as int));
    }
    r
}

/// Index just past the last dot of a file name, or zero when none.
pub open spec fn ext_start(f: Seq<char>) -> nat
    decreases f.len(),
{
    if f.len() == 0 {
        0
    } else if f.last() == '.' {
        f.len()
    } else {
        ext_start(f.drop_last())
    }
}

/// Whether a file name carries an extension: a dot past the first character.
pub open spec fn has_ext(f: Seq<char>) -> bool {
    ext_start(f) >= 2
}

/// A file name without its extension (unchanged when it has none).
pub open spec fn stem_of(f: Seq<char>) -> Seq<char> {
    if has_ext(f) {
        f.take(ext_start(f) - 1)
    } else {
        f
    }
}

/// Whether a path names a `.wav` file.
pub open spec fn is_wav_path(p: Seq<char>) -> bool {
    let f = file_name_of(p);
    has_ext(f) && f.skip(ext_start(f) as int) == "wav"@
}

/// A name placed under a directory; an empty directory stands for the
/// current one.
pub open spec fn join_path(dir: Seq<char>, name: Seq<char>) -> Seq<char> {
    if dir.len() == 0 {
        name
    } else {
        dir + "/"@ + name
    }
}

pub proof fn lemma_ext_start_le(f: Seq<char>)
    ensures
        ext_start(f) <= f.len(),
    decreases f.len(),
{
    if f.len() == 0 || f.last() == '.' {
    } else {
        lemma_ext_start_le(f.drop_last());
    }
}

/// The scan that found the last dot at `i - 1` (or none from `i` on).
proof fn lemma_ext_start_at(f: Seq<char>, i: nat)
    requires
        i <= f.len(),
        forall|k: int| i <= k < f.len() ==> f[k] != '.',
        i == 0 || f[i - 1] == '.',
    ensures
        ext_start(f) == i,
    decreases f.len(),
{
    if f.len() == 0 {
    } else if f.last() == '.' {
        assert(i == f.len());
    } else {
        lemma_ext_start_at(f.drop_last(), i);
    }
}

/// Split a file name at its extension dot: the stem and whether an
/// extension named `wav` follows.
fn scan_ext(f: &str) -> (r: (usize, bool))
    ensures
        r.0 == ext_start(f@),
        r.1 == (has_ext(f@) && f@.skip(ext_start(f@) as int) == "wav"@),
{
    let cs = chars_of(f);
    let n = cs.len();
    let mut i: usize = n;
    while i > 0 && cs[i - 1] != '.'
        invariant
            i <= n,
            n == cs@.len(),
            cs@ == f@,
            forall|k: int| i <= k < n ==> cs@[k] != '.',
        decreases i,
    {
        i -= 1;
    }
    proof {
        lemma_ext_start_at(cs@, i as nat);
    }
    let is_wav = i >= 2 && n - i == 3 && cs[i] == 'w' && cs[i + 1] == 'a' && cs[i + 2] == 'v';
    proof {
        reveal_strlit("wav");
        if i >= 2 {
            let ext = f@.skip(i as int);
            if is_wav {
                assert(ext =~= "wav"@);
            } else {
                if ext == "wav"@ {
                    assert(ext.len() == 3);
                    assert(ext[0] == 'w' && ext[1] == 'a' && ext[2] == 'v');
                }
            }
        }
    }
    (i, is_wav)
}

/// The stem of a path's file name.
pub fn file_stem_exec(path: &str) -> (r: String)
    ensures
        r@ == stem_of(file_name_of(path@)),
{
    let f = crate::lipsync::file_name_exec(path);
    stem_of_name(f.as_str())
}

/// Whether a path names a `.wav` file.
pub fn is_wav_path_exec(path: &str) -> (r: bool)
    ensures
        r == is_wav_path(path@),
{
    let f = crate::lipsync::file_name_exec(path);
    let (_, is_wav) = scan_ext(f.as_str());
    is_wav
}

/// Place a name under a directory.
pub fn join_path_exec(dir: &str, name: &str) -> (r: String)
    ensures
        r@ == join_path(dir@, name@),
{
    if dir.unicode_len() == 0 {
        let mut r = String::new();
        r.append(name);
        r
    } else {
        let mut r = String::new();
        r.append(dir);
        r.append("/");
        r.append(name);
        r
    }
}

/// Where an export writes its WAV and its lipsync JSON.
///
/// A destination naming a `.wav` file is used as is, with the JSON beside it
/// under the same stem; any other destination is a directory receiving a
/// generated file name; with no destination both land in the current
/// directory.
pub fn plan_export_paths(output: Option<&String>, text: &str) -> (r: (String, String))
    ensures
        ({
            let (wav, json) = (r.0@, r.1@);
            match output {
                Some(p) => {
                    if is_wav_path(p@) {
                        &&& wav == p@
                        &&& json == join_path(
                            parent_of(p@),
                            stem_of(file_name_of(p@)) + ".json"@,
                        )
                    } else {
                        &&& wav == join_path(p@, filename_of(text@))
                        &&& json == join_path(
                            p@,
                            stem_of(filename_of(text@)) + ".json"@,
                        )
                    }
                },
                None => {
                    &&& wav == filename_of(text@)
                    &&& json == stem_of(filename_of(text@)) + ".json"@
                },
            }
        }),
{
    match output {
        Some(p) => {
            if is_wav_path_exec(p.as_str()) {
                let wav = p.clone();
                let dir = crate::lipsync::parent_exec(p.as_str());
                let mut base = file_stem_exec(p.as_str());
                base.append(".json");
                let json = join_path_exec(dir.as_str(), base.as_str());
                (wav, json)
            } else {
                let filename = generate_filename_from_text(text);
                let wav = join_path_exec(p.as_str(), filename.as_str());
                let mut base = stem_of_name(filename.as_str());
                base.append(".json");
                let json = join_path_exec(p.as_str(), base.as_str());
                (wav, json)
            }
        },
        None => {
            let wav = generate_filename_from_text(text);
            let mut base = stem_of_name(wav.as_str());
            base.append(".json");
            (wav, base)
        },
    }
}

/// The stem of a bare file name.
fn stem_of_name(f: &str) -> (r: String)
    ensures
        r@ == stem_of(f@),
{
    let (i, _) = scan_ext(f);
    proof {
        lemma_ext_start_le(f@);
    }
    if i >= 2 {
        let cs = chars_of(f);
        let mut out: Vec<char> = Vec::new();
        let mut k: usize = 0;
        while k < i - 1
            invariant
                k <= i - 1,
                i >= 2,
                i <= cs@.len(),
                cs@ == f@,
                out@ == cs@.subrange(0, k as int),
            decreases i - 1 - k,
        {
            out.push(cs[k]);
            proof {
                assert(out@ =~= cs@.subrange(0, k + 1));
            }
            k += 1;
        }
        proof {
            assert(out@ =~= stem_of(f@));
        }
        string_from_chars(&out)
    } else {
        let mut r = String::new();
        r.append(f);
        r
    }
}

} // verus!
