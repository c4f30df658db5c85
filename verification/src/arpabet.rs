//! The closed ARPAbet symbol set, and the text utilities of the phoneme
//! resolver: whitespace tokenization, word normalization, validation of
//! model-produced symbol tokens, and the fixed prompt and guidance texts.

use vstd::prelude::*;
use crate::strutil::{
    char_is_alnum, char_is_space, chars_of, is_alnum, is_space, str_eq, string_from_chars,
    to_upper, upper_of,
};
use vstd::string::StrSliceExecFns;
use vstd::string::StringExecFns;

verus! {

/// A stress digit that may suffix a vowel symbol.
pub open spec fn is_stress_digit(c: char) -> bool {
    c == '0' || c == '1' || c == '2'
}

/// The fifteen vowel symbols, which may carry a stress digit.
pub open spec fn is_arpabet_vowel(s: Seq<char>) -> bool {
    ||| s == "AA"@
    ||| s == "AE"@
    ||| s == "AH"@
    ||| s == "AO"@
    ||| s == "AW"@
    ||| s == "AY"@
    ||| s == "EH"@
    ||| s == "ER"@
    ||| s == "EY"@
    ||| s == "IH"@
    ||| s == "IY"@
    ||| s == "OW"@
    ||| s == "OY"@
    ||| s == "UH"@
    ||| s == "UW"@
}

/// The thirty-nine bare symbols, without stress digits.
pub open spec fn is_arpabet_base(s: Seq<char>) -> bool {
    ||| is_arpabet_vowel(s)
    ||| s == "B"@
    ||| s == "CH"@
    ||| s == "D"@
    ||| s == "DH"@
    ||| s == "F"@
    ||| s == "G"@
    ||| s == "HH"@
    ||| s == "JH"@
    ||| s == "K"@
    ||| s == "L"@
    ||| s == "M"@
    ||| s == "N"@
    ||| s == "NG"@
    ||| s == "P"@
    ||| s == "R"@
    ||| s == "S"@
    ||| s == "SH"@
    ||| s == "T"@
    ||| s == "TH"@
    ||| s == "V"@
    ||| s == "W"@
    ||| s == "Y"@
    ||| s == "Z"@
    ||| s == "ZH"@
}

/// The closed symbol set: a bare symbol, or a vowel with one stress digit.
pub open spec fn is_arpabet_symbol(s: Seq<char>) -> bool {
    ||| is_arpabet_base(s)
    ||| (s.len() == 3 && is_arpabet_vowel(s.subrange(0, 2)) && is_stress_digit(s[2]))
}

/// Whether a token names a vowel symbol.
fn is_vowel_exec(t: &str) -> (r: bool)
    ensures
        r == is_arpabet_vowel(t@),
{
    str_eq(t, "AA") || str_eq(t, "AE") || str_eq(t, "AH") || str_eq(t, "AO") || str_eq(t, "AW")
        || str_eq(t, "AY") || str_eq(t, "EH") || str_eq(t, "ER") || str_eq(t, "EY") || str_eq(
        t,
        "IH",
    ) || str_eq(t, "IY") || str_eq(t, "OW") || str_eq(t, "OY") || str_eq(t, "UH") || str_eq(
        t,
        "UW",
    )
}

/// Whether a token names a bare symbol.
fn is_base_exec(t: &str) -> (r: bool)
    ensures
        r == is_arpabet_base(t@),
{
    is_vowel_exec(t) || str_eq(t, "B") || str_eq(t, "CH") || str_eq(t, "D") || str_eq(t, "DH")
        || str_eq(t, "F") || str_eq(t, "G") || str_eq(t, "HH") || str_eq(t, "JH") || str_eq(t, "K")
        || str_eq(t, "L") || str_eq(t, "M") || str_eq(t, "N") || str_eq(t, "NG") || str_eq(t, "P")
        || str_eq(t, "R") || str_eq(t, "S") || str_eq(t, "SH") || str_eq(t, "T") || str_eq(t, "TH")
        || str_eq(t, "V") || str_eq(t, "W") || str_eq(t, "Y") || str_eq(t, "Z") || str_eq(t, "ZH")
}

/// Whether a token belongs to the closed ARPAbet symbol set.
pub fn is_arpabet_symbol_exec(t: &str) -> (r: bool)
    ensures
        r == is_arpabet_symbol(t@),
{
    if is_base_exec(t) {
        return true;
    }
    let n = t.unicode_len();
    if n != 3 {
        return false;
    }
    let head = t.substring_char(0, 2);
    let c = t.get_char(2);
    is_vowel_exec(head) && (c == '0' || c == '1' || c == '2')
}

/// Views of a vector of strings.
pub open spec fn views_of(v: Seq<String>) -> Seq<Seq<char>> {
    v.map_values(|s: String| s@)
}

/// Membership in the closed symbol set, as a predicate value for `filter`.
pub open spec fn valid_sym_pred() -> spec_fn(Seq<char>) -> bool {
    |s: Seq<char>| is_arpabet_symbol(s)
}

/// The complement of `valid_sym_pred`.
pub open spec fn invalid_sym_pred() -> spec_fn(Seq<char>) -> bool {
    |s: Seq<char>| !is_arpabet_symbol(s)
}

/// Split a token list into the symbols that belong to the closed set and the
/// tokens that do not, both in their original order.
pub fn filter_arpabet_tokens(tokens: &Vec<String>) -> (r: (Vec<String>, Vec<String>))
    ensures
        views_of(r.0@) == views_of(tokens@).filter(valid_sym_pred()),
        views_of(r.1@) == views_of(tokens@).filter(invalid_sym_pred()),
{
    let mut kept: Vec<String> = Vec::new();
    let mut dropped: Vec<String> = Vec::new();
    let mut i: usize = 0;
    proof {
        assert(views_of(tokens@.subrange(0, 0)).filter(valid_sym_pred())
            =~= Seq::<Seq<char>>::empty());
        assert(views_of(tokens@.subrange(0, 0)).filter(invalid_sym_pred())
            =~= Seq::<Seq<char>>::empty());
        assert(views_of(kept@) =~= Seq::<Seq<char>>::empty());
        assert(views_of(dropped@) =~= Seq::<Seq<char>>::empty());
    }
    while i < tokens.len()
        invariant
            i <= tokens@.len(),
            views_of(kept@) == views_of(tokens@.subrange(0, i as int)).filter(
                valid_sym_pred(),
            ),
            views_of(dropped@) == views_of(tokens@.subrange(0, i as int)).filter(
                invalid_sym_pred(),
            ),
        decreases tokens@.len() - i,
    {
        let t = &tokens[i];
        let ghost pre = views_of(tokens@.subrange(0, i as int));
        let ghost cur = t@;
        let ok = is_arpabet_symbol_exec(t.as_str());
        if ok {
            let ghost old_kept = kept@;
            kept.push(t.clone());
            proof {
                assert(views_of(kept@) =~= views_of(old_kept).push(cur));
            }
        } else {
            let ghost old_dropped = dropped@;
            dropped.push(t.clone());
            proof {
                assert(views_of(dropped@) =~= views_of(old_dropped).push(cur));
            }
        }
        proof {
            lemma_filter_step(pre, cur, valid_sym_pred());
            lemma_filter_step(pre, cur, invalid_sym_pred());
            assert(views_of(tokens@.subrange(0, i + 1)) =~= pre.push(cur));
        }
        i += 1;
    }
    proof {
        assert(tokens@.subrange(0, tokens@.len() as int) =~= tokens@);
    }
    (kept, dropped)
}

/// One step of `filter`: pushing an element keeps it exactly when the
/// predicate holds of it.
proof fn lemma_filter_step(s: Seq<Seq<char>>, x: Seq<char>, pred: spec_fn(Seq<char>) -> bool)
    ensures
        s.push(x).filter(pred) == if pred(x) {
            s.filter(pred).push(x)
        } else {
            s.filter(pred)
        },
{
    reveal(Seq::filter);
    assert(s.push(x).drop_last() =~= s);
}

/// Length of the whitespace-free word at the head of `s`.
pub open spec fn word_len(s: Seq<char>) -> nat
    decreases s.len(),
{
    if s.len() == 0 || is_space(s[0]) {
        0
    } else {
        1 + word_len(s.drop_first())
    }
}

/// The whitespace-delimited words of `s`, in order.
pub open spec fn split_ws(s: Seq<char>) -> Seq<Seq<char>>
    decreases s.len(),
    via split_ws_dec
{
    if s.len() == 0 {
        Seq::empty()
    } else if is_space(s[0]) {
        split_ws(s.drop_first())
    } else {
        seq![s.take(word_len(s) as int)] + split_ws(s.skip(word_len(s) as int))
    }
}

#[via_fn]
proof fn split_ws_dec(s: Seq<char>) {
    if s.len() != 0 && !is_space(s[0]) {
        lemma_word_len_le(s);
    }
}

/// A word never runs past the end of the text.
pub proof fn lemma_word_len_le(s: Seq<char>)
    ensures
        word_len(s) <= s.len(),
    decreases s.len(),
{
    if s.len() == 0 || is_space(s[0]) {
    } else {
        lemma_word_len_le(s.drop_first());
    }
}

/// The head word runs to the first whitespace character (or the end).
proof fn lemma_word_len_at(s: Seq<char>, m: nat)
    requires
        m <= s.len(),
        forall|k: int| 0 <= k < m ==> !is_space(s[k]),
        m == s.len() || is_space(s[m as int]),
    ensures
        word_len(s) == m,
    decreases m,
{
    if m == 0 {
    } else {
        assert(!is_space(s[0]));
        lemma_word_len_at(s.drop_first(), (m - 1) as nat);
    }
}

/// Split a text on whitespace, exactly as the spec `split_ws` describes.
pub fn split_words(text: &str) -> (r: Vec<String>)
    ensures
        views_of(r@) == split_ws(text@),
{
    let cs = chars_of(text);
    let n = cs.len();
    let mut r: Vec<String> = Vec::new();
    let mut i: usize = 0;
    proof {
        assert(cs@.skip(0) =~= cs@);
    }
    while i < n
        invariant
            i <= n,
            n == cs@.len(),
            cs@ == text@,
            split_ws(text@) == views_of(r@) + split_ws(cs@.skip(i as int)),
        decreases n - i,
    {
        let ghost before = cs@.skip(i as int);
        if char_is_space(cs[i]) {
            proof {
                assert(before.drop_first() =~= cs@.skip(i + 1));
            }
            i += 1;
        } else {
            let start = i;
            let mut j = i;
            while j < n && !char_is_space(cs[j])
                invariant
                    start <= j <= n,
                    n == cs@.len(),
                    forall|k: int| start <= k < j ==> !is_space(cs@[k]),
                decreases n - j,
            {
                j += 1;
            }
            let mut word: Vec<char> = Vec::new();
            let mut k = start;
            while k < j
                invariant
                    start <= k <= j <= n,
                    n == cs@.len(),
                    word@ == cs@.subrange(start as int, k as int),
                decreases j - k,
            {
                word.push(cs[k]);
                proof {
                    assert(word@ =~= cs@.subrange(start as int, k + 1));
                }
                k += 1;
            }
            let w = string_from_chars(&word);
            let ghost old_r = r@;
            r.push(w);
            proof {
                let suffix = cs@.skip(start as int);
                assert(forall|t: int| 0 <= t < j - start ==> !is_space(#[trigger] suffix[t]));
                assert((j - start) as nat == suffix.len() || is_space(suffix[(j - start) as int]));
                lemma_word_len_at(suffix, (j - start) as nat);
                assert(suffix.take((j - start) as int) =~= cs@.subrange(start as int, j as int));
                assert(suffix.skip((j - start) as int) =~= cs@.skip(j as int));
                assert(split_ws(suffix) == seq![cs@.subrange(start as int, j as int)] + split_ws(
                    cs@.skip(j as int),
                ));
                assert(views_of(r@) =~= views_of(old_r).push(w@));
                assert(views_of(old_r) + split_ws(suffix) =~= views_of(r@) + split_ws(
                    cs@.skip(j as int),
                ));
            }
            i = j;
        }
    }
    proof {
        assert(cs@.skip(n as int) =~= Seq::<char>::empty());
        assert(views_of(r@) + split_ws(cs@.skip(n as int)) =~= views_of(r@));
    }
    r
}

/// Leading characters to trim: the run of non-alphanumerics at the front.
pub open spec fn lead_trim(s: Seq<char>) -> nat
    decreases s.len(),
{
    if s.len() == 0 || is_alnum(s[0]) {
        0
    } else {
        1 + lead_trim(s.drop_first())
    }
}

/// Trailing characters to trim: the run of non-alphanumerics at the back.
pub open spec fn tail_trim(s: Seq<char>) -> nat
    decreases s.len(),
{
    if s.len() == 0 || is_alnum(s.last()) {
        0
    } else {
        1 + tail_trim(s.drop_last())
    }
}

/// `s` with leading and trailing non-alphanumeric characters removed.
pub open spec fn trim_non_alnum(s: Seq<char>) -> Seq<char> {
    let t = s.skip(lead_trim(s) as int);
    t.take((t.len() - tail_trim(t)) as int)
}

/// The run of leading non-alphanumerics ends at the first alphanumeric.
proof fn lemma_lead_trim_at(s: Seq<char>, m: nat)
    requires
        m <= s.len(),
        forall|k: int| 0 <= k < m ==> !is_alnum(s[k]),
        m == s.len() || is_alnum(s[m as int]),
    ensures
        lead_trim(s) == m,
    decreases m,
{
    if m == 0 {
    } else {
        lemma_lead_trim_at(s.drop_first(), (m - 1) as nat);
    }
}

/// The run of trailing non-alphanumerics starts after the last alphanumeric.
proof fn lemma_tail_trim_at(s: Seq<char>, m: nat)
    requires
        m <= s.len(),
        forall|k: int| s.len() - m <= k < s.len() ==> !is_alnum(s[k]),
        m == s.len() || is_alnum(s[(s.len() - m - 1) as int]),
    ensures
        tail_trim(s) == m,
    decreases m,
{
    if m == 0 {
    } else {
        lemma_tail_trim_at(s.drop_last(), (m - 1) as nat);
    }
}

/// Normalize one word for dictionary lookup: strip leading and trailing
/// punctuation, then compare as uppercase.
pub fn normalize_word(word: &str) -> (r: String)
    ensures
        r@ == upper_of(trim_non_alnum(word@)),
{
    let cs = chars_of(word);
    let n = cs.len();
    let mut lo: usize = 0;
    while lo < n && !char_is_alnum(cs[lo])
        invariant
            lo <= n,
            n == cs@.len(),
            cs@ == word@,
            forall|k: int| 0 <= k < lo ==> !is_alnum(cs@[k]),
        decreases n - lo,
    {
        lo += 1;
    }
    proof {
        lemma_lead_trim_at(cs@, lo as nat);
    }
    let mut hi: usize = n;
    while hi > lo && !char_is_alnum(cs[hi - 1])
        invariant
            lo <= hi <= n,
            n == cs@.len(),
            cs@ == word@,
            forall|k: int| hi <= k < n ==> !is_alnum(cs@[k]),
        decreases hi,
    {
        hi -= 1;
    }
    let mut trimmed: Vec<char> = Vec::new();
    let mut k = lo;
    while k < hi
        invariant
            lo <= k <= hi <= n,
            n == cs@.len(),
            trimmed@ == cs@.subrange(lo as int, k as int),
        decreases hi - k,
    {
        trimmed.push(cs[k]);
        proof {
            assert(trimmed@ =~= cs@.subrange(lo as int, k + 1));
        }
        k += 1;
    }
    proof {
        let t = cs@.skip(lo as int);
        if hi == lo {
            // Nothing alphanumeric remains: the whole suffix is trimmed away.
            lemma_tail_trim_at(t, t.len());
            assert(trimmed@ =~= trim_non_alnum(word@));
        } else {
            lemma_tail_trim_at(t, (n - hi) as nat);
            assert(trimmed@ =~= t.take((t.len() - (n - hi)) as int));
            assert(trimmed@ =~= trim_non_alnum(word@));
        }
    }
    let s = string_from_chars(&trimmed);
    to_upper(s.as_str())
}

/// The fixed, deterministic prompt handed to the language-model runner for
/// one word: it asks for space-separated ARPAbet symbols and nothing else.
pub open spec fn prompt_spec(w: Seq<char>) -> Seq<char> {
    "Give only the ARPAbet phonemes for the word '"@ + w
        + "'. Respond ONLY with the ARPAbet phonemes, space-separated, no explanation, no punctuation, no extra words.\nExample: hello => HH AH0 L OW1\nNow, "@
        + w + " =>"@
}

/// Build the model prompt for one word.
pub fn build_prompt(word: &str) -> (r: String)
    ensures
        r@ == prompt_spec(word@),
{
    let mut r = String::new();
    r.append("Give only the ARPAbet phonemes for the word '");
    r.append(word);
    r.append(
        "'. Respond ONLY with the ARPAbet phonemes, space-separated, no explanation, no punctuation, no extra words.\nExample: hello => HH AH0 L OW1\nNow, ",
    );
    r.append(word);
    r.append(" =>");
    r
}

/// Guidance for a word that stayed unresolved: how to enable or repair the
/// language-model fallback.
pub open spec fn guidance_spec(w: Seq<char>, model: Option<Seq<char>>) -> Seq<char> {
    match model {
        Some(m) => "All fallbacks failed for '"@ + w
            + "'. Make sure Ollama is installed and the '"@ + m
            + "' model is available:\n  brew install ollama\n  ollama pull "@ + m
            + " (first-time download may take several minutes)\n  We recommend using 'llama3.2' for best ARPAbet accuracy."@,
        None => "No phoneme data for '"@ + w
            + "'. Rerun with --lipsync-with-llm <model> to enable LLM fallback."@,
    }
}

/// Build the guidance text for an unresolved word.
pub fn unresolved_guidance(word: &str, model: Option<&String>) -> (r: String)
    ensures
        r@ == guidance_spec(
            word@,
            match model {
                Some(m) => Some(m@),
                None => None,
            },
        ),
{
    let mut r = String::new();
    match model {
        Some(m) => {
            r.append("All fallbacks failed for '");
            r.append(word);
            r.append("'. Make sure Ollama is installed and the '");
            r.append(m.as_str());
            r.append("' model is available:\n  brew install ollama\n  ollama pull ");
            r.append(m.as_str());
            r.append(" (first-time download may take several minutes)\n  We recommend using 'llama3.2' for best ARPAbet accuracy.");
        },
        None => {
            r.append("No phoneme data for '");
            r.append(word);
            r.append("'. Rerun with --lipsync-with-llm <model> to enable LLM fallback.");
        },
    }
    r
}

} // verus!
