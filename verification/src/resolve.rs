//! The resolution cascade: dictionary first, then the optional language-model
//! fallback, then an explicit unresolved result with guidance.
//!
//! A word is normalized (punctuation stripped, compared as uppercase) and
//! looked up in the dictionary; a hit always wins and returns the first
//! pronunciation. On a miss, and only when a fallback model identifier is
//! configured and non-blank, the caller queries the model and hands the raw
//! reply here; replies are tokenized on whitespace and every token outside
//! the closed ARPAbet set is dropped. A reply that is blank, that carries an
//! error marker, or whose tokens all fall outside the set leaves the word
//! unresolved, with guidance on repairing the fallback.

use vstd::prelude::*;
use crate::arpabet::{
    guidance_spec, is_arpabet_symbol, split_words, split_ws, trim_non_alnum, unresolved_guidance,
    views_of,
};
use crate::dict::{contains_seq, contains_str, Dictionary};
use crate::strutil::{char_is_space, chars_of, is_space, upper_of};

verus! {

/// How one word was resolved.
#[derive(Clone, Copy, Debug, PartialEq, Eq, Structural)]
pub enum ResolutionMethod {
    Dictionary,
    LanguageModel,
    Unresolved,
}

/// The tag text a method is written as in lipsync output.
pub open spec fn method_tag(m: ResolutionMethod) -> Seq<char> {
    match m {
        ResolutionMethod::Dictionary => "cmudict"@,
        ResolutionMethod::LanguageModel => "llm"@,
        ResolutionMethod::Unresolved => "user_manual"@,
    }
}

impl ResolutionMethod {
    /// The tag this method is written as.
    pub fn tag_str(&self) -> (r: &'static str)
        ensures
            r@ == method_tag(*self),
    {
        match self {
            ResolutionMethod::Dictionary => "cmudict",
            ResolutionMethod::LanguageModel => "llm",
            ResolutionMethod::Unresolved => "user_manual",
        }
    }
}

/// The outcome for one word: its phoneme symbols, how they were found, any
/// model tokens dropped as invalid, and guidance when the word stayed
/// unresolved.
#[derive(Clone, Debug)]
pub struct Resolution {
    pub symbols: Vec<String>,
    pub method: ResolutionMethod,
    pub dropped: Vec<String>,
    pub note: Option<String>,
}

/// A word as the dictionary keys it: stripped of leading and trailing
/// punctuation, uppercase.
pub open spec fn norm_of(w: Seq<char>) -> Seq<char> {
    upper_of(trim_non_alnum(w))
}

/// Whether every character is whitespace.
pub open spec fn is_blank(s: Seq<char>) -> bool {
    forall|i: int| 0 <= i < s.len() ==> is_space(s[i])
}

/// A fallback model counts as configured only when its identifier has
/// substance.
pub open spec fn model_configured(model: Option<Seq<char>>) -> bool {
    match model {
        Some(m) => !is_blank(m),
        None => false,
    }
}

/// A model reply worth tokenizing: non-blank and free of error markers.
pub open spec fn usable_reply(rep: Seq<char>) -> bool {
    &&& !is_blank(rep)
    &&& !contains_seq(rep, "error"@)
    &&& !contains_seq(rep, "not found"@)
}

/// The reply tokens that belong to the closed symbol set, in reply order.
pub open spec fn llm_kept(rep: Seq<char>) -> Seq<Seq<char>> {
    split_ws(rep).filter(crate::arpabet::valid_sym_pred())
}

/// The reply tokens dropped as invalid, in reply order.
pub open spec fn llm_dropped(rep: Seq<char>) -> Seq<Seq<char>> {
    split_ws(rep).filter(crate::arpabet::invalid_sym_pred())
}

/// Whether a reply yields a usable pronunciation.
pub open spec fn llm_accepts(rep: Seq<char>) -> bool {
    usable_reply(rep) && llm_kept(rep).len() > 0
}

/// The first pronunciation of a word, or nothing for an entry with none.
pub open spec fn first_pron(d: Dictionary, nw: Seq<char>) -> Seq<Seq<char>> {
    if d.prons_of(nw).len() >= 1 {
        d.prons_of(nw)[0]
    } else {
        Seq::empty()
    }
}

/// What resolving `w` against dictionary `d`, configured model `model` and
/// model reply `reply` must produce. The dictionary always takes priority;
/// the model is consulted only on a miss; everything else is unresolved.
pub open spec fn resolved_ok(
    d: Dictionary,
    w: Seq<char>,
    model: Option<Seq<char>>,
    reply: Option<Seq<char>>,
    r: Resolution,
) -> bool {
    let nw = norm_of(w);
    if d.contains_word(nw) {
        &&& r.method == ResolutionMethod::Dictionary
        &&& views_of(r.symbols@) == first_pron(d, nw)
        &&& r.dropped@.len() == 0
        &&& r.note is None
    } else if model_configured(model) {
        match reply {
            Some(rep) => {
                if llm_accepts(rep) {
                    &&& r.method == ResolutionMethod::LanguageModel
                    &&& views_of(r.symbols@) == llm_kept(rep)
                    &&& views_of(r.dropped@) == llm_dropped(rep)
                    &&& r.note is None
                } else {
                    &&& r.method == ResolutionMethod::Unresolved
                    &&& r.symbols@.len() == 0
                    &&& views_of(r.dropped@) == if usable_reply(rep) {
                        llm_dropped(rep)
                    } else {
                        Seq::empty()
                    }
                    &&& (r.note matches Some(n) && n@ == guidance_spec(nw, model))
                }
            },
            None => {
                &&& r.method == ResolutionMethod::Unresolved
                &&& r.symbols@.len() == 0
                &&& r.dropped@.len() == 0
                &&& (r.note matches Some(n) && n@ == guidance_spec(nw, model))
            },
        }
    } else {
        &&& r.method == ResolutionMethod::Unresolved
        &&& r.symbols@.len() == 0
        &&& r.dropped@.len() == 0
        &&& (r.note matches Some(n) && n@ == guidance_spec(w, None))
    }
}

/// Whether a string is blank (whitespace only).
pub fn is_blank_exec(s: &str) -> (r: bool)
    ensures
        r == is_blank(s@),
{
    let cs = chars_of(s);
    let n = cs.len();
    let mut i: usize = 0;
    while i < n
        invariant
            i <= n,
            n == cs@.len(),
            cs@ == s@,
            forall|k: int| 0 <= k < i ==> is_space(cs@[k]),
        decreases n - i,
    {
        if !char_is_space(cs[i]) {
            return false;
        }
        i += 1;
    }
    true
}

/// An element-for-element copy of a list of symbol texts.
fn clone_strings(v: &Vec<String>) -> (r: Vec<String>)
    ensures
        views_of(r@) == views_of(v@),
{
    let mut r: Vec<String> = Vec::new();
    let mut i: usize = 0;
    proof {
        assert(views_of(r@) =~= views_of(v@).subrange(0, 0));
    }
    while i < v.len()
        invariant
            i <= v@.len(),
            views_of(r@) == views_of(v@).subrange(0, i as int),
        decreases v@.len() - i,
    {
        let ghost old_r = r@;
        r.push(v[i].clone());
        proof {
            assert(views_of(r@) =~= views_of(old_r).push(v@[i as int]@));
            assert(views_of(r@) =~= views_of(v@).subrange(0, i + 1));
        }
        i += 1;
    }
    proof {
        assert(views_of(v@).subrange(0, v@.len() as int) =~= views_of(v@));
    }
    r
}

/// Whether resolving this word will need a model query: a dictionary miss
/// with a configured, non-blank fallback model.
pub fn needs_model_query(dict: &Dictionary, word: &str, model: Option<&String>) -> (r: bool)
    ensures
        r == (!dict.contains_word(norm_of(word@)) && model_configured(
            match model {
                Some(m) => Some(m@),
                None => None,
            },
        )),
{
    let configured = match model {
        Some(m) => !is_blank_exec(m.as_str()),
        None => false,
    };
    if !configured {
        return false;
    }
    let nw = crate::arpabet::normalize_word(word);
    dict.lookup(nw.as_str()).is_none()
}

/// Resolve one word through the cascade. `reply` is the model's raw reply,
/// when the model was configured, queried, and answered.
pub fn resolve_word(
    dict: &Dictionary,
    word: &str,
    model: Option<&String>,
    reply: Option<&String>,
) -> (r: Resolution)
    requires
        dict.wf(),
    ensures
        resolved_ok(
            *dict,
            word@,
            match model {
                Some(m) => Some(m@),
                None => None,
            },
            match reply {
                Some(rep) => Some(rep@),
                None => None,
            },
            r,
        ),
{
    let nw = crate::arpabet::normalize_word(word);
    match dict.lookup(nw.as_str()) {
        Some(ps) => {
            let symbols: Vec<String> = if ps.len() >= 1 {
                clone_strings(&ps[0])
            } else {
                Vec::new()
            };
            proof {
                if ps@.len() >= 1 {
                    assert(crate::dict::pron_views(ps@)[0] == views_of(ps@[0]@));
                }
                assert(views_of(symbols@) =~= first_pron(*dict, norm_of(word@)));
            }
            Resolution {
                symbols,
                method: ResolutionMethod::Dictionary,
                dropped: Vec::new(),
                note: None,
            }
        },
        None => {
            let configured = match model {
                Some(m) => !is_blank_exec(m.as_str()),
                None => false,
            };
            if !configured {
                let note = unresolved_guidance(word, None);
                return Resolution {
                    symbols: Vec::new(),
                    method: ResolutionMethod::Unresolved,
                    dropped: Vec::new(),
                    note: Some(note),
                };
            }
            match reply {
                Some(rep) => {
                    let usable = !is_blank_exec(rep.as_str()) && !contains_str(
                        rep.as_str(),
                        "error",
                    ) && !contains_str(rep.as_str(), "not found");
                    if usable {
                        let tokens = split_words(rep.as_str());
                        let (kept, dropped) = crate::arpabet::filter_arpabet_tokens(&tokens);
                        if kept.len() > 0 {
                            return Resolution {
                                symbols: kept,
                                method: ResolutionMethod::LanguageModel,
                                dropped,
                                note: None,
                            };
                        }
                        let note = unresolved_guidance(nw.as_str(), model);
                        Resolution {
                            symbols: Vec::new(),
                            method: ResolutionMethod::Unresolved,
                            dropped,
                            note: Some(note),
                        }
                    } else {
                        let note = unresolved_guidance(nw.as_str(), model);
                        let dropped: Vec<String> = Vec::new();
                        proof {
                            assert(views_of(dropped@) =~= Seq::<Seq<char>>::empty());
                        }
                        Resolution {
                            symbols: Vec::new(),
                            method: ResolutionMethod::Unresolved,
                            dropped,
                            note: Some(note),
                        }
                    }
                },
                None => {
                    let note = unresolved_guidance(nw.as_str(), model);
                    Resolution {
                        symbols: Vec::new(),
                        method: ResolutionMethod::Unresolved,
                        dropped: Vec::new(),
                        note: Some(note),
                    }
                },
            }
        },
    }
}

/// Resolve every whitespace-delimited word of a text, with no fallback model
/// configured: each word resolves from the dictionary alone.
pub fn text_to_arpabet_with_method(dict: &Dictionary, text: &str) -> (r: Vec<Resolution>)
    requires
        dict.wf(),
    ensures
        r@.len() == split_ws(text@).len(),
        forall|i: int|
            0 <= i < r@.len() ==> resolved_ok(
                *dict,
                split_ws(text@)[i],
                None,
                None,
                #[trigger] r@[i],
            ),
{
    let words = split_words(text);
    let mut r: Vec<Resolution> = Vec::new();
    let mut i: usize = 0;
    while i < words.len()
        invariant
            i <= words@.len(),
            views_of(words@) == split_ws(text@),
            r@.len() == i,
            dict.wf(),
            forall|j: int|
                0 <= j < i ==> resolved_ok(*dict, split_ws(text@)[j], None, None, #[trigger] r@[j]),
        decreases words@.len() - i,
    {
        let res = resolve_word(dict, words[i].as_str(), None, None);
        r.push(res);
        i += 1;
    }
    r
}

/// The phoneme symbols of every word of a text, dictionary only: the result
/// of the full cascade with the method tags dropped.
pub fn text_to_arpabet(dict: &Dictionary, text: &str) -> (r: Vec<Vec<String>>)
    requires
        dict.wf(),
    ensures
        r@.len() == split_ws(text@).len(),
        forall|i: int|
            0 <= i < r@.len() ==> views_of(#[trigger] r@[i]@) == ({
                let nw = norm_of(split_ws(text@)[i]);
                if dict.contains_word(nw) {
                    first_pron(*dict, nw)
                } else {
                    Seq::empty()
                }
            }),
{
    let rs = text_to_arpabet_with_method(dict, text);
    let mut r: Vec<Vec<String>> = Vec::new();
    let mut i: usize = 0;
    while i < rs.len()
        invariant
            i <= rs@.len(),
            r@.len() == i,
            rs@.len() == split_ws(text@).len(),
            forall|j: int|
                0 <= j < rs@.len() ==> resolved_ok(
                    *dict,
                    split_ws(text@)[j],
                    None,
                    None,
                    #[trigger] rs@[j],
                ),
            forall|j: int|
                0 <= j < i ==> views_of(#[trigger] r@[j]@) == ({
                    let nw = norm_of(split_ws(text@)[j]);
                    if dict.contains_word(nw) {
                        first_pron(*dict, nw)
                    } else {
                        Seq::empty()
                    }
                }),
        decreases rs@.len() - i,
    {
        let symbols = clone_strings(&rs[i].symbols);
        r.push(symbols);
        proof {
            if !dict.contains_word(norm_of(split_ws(text@)[i as int])) {
                assert(views_of(r@[i as int]@) =~= Seq::<Seq<char>>::empty());
            }
        }
        i += 1;
    }
    r
}

/// Resolution is a function of the dictionary, word, model and reply alone:
/// two resolutions of the same word against the same dictionary and the same
/// model answer agree in every observable field.
pub proof fn lemma_resolution_idempotent(
    d: Dictionary,
    w: Seq<char>,
    model: Option<Seq<char>>,
    reply: Option<Seq<char>>,
    r1: Resolution,
    r2: Resolution,
)
    requires
        resolved_ok(d, w, model, reply, r1),
        resolved_ok(d, w, model, reply, r2),
    ensures
        r1.method == r2.method,
        views_of(r1.symbols@) == views_of(r2.symbols@),
        views_of(r1.dropped@) == views_of(r2.dropped@),
        r1.note is Some <==> r2.note is Some,
        r1.note matches Some(n1) ==> (r2.note matches Some(n2) && n1@ == n2@),
{
    assert(views_of(r1.symbols@) =~= views_of(r2.symbols@));
    assert(views_of(r1.dropped@) =~= views_of(r2.dropped@));
}

/// A word present in the dictionary always resolves from the dictionary,
/// whatever fallback model is configured and whatever it would have
/// answered: the first stage of the cascade is never overridden.
pub proof fn lemma_dictionary_priority(
    d: Dictionary,
    w: Seq<char>,
    model: Option<Seq<char>>,
    reply: Option<Seq<char>>,
    r: Resolution,
)
    requires
        d.contains_word(norm_of(w)),
        resolved_ok(d, w, model, reply, r),
    ensures
        r.method == ResolutionMethod::Dictionary,
        views_of(r.symbols@) == first_pron(d, norm_of(w)),
{
}

/// Every symbol of a LanguageModel-tagged resolution belongs to the closed
/// ARPAbet set: invalid reply tokens never reach the output.
pub proof fn lemma_model_symbols_valid(
    d: Dictionary,
    w: Seq<char>,
    model: Option<Seq<char>>,
    reply: Option<Seq<char>>,
    r: Resolution,
)
    requires
        resolved_ok(d, w, model, reply, r),
        r.method == ResolutionMethod::LanguageModel,
    ensures
        forall|i: int|
            0 <= i < r.symbols@.len() ==> is_arpabet_symbol(#[trigger] r.symbols@[i]@),
{
    let rep = reply.unwrap();
    let pred = crate::arpabet::valid_sym_pred();
    assert forall|i: int| 0 <= i < r.symbols@.len() implies is_arpabet_symbol(
        #[trigger] r.symbols@[i]@,
    ) by {
        assert(views_of(r.symbols@)[i] == r.symbols@[i]@);
        split_ws(rep).lemma_filter_pred(pred, i);
    }
}

} // verus!
