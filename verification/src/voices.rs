//! The voice catalog: the fixed set of downloadable voices, their derived
//! display names and model file addresses, grouping by language, and lookup
//! by identifier.

use vstd::prelude::*;
use crate::strutil::{push_char, str_eq};
use vstd::string::StrSliceExecFns;
use vstd::string::StringExecFns;

verus! {

/// The address every voice's model files live under.
pub open spec fn hf_base() -> Seq<char> {
    "https://huggingface.co/rhasspy/piper-voices/resolve/main"@
}

/// A voice identifier: `lang_COUNTRY-name-quality`.
pub open spec fn voice_id_of(l: Seq<char>, c: Seq<char>, n: Seq<char>, q: Seq<char>) -> Seq<char> {
    l + "_"@ + c + "-"@ + n + "-"@ + q
}

/// Underscores shown as spaces.
pub open spec fn underscores_to_spaces(s: Seq<char>) -> Seq<char> {
    s.map_values(
        |ch: char|
            if ch == '_' {
                ' '
            } else {
                ch
            },
    )
}

/// The display name: the identifier with underscores as spaces, and the
/// quality in parentheses.
pub open spec fn display_of(id: Seq<char>, q: Seq<char>) -> Seq<char> {
    underscores_to_spaces(id) + " ("@ + q + ")"@
}

/// Where a voice's model file lives.
pub open spec fn model_path_of(l: Seq<char>, c: Seq<char>, n: Seq<char>, q: Seq<char>) -> Seq<
    char,
> {
    hf_base() + "/"@ + l + "/"@ + l + "_"@ + c + "/"@ + n + "/"@ + q + "/"@ + voice_id_of(
        l,
        c,
        n,
        q,
    ) + ".onnx"@
}

/// The qualities a catalog voice may carry.
pub open spec fn quality_ok(q: Seq<char>) -> bool {
    ||| q == "low"@
    ||| q == "medium"@
    ||| q == "high"@
    ||| q == "x_low"@
}

/// An available voice and where its files live.
#[derive(Debug)]
pub struct Voice {
    pub id: String,
    pub display_name: String,
    pub language: String,
    pub quality: String,
    pub model_path: String,
    pub config_path: String,
}

/// How a catalog voice's fields hang together, given its source components.
pub open spec fn voice_fields_match(
    v: Voice,
    l: Seq<char>,
    c: Seq<char>,
    n: Seq<char>,
    q: Seq<char>,
    lang: Seq<char>,
) -> bool {
    &&& v.id@ == voice_id_of(l, c, n, q)
    &&& v.language@ == lang
    &&& v.quality@ == q
    &&& v.display_name@ == display_of(v.id@, q)
    &&& v.model_path@ == model_path_of(l, c, n, q)
    &&& v.config_path@ == v.model_path@ + ".json"@
}

/// A well-formed catalog voice: derived from some component strings.
pub open spec fn voice_wf(v: Voice) -> bool {
    exists|l: Seq<char>, c: Seq<char>, n: Seq<char>, q: Seq<char>|
        voice_fields_match(v, l, c, n, q, v.language@) && quality_ok(q)
}

/// An exact copy of a voice.
pub fn clone_voice(v: &Voice) -> (r: Voice)
    ensures
        r == *v,
{
    Voice {
        id: v.id.clone(),
        display_name: v.display_name.clone(),
        language: v.language.clone(),
        quality: v.quality.clone(),
        model_path: v.model_path.clone(),
        config_path: v.config_path.clone(),
    }
}

/// A string with every underscore replaced by a space.
fn spaces_exec(s: &str) -> (r: String)
    ensures
        r@ == underscores_to_spaces(s@),
{
    let n = s.unicode_len();
    let mut r = String::new();
    let mut i: usize = 0;
    while i < n
        invariant
            i <= n,
            n == s@.len(),
            r@ == underscores_to_spaces(s@.subrange(0, i as int)),
        decreases n - i,
    {
        let ch = s.get_char(i);
        let out: char = if ch == '_' {
            ' '
        } else {
            ch
        };
        push_char(&mut r, out);
        proof {
            assert(r@ =~= underscores_to_spaces(s@.subrange(0, i + 1)));
        }
        i += 1;
    }
    proof {
        assert(s@.subrange(0, n as int) =~= s@);
    }
    r
}

/// Build one catalog voice from its components.
fn make_voice(l: &str, c: &str, n: &str, q: &str, language: &str) -> (v: Voice)
    ensures
        voice_fields_match(v, l@, c@, n@, q@, language@),
        v.language@ == language@,
        v.quality@ == q@,
        v.id@ == voice_id_of(l@, c@, n@, q@),
{
    let mut id = String::new();
    id.append(l);
    id.append("_");
    id.append(c);
    id.append("-");
    id.append(n);
    id.append("-");
    id.append(q);

    let mut display_name = spaces_exec(id.as_str());
    display_name.append(" (");
    display_name.append(q);
    display_name.append(")");

    let mut model_path = String::new();
    model_path.append("https://huggingface.co/rhasspy/piper-voices/resolve/main");
    model_path.append("/");
    model_path.append(l);
    model_path.append("/");
    model_path.append(l);
    model_path.append("_");
    model_path.append(c);
    model_path.append("/");
    model_path.append(n);
    model_path.append("/");
    model_path.append(q);
    model_path.append("/");
    model_path.append(id.as_str());
    model_path.append(".onnx");

    let mut config_path = model_path.clone();
    config_path.append(".json");

    let mut language_s = String::new();
    language_s.append(language);
    let mut quality_s = String::new();
    quality_s.append(q);

    Voice { id, display_name, language: language_s, quality: quality_s, model_path, config_path }
}

/// Push one catalog voice.
fn push_voice(voices: &mut Vec<Voice>, l: &str, c: &str, n: &str, q: &str, language: &str)
    requires
        quality_ok(q@),
    ensures
        final(voices)@.len() == old(voices)@.len() + 1,
        forall|j: int| 0 <= j < old(voices)@.len() ==> final(voices)@[j] == old(voices)@[j],
        voice_wf(final(voices)@[old(voices)@.len() as int]),
        quality_ok(final(voices)@[old(voices)@.len() as int].quality@),
        voice_fields_match(final(voices)@[old(voices)@.len() as int], l@, c@, n@, q@, language@),
{
    let v = make_voice(l, c, n, q, language);
    proof {
        assert(voice_fields_match(v, l@, c@, n@, q@, v.language@) && quality_ok(q@));
    }
    voices.push(v);
}

/// What the catalog guarantees: its sixty-four entries, each pinned to its
/// source components, every one well formed with a known quality grade.
pub open spec fn catalog_ok(src: Seq<Voice>) -> bool {
    &&& src.len() == 64
    &&& forall|i: int| 0 <= i < src.len() ==> voice_wf(#[trigger] src[i])
    &&& forall|i: int| 0 <= i < src.len() ==> quality_ok((#[trigger] src[i]).quality@)
    &&& src[0].id@ == voice_id_of("en"@, "GB"@, "alba"@, "medium"@) && src[0].language@ == "Scottish English"@
    &&& src[1].id@ == voice_id_of("en"@, "GB"@, "alan"@, "low"@) && src[1].language@ == "British English"@
    &&& src[2].id@ == voice_id_of("en"@, "GB"@, "alan"@, "medium"@) && src[2].language@ == "British English"@
    &&& src[3].id@ == voice_id_of("en"@, "GB"@, "aru"@, "medium"@) && src[3].language@ == "British English"@
    &&& src[4].id@ == voice_id_of("en"@, "GB"@, "cori"@, "high"@) && src[4].language@ == "British English"@
    &&& src[5].id@ == voice_id_of("en"@, "GB"@, "cori"@, "medium"@) && src[5].language@ == "British English"@
    &&& src[6].id@ == voice_id_of("en"@, "GB"@, "jenny_dioco"@, "medium"@) && src[6].language@ == "British English"@
    &&& src[7].id@ == voice_id_of("en"@, "GB"@, "northern_english_male"@, "medium"@) && src[7].language@ == "Northern English"@
    &&& src[8].id@ == voice_id_of("en"@, "GB"@, "semaine"@, "medium"@) && src[8].language@ == "British English"@
    &&& src[9].id@ == voice_id_of("en"@, "GB"@, "southern_english_female"@, "low"@) && src[9].language@ == "Southern English"@
    &&& src[10].id@ == voice_id_of("en"@, "GB"@, "vctk"@, "medium"@) && src[10].language@ == "British English"@
    &&& src[11].id@ == voice_id_of("en"@, "US"@, "amy"@, "low"@) && src[11].language@ == "US English"@
    &&& src[12].id@ == voice_id_of("en"@, "US"@, "amy"@, "medium"@) && src[12].language@ == "US English"@
    &&& src[13].id@ == voice_id_of("en"@, "US"@, "arctic"@, "medium"@) && src[13].language@ == "US English"@
    &&& src[14].id@ == voice_id_of("en"@, "US"@, "danny"@, "low"@) && src[14].language@ == "US English"@
    &&& src[15].id@ == voice_id_of("en"@, "US"@, "hfc_female"@, "medium"@) && src[15].language@ == "US English"@
    &&& src[16].id@ == voice_id_of("en"@, "US"@, "hfc_male"@, "medium"@) && src[16].language@ == "US English"@
    &&& src[17].id@ == voice_id_of("en"@, "US"@, "joe"@, "medium"@) && src[17].language@ == "US English"@
    &&& src[18].id@ == voice_id_of("en"@, "US"@, "kathleen"@, "low"@) && src[18].language@ == "US English"@
    &&& src[19].id@ == voice_id_of("en"@, "US"@, "kristin"@, "medium"@) && src[19].language@ == "US English"@
    &&& src[20].id@ == voice_id_of("en"@, "US"@, "kusal"@, "medium"@) && src[20].language@ == "US English"@
    &&& src[21].id@ == voice_id_of("en"@, "US"@, "l2arctic"@, "medium"@) && src[21].language@ == "US English"@
    &&& src[22].id@ == voice_id_of("en"@, "US"@, "lessac"@, "high"@) && src[22].language@ == "US English"@
    &&& src[23].id@ == voice_id_of("en"@, "US"@, "lessac"@, "low"@) && src[23].language@ == "US English"@
    &&& src[24].id@ == voice_id_of("en"@, "US"@, "lessac"@, "medium"@) && src[24].language@ == "US English"@
    &&& src[25].id@ == voice_id_of("en"@, "US"@, "libritts"@, "high"@) && src[25].language@ == "US English"@
    &&& src[26].id@ == voice_id_of("en"@, "US"@, "libritts_r"@, "medium"@) && src[26].language@ == "US English"@
    &&& src[27].id@ == voice_id_of("en"@, "US"@, "ljspeech"@, "high"@) && src[27].language@ == "US English"@
    &&& src[28].id@ == voice_id_of("en"@, "US"@, "ljspeech"@, "medium"@) && src[28].language@ == "US English"@
    &&& src[29].id@ == voice_id_of("en"@, "US"@, "ryan"@, "high"@) && src[29].language@ == "US English"@
    &&& src[30].id@ == voice_id_of("en"@, "US"@, "ryan"@, "low"@) && src[30].language@ == "US English"@
    &&& src[31].id@ == voice_id_of("en"@, "US"@, "ryan"@, "medium"@) && src[31].language@ == "US English"@
    &&& src[32].id@ == voice_id_of("en"@, "US"@, "bryce"@, "medium"@) && src[32].language@ == "US English"@
    &&& src[33].id@ == voice_id_of("en"@, "US"@, "john"@, "medium"@) && src[33].language@ == "US English"@
    &&& src[34].id@ == voice_id_of("en"@, "US"@, "norman"@, "medium"@) && src[34].language@ == "US English"@
    &&& src[35].id@ == voice_id_of("de"@, "DE"@, "eva_k"@, "x_low"@) && src[35].language@ == "German"@
    &&& src[36].id@ == voice_id_of("de"@, "DE"@, "karlsson"@, "low"@) && src[36].language@ == "German"@
    &&& src[37].id@ == voice_id_of("de"@, "DE"@, "kerstin"@, "low"@) && src[37].language@ == "German"@
    &&& src[38].id@ == voice_id_of("de"@, "DE"@, "mls"@, "medium"@) && src[38].language@ == "German"@
    &&& src[39].id@ == voice_id_of("de"@, "DE"@, "pavoque"@, "low"@) && src[39].language@ == "German"@
    &&& src[40].id@ == voice_id_of("de"@, "DE"@, "ramona"@, "low"@) && src[40].language@ == "German"@
    &&& src[41].id@ == voice_id_of("de"@, "DE"@, "thorsten"@, "high"@) && src[41].language@ == "German"@
    &&& src[42].id@ == voice_id_of("de"@, "DE"@, "thorsten"@, "low"@) && src[42].language@ == "German"@
    &&& src[43].id@ == voice_id_of("de"@, "DE"@, "thorsten"@, "medium"@) && src[43].language@ == "German"@
    &&& src[44].id@ == voice_id_of("de"@, "DE"@, "thorsten_emotional"@, "medium"@) && src[44].language@ == "German"@
    &&& src[45].id@ == voice_id_of("fr"@, "FR"@, "gilles"@, "low"@) && src[45].language@ == "French"@
    &&& src[46].id@ == voice_id_of("fr"@, "FR"@, "mls"@, "medium"@) && src[46].language@ == "French"@
    &&& src[47].id@ == voice_id_of("fr"@, "FR"@, "mls_1840"@, "low"@) && src[47].language@ == "French"@
    &&& src[48].id@ == voice_id_of("fr"@, "FR"@, "siwis"@, "low"@) && src[48].language@ == "French"@
    &&& src[49].id@ == voice_id_of("fr"@, "FR"@, "siwis"@, "medium"@) && src[49].language@ == "French"@
    &&& src[50].id@ == voice_id_of("fr"@, "FR"@, "tom"@, "medium"@) && src[50].language@ == "French"@
    &&& src[51].id@ == voice_id_of("fr"@, "FR"@, "upmc"@, "medium"@) && src[51].language@ == "French"@
    &&& src[52].id@ == voice_id_of("es"@, "ES"@, "carlfm"@, "x_low"@) && src[52].language@ == "Spanish"@
    &&& src[53].id@ == voice_id_of("es"@, "ES"@, "davefx"@, "medium"@) && src[53].language@ == "Spanish"@
    &&& src[54].id@ == voice_id_of("es"@, "ES"@, "mls_10246"@, "low"@) && src[54].language@ == "Spanish"@
    &&& src[55].id@ == voice_id_of("es"@, "ES"@, "mls_9972"@, "low"@) && src[55].language@ == "Spanish"@
    &&& src[56].id@ == voice_id_of("es"@, "ES"@, "sharvard"@, "medium"@) && src[56].language@ == "Spanish"@
    &&& src[57].id@ == voice_id_of("es"@, "MX"@, "ald"@, "medium"@) && src[57].language@ == "Mexican Spanish"@
    &&& src[58].id@ == voice_id_of("it"@, "IT"@, "riccardo"@, "x_low"@) && src[58].language@ == "Italian"@
    &&& src[59].id@ == voice_id_of("it"@, "IT"@, "paola"@, "medium"@) && src[59].language@ == "Italian"@
    &&& src[60].id@ == voice_id_of("ru"@, "RU"@, "denis"@, "medium"@) && src[60].language@ == "Russian"@
    &&& src[61].id@ == voice_id_of("ru"@, "RU"@, "dmitri"@, "medium"@) && src[61].language@ == "Russian"@
    &&& src[62].id@ == voice_id_of("ru"@, "RU"@, "irina"@, "medium"@) && src[62].language@ == "Russian"@
    &&& src[63].id@ == voice_id_of("ru"@, "RU"@, "ruslan"@, "medium"@) && src[63].language@ == "Russian"@
}

/// The guarantees of one catalog segment: `k` well-formed entries appended,
/// everything before them untouched.
pub open spec fn segment_ok(pre: Seq<Voice>, post: Seq<Voice>, k: nat) -> bool {
    &&& post.len() == pre.len() + k
    &&& forall|j: int| 0 <= j < pre.len() ==> post[j] == pre[j]
    &&& forall|j: int|
        pre.len() <= j < post.len() ==> voice_wf(#[trigger] post[j]) && quality_ok(
            post[j].quality@,
        )
}

/// The British English voices.
#[verifier::rlimit(50)]
fn push_gb_voices(v: &mut Vec<Voice>)
    ensures
        segment_ok(old(v)@, final(v)@, 11),
        final(v)@[old(v)@.len() as int].id@ == voice_id_of("en"@, "GB"@, "alba"@, "medium"@),
        final(v)@[old(v)@.len() as int].language@ == "Scottish English"@,
        final(v)@[old(v)@.len() as int + 1].id@ == voice_id_of("en"@, "GB"@, "alan"@, "low"@),
        final(v)@[old(v)@.len() as int + 1].language@ == "British English"@,
        final(v)@[old(v)@.len() as int + 2].id@ == voice_id_of("en"@, "GB"@, "alan"@, "medium"@),
        final(v)@[old(v)@.len() as int + 2].language@ == "British English"@,
        final(v)@[old(v)@.len() as int + 3].id@ == voice_id_of("en"@, "GB"@, "aru"@, "medium"@),
        final(v)@[old(v)@.len() as int + 3].language@ == "British English"@,
        final(v)@[old(v)@.len() as int + 4].id@ == voice_id_of("en"@, "GB"@, "cori"@, "high"@),
        final(v)@[old(v)@.len() as int + 4].language@ == "British English"@,
        final(v)@[old(v)@.len() as int + 5].id@ == voice_id_of("en"@, "GB"@, "cori"@, "medium"@),
        final(v)@[old(v)@.len() as int + 5].language@ == "British English"@,
        final(v)@[old(v)@.len() as int + 6].id@ == voice_id_of("en"@, "GB"@, "jenny_dioco"@, "medium"@),
        final(v)@[old(v)@.len() as int + 6].language@ == "British English"@,
        final(v)@[old(v)@.len() as int + 7].id@ == voice_id_of("en"@, "GB"@, "northern_english_male"@, "medium"@),
        final(v)@[old(v)@.len() as int + 7].language@ == "Northern English"@,
        final(v)@[old(v)@.len() as int + 8].id@ == voice_id_of("en"@, "GB"@, "semaine"@, "medium"@),
        final(v)@[old(v)@.len() as int + 8].language@ == "British English"@,
        final(v)@[old(v)@.len() as int + 9].id@ == voice_id_of("en"@, "GB"@, "southern_english_female"@, "low"@),
        final(v)@[old(v)@.len() as int + 9].language@ == "Southern English"@,
        final(v)@[old(v)@.len() as int + 10].id@ == voice_id_of("en"@, "GB"@, "vctk"@, "medium"@),
        final(v)@[old(v)@.len() as int + 10].language@ == "British English"@,
{
    push_voice(v, "en", "GB", "alba", "medium", "Scottish English");
    push_voice(v, "en", "GB", "alan", "low", "British English");
    push_voice(v, "en", "GB", "alan", "medium", "British English");
    push_voice(v, "en", "GB", "aru", "medium", "British English");
    push_voice(v, "en", "GB", "cori", "high", "British English");
    push_voice(v, "en", "GB", "cori", "medium", "British English");
    push_voice(v, "en", "GB", "jenny_dioco", "medium", "British English");
    push_voice(v, "en", "GB", "northern_english_male", "medium", "Northern English");
    push_voice(v, "en", "GB", "semaine", "medium", "British English");
    push_voice(v, "en", "GB", "southern_english_female", "low", "Southern English");
    push_voice(v, "en", "GB", "vctk", "medium", "British English");
}

/// The first half of the US English voices.
#[verifier::rlimit(50)]
fn push_us_voices_a(v: &mut Vec<Voice>)
    ensures
        segment_ok(old(v)@, final(v)@, 12),
        final(v)@[old(v)@.len() as int].id@ == voice_id_of("en"@, "US"@, "amy"@, "low"@),
        final(v)@[old(v)@.len() as int].language@ == "US English"@,
        final(v)@[old(v)@.len() as int + 1].id@ == voice_id_of("en"@, "US"@, "amy"@, "medium"@),
        final(v)@[old(v)@.len() as int + 1].language@ == "US English"@,
        final(v)@[old(v)@.len() as int + 2].id@ == voice_id_of("en"@, "US"@, "arctic"@, "medium"@),
        final(v)@[old(v)@.len() as int + 2].language@ == "US English"@,
        final(v)@[old(v)@.len() as int + 3].id@ == voice_id_of("en"@, "US"@, "danny"@, "low"@),
        final(v)@[old(v)@.len() as int + 3].language@ == "US English"@,
        final(v)@[old(v)@.len() as int + 4].id@ == voice_id_of("en"@, "US"@, "hfc_female"@, "medium"@),
        final(v)@[old(v)@.len() as int + 4].language@ == "US English"@,
        final(v)@[old(v)@.len() as int + 5].id@ == voice_id_of("en"@, "US"@, "hfc_male"@, "medium"@),
        final(v)@[old(v)@.len() as int + 5].language@ == "US English"@,
        final(v)@[old(v)@.len() as int + 6].id@ == voice_id_of("en"@, "US"@, "joe"@, "medium"@),
        final(v)@[old(v)@.len() as int + 6].language@ == "US English"@,
        final(v)@[old(v)@.len() as int + 7].id@ == voice_id_of("en"@, "US"@, "kathleen"@, "low"@),
        final(v)@[old(v)@.len() as int + 7].language@ == "US English"@,
        final(v)@[old(v)@.len() as int + 8].id@ == voice_id_of("en"@, "US"@, "kristin"@, "medium"@),
        final(v)@[old(v)@.len() as int + 8].language@ == "US English"@,
        final(v)@[old(v)@.len() as int + 9].id@ == voice_id_of("en"@, "US"@, "kusal"@, "medium"@),
        final(v)@[old(v)@.len() as int + 9].language@ == "US English"@,
        final(v)@[old(v)@.len() as int + 10].id@ == voice_id_of("en"@, "US"@, "l2arctic"@, "medium"@),
        final(v)@[old(v)@.len() as int + 10].language@ == "US English"@,
        final(v)@[old(v)@.len() as int + 11].id@ == voice_id_of("en"@, "US"@, "lessac"@, "high"@),
        final(v)@[old(v)@.len() as int + 11].language@ == "US English"@,
{
    push_voice(v, "en", "US", "amy", "low", "US English");
    push_voice(v, "en", "US", "amy", "medium", "US English");
    push_voice(v, "en", "US", "arctic", "medium", "US English");
    push_voice(v, "en", "US", "danny", "low", "US English");
    push_voice(v, "en", "US", "hfc_female", "medium", "US English");
    push_voice(v, "en", "US", "hfc_male", "medium", "US English");
    push_voice(v, "en", "US", "joe", "medium", "US English");
    push_voice(v, "en", "US", "kathleen", "low", "US English");
    push_voice(v, "en", "US", "kristin", "medium", "US English");
    push_voice(v, "en", "US", "kusal", "medium", "US English");
    push_voice(v, "en", "US", "l2arctic", "medium", "US English");
    push_voice(v, "en", "US", "lessac", "high", "US English");
}

/// The second half of the US English voices.
#[verifier::rlimit(50)]
fn push_us_voices_b(v: &mut Vec<Voice>)
    ensures
        segment_ok(old(v)@, final(v)@, 12),
        final(v)@[old(v)@.len() as int].id@ == voice_id_of("en"@, "US"@, "lessac"@, "low"@),
        final(v)@[old(v)@.len() as int].language@ == "US English"@,
        final(v)@[old(v)@.len() as int + 1].id@ == voice_id_of("en"@, "US"@, "lessac"@, "medium"@),
        final(v)@[old(v)@.len() as int + 1].language@ == "US English"@,
        final(v)@[old(v)@.len() as int + 2].id@ == voice_id_of("en"@, "US"@, "libritts"@, "high"@),
        final(v)@[old(v)@.len() as int + 2].language@ == "US English"@,
        final(v)@[old(v)@.len() as int + 3].id@ == voice_id_of("en"@, "US"@, "libritts_r"@, "medium"@),
        final(v)@[old(v)@.len() as int + 3].language@ == "US English"@,
        final(v)@[old(v)@.len() as int + 4].id@ == voice_id_of("en"@, "US"@, "ljspeech"@, "high"@),
        final(v)@[old(v)@.len() as int + 4].language@ == "US English"@,
        final(v)@[old(v)@.len() as int + 5].id@ == voice_id_of("en"@, "US"@, "ljspeech"@, "medium"@),
        final(v)@[old(v)@.len() as int + 5].language@ == "US English"@,
        final(v)@[old(v)@.len() as int + 6].id@ == voice_id_of("en"@, "US"@, "ryan"@, "high"@),
        final(v)@[old(v)@.len() as int + 6].language@ == "US English"@,
        final(v)@[old(v)@.len() as int + 7].id@ == voice_id_of("en"@, "US"@, "ryan"@, "low"@),
        final(v)@[old(v)@.len() as int + 7].language@ == "US English"@,
        final(v)@[old(v)@.len() as int + 8].id@ == voice_id_of("en"@, "US"@, "ryan"@, "medium"@),
        final(v)@[old(v)@.len() as int + 8].language@ == "US English"@,
        final(v)@[old(v)@.len() as int + 9].id@ == voice_id_of("en"@, "US"@, "bryce"@, "medium"@),
        final(v)@[old(v)@.len() as int + 9].language@ == "US English"@,
        final(v)@[old(v)@.len() as int + 10].id@ == voice_id_of("en"@, "US"@, "john"@, "medium"@),
        final(v)@[old(v)@.len() as int + 10].language@ == "US English"@,
        final(v)@[old(v)@.len() as int + 11].id@ == voice_id_of("en"@, "US"@, "norman"@, "medium"@),
        final(v)@[old(v)@.len() as int + 11].language@ == "US English"@,
{
    push_voice(v, "en", "US", "lessac", "low", "US English");
    push_voice(v, "en", "US", "lessac", "medium", "US English");
    push_voice(v, "en", "US", "libritts", "high", "US English");
    push_voice(v, "en", "US", "libritts_r", "medium", "US English");
    push_voice(v, "en", "US", "ljspeech", "high", "US English");
    push_voice(v, "en", "US", "ljspeech", "medium", "US English");
    push_voice(v, "en", "US", "ryan", "high", "US English");
    push_voice(v, "en", "US", "ryan", "low", "US English");
    push_voice(v, "en", "US", "ryan", "medium", "US English");
    push_voice(v, "en", "US", "bryce", "medium", "US English");
    push_voice(v, "en", "US", "john", "medium", "US English");
    push_voice(v, "en", "US", "norman", "medium", "US English");
}

/// The German voices.
#[verifier::rlimit(50)]
fn push_de_voices(v: &mut Vec<Voice>)
    ensures
        segment_ok(old(v)@, final(v)@, 10),
        final(v)@[old(v)@.len() as int].id@ == voice_id_of("de"@, "DE"@, "eva_k"@, "x_low"@),
        final(v)@[old(v)@.len() as int].language@ == "German"@,
        final(v)@[old(v)@.len() as int + 1].id@ == voice_id_of("de"@, "DE"@, "karlsson"@, "low"@),
        final(v)@[old(v)@.len() as int + 1].language@ == "German"@,
        final(v)@[old(v)@.len() as int + 2].id@ == voice_id_of("de"@, "DE"@, "kerstin"@, "low"@),
        final(v)@[old(v)@.len() as int + 2].language@ == "German"@,
        final(v)@[old(v)@.len() as int + 3].id@ == voice_id_of("de"@, "DE"@, "mls"@, "medium"@),
        final(v)@[old(v)@.len() as int + 3].language@ == "German"@,
        final(v)@[old(v)@.len() as int + 4].id@ == voice_id_of("de"@, "DE"@, "pavoque"@, "low"@),
        final(v)@[old(v)@.len() as int + 4].language@ == "German"@,
        final(v)@[old(v)@.len() as int + 5].id@ == voice_id_of("de"@, "DE"@, "ramona"@, "low"@),
        final(v)@[old(v)@.len() as int + 5].language@ == "German"@,
        final(v)@[old(v)@.len() as int + 6].id@ == voice_id_of("de"@, "DE"@, "thorsten"@, "high"@),
        final(v)@[old(v)@.len() as int + 6].language@ == "German"@,
        final(v)@[old(v)@.len() as int + 7].id@ == voice_id_of("de"@, "DE"@, "thorsten"@, "low"@),
        final(v)@[old(v)@.len() as int + 7].language@ == "German"@,
        final(v)@[old(v)@.len() as int + 8].id@ == voice_id_of("de"@, "DE"@, "thorsten"@, "medium"@),
        final(v)@[old(v)@.len() as int + 8].language@ == "German"@,
        final(v)@[old(v)@.len() as int + 9].id@ == voice_id_of("de"@, "DE"@, "thorsten_emotional"@, "medium"@),
        final(v)@[old(v)@.len() as int + 9].language@ == "German"@,
{
    push_voice(v, "de", "DE", "eva_k", "x_low", "German");
    push_voice(v, "de", "DE", "karlsson", "low", "German");
    push_voice(v, "de", "DE", "kerstin", "low", "German");
    push_voice(v, "de", "DE", "mls", "medium", "German");
    push_voice(v, "de", "DE", "pavoque", "low", "German");
    push_voice(v, "de", "DE", "ramona", "low", "German");
    push_voice(v, "de", "DE", "thorsten", "high", "German");
    push_voice(v, "de", "DE", "thorsten", "low", "German");
    push_voice(v, "de", "DE", "thorsten", "medium", "German");
    push_voice(v, "de", "DE", "thorsten_emotional", "medium", "German");
}

/// The French voices.
#[verifier::rlimit(50)]
fn push_fr_voices(v: &mut Vec<Voice>)
    ensures
        segment_ok(old(v)@, final(v)@, 7),
        final(v)@[old(v)@.len() as int].id@ == voice_id_of("fr"@, "FR"@, "gilles"@, "low"@),
        final(v)@[old(v)@.len() as int].language@ == "French"@,
        final(v)@[old(v)@.len() as int + 1].id@ == voice_id_of("fr"@, "FR"@, "mls"@, "medium"@),
        final(v)@[old(v)@.len() as int + 1].language@ == "French"@,
        final(v)@[old(v)@.len() as int + 2].id@ == voice_id_of("fr"@, "FR"@, "mls_1840"@, "low"@),
        final(v)@[old(v)@.len() as int + 2].language@ == "French"@,
        final(v)@[old(v)@.len() as int + 3].id@ == voice_id_of("fr"@, "FR"@, "siwis"@, "low"@),
        final(v)@[old(v)@.len() as int + 3].language@ == "French"@,
        final(v)@[old(v)@.len() as int + 4].id@ == voice_id_of("fr"@, "FR"@, "siwis"@, "medium"@),
        final(v)@[old(v)@.len() as int + 4].language@ == "French"@,
        final(v)@[old(v)@.len() as int + 5].id@ == voice_id_of("fr"@, "FR"@, "tom"@, "medium"@),
        final(v)@[old(v)@.len() as int + 5].language@ == "French"@,
        final(v)@[old(v)@.len() as int + 6].id@ == voice_id_of("fr"@, "FR"@, "upmc"@, "medium"@),
        final(v)@[old(v)@.len() as int + 6].language@ == "French"@,
{
    push_voice(v, "fr", "FR", "gilles", "low", "French");
    push_voice(v, "fr", "FR", "mls", "medium", "French");
    push_voice(v, "fr", "FR", "mls_1840", "low", "French");
    push_voice(v, "fr", "FR", "siwis", "low", "French");
    push_voice(v, "fr", "FR", "siwis", "medium", "French");
    push_voice(v, "fr", "FR", "tom", "medium", "French");
    push_voice(v, "fr", "FR", "upmc", "medium", "French");
}

/// The Spanish voices.
#[verifier::rlimit(50)]
fn push_es_voices(v: &mut Vec<Voice>)
    ensures
        segment_ok(old(v)@, final(v)@, 6),
        final(v)@[old(v)@.len() as int].id@ == voice_id_of("es"@, "ES"@, "carlfm"@, "x_low"@),
        final(v)@[old(v)@.len() as int].language@ == "Spanish"@,
        final(v)@[old(v)@.len() as int + 1].id@ == voice_id_of("es"@, "ES"@, "davefx"@, "medium"@),
        final(v)@[old(v)@.len() as int + 1].language@ == "Spanish"@,
        final(v)@[old(v)@.len() as int + 2].id@ == voice_id_of("es"@, "ES"@, "mls_10246"@, "low"@),
        final(v)@[old(v)@.len() as int + 2].language@ == "Spanish"@,
        final(v)@[old(v)@.len() as int + 3].id@ == voice_id_of("es"@, "ES"@, "mls_9972"@, "low"@),
        final(v)@[old(v)@.len() as int + 3].language@ == "Spanish"@,
        final(v)@[old(v)@.len() as int + 4].id@ == voice_id_of("es"@, "ES"@, "sharvard"@, "medium"@),
        final(v)@[old(v)@.len() as int + 4].language@ == "Spanish"@,
        final(v)@[old(v)@.len() as int + 5].id@ == voice_id_of("es"@, "MX"@, "ald"@, "medium"@),
        final(v)@[old(v)@.len() as int + 5].language@ == "Mexican Spanish"@,
{
    push_voice(v, "es", "ES", "carlfm", "x_low", "Spanish");
    push_voice(v, "es", "ES", "davefx", "medium", "Spanish");
    push_voice(v, "es", "ES", "mls_10246", "low", "Spanish");
    push_voice(v, "es", "ES", "mls_9972", "low", "Spanish");
    push_voice(v, "es", "ES", "sharvard", "medium", "Spanish");
    push_voice(v, "es", "MX", "ald", "medium", "Mexican Spanish");
}

/// The Italian and Russian voices.
#[verifier::rlimit(50)]
fn push_it_ru_voices(v: &mut Vec<Voice>)
    ensures
        segment_ok(old(v)@, final(v)@, 6),
        final(v)@[old(v)@.len() as int].id@ == voice_id_of("it"@, "IT"@, "riccardo"@, "x_low"@),
        final(v)@[old(v)@.len() as int].language@ == "Italian"@,
        final(v)@[old(v)@.len() as int + 1].id@ == voice_id_of("it"@, "IT"@, "paola"@, "medium"@),
        final(v)@[old(v)@.len() as int + 1].language@ == "Italian"@,
        final(v)@[old(v)@.len() as int + 2].id@ == voice_id_of("ru"@, "RU"@, "denis"@, "medium"@),
        final(v)@[old(v)@.len() as int + 2].language@ == "Russian"@,
        final(v)@[old(v)@.len() as int + 3].id@ == voice_id_of("ru"@, "RU"@, "dmitri"@, "medium"@),
        final(v)@[old(v)@.len() as int + 3].language@ == "Russian"@,
        final(v)@[old(v)@.len() as int + 4].id@ == voice_id_of("ru"@, "RU"@, "irina"@, "medium"@),
        final(v)@[old(v)@.len() as int + 4].language@ == "Russian"@,
        final(v)@[old(v)@.len() as int + 5].id@ == voice_id_of("ru"@, "RU"@, "ruslan"@, "medium"@),
        final(v)@[old(v)@.len() as int + 5].language@ == "Russian"@,
{
    push_voice(v, "it", "IT", "riccardo", "x_low", "Italian");
    push_voice(v, "it", "IT", "paola", "medium", "Italian");
    push_voice(v, "ru", "RU", "denis", "medium", "Russian");
    push_voice(v, "ru", "RU", "dmitri", "medium", "Russian");
    push_voice(v, "ru", "RU", "irina", "medium", "Russian");
    push_voice(v, "ru", "RU", "ruslan", "medium", "Russian");
}

/// The first half of the catalog: the English voices.
#[verifier::rlimit(100)]
fn catalog_front(v: &mut Vec<Voice>)
    requires
        old(v)@.len() == 0,
    ensures
        final(v)@.len() == 35,
        forall|j: int|
            0 <= j < final(v)@.len() ==> voice_wf(#[trigger] final(v)@[j]) && quality_ok(
                final(v)@[j].quality@,
            ),
        final(v)@[0].id@ == voice_id_of("en"@, "GB"@, "alba"@, "medium"@),
        final(v)@[0].language@ == "Scottish English"@,
        final(v)@[1].id@ == voice_id_of("en"@, "GB"@, "alan"@, "low"@),
        final(v)@[1].language@ == "British English"@,
        final(v)@[2].id@ == voice_id_of("en"@, "GB"@, "alan"@, "medium"@),
        final(v)@[2].language@ == "British English"@,
        final(v)@[3].id@ == voice_id_of("en"@, "GB"@, "aru"@, "medium"@),
        final(v)@[3].language@ == "British English"@,
        final(v)@[4].id@ == voice_id_of("en"@, "GB"@, "cori"@, "high"@),
        final(v)@[4].language@ == "British English"@,
        final(v)@[5].id@ == voice_id_of("en"@, "GB"@, "cori"@, "medium"@),
        final(v)@[5].language@ == "British English"@,
        final(v)@[6].id@ == voice_id_of("en"@, "GB"@, "jenny_dioco"@, "medium"@),
        final(v)@[6].language@ == "British English"@,
        final(v)@[7].id@ == voice_id_of("en"@, "GB"@, "northern_english_male"@, "medium"@),
        final(v)@[7].language@ == "Northern English"@,
        final(v)@[8].id@ == voice_id_of("en"@, "GB"@, "semaine"@, "medium"@),
        final(v)@[8].language@ == "British English"@,
        final(v)@[9].id@ == voice_id_of("en"@, "GB"@, "southern_english_female"@, "low"@),
        final(v)@[9].language@ == "Southern English"@,
        final(v)@[10].id@ == voice_id_of("en"@, "GB"@, "vctk"@, "medium"@),
        final(v)@[10].language@ == "British English"@,
        final(v)@[11].id@ == voice_id_of("en"@, "US"@, "amy"@, "low"@),
        final(v)@[11].language@ == "US English"@,
        final(v)@[12].id@ == voice_id_of("en"@, "US"@, "amy"@, "medium"@),
        final(v)@[12].language@ == "US English"@,
        final(v)@[13].id@ == voice_id_of("en"@, "US"@, "arctic"@, "medium"@),
        final(v)@[13].language@ == "US English"@,
        final(v)@[14].id@ == voice_id_of("en"@, "US"@, "danny"@, "low"@),
        final(v)@[14].language@ == "US English"@,
        final(v)@[15].id@ == voice_id_of("en"@, "US"@, "hfc_female"@, "medium"@),
        final(v)@[15].language@ == "US English"@,
        final(v)@[16].id@ == voice_id_of("en"@, "US"@, "hfc_male"@, "medium"@),
        final(v)@[16].language@ == "US English"@,
        final(v)@[17].id@ == voice_id_of("en"@, "US"@, "joe"@, "medium"@),
        final(v)@[17].language@ == "US English"@,
        final(v)@[18].id@ == voice_id_of("en"@, "US"@, "kathleen"@, "low"@),
        final(v)@[18].language@ == "US English"@,
        final(v)@[19].id@ == voice_id_of("en"@, "US"@, "kristin"@, "medium"@),
        final(v)@[19].language@ == "US English"@,
        final(v)@[20].id@ == voice_id_of("en"@, "US"@, "kusal"@, "medium"@),
        final(v)@[20].language@ == "US English"@,
        final(v)@[21].id@ == voice_id_of("en"@, "US"@, "l2arctic"@, "medium"@),
        final(v)@[21].language@ == "US English"@,
        final(v)@[22].id@ == voice_id_of("en"@, "US"@, "lessac"@, "high"@),
        final(v)@[22].language@ == "US English"@,
        final(v)@[23].id@ == voice_id_of("en"@, "US"@, "lessac"@, "low"@),
        final(v)@[23].language@ == "US English"@,
        final(v)@[24].id@ == voice_id_of("en"@, "US"@, "lessac"@, "medium"@),
        final(v)@[24].language@ == "US English"@,
        final(v)@[25].id@ == voice_id_of("en"@, "US"@, "libritts"@, "high"@),
        final(v)@[25].language@ == "US English"@,
        final(v)@[26].id@ == voice_id_of("en"@, "US"@, "libritts_r"@, "medium"@),
        final(v)@[26].language@ == "US English"@,
        final(v)@[27].id@ == voice_id_of("en"@, "US"@, "ljspeech"@, "high"@),
        final(v)@[27].language@ == "US English"@,
        final(v)@[28].id@ == voice_id_of("en"@, "US"@, "ljspeech"@, "medium"@),
        final(v)@[28].language@ == "US English"@,
        final(v)@[29].id@ == voice_id_of("en"@, "US"@, "ryan"@, "high"@),
        final(v)@[29].language@ == "US English"@,
        final(v)@[30].id@ == voice_id_of("en"@, "US"@, "ryan"@, "low"@),
        final(v)@[30].language@ == "US English"@,
        final(v)@[31].id@ == voice_id_of("en"@, "US"@, "ryan"@, "medium"@),
        final(v)@[31].language@ == "US English"@,
        final(v)@[32].id@ == voice_id_of("en"@, "US"@, "bryce"@, "medium"@),
        final(v)@[32].language@ == "US English"@,
        final(v)@[33].id@ == voice_id_of("en"@, "US"@, "john"@, "medium"@),
        final(v)@[33].language@ == "US English"@,
        final(v)@[34].id@ == voice_id_of("en"@, "US"@, "norman"@, "medium"@),
        final(v)@[34].language@ == "US English"@,
{
    push_gb_voices(v);
    push_us_voices_a(v);
    push_us_voices_b(v);
}

/// The second half of the catalog: the German, French, Spanish, Italian and
/// Russian voices.
#[verifier::rlimit(100)]
fn catalog_back(v: &mut Vec<Voice>)
    requires
        old(v)@.len() == 35,
    ensures
        final(v)@.len() == 64,
        forall|j: int| 0 <= j < 35 ==> final(v)@[j] == old(v)@[j],
        forall|j: int|
            35 <= j < final(v)@.len() ==> voice_wf(#[trigger] final(v)@[j]) && quality_ok(
                final(v)@[j].quality@,
            ),
        final(v)@[35].id@ == voice_id_of("de"@, "DE"@, "eva_k"@, "x_low"@),
        final(v)@[35].language@ == "German"@,
        final(v)@[36].id@ == voice_id_of("de"@, "DE"@, "karlsson"@, "low"@),
        final(v)@[36].language@ == "German"@,
        final(v)@[37].id@ == voice_id_of("de"@, "DE"@, "kerstin"@, "low"@),
        final(v)@[37].language@ == "German"@,
        final(v)@[38].id@ == voice_id_of("de"@, "DE"@, "mls"@, "medium"@),
        final(v)@[38].language@ == "German"@,
        final(v)@[39].id@ == voice_id_of("de"@, "DE"@, "pavoque"@, "low"@),
        final(v)@[39].language@ == "German"@,
        final(v)@[40].id@ == voice_id_of("de"@, "DE"@, "ramona"@, "low"@),
        final(v)@[40].language@ == "German"@,
        final(v)@[41].id@ == voice_id_of("de"@, "DE"@, "thorsten"@, "high"@),
        final(v)@[41].language@ == "German"@,
        final(v)@[42].id@ == voice_id_of("de"@, "DE"@, "thorsten"@, "low"@),
        final(v)@[42].language@ == "German"@,
        final(v)@[43].id@ == voice_id_of("de"@, "DE"@, "thorsten"@, "medium"@),
        final(v)@[43].language@ == "German"@,
        final(v)@[44].id@ == voice_id_of("de"@, "DE"@, "thorsten_emotional"@, "medium"@),
        final(v)@[44].language@ == "German"@,
        final(v)@[45].id@ == voice_id_of("fr"@, "FR"@, "gilles"@, "low"@),
        final(v)@[45].language@ == "French"@,
        final(v)@[46].id@ == voice_id_of("fr"@, "FR"@, "mls"@, "medium"@),
        final(v)@[46].language@ == "French"@,
        final(v)@[47].id@ == voice_id_of("fr"@, "FR"@, "mls_1840"@, "low"@),
        final(v)@[47].language@ == "French"@,
        final(v)@[48].id@ == voice_id_of("fr"@, "FR"@, "siwis"@, "low"@),
        final(v)@[48].language@ == "French"@,
        final(v)@[49].id@ == voice_id_of("fr"@, "FR"@, "siwis"@, "medium"@),
        final(v)@[49].language@ == "French"@,
        final(v)@[50].id@ == voice_id_of("fr"@, "FR"@, "tom"@, "medium"@),
        final(v)@[50].language@ == "French"@,
        final(v)@[51].id@ == voice_id_of("fr"@, "FR"@, "upmc"@, "medium"@),
        final(v)@[51].language@ == "French"@,
        final(v)@[52].id@ == voice_id_of("es"@, "ES"@, "carlfm"@, "x_low"@),
        final(v)@[52].language@ == "Spanish"@,
        final(v)@[53].id@ == voice_id_of("es"@, "ES"@, "davefx"@, "medium"@),
        final(v)@[53].language@ == "Spanish"@,
        final(v)@[54].id@ == voice_id_of("es"@, "ES"@, "mls_10246"@, "low"@),
        final(v)@[54].language@ == "Spanish"@,
        final(v)@[55].id@ == voice_id_of("es"@, "ES"@, "mls_9972"@, "low"@),
        final(v)@[55].language@ == "Spanish"@,
        final(v)@[56].id@ == voice_id_of("es"@, "ES"@, "sharvard"@, "medium"@),
        final(v)@[56].language@ == "Spanish"@,
        final(v)@[57].id@ == voice_id_of("es"@, "MX"@, "ald"@, "medium"@),
        final(v)@[57].language@ == "Mexican Spanish"@,
        final(v)@[58].id@ == voice_id_of("it"@, "IT"@, "riccardo"@, "x_low"@),
        final(v)@[58].language@ == "Italian"@,
        final(v)@[59].id@ == voice_id_of("it"@, "IT"@, "paola"@, "medium"@),
        final(v)@[59].language@ == "Italian"@,
        final(v)@[60].id@ == voice_id_of("ru"@, "RU"@, "denis"@, "medium"@),
        final(v)@[60].language@ == "Russian"@,
        final(v)@[61].id@ == voice_id_of("ru"@, "RU"@, "dmitri"@, "medium"@),
        final(v)@[61].language@ == "Russian"@,
        final(v)@[62].id@ == voice_id_of("ru"@, "RU"@, "irina"@, "medium"@),
        final(v)@[62].language@ == "Russian"@,
        final(v)@[63].id@ == voice_id_of("ru"@, "RU"@, "ruslan"@, "medium"@),
        final(v)@[63].language@ == "Russian"@,
{
    push_de_voices(v);
    push_fr_voices(v);
    push_es_voices(v);
    push_it_ru_voices(v);
}

/// The full catalog, in its fixed order.
#[verifier::rlimit(100)]
pub fn get_available_voices() -> (r: Vec<Voice>)
    ensures
        catalog_ok(r@),
{
    let mut v: Vec<Voice> = Vec::new();
    catalog_front(&mut v);
    catalog_back(&mut v);
    v
}

/// The ghost model of grouped voices: language and members, in first-seen
/// order.
pub type GroupModel = Seq<(Seq<char>, Seq<Voice>)>;

/// Index of the first group for `lang`, or the number of groups.
pub open spec fn find_lang(g: GroupModel, lang: Seq<char>) -> nat
    decreases g.len(),
{
    if g.len() == 0 {
        0
    } else if g[0].0 == lang {
        0
    } else {
        1 + find_lang(g.drop_first(), lang)
    }
}

/// Add one voice to its language's group, opening the group if new.
pub open spec fn add_to_group(g: GroupModel, v: Voice) -> GroupModel {
    let i = find_lang(g, v.language@);
    if i < g.len() {
        g.update(i as int, (g[i as int].0, g[i as int].1.push(v)))
    } else {
        g.push((v.language@, seq![v]))
    }
}

/// The grouping of a voice list, in list order.
pub open spec fn group_model(vs: Seq<Voice>) -> GroupModel
    decreases vs.len(),
{
    if vs.len() == 0 {
        Seq::empty()
    } else {
        add_to_group(group_model(vs.drop_last()), vs.last())
    }
}

/// The ghost model of a built grouping.
pub open spec fn groups_view(g: Seq<(String, Vec<Voice>)>) -> GroupModel {
    g.map_values(|e: (String, Vec<Voice>)| (e.0@, e.1@))
}

/// The first index in a built grouping holding `lang`, given a scan.
proof fn lemma_find_lang_at(g: GroupModel, lang: Seq<char>, i: nat)
    requires
        i <= g.len(),
        forall|j: int| 0 <= j < i ==> (#[trigger] g[j]).0 != lang,
        i == g.len() || g[i as int].0 == lang,
    ensures
        find_lang(g, lang) == i,
    decreases i,
{
    if i == 0 {
    } else {
        lemma_find_lang_at(g.drop_first(), lang, (i - 1) as nat);
    }
}

/// Group a voice list by language: languages in first-appearance order,
/// members in list order.
pub fn group_voices(voices: &Vec<Voice>) -> (r: Vec<(String, Vec<Voice>)>)
    ensures
        groups_view(r@) == group_model(voices@),
{
    let ghost src = voices@;
    let mut r: Vec<(String, Vec<Voice>)> = Vec::new();
    let mut i: usize = 0;
    proof {
        assert(src.subrange(0, 0) =~= Seq::<Voice>::empty());
        assert(groups_view(r@) =~= group_model(src.subrange(0, 0)));
    }
    while i < voices.len()
        invariant
            i <= voices@.len(),
            voices@ == src,
            groups_view(r@) == group_model(src.subrange(0, i as int)),
        decreases voices@.len() - i,
    {
        let v = clone_voice(&voices[i]);
        insert_into_groups(&mut r, v);
        proof {
            assert(src.subrange(0, i + 1).drop_last() =~= src.subrange(0, i as int));
            assert(src.subrange(0, i + 1).last() == src[i as int]);
        }
        i += 1;
    }
    proof {
        assert(src.subrange(0, src.len() as int) =~= src);
    }
    r
}

/// Voices grouped by language: the catalog's grouping, languages in
/// first-appearance order, members in catalog order.
pub fn get_voices_by_language() -> (r: Vec<(String, Vec<Voice>)>)
    ensures
        exists|src: Seq<Voice>| catalog_ok(src) && groups_view(r@) == group_model(src),
{
    let voices = get_available_voices();
    let r = group_voices(&voices);
    proof {
        assert(catalog_ok(voices@) && groups_view(r@) == group_model(voices@));
    }
    r
}

/// Append a voice to its group, as `add_to_group` describes.
fn insert_into_groups(r: &mut Vec<(String, Vec<Voice>)>, v: Voice)
    ensures
        groups_view(final(r)@) == add_to_group(groups_view(old(r)@), v),
{
    let n = r.len();
    let mut i: usize = 0;
    while i < n
        invariant
            i <= n,
            n == r@.len(),
            r == old(r),
            forall|j: int| 0 <= j < i ==> (#[trigger] groups_view(r@)[j]).0 != v.language@,
        decreases n - i,
    {
        if str_eq(r[i].0.as_str(), v.language.as_str()) {
            proof {
                lemma_find_lang_at(groups_view(r@), v.language@, i as nat);
            }
            let ghost old_model = groups_view(r@);
            let ghost pushed = v;
            let entry = vstd::std_specs::vec::vec_index_mut(r, i);
            entry.1.push(v);
            proof {
                let target = old_model.update(
                    i as int,
                    (old_model[i as int].0, old_model[i as int].1.push(pushed)),
                );
                assert(groups_view(r@) =~= target);
            }
            return;
        }
        i += 1;
    }
    proof {
        lemma_find_lang_at(groups_view(r@), v.language@, n as nat);
    }
    let ghost old_model = groups_view(r@);
    let ghost pushed = v;
    let mut members: Vec<Voice> = Vec::new();
    let lang = v.language.clone();
    members.push(v);
    r.push((lang, members));
    proof {
        assert(groups_view(r@) =~= old_model.push((pushed.language@, seq![pushed])));
    }
}

/// Find a voice by identifier: `Some` exactly when the catalog holds it.
pub fn find_voice<'a>(voices: &'a Vec<Voice>, voice_id: &str) -> (r: Option<&'a Voice>)
    ensures
        r is Some <==> exists|i: int| 0 <= i < voices@.len() && (#[trigger] voices@[i]).id@
            == voice_id@,
        r matches Some(v) ==> exists|i: int|
            0 <= i < voices@.len() && #[trigger] voices@[i] == *v && v.id@ == voice_id@,
{
    let n = voices.len();
    let mut i: usize = 0;
    while i < n
        invariant
            i <= n,
            n == voices@.len(),
            forall|j: int| 0 <= j < i ==> (#[trigger] voices@[j]).id@ != voice_id@,
        decreases n - i,
    {
        if str_eq(voices[i].id.as_str(), voice_id) {
            return Some(&voices[i]);
        }
        i += 1;
    }
    None
}

/// The comma-separated identifiers of a voice list.
pub open spec fn joined_ids(vs: Seq<Voice>) -> Seq<char>
    decreases vs.len(),
{
    if vs.len() == 0 {
        Seq::empty()
    } else if vs.len() == 1 {
        vs[0].id@
    } else {
        joined_ids(vs.drop_last()) + ", "@ + vs.last().id@
    }
}

/// The error text for an unknown voice identifier: it names the identifier
/// and lists every available one.
pub fn voice_not_found_message(voices: &Vec<Voice>, voice_id: &str) -> (r: String)
    ensures
        r@ == "Voice '"@ + voice_id@ + "' not found. Available voices: "@ + joined_ids(voices@),
{
    let mut ids = String::new();
    let n = voices.len();
    let mut i: usize = 0;
    while i < n
        invariant
            i <= n,
            n == voices@.len(),
            ids@ == joined_ids(voices@.subrange(0, i as int)),
        decreases n - i,
    {
        if i > 0 {
            ids.append(", ");
        }
        ids.append(voices[i].id.as_str());
        proof {
            assert(voices@.subrange(0, i + 1).drop_last() =~= voices@.subrange(0, i as int));
            assert(voices@.subrange(0, i + 1).last() == voices@[i as int]);
            if i == 0 {
                assert(ids@ =~= joined_ids(voices@.subrange(0, 1)));
            }
        }
        i += 1;
    }
    proof {
        assert(voices@.subrange(0, n as int) =~= voices@);
    }
    let mut r = String::new();
    r.append("Voice '");
    r.append(voice_id);
    r.append("' not found. Available voices: ");
    r.append(ids.as_str());
    r
}

/// A voice's model file name: `<id>.onnx`.
pub fn model_filename(v: &Voice) -> (r: String)
    ensures
        r@ == v.id@ + ".onnx"@,
{
    let mut r = v.id.clone();
    r.append(".onnx");
    r
}

/// A voice's configuration file name: `<id>.onnx.json`.
pub fn config_filename(v: &Voice) -> (r: String)
    ensures
        r@ == v.id@ + ".onnx.json"@,
{
    let mut r = v.id.clone();
    r.append(".onnx.json");
    r
}

} // verus!
