//! The model catalog: which model names can be fetched, the listing shown
//! when a name is refused, and where a model's artifact lives. The download
//! itself is plumbing (processes and the file system) and stays outside the
//! library.

use vstd::prelude::*;
use crate::text::spec_str_contains;
use crate::text::str_contains;
use crate::text::str_eq;

verus! {

/// Every model name the catalog offers, in listing order.
pub open spec fn spec_model_list() -> Seq<Seq<char>> {
    seq![
        "tiny"@,
        "tiny.en"@,
        "tiny-q5_1"@,
        "tiny.en-q5_1"@,
        "tiny-q8_0"@,
        "base"@,
        "base.en"@,
        "base-q5_1"@,
        "base.en-q5_1"@,
        "base-q8_0"@,
        "small"@,
        "small.en"@,
        "small.en-tdrz"@,
        "small-q5_1"@,
        "small.en-q5_1"@,
        "small-q8_0"@,
        "medium"@,
        "medium.en"@,
        "medium-q5_0"@,
        "medium.en-q5_0"@,
        "medium-q8_0"@,
        "large-v1"@,
        "large-v2"@,
        "large-v2-q5_0"@,
        "large-v2-q8_0"@,
        "large-v3"@,
        "large-v3-q5_0"@,
        "large-v3-turbo"@,
        "large-v3-turbo-q5_0"@,
        "large-v3-turbo-q8_0"@,
    ]
}

/// Whether a name is in the catalog.
pub open spec fn spec_is_available_model(m: Seq<char>) -> bool {
    spec_model_list().contains(m)
}

/// The catalog as owned strings, in listing order.
pub fn available_models() -> (models: Vec<String>)
    ensures
        models.deep_view() == spec_model_list(),
{
    let mut v: Vec<String> = Vec::new();
    v.push(String::from_str("tiny"));
    v.push(String::from_str("tiny.en"));
    v.push(String::from_str("tiny-q5_1"));
    v.push(String::from_str("tiny.en-q5_1"));
    v.push(String::from_str("tiny-q8_0"));
    v.push(String::from_str("base"));
    v.push(String::from_str("base.en"));
    v.push(String::from_str("base-q5_1"));
    v.push(String::from_str("base.en-q5_1"));
    v.push(String::from_str("base-q8_0"));
    v.push(String::from_str("small"));
    v.push(String::from_str("small.en"));
    v.push(String::from_str("small.en-tdrz"));
    v.push(String::from_str("small-q5_1"));
    v.push(String::from_str("small.en-q5_1"));
    v.push(String::from_str("small-q8_0"));
    v.push(String::from_str("medium"));
    v.push(String::from_str("medium.en"));
    v.push(String::from_str("medium-q5_0"));
    v.push(String::from_str("medium.en-q5_0"));
    v.push(String::from_str("medium-q8_0"));
    v.push(String::from_str("large-v1"));
    v.push(String::from_str("large-v2"));
    v.push(String::from_str("large-v2-q5_0"));
    v.push(String::from_str("large-v2-q8_0"));
    v.push(String::from_str("large-v3"));
    v.push(String::from_str("large-v3-q5_0"));
    v.push(String::from_str("large-v3-turbo"));
    v.push(String::from_str("large-v3-turbo-q5_0"));
    v.push(String::from_str("large-v3-turbo-q8_0"));
    proof {
        assert(v.deep_view() =~~= spec_model_list());
    }
    v
}

/// Where a model name's class ends: the index of its first `.` or `-`, or
/// the name's length when it has neither.
pub open spec fn spec_first_sep(m: Seq<char>, i: int) -> int
    decreases m.len() - i
        when 0 <= i <= m.len()
{
    if i >= m.len() {
        m.len() as int
    } else if m[i] == '.' || m[i] == '-' {
        i
    } else {
        spec_first_sep(m, i + 1)
    }
}

proof fn lemma_first_sep_bounds(m: Seq<char>, i: int)
    requires
        0 <= i <= m.len(),
    ensures
        i <= spec_first_sep(m, i) <= m.len(),
    decreases m.len() - i,
{
    if i < m.len() && !(m[i] == '.' || m[i] == '-') {
        lemma_first_sep_bounds(m, i + 1);
    }
}

/// A model name's class: its prefix before the first `.` or `-`.
pub open spec fn spec_model_class(m: Seq<char>) -> Seq<char> {
    m.subrange(0, spec_first_sep(m, 0))
}

/// Compute a model name's class.
fn model_class(m: &str) -> (c: String)
    ensures
        c@ == spec_model_class(m@),
{
    let len = m.unicode_len();
    let mut i: usize = 0;
    while i < len
        invariant
            i <= len,
            len == m@.len(),
            spec_first_sep(m@, 0) == spec_first_sep(m@, i as int),
        decreases len - i,
    {
        let ch = m.get_char(i);
        if ch == '.' || ch == '-' {
            proof {
                lemma_first_sep_bounds(m@, 0);
            }
            let part = m.substring_char(0, i);
            return String::from_str(part);
        }
        i = i + 1;
    }
    proof {
        lemma_first_sep_bounds(m@, 0);
    }
    let part = m.substring_char(0, len);
    String::from_str(part)
}

/// The listing text for the catalog's tail from index `i` on, given the
/// class printed last: each new class opens a fresh line.
pub open spec fn spec_render(models: Seq<Seq<char>>, current: Seq<char>) -> Seq<char>
    decreases models.len(),
{
    if models.len() == 0 {
        Seq::empty()
    } else {
        let m = models[0];
        let cls = spec_model_class(m);
        let head = if cls != current {
            "\n "@ + cls
        } else {
            Seq::<char>::empty()
        };
        head + " "@ + m + spec_render(models.drop_first(), cls)
    }
}

fn render_from(models: &Vec<String>, i: usize, current: &str) -> (out: String)
    requires
        i <= models@.len(),
    ensures
        out@ == spec_render(models.deep_view().skip(i as int), current@),
    decreases models@.len() - i,
{
    let ghost dv = models.deep_view();
    if i == models.len() {
        proof {
            assert(dv.skip(i as int) =~= Seq::<Seq<char>>::empty());
        }
        return String::new();
    }
    let m = &models[i];
    let cls = model_class(m.as_str());
    let mut out = String::new();
    if !str_eq(cls.as_str(), current) {
        out.append("\n ");
        out.append(cls.as_str());
    }
    out.append(" ");
    out.append(m.as_str());
    let rest = render_from(models, i + 1, cls.as_str());
    out.append(rest.as_str());
    proof {
        assert(dv.skip(i as int)[0] == dv[i as int]);
        assert(dv[i as int] =~= models@[i as int]@);
        assert(dv.skip(i as int).drop_first() =~= dv.skip(i + 1));
        assert(out@ =~= spec_render(dv.skip(i as int), current@));
    }
    out
}

/// The whole catalog listing, as shown when a model name is refused.
pub open spec fn spec_model_listing() -> Seq<char> {
    "\nAvailable models:"@ + spec_render(spec_model_list(), Seq::<char>::empty()) + "\n\n"@
        + "___________________________________________________________\n"@
        + ".en = english-only  -q5_[01] = quantized  -tdrz = tinydiarize\n"@
}

/// Render the catalog: every model, grouped by class, with the legend.
pub fn list_available_models() -> (out: String)
    ensures
        out@ == spec_model_listing(),
{
    let models = available_models();
    let mut out = String::from_str("\nAvailable models:");
    let rendered = render_from(&models, 0, "");
    out.append(rendered.as_str());
    out.append("\n\n");
    out.append("___________________________________________________________\n");
    out.append(".en = english-only  -q5_[01] = quantized  -tdrz = tinydiarize\n");
    proof {
        reveal_strlit("");
        assert(models.deep_view().skip(0) =~= models.deep_view());
        assert(""@ =~= Seq::<char>::empty());
        assert(out@ =~= spec_model_listing());
    }
    out
}

/// Accept a model name exactly when the catalog has it; a refusal names the
/// model and repeats the whole listing.
pub fn validate_model(model: &str) -> (r: Result<(), String>)
    ensures
        r is Ok <==> spec_is_available_model(model@),
        r matches Err(m) ==> m@ == "Invalid model: "@ + model@ + "\n"@ + spec_model_listing(),
{
    let models = available_models();
    let n = models.len();
    let mut i: usize = 0;
    while i < n
        invariant
            n == models@.len(),
            models.deep_view() == spec_model_list(),
            i <= n,
            forall|k: int| 0 <= k < i ==> spec_model_list()[k] != model@,
        decreases n - i,
    {
        proof {
            assert(models.deep_view()[i as int] =~= models@[i as int]@);
        }
        if str_eq(model, models[i].as_str()) {
            proof {
                assert(spec_model_list()[i as int] == model@);
            }
            return Ok(());
        }
        i = i + 1;
    }
    let mut m = String::from_str("Invalid model: ");
    m.append(model);
    m.append("\n");
    let listing = list_available_models();
    m.append(listing.as_str());
    proof {
        assert(!spec_is_available_model(model@));
        assert(m@ =~= "Invalid model: "@ + model@ + "\n"@ + spec_model_listing());
    }
    Err(m)
}

/// The repository and path prefix a model's artifact is fetched from: the
/// diarization models live in their own repository.
pub fn get_download_info(model: &str) -> (info: (String, String))
    ensures
        info.1@ == "resolve/main/ggml"@,
        spec_str_contains(model@, "tdrz"@) ==> info.0@
            == "https://huggingface.co/akashmjn/tinydiarize-whisper.cpp"@,
        !spec_str_contains(model@, "tdrz"@) ==> info.0@
            == "https://huggingface.co/ggerganov/whisper.cpp"@,
{
    if str_contains(model, "tdrz") {
        (
            String::from_str("https://huggingface.co/akashmjn/tinydiarize-whisper.cpp"),
            String::from_str("resolve/main/ggml"),
        )
    } else {
        (
            String::from_str("https://huggingface.co/ggerganov/whisper.cpp"),
            String::from_str("resolve/main/ggml"),
        )
    }
}

} // verus!
