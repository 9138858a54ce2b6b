//! Where downloads may come from, and the names they are stored under.

use vstd::prelude::*;
use crate::order::{dedup, sort_stable, sort_unique, text_le, unique_listing_is_strictly_increasing};
use crate::paths::{file_name, file_name_string, join, join_names, last_pos, lemma_last_pos_bound, sep_pred};
use crate::text::{
    chars_of, contains, contains_str, ends_with, ends_with_str, has_char, has_char_exec, lower,
    lower_chars_of, owned, push_str, slice_chars, starts_with, starts_with_str, string_of, trim,
    trim_chars,
};

verus! {

/// The VAE that Z-Image checkpoints are rendered with.
pub open spec fn z_image_vae_url() -> Seq<char> {
    "https://huggingface.co/black-forest-labs/FLUX.1-schnell/resolve/main/ae.safetensors"@
}

/// The text encoder that Z-Image checkpoints are rendered with.
pub open spec fn z_image_encoder_url() -> Seq<char> {
    "https://huggingface.co/second-state/Qwen3-4B-Instruct-2507-GGUF/resolve/main/Qwen3-4B-Instruct-2507-Q4_K_M.gguf"@
}

/// A source with its short `hf.co/` form expanded.
pub open spec fn expanded_hf(source: Seq<char>) -> Seq<char> {
    let t = trim(source);
    if starts_with(t, "hf.co/"@) {
        "https://huggingface.co/"@ + t.skip(6)
    } else {
        t
    }
}

/// Only HTTPS sources on huggingface.co are downloaded.
pub open spec fn is_hf_url(url: Seq<char>) -> bool {
    starts_with(url, "https://"@) && contains(url, "huggingface.co/"@)
}

pub open spec fn slash_pred() -> spec_fn(char) -> bool {
    |c: char| c == '/'
}

/// A URL without its query and fragment.
pub open spec fn without_query(url: Seq<char>) -> Seq<char> {
    if exists|i: int| 0 <= i < url.len() && (url[i] == '?' || url[i] == '#') {
        url.take(
            choose|i: int|
                0 <= i < url.len() && (url[i] == '?' || url[i] == '#') && forall|j: int|
                    0 <= j < i ==> url[j] != '?' && url[j] != '#',
        )
    } else {
        url
    }
}

/// The last `/`-separated segment of a URL's path.
pub open spec fn url_file_name(url: Seq<char>) -> Seq<char> {
    let base = without_query(url);
    base.skip(last_pos(base, slash_pred()) + 1)
}

/// A name that cannot leave the directory it is stored in.
pub open spec fn is_safe_file_name(name: Seq<char>) -> bool {
    &&& name.len() > 0
    &&& name != "."@
    &&& name != ".."@
    &&& !has_char(name, '/')
    &&& !has_char(name, '\\')
}

/// The sources of a model download, companions included: a Z-Image
/// checkpoint brings its VAE and its text encoder.
pub open spec fn with_companions(sources: Seq<Seq<char>>) -> Seq<Seq<char>>
    decreases sources.len(),
{
    if sources.len() == 0 {
        Seq::empty()
    } else {
        let s = sources.last();
        let l = lower(s);
        with_companions(sources.drop_last()) + if contains(l, "z_image"@) || contains(l, "z-image"@) {
            seq![s, z_image_vae_url(), z_image_encoder_url()]
        } else {
            seq![s]
        }
    }
}

/// The requested sources: the list, then the single source when it is not blank.
pub open spec fn requested_sources(sources: Seq<Seq<char>>, source: Option<Seq<char>>) -> Seq<Seq<char>> {
    match source {
        Some(s) => if trim(s).len() > 0 {
            sources.push(s)
        } else {
            sources
        },
        None => sources,
    }
}

/// Everything a model installation downloads, sorted and without repeats.
pub open spec fn download_plan(sources: Seq<Seq<char>>, source: Option<Seq<char>>) -> Option<Seq<Seq<char>>> {
    let requested = requested_sources(sources, source);
    if requested.len() == 0 {
        None
    } else {
        Some(dedup(sort_stable(with_companions(requested), false)))
    }
}

/// A runtime is only taken from an HTTPS asset on GitHub.
pub open spec fn is_runtime_url(source: Seq<char>) -> bool {
    starts_with(trim(source), "https://"@) && contains(trim(source), "github.com/"@)
}

/// The engine's executable inside a runtime archive.
pub open spec fn engine_file_name(windows: bool) -> Seq<char> {
    if windows {
        "sd.exe"@
    } else {
        "sd"@
    }
}

/// Normalises a model source: `hf.co/...` becomes `https://huggingface.co/...`;
/// anything but an HTTPS URL on huggingface.co is refused.
pub fn normalize_huggingface_source(source: &str) -> (url: Result<String, String>)
    ensures
        match url {
            Ok(u) => is_hf_url(expanded_hf(source@)) && u@ == expanded_hf(source@),
            Err(e) => !is_hf_url(expanded_hf(source@)) && e@
                == "les modèles doivent venir de huggingface.co en HTTPS"@,
        },
{
    let t = trim_chars(&chars_of(source));
    proof {
        reveal_strlit("hf.co/");
    }
    let url_chars = if starts_with_str(&t, "hf.co/") {
        let rest = slice_chars(&t, 6, t.len());
        let head = chars_of("https://huggingface.co/");
        let mut all = head;
        let mut k: usize = 0;
        let ghost h = all@;
        while k < rest.len()
            invariant
                k <= rest.len(),
                all@ == h + rest@.take(k as int),
            decreases rest.len() - k,
        {
            all.push(rest[k]);
            proof {
                assert(rest@.take(k + 1) =~= rest@.take(k as int).push(rest@[k as int]));
            }
            k = k + 1;
        }
        proof {
            assert(rest@.take(k as int) =~= rest@);
            assert(rest@ =~= trim(source@).skip(6));
        }
        all
    } else {
        t
    };
    if !(starts_with_str(&url_chars, "https://") && contains_str(&url_chars, "huggingface.co/")) {
        return Err(owned("les modèles doivent venir de huggingface.co en HTTPS"));
    }
    Ok(string_of(&url_chars))
}

/// The file name a download is stored under: the last segment of the URL's
/// path; refused when it is empty, `.`, `..` or holds a separator.
pub fn filename_from_url(url: &str) -> (name: Result<String, String>)
    ensures
        match name {
            Ok(n) => is_safe_file_name(url_file_name(url@)) && n@ == url_file_name(url@),
            Err(e) => !is_safe_file_name(url_file_name(url@)) && e@ == "nom de fichier invalide"@,
        },
{
    let v = chars_of(url);
    let mut q: usize = 0;
    while q < v.len() && v[q] != '?' && v[q] != '#'
        invariant
            v@ == url@,
            q <= v.len(),
            forall|j: int| 0 <= j < q ==> v@[j] != '?' && v@[j] != '#',
        decreases v.len() - q,
    {
        q = q + 1;
    }
    let base = slice_chars(&v, 0, q);
    proof {
        if q < v.len() {
            let k = choose|i: int|
                0 <= i < url@.len() && (url@[i] == '?' || url@[i] == '#') && forall|j: int|
                    0 <= j < i ==> url@[j] != '?' && url@[j] != '#';
            assert(k == q) by {
                if k < q {
                    assert(v@[k] != '?' && v@[k] != '#');
                }
                if k > q {
                    assert(url@[q as int] == '?' || url@[q as int] == '#');
                }
            }
        } else {
            assert(!exists|i: int| 0 <= i < url@.len() && (url@[i] == '?' || url@[i] == '#'));
        }
        assert(base@ =~= without_query(url@));
    }
    let mut s = base.len();
    while s > 0 && base[s - 1] != '/'
        invariant
            s <= base.len(),
            forall|j: int| s <= j < base.len() ==> base@[j] != '/',
        decreases s,
    {
        s = s - 1;
    }
    proof {
        lemma_last_slash(base@, s as int - 1);
    }
    let n = slice_chars(&base, s, base.len());
    proof {
        assert(n@ =~= url_file_name(url@));
    }
    let dot = chars_of(".");
    let dotdot = chars_of("..");
    let is_dot = n.len() == 1 && n[0] == '.';
    let is_dotdot = n.len() == 2 && n[0] == '.' && n[1] == '.';
    proof {
        reveal_strlit(".");
        reveal_strlit("..");
        if is_dot {
            assert(n@ =~= "."@);
        }
        if is_dotdot {
            assert(n@ =~= ".."@);
        }
        if n@ == "."@ {
            assert(n@[0] == '.');
        }
        if n@ == ".."@ {
            assert(n@[0] == '.' && n@[1] == '.');
        }
    }
    if n.len() == 0 || is_dot || is_dotdot || has_char_exec(&n, '/') || has_char_exec(&n, '\\') {
        return Err(owned("nom de fichier invalide"));
    }
    Ok(string_of(&n))
}

proof fn lemma_last_slash(s: Seq<char>, k: int)
    requires
        -1 <= k < s.len(),
        k >= 0 ==> s[k] == '/',
        forall|j: int| k < j < s.len() ==> s[j] != '/',
    ensures
        last_pos(s, slash_pred()) == k,
    decreases s.len(),
{
    if s.len() > 0 && k < s.len() - 1 {
        let d = s.drop_last();
        assert forall|j: int| k < j < d.len() implies d[j] != '/' by {
            assert(d[j] == s[j]);
        }
        if k >= 0 {
            assert(d[k] == s[k]);
        }
        lemma_last_slash(d, k);
    }
}

/// The name a download is stored under holds no separator and is neither
/// `.` nor `..`.
pub proof fn stored_names_stay_in_their_directory(url: Seq<char>)
    requires
        is_safe_file_name(url_file_name(url)),
    ensures
        !has_char(url_file_name(url), '/'),
        !has_char(url_file_name(url), '\\'),
        url_file_name(url) != "."@,
        url_file_name(url) != ".."@,
{
}

/// An archive entry is extracted under a bare file name: no separator is
/// left in it and, on Windows, it has no drive prefix, so joining it to the
/// target directory never leaves that directory. (`.` and `..` name the
/// directory itself and its parent, which cannot be created as files: their
/// extraction fails.)
pub proof fn extracted_names_stay_in_their_directory(raw: Seq<char>, windows: bool)
    ensures
        is_contained_name(file_name(raw, true), windows) ==> {
            &&& !has_char(file_name(raw, true), '/')
            &&& !has_char(file_name(raw, true), '\\')
            &&& !(windows && has_drive_prefix(file_name(raw, true)))
        },
{
    lemma_last_pos_bound(raw, sep_pred(true));
    let k = last_pos(raw, sep_pred(true));
    let n = file_name(raw, true);
    assert forall|i: int| 0 <= i < n.len() implies n[i] != '/' && n[i] != '\\' by {
        assert(n[i] == raw[k + 1 + i]);
    }
}

fn copy_string(s: &String) -> (r: String)
    ensures
        r@ == s@,
{
    owned(s.as_str())
}

/// Every source of a model installation, in order: the list, then the single
/// source when it is not blank; a Z-Image checkpoint is followed by its VAE
/// and its text encoder. The result is sorted and holds each URL once.
/// Refused when nothing is requested.
pub fn expand_model_sources(sources: &Vec<String>, source: &Option<String>) -> (plan: Result<Vec<String>, String>)
    ensures
        match plan {
            Ok(v) => download_plan(sources.deep_view(), source.deep_view()) == Some(v.deep_view()),
            Err(e) => download_plan(sources.deep_view(), source.deep_view()) is None && e@
                == "aucune source de modèle"@,
        },
{
    let mut requested: Vec<String> = Vec::new();
    let mut i: usize = 0;
    while i < sources.len()
        invariant
            i <= sources.len(),
            requested.deep_view() =~= sources.deep_view().take(i as int),
        decreases sources.len() - i,
    {
        let ghost before = requested.deep_view();
        requested.push(copy_string(&sources[i]));
        proof {
            assert(requested.deep_view() =~= before.push(sources@[i as int]@));
            assert(sources.deep_view().take(i + 1) =~= sources.deep_view().take(i as int).push(
                sources@[i as int]@,
            ));
        }
        i = i + 1;
    }
    proof {
        assert(sources.deep_view().take(i as int) =~= sources.deep_view());
    }
    match source {
        Some(s) => {
            let blank = trim_chars(&chars_of(s.as_str())).len() == 0;
            if !blank {
                requested.push(copy_string(s));
            }
        },
        None => {},
    }
    proof {
        assert(requested.deep_view() =~= requested_sources(sources.deep_view(), source.deep_view()));
    }
    if requested.len() == 0 {
        return Err(owned("aucune source de modèle"));
    }
    let ghost req = requested.deep_view();
    let mut expanded: Vec<String> = Vec::new();
    let mut k: usize = 0;
    while k < requested.len()
        invariant
            k <= requested.len(),
            req == requested.deep_view(),
            expanded.deep_view() =~= with_companions(req.take(k as int)),
        decreases requested.len() - k,
    {
        let s = &requested[k];
        let l = lower_chars_of(s.as_str());
        let ghost before = expanded.deep_view();
        expanded.push(copy_string(s));
        if contains_str(&l, "z_image") || contains_str(&l, "z-image") {
            expanded.push(owned(
                "https://huggingface.co/black-forest-labs/FLUX.1-schnell/resolve/main/ae.safetensors",
            ));
            expanded.push(owned(
                "https://huggingface.co/second-state/Qwen3-4B-Instruct-2507-GGUF/resolve/main/Qwen3-4B-Instruct-2507-Q4_K_M.gguf",
            ));
        }
        proof {
            let t = req.take(k + 1);
            assert(t.drop_last() =~= req.take(k as int));
            assert(t.last() == s@);
        }
        k = k + 1;
    }
    proof {
        assert(req.take(k as int) =~= req);
    }
    Ok(sort_unique(&expanded))
}

/// Whether a runtime source is an HTTPS asset on GitHub.
pub fn is_runtime_source(source: &str) -> (accepted: bool)
    ensures
        accepted == is_runtime_url(source@),
{
    let t = trim_chars(&chars_of(source));
    starts_with_str(&t, "https://") && contains_str(&t, "github.com/")
}

/// Whether a runtime source is a zip archive rather than the executable.
pub fn is_zip_source(source: &str) -> (zip: bool)
    ensures
        zip == ends_with(lower(trim(source@)), ".zip"@),
{
    let t = trim_chars(&chars_of(source));
    let text = string_of(&t);
    let l = lower_chars_of(text.as_str());
    ends_with_str(&l, ".zip")
}

/// A drive prefix, such as `C:`, which on Windows makes a joined name leave
/// its directory.
pub open spec fn has_drive_prefix(name: Seq<char>) -> bool {
    name.len() >= 2 && (('a' <= name[0] && name[0] <= 'z') || ('A' <= name[0] && name[0] <= 'Z'))
        && name[1] == ':'
}

/// A name under which an archive entry is extracted: not empty, and on
/// Windows without a drive prefix, which would make the joined path leave
/// the target directory.
pub open spec fn is_contained_name(name: Seq<char>, windows: bool) -> bool {
    &&& name.len() > 0
    &&& !(windows && has_drive_prefix(name))
}

/// The name an archive entry is extracted under: its last component, `/`
/// and `\\` both separating. `None` for a directory entry, and, on Windows,
/// for a name with a drive prefix, which would leave the target directory:
/// such an entry is not extracted. No directory is recreated.
pub fn flattened_entry_name(raw: &str, windows: bool) -> (name: Option<String>)
    ensures
        match name {
            Some(n) => is_contained_name(file_name(raw@, true), windows) && n@ == file_name(raw@, true),
            None => !is_contained_name(file_name(raw@, true), windows),
        },
{
    let n = file_name_string(raw, true);
    let v = chars_of(n.as_str());
    let drive = v.len() >= 2 && (('a' <= v[0] && v[0] <= 'z') || ('A' <= v[0] && v[0] <= 'Z')) && v[1] == ':';
    if v.len() == 0 || (windows && drive) {
        None
    } else {
        Some(n)
    }
}

/// The executable of the engine inside a runtime archive.
pub fn engine_file(windows: bool) -> (name: &'static str)
    ensures
        name@ == engine_file_name(windows),
{
    if windows {
        "sd.exe"
    } else {
        "sd"
    }
}

/// Whether an extracted file is the engine, case ignored.
pub fn is_engine_file(name: &str, windows: bool) -> (engine: bool)
    ensures
        engine == (lower(name@) == lower(engine_file_name(windows))),
{
    let a = lower_chars_of(name);
    let b = lower_chars_of(engine_file(windows));
    if a.len() != b.len() {
        return false;
    }
    let mut i: usize = 0;
    while i < a.len()
        invariant
            a.len() == b.len(),
            a@ == lower(name@),
            b@ == lower(engine_file_name(windows)),
            i <= a.len(),
            forall|j: int| 0 <= j < i ==> a@[j] == b@[j],
        decreases a.len() - i,
    {
        if a[i] != b[i] {
            assert(a@[i as int] != b@[i as int]);
            return false;
        }
        i = i + 1;
    }
    assert(a@ =~= b@);
    true
}

/// A request to install models: a list of sources, one more source, and the
/// token sent to the model host.
pub struct InstallRequest {
    pub source: Option<String>,
    pub sources: Vec<String>,
    pub token: Option<String>,
}

/// A request to install the engine from a release asset.
pub struct RuntimeInstallRequest {
    pub source: String,
}

impl InstallRequest {
    /// Everything the request downloads, as `expand_model_sources` plans it.
    pub fn download_plan(&self) -> (plan: Result<Vec<String>, String>)
        ensures
            match plan {
                Ok(v) => download_plan(self.sources.deep_view(), self.source.deep_view()) == Some(
                    v.deep_view(),
                ),
                Err(e) => download_plan(self.sources.deep_view(), self.source.deep_view()) is None
                    && e@ == "aucune source de modèle"@,
            },
    {
        expand_model_sources(&self.sources, &self.source)
    }
}

impl RuntimeInstallRequest {
    /// The trimmed source, when it is an HTTPS asset on GitHub.
    pub fn checked_source(&self) -> (source: Result<String, String>)
        ensures
            match source {
                Ok(s) => is_runtime_url(self.source@) && s@ == trim(self.source@),
                Err(e) => !is_runtime_url(self.source@) && e@
                    == "le runtime doit être un asset HTTPS de GitHub"@,
            },
    {
        if is_runtime_source(self.source.as_str()) {
            Ok(string_of(&trim_chars(&chars_of(self.source.as_str()))))
        } else {
            Err(owned("le runtime doit être un asset HTTPS de GitHub"))
        }
    }
}

/// The refusal of a runtime archive without the engine in it.
pub open spec fn missing_engine_message(windows: bool) -> Seq<char> {
    "l'archive ne contient pas d'exécutable « "@ + engine_file_name(windows)
        + " » de stable-diffusion.cpp"@
}

/// The outcome of extracting a runtime archive: the path the engine was
/// extracted to, or the refusal when no entry was the engine.
pub fn extracted_engine(installed: Option<String>, windows: bool) -> (outcome: Result<String, String>)
    ensures
        match outcome {
            Ok(p) => installed == Some(p),
            Err(e) => installed is None && e@ == missing_engine_message(windows),
        },
{
    match installed {
        Some(p) => Ok(p),
        None => {
            let mut e = owned("l'archive ne contient pas d'exécutable « ");
            push_str(&mut e, engine_file(windows));
            push_str(&mut e, " » de stable-diffusion.cpp");
            Err(e)
        },
    }
}

/// A source that names a Z-Image checkpoint.
pub open spec fn names_z_image(s: Seq<char>) -> bool {
    contains(lower(s), "z_image"@) || contains(lower(s), "z-image"@)
}

proof fn lemma_with_companions(sources: Seq<Seq<char>>, x: Seq<char>)
    ensures
        with_companions(sources).contains(x) <==> (sources.contains(x) || ((x == z_image_vae_url()
            || x == z_image_encoder_url()) && exists|i: int| 0 <= i < sources.len() && names_z_image(#[trigger] sources[i]))),
    decreases sources.len(),
{
    if sources.len() > 0 {
        let d = sources.drop_last();
        let s = sources.last();
        lemma_with_companions(d, x);
        let a = with_companions(d);
        let b: Seq<Seq<char>> = if names_z_image(s) {
            seq![s, z_image_vae_url(), z_image_encoder_url()]
        } else {
            seq![s]
        };
        assert(with_companions(sources) == a + b);
        if (a + b).contains(x) {
            let j = choose|j: int| 0 <= j < (a + b).len() && (a + b)[j] == x;
            if j < a.len() {
                assert(a[j] == x);
                if d.contains(x) {
                    let k = choose|k: int| 0 <= k < d.len() && d[k] == x;
                    assert(sources[k] == x);
                } else {
                    let i = choose|i: int| 0 <= i < d.len() && names_z_image(#[trigger] d[i]);
                    assert(sources[i] == d[i]);
                }
            } else {
                assert(b[j - a.len()] == x);
                if j - a.len() == 0 {
                    assert(sources[sources.len() - 1] == x);
                } else {
                    assert(names_z_image(sources[sources.len() - 1]));
                }
            }
        }
        if sources.contains(x) {
            let k = choose|k: int| 0 <= k < sources.len() && sources[k] == x;
            if k < sources.len() - 1 {
                assert(d[k] == x);
                let j = choose|j: int| 0 <= j < a.len() && a[j] == x;
                assert((a + b)[j] == x);
            } else {
                assert((a + b)[a.len() as int] == x);
            }
        } else if (x == z_image_vae_url() || x == z_image_encoder_url()) && exists|i: int|
            0 <= i < sources.len() && names_z_image(#[trigger] sources[i]) {
            let i = choose|i: int| 0 <= i < sources.len() && names_z_image(#[trigger] sources[i]);
            if i < sources.len() - 1 {
                assert(d[i] == sources[i]);
                let j = choose|j: int| 0 <= j < a.len() && a[j] == x;
                assert((a + b)[j] == x);
            } else if x == z_image_vae_url() {
                assert((a + b)[a.len() as int + 1] == x);
            } else {
                assert((a + b)[a.len() as int + 2] == x);
            }
        }
    }
}

/// A model installation downloads every requested source, the VAE and text
/// encoder of any Z-Image checkpoint among them, and nothing else; each URL
/// once, in sorted order.
pub proof fn installs_bring_what_was_asked_and_the_companions(
    sources: Seq<Seq<char>>,
    source: Option<Seq<char>>,
    x: Seq<char>,
)
    requires
        download_plan(sources, source) is Some,
    ensures
        ({
            let requested = requested_sources(sources, source);
            let plan = download_plan(sources, source)->Some_0;
            &&& plan.contains(x) <==> (requested.contains(x) || ((x == z_image_vae_url() || x
                == z_image_encoder_url()) && exists|i: int|
                0 <= i < requested.len() && names_z_image(#[trigger] requested[i])))
            &&& forall|i: int, j: int|
                0 <= i < j < plan.len() ==> text_le(#[trigger] plan[i], #[trigger] plan[j]) && plan[i]
                    != plan[j]
        }),
{
    let requested = requested_sources(sources, source);
    unique_listing_is_strictly_increasing(with_companions(requested));
    lemma_with_companions(requested, x);
}

/// Where an archive entry is written: its flattened name inside `bin_dir`;
/// nothing for a directory entry or a name that would leave `bin_dir`.
pub open spec fn extraction_target(raw: Seq<char>, is_dir: bool, bin_dir: Seq<char>, windows: bool) -> Option<Seq<char>> {
    if !is_dir && is_contained_name(file_name(raw, true), windows) {
        Some(join(bin_dir, file_name(raw, true), windows))
    } else {
        None
    }
}

/// Whether an archive entry is written and is the engine.
pub open spec fn extracts_engine(raw: Seq<char>, is_dir: bool, windows: bool) -> bool {
    !is_dir && is_contained_name(file_name(raw, true), windows) && lower(file_name(raw, true)) == lower(
        engine_file_name(windows),
    )
}

/// The engine an archive's entries (name, is a directory) give: the last
/// entry written that is the engine.
pub open spec fn engine_of_entries(entries: Seq<(Seq<char>, bool)>, bin_dir: Seq<char>, windows: bool) -> Option<Seq<char>>
    decreases entries.len(),
{
    if entries.len() == 0 {
        None
    } else {
        let e = entries.last();
        if extracts_engine(e.0, e.1, windows) {
            extraction_target(e.0, e.1, bin_dir, windows)
        } else {
            engine_of_entries(entries.drop_last(), bin_dir, windows)
        }
    }
}

/// One entry of a runtime archive: where it is written, if it is, and the
/// engine found so far, which this entry replaces when it is the engine.
pub fn extraction_step(found: Option<String>, raw: &str, is_dir: bool, bin_dir: &str, windows: bool) -> (r: (
    Option<String>,
    Option<String>,
))
    ensures
        r.0.deep_view() == extraction_target(raw@, is_dir, bin_dir@, windows),
        r.1.deep_view() == if extracts_engine(raw@, is_dir, windows) {
            extraction_target(raw@, is_dir, bin_dir@, windows)
        } else {
            found.deep_view()
        },
{
    if is_dir {
        return (None, found);
    }
    match flattened_entry_name(raw, windows) {
        None => (None, found),
        Some(name) => {
            let target = join_names(bin_dir, name.as_str(), windows);
            if is_engine_file(name.as_str(), windows) {
                let again = join_names(bin_dir, name.as_str(), windows);
                (Some(target), Some(again))
            } else {
                (Some(target), found)
            }
        },
    }
}

/// What extracting a runtime archive writes and returns: every file it
/// writes is `bin_dir` joined with a bare name (no separator, and on Windows
/// no drive prefix); the engine it returns is the file of the last entry
/// that is the engine, and there is none exactly when no entry is.
pub proof fn extraction_stays_in_bin(entries: Seq<(Seq<char>, bool)>, bin_dir: Seq<char>, windows: bool)
    ensures
        forall|i: int|
            0 <= i < entries.len() ==> (extraction_target(#[trigger] entries[i].0, entries[i].1, bin_dir, windows) matches Some(t) ==> {
                let n = file_name(entries[i].0, true);
                &&& t == join(bin_dir, n, windows)
                &&& n.len() > 0
                &&& !has_char(n, '/')
                &&& !has_char(n, '\\')
                &&& !(windows && has_drive_prefix(n))
            }),
        engine_of_entries(entries, bin_dir, windows) is None <==> forall|i: int|
            0 <= i < entries.len() ==> !extracts_engine(#[trigger] entries[i].0, entries[i].1, windows),
        engine_of_entries(entries, bin_dir, windows) matches Some(p) ==> exists|i: int|
            0 <= i < entries.len() && extracts_engine(#[trigger] entries[i].0, entries[i].1, windows)
                && extraction_target(entries[i].0, entries[i].1, bin_dir, windows) == Some(p) && forall|j: int|
                i < j < entries.len() ==> !extracts_engine(#[trigger] entries[j].0, entries[j].1, windows),
    decreases entries.len(),
{
    assert forall|i: int|
        0 <= i < entries.len() implies (extraction_target(#[trigger] entries[i].0, entries[i].1, bin_dir, windows) matches Some(t) ==> {
            let n = file_name(entries[i].0, true);
            &&& t == join(bin_dir, n, windows)
            &&& n.len() > 0
            &&& !has_char(n, '/')
            &&& !has_char(n, '\\')
            &&& !(windows && has_drive_prefix(n))
        }) by {
        extracted_names_stay_in_their_directory(entries[i].0, windows);
    }
    if entries.len() > 0 {
        let d = entries.drop_last();
        extraction_stays_in_bin(d, bin_dir, windows);
        let last = entries.len() - 1;
        assert(entries[last] == entries.last());
        if !extracts_engine(entries.last().0, entries.last().1, windows) {
            assert forall|i: int| 0 <= i < d.len() implies d[i] == entries[i] by {}
            if engine_of_entries(d, bin_dir, windows) is None {
                assert forall|i: int| 0 <= i < entries.len() implies !extracts_engine(#[trigger] entries[i].0, entries[i].1, windows) by {
                    if i < d.len() {
                        assert(d[i] == entries[i]);
                    }
                }
            } else {
                let i = choose|i: int|
                    0 <= i < d.len() && extracts_engine(#[trigger] d[i].0, d[i].1, windows) && extraction_target(d[i].0, d[i].1, bin_dir, windows)
                        == engine_of_entries(d, bin_dir, windows) && forall|j: int|
                        i < j < d.len() ==> !extracts_engine(#[trigger] d[j].0, d[j].1, windows);
                assert(d[i] == entries[i]);
                assert forall|j: int| i < j < entries.len() implies !extracts_engine(#[trigger] entries[j].0, entries[j].1, windows) by {
                    if j < d.len() {
                        assert(d[j] == entries[j]);
                    }
                }
                assert(!forall|k: int| 0 <= k < entries.len() ==> !extracts_engine(#[trigger] entries[k].0, entries[k].1, windows));
            }
        } else {
            assert(!forall|k: int| 0 <= k < entries.len() ==> !extracts_engine(#[trigger] entries[k].0, entries[k].1, windows));
        }
    }
}

} // verus!
