//! The models offered for rendering, found in directory walks, and what the
//! engine is given for a model kept as a directory.

use vstd::prelude::*;
use crate::companions::DirEntry;
use crate::models::{companions_are_never_checkpoints, is_checkpoint, is_companion, is_diffusion_checkpoint};
use crate::order::{dedup, model_listing_is_ordered, sort_stable, sort_model_names, sorted_by_key};
use crate::paths::{extension, extension_string};
use crate::text::{chars_of, eq_chars, owned, string_of};

verus! {

/// One entry met while walking a models directory.
pub struct ModelEntry {
    /// Its path relative to the models directory.
    pub relative: String,
    /// Whether it is a directory. The walk goes on inside a directory that
    /// is not a diffusers repository, so its contents come as entries of
    /// their own.
    pub is_dir: bool,
    /// For a directory: whether it holds `model_index.json` or a `unet`
    /// directory, which makes it one diffusers model.
    pub is_diffusers_repo: bool,
}

/// A path written with `/` only.
pub open spec fn slashed(s: Seq<char>) -> Seq<char> {
    s.map_values(|c: char| if c == '\\' { '/' } else { c })
}

/// The name under which an entry is offered, if it is offered.
pub open spec fn offered(e: ModelEntry) -> Option<Seq<char>> {
    let name = slashed(e.relative@);
    if e.is_dir {
        if e.is_diffusers_repo {
            Some(name)
        } else {
            None
        }
    } else if is_checkpoint(name) {
        Some(name)
    } else {
        None
    }
}

/// The names offered by a walk, in the order it met them.
pub open spec fn offered_names(es: Seq<ModelEntry>) -> Seq<Seq<char>>
    decreases es.len(),
{
    if es.len() == 0 {
        Seq::empty()
    } else {
        let rest = offered_names(es.drop_last());
        match offered(es.last()) {
            Some(n) => rest.push(n),
            None => rest,
        }
    }
}

/// The names offered by several walks, one after the other.
pub open spec fn offered_in_all(walks: Seq<Seq<ModelEntry>>) -> Seq<Seq<char>>
    decreases walks.len(),
{
    if walks.len() == 0 {
        Seq::empty()
    } else {
        offered_in_all(walks.drop_last()) + offered_names(walks.last())
    }
}

pub open spec fn walks_of(walks: Seq<Vec<ModelEntry>>) -> Seq<Seq<ModelEntry>> {
    walks.map_values(|w: Vec<ModelEntry>| w@)
}

/// The model listing: the names offered by every walk, in case-insensitive
/// order, without repeats.
pub open spec fn model_listing(walks: Seq<Seq<ModelEntry>>) -> Seq<Seq<char>> {
    dedup(sort_stable(offered_in_all(walks), true))
}

/// A weights file that the engine loads directly.
pub open spec fn is_weights_name(name: Seq<char>) -> bool {
    let ext = extension(name);
    ext == "gguf"@ || ext == "safetensors"@ || ext == "ckpt"@
}

/// The first weights file at the top of a directory listing.
pub open spec fn first_weights(es: Seq<DirEntry>) -> Option<Seq<char>>
    decreases es.len(),
{
    if es.len() == 0 {
        None
    } else if es[0].is_file && is_weights_name(es[0].name@) {
        Some(es[0].path@)
    } else {
        first_weights(es.drop_first())
    }
}

/// What `-m` names for a model directory: its first top-level weights file,
/// else the directory itself when it is a diffusers repository.
pub open spec fn checkpoint_of_dir(dir: Seq<char>, es: Seq<DirEntry>, diffusers: bool) -> Option<Seq<char>> {
    match first_weights(es) {
        Some(p) => Some(p),
        None => if diffusers {
            Some(dir)
        } else {
            None
        },
    }
}

fn slashed_exec(s: &str) -> (r: String)
    ensures
        r@ == slashed(s@),
{
    let v = chars_of(s);
    let mut out: Vec<char> = Vec::new();
    let mut i: usize = 0;
    while i < v.len()
        invariant
            i <= v.len(),
            v@ == s@,
            out@ =~= slashed(v@.take(i as int)),
        decreases v.len() - i,
    {
        let c = v[i];
        out.push(if c == '\\' { '/' } else { c });
        proof {
            assert(v@.take(i + 1) =~= v@.take(i as int).push(c));
        }
        i = i + 1;
    }
    proof {
        assert(v@.take(i as int) =~= v@);
    }
    string_of(&out)
}

/// The name under which a walked entry is offered, if it is.
pub fn offered_name(entry: &ModelEntry) -> (name: Option<String>)
    ensures
        name.deep_view() == offered(*entry),
{
    let name = slashed_exec(entry.relative.as_str());
    if entry.is_dir {
        if entry.is_diffusers_repo {
            Some(name)
        } else {
            None
        }
    } else if is_diffusion_checkpoint(name.as_str()) {
        Some(name)
    } else {
        None
    }
}

fn collect_offered(walk: &Vec<ModelEntry>, names: &mut Vec<String>)
    ensures
        final(names).deep_view() == old(names).deep_view() + offered_names(walk@),
{
    let ghost start = names.deep_view();
    let mut i: usize = 0;
    while i < walk.len()
        invariant
            i <= walk.len(),
            names.deep_view() =~= start + offered_names(walk@.take(i as int)),
        decreases walk.len() - i,
    {
        proof {
            let t = walk@.take(i + 1);
            assert(t.drop_last() =~= walk@.take(i as int));
            assert(t.last() == walk@[i as int]);
        }
        match offered_name(&walk[i]) {
            Some(n) => {
                let ghost before = names.deep_view();
                names.push(n);
                proof {
                    assert(names.deep_view() =~= before.push(n@));
                }
            },
            None => {},
        }
        i = i + 1;
    }
    proof {
        assert(walk@.take(i as int) =~= walk@);
    }
}

/// The diffusion models installed: every checkpoint and diffusers
/// repository met in the walks of the candidate models directories, named
/// by its path relative to its directory with `/` separators, listed in
/// case-insensitive order, each once.
pub fn list_image_models(walks: &Vec<Vec<ModelEntry>>) -> (names: Vec<String>)
    ensures
        names.deep_view() == model_listing(walks_of(walks@)),
{
    let mut found: Vec<String> = Vec::new();
    let mut k: usize = 0;
    while k < walks.len()
        invariant
            k <= walks.len(),
            found.deep_view() =~= offered_in_all(walks_of(walks@.take(k as int))),
        decreases walks.len() - k,
    {
        collect_offered(&walks[k], &mut found);
        proof {
            let t = walks_of(walks@.take(k + 1));
            assert(t.drop_last() =~= walks_of(walks@.take(k as int)));
            assert(t.last() == walks@[k as int]@);
        }
        k = k + 1;
    }
    proof {
        assert(walks@.take(k as int) =~= walks@);
    }
    sort_model_names(&found)
}

fn is_weights_file(name: &str) -> (weights: bool)
    ensures
        weights == is_weights_name(name@),
{
    let ext = extension_string(name);
    let v = chars_of(ext.as_str());
    eq_chars(&v, "gguf") || eq_chars(&v, "safetensors") || eq_chars(&v, "ckpt")
}

/// What the engine's `-m` receives for a model kept as the directory `dir`:
/// the first weights file (`.gguf`, `.safetensors`, `.ckpt`) of its listing
/// `entries`, else the directory itself when it is a diffusers repository
/// (`diffusers`), else nothing.
pub fn directory_checkpoint(dir: &str, entries: &Vec<DirEntry>, diffusers: bool) -> (checkpoint: Option<String>)
    ensures
        checkpoint.deep_view() == checkpoint_of_dir(dir@, entries@, diffusers),
{
    proof {
        assert(entries@.skip(0) =~= entries@);
    }
    let mut i: usize = 0;
    while i < entries.len()
        invariant
            i <= entries.len(),
            first_weights(entries@) == first_weights(entries@.skip(i as int)),
        decreases entries.len() - i,
    {
        proof {
            assert(entries@.skip(i as int).drop_first() =~= entries@.skip(i + 1));
            assert(entries@.skip(i as int)[0] == entries@[i as int]);
        }
        if entries[i].is_file && is_weights_file(entries[i].name.as_str()) {
            return Some(owned(entries[i].path.as_str()));
        }
        i = i + 1;
    }
    proof {
        assert(entries@.skip(i as int).len() == 0);
    }
    if diffusers {
        Some(owned(dir))
    } else {
        None
    }
}

proof fn lemma_offered_names(es: Seq<ModelEntry>, n: Seq<char>)
    ensures
        offered_names(es).contains(n) <==> exists|i: int| 0 <= i < es.len() && offered(#[trigger] es[i]) == Some(n),
    decreases es.len(),
{
    if es.len() > 0 {
        let d = es.drop_last();
        lemma_offered_names(d, n);
        let rest = offered_names(d);
        if offered_names(es).contains(n) {
            match offered(es.last()) {
                Some(m) => {
                    if m == n {
                        assert(offered(es[es.len() - 1]) == Some(n));
                    } else {
                        let j = choose|j: int| 0 <= j < rest.push(m).len() && rest.push(m)[j] == n;
                        assert(rest[j] == n);
                        let i = choose|i: int| 0 <= i < d.len() && offered(#[trigger] d[i]) == Some(n);
                        assert(es[i] == d[i]);
                    }
                },
                None => {
                    let i = choose|i: int| 0 <= i < d.len() && offered(#[trigger] d[i]) == Some(n);
                    assert(es[i] == d[i]);
                },
            }
        }
        if exists|i: int| 0 <= i < es.len() && offered(#[trigger] es[i]) == Some(n) {
            let i = choose|i: int| 0 <= i < es.len() && offered(#[trigger] es[i]) == Some(n);
            if i == es.len() - 1 {
                assert(offered_names(es).last() == n);
            } else {
                assert(d[i] == es[i]);
                assert(rest.contains(n));
                let j = choose|j: int| 0 <= j < rest.len() && rest[j] == n;
                match offered(es.last()) {
                    Some(m) => {
                        assert(rest.push(m)[j] == n);
                    },
                    None => {},
                }
            }
        }
    }
}

proof fn lemma_offered_in_all(walks: Seq<Seq<ModelEntry>>, n: Seq<char>)
    ensures
        offered_in_all(walks).contains(n) <==> exists|k: int|
            0 <= k < walks.len() && #[trigger] offered_names(walks[k]).contains(n),
    decreases walks.len(),
{
    if walks.len() > 0 {
        let d = walks.drop_last();
        lemma_offered_in_all(d, n);
        let a = offered_in_all(d);
        let b = offered_names(walks.last());
        if (a + b).contains(n) {
            let j = choose|j: int| 0 <= j < (a + b).len() && (a + b)[j] == n;
            if j < a.len() {
                assert(a[j] == n);
                let k = choose|k: int| 0 <= k < d.len() && #[trigger] offered_names(d[k]).contains(n);
                assert(walks[k] == d[k]);
            } else {
                assert(b[j - a.len()] == n);
                assert(offered_names(walks[walks.len() - 1]).contains(n));
            }
        }
        if exists|k: int| 0 <= k < walks.len() && #[trigger] offered_names(walks[k]).contains(n) {
            let k = choose|k: int| 0 <= k < walks.len() && #[trigger] offered_names(walks[k]).contains(n);
            if k == walks.len() - 1 {
                let j = choose|j: int| 0 <= j < b.len() && b[j] == n;
                assert((a + b)[a.len() + j] == n);
            } else {
                assert(d[k] == walks[k]);
                let j = choose|j: int| 0 <= j < a.len() && a[j] == n;
                assert((a + b)[j] == n);
            }
        }
    }
}

/// The listing offers a name exactly when some walked entry is offered
/// under it (a checkpoint file, or a diffusers repository), in
/// case-insensitive order and with no name twice in a row.
pub proof fn listed_models_are_those_offered(walks: Seq<Seq<ModelEntry>>, n: Seq<char>)
    ensures
        model_listing(walks).contains(n) <==> exists|k: int, i: int|
            0 <= k < walks.len() && 0 <= i < walks[k].len() && offered(#[trigger] walks[k][i]) == Some(n),
        sorted_by_key(model_listing(walks), true),
        forall|i: int|
            0 <= i < model_listing(walks).len() - 1 ==> #[trigger] model_listing(walks)[i]
                != model_listing(walks)[i + 1],
{
    model_listing_is_ordered(offered_in_all(walks));
    lemma_offered_in_all(walks, n);
    if model_listing(walks).contains(n) {
        let k = choose|k: int| 0 <= k < walks.len() && #[trigger] offered_names(walks[k]).contains(n);
        lemma_offered_names(walks[k], n);
        let i = choose|i: int| 0 <= i < walks[k].len() && offered(#[trigger] walks[k][i]) == Some(n);
        assert(offered(walks[k][i]) == Some(n));
    }
    if exists|k: int, i: int|
        0 <= k < walks.len() && 0 <= i < walks[k].len() && offered(#[trigger] walks[k][i]) == Some(n) {
        let (k, i) = choose|k: int, i: int|
            0 <= k < walks.len() && 0 <= i < walks[k].len() && offered(#[trigger] walks[k][i]) == Some(n);
        lemma_offered_names(walks[k], n);
        assert(offered_names(walks[k]).contains(n));
    }
}

/// What the listing offers is a diffusers repository or a checkpoint file;
/// a VAE, text encoder or other companion file is never offered.
pub proof fn companion_files_are_never_listed(e: ModelEntry)
    ensures
        offered(e) matches Some(n) ==> (e.is_dir && e.is_diffusers_repo) || (!e.is_dir && is_checkpoint(n)
            && !is_companion(n)),
{
    if !e.is_dir && is_companion(slashed(e.relative@)) {
        companions_are_never_checkpoints(slashed(e.relative@));
    }
}

} // verus!
