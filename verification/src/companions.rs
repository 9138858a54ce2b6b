//! The VAE and text encoders that a Z-Image or Flux checkpoint needs beside
//! it, chosen from directory listings, and the list of those still missing.

use vstd::prelude::*;
use crate::models::ModelFamily;
use crate::text::{contains_any, contains_any_str, lower, lower_chars_of, views};

verus! {

/// One entry of a directory listing, as the file system reported it.
#[derive(Debug)]
pub struct DirEntry {
    /// The full path of the entry.
    pub path: String,
    /// Its file name.
    pub name: String,
    /// Whether it is a regular file.
    pub is_file: bool,
    /// Its size in bytes (0 when it could not be read).
    pub size: u64,
}

/// The companions found for a checkpoint; each is a path.
#[derive(Debug)]
pub struct Companions {
    pub vae: Option<String>,
    pub llm: Option<String>,
    pub clip_l: Option<String>,
    pub t5xxl: Option<String>,
}

/// The companion paths as texts: VAE, text encoder, CLIP-L, T5-XXL.
pub type CompanionPaths = (Option<Seq<char>>, Option<Seq<char>>, Option<Seq<char>>, Option<Seq<char>>);

impl View for Companions {
    type V = CompanionPaths;

    open spec fn view(&self) -> CompanionPaths {
        (self.vae.deep_view(), self.llm.deep_view(), self.clip_l.deep_view(), self.t5xxl.deep_view())
    }
}

impl Companions {
    /// No companion at all.
    pub fn none() -> (c: Companions)
        ensures
            c@ == (None::<Seq<char>>, None::<Seq<char>>, None::<Seq<char>>, None::<Seq<char>>),
    {
        Companions { vae: None, llm: None, clip_l: None, t5xxl: None }
    }
}

impl Default for Companions {
    fn default() -> (c: Companions)
        ensures
            c@ == (None::<Seq<char>>, None::<Seq<char>>, None::<Seq<char>>, None::<Seq<char>>),
    {
        Companions::none()
    }
}

pub open spec fn vae_patterns() -> Seq<Seq<char>> {
    seq!["ae.safetensors"@, "vae"@]
}

/// The old ONNX decoder and the tiny preview decoders are never a VAE.
pub open spec fn vae_exclusions() -> Seq<Seq<char>> {
    seq![".onnx"@, "decoder"@, "taesd"@]
}

pub open spec fn uncensored_encoder_patterns() -> Seq<Seq<char>> {
    seq!["abliterat"@, "heretic"@]
}

pub open spec fn qwen_encoder_patterns() -> Seq<Seq<char>> {
    seq!["qwen3-4b"@, "qwen3_4b"@]
}

pub open spec fn qwen_encoder_exclusions() -> Seq<Seq<char>> {
    seq!["tts"@, "abliterat"@]
}

pub open spec fn clip_patterns() -> Seq<Seq<char>> {
    seq!["clip_l"@, "clip-l"@]
}

pub open spec fn t5_patterns() -> Seq<Seq<char>> {
    seq!["t5xxl"@, "t5-xxl"@]
}

pub open spec fn no_patterns() -> Seq<Seq<char>> {
    Seq::empty()
}

/// A regular file whose lower-cased name holds one of `patterns` and none of
/// `exclude`.
pub open spec fn eligible(e: DirEntry, patterns: Seq<Seq<char>>, exclude: Seq<Seq<char>>) -> bool {
    &&& e.is_file
    &&& contains_any(lower(e.name@), patterns)
    &&& !contains_any(lower(e.name@), exclude)
}

/// The position of the companion chosen in a listing: the largest eligible
/// file, the earliest one among equally large files.
pub open spec fn best_entry(es: Seq<DirEntry>, patterns: Seq<Seq<char>>, exclude: Seq<Seq<char>>) -> Option<int>
    decreases es.len(),
{
    if es.len() == 0 {
        None
    } else {
        let prev = best_entry(es.drop_last(), patterns, exclude);
        let i = es.len() - 1;
        if eligible(es[i], patterns, exclude) && (prev is None || es[i].size > es[prev->0].size) {
            Some(i)
        } else {
            prev
        }
    }
}

/// The path chosen in one listing.
pub open spec fn found_in(es: Seq<DirEntry>, patterns: Seq<Seq<char>>, exclude: Seq<Seq<char>>) -> Option<Seq<char>> {
    match best_entry(es, patterns, exclude) {
        Some(i) => Some(es[i].path@),
        None => None,
    }
}

/// The path chosen in the first listing that has an eligible file.
pub open spec fn found_first(dirs: Seq<Seq<DirEntry>>, patterns: Seq<Seq<char>>, exclude: Seq<Seq<char>>) -> Option<Seq<char>>
    decreases dirs.len(),
{
    if dirs.len() == 0 {
        None
    } else {
        match found_in(dirs[0], patterns, exclude) {
            Some(p) => Some(p),
            None => found_first(dirs.drop_first(), patterns, exclude),
        }
    }
}

pub open spec fn listings(dirs: Seq<Vec<DirEntry>>) -> Seq<Seq<DirEntry>> {
    dirs.map_values(|d: Vec<DirEntry>| d@)
}

/// A companion is looked for beside the checkpoint first, then in every
/// candidate models directory in turn.
pub open spec fn search(models: Seq<DirEntry>, candidates: Seq<Seq<DirEntry>>, patterns: Seq<Seq<char>>, exclude: Seq<Seq<char>>) -> Option<Seq<char>> {
    found_first(seq![models] + candidates, patterns, exclude)
}

/// The companions of a checkpoint of `family`.
pub open spec fn companions_for(models: Seq<DirEntry>, candidates: Seq<Seq<DirEntry>>, family: ModelFamily, uncensored: bool) -> CompanionPaths {
    let vae = search(models, candidates, vae_patterns(), vae_exclusions());
    match family {
        ModelFamily::FullCheckpoint => (None, None, None, None),
        ModelFamily::ZImage => (
            vae,
            if uncensored {
                search(models, candidates, uncensored_encoder_patterns(), no_patterns())
            } else {
                search(models, candidates, qwen_encoder_patterns(), qwen_encoder_exclusions())
            },
            None,
            None,
        ),
        ModelFamily::Flux => (
            vae,
            None,
            search(models, candidates, clip_patterns(), no_patterns()),
            search(models, candidates, t5_patterns(), no_patterns()),
        ),
    }
}

/// What a checkpoint of `family` still needs, given its companions.
pub open spec fn missing_for(family: ModelFamily, c: CompanionPaths) -> Seq<Seq<char>> {
    match family {
        ModelFamily::ZImage => (if c.0 is None {
            seq!["ae.safetensors (VAE stable-diffusion.cpp)"@]
        } else {
            Seq::empty()
        }) + (if c.1 is None {
            seq!["un encodeur de texte Qwen3"@]
        } else {
            Seq::empty()
        }),
        ModelFamily::Flux => (if c.0 is None {
            seq!["ae.safetensors (VAE)"@]
        } else {
            Seq::empty()
        }) + (if c.2 is None {
            seq!["un encodeur CLIP-L"@]
        } else {
            Seq::empty()
        }) + (if c.3 is None {
            seq!["un encodeur T5-XXL"@]
        } else {
            Seq::empty()
        }),
        ModelFamily::FullCheckpoint => Seq::empty(),
    }
}

/// The chosen companion is an eligible file, at least as large as every other
/// eligible file, and strictly larger than every eligible file before it; and
/// nothing is chosen exactly when no file is eligible.
pub proof fn best_entry_is_the_largest(es: Seq<DirEntry>, patterns: Seq<Seq<char>>, exclude: Seq<Seq<char>>)
    ensures
        best_entry(es, patterns, exclude) is None <==> forall|k: int|
            0 <= k < es.len() ==> !eligible(#[trigger] es[k], patterns, exclude),
        best_entry(es, patterns, exclude) matches Some(i) ==> {
            &&& 0 <= i < es.len()
            &&& eligible(es[i], patterns, exclude)
            &&& forall|k: int|
                0 <= k < es.len() && eligible(#[trigger] es[k], patterns, exclude) ==> es[k].size
                    <= es[i].size
            &&& forall|k: int|
                0 <= k < i && eligible(#[trigger] es[k], patterns, exclude) ==> es[k].size
                    < es[i].size
        },
    decreases es.len(),
{
    if es.len() > 0 {
        let d = es.drop_last();
        best_entry_is_the_largest(d, patterns, exclude);
        assert forall|k: int| 0 <= k < d.len() implies #[trigger] d[k] == es[k] by {}
        let prev = best_entry(d, patterns, exclude);
        let last = es.len() - 1;
        if !(eligible(es[last], patterns, exclude) && (prev is None || es[last].size > es[prev->0].size)) {
            if prev is None {
                assert forall|k: int| 0 <= k < es.len() implies !eligible(#[trigger] es[k], patterns, exclude) by {
                    if k < last {
                        assert(d[k] == es[k]);
                    }
                }
            } else {
                let i = prev->0;
                assert(d[i] == es[i]);
                assert forall|k: int|
                    0 <= k < es.len() && eligible(#[trigger] es[k], patterns, exclude) implies es[k].size
                    <= es[i].size by {
                    if k < last {
                        assert(d[k] == es[k]);
                    }
                }
                assert forall|k: int|
                    0 <= k < i && eligible(#[trigger] es[k], patterns, exclude) implies es[k].size
                    < es[i].size by {
                    assert(d[k] == es[k]);
                }
            }
        } else {
            assert forall|k: int|
                0 <= k < es.len() && eligible(#[trigger] es[k], patterns, exclude) implies es[k].size
                <= es[last].size by {
                if k < last {
                    assert(d[k] == es[k]);
                    if prev is Some {
                        assert(d[prev->0] == es[prev->0]);
                    }
                }
            }
            assert forall|k: int|
                0 <= k < last && eligible(#[trigger] es[k], patterns, exclude) implies es[k].size
                < es[last].size by {
                assert(d[k] == es[k]);
                if prev is Some {
                    assert(d[prev->0] == es[prev->0]);
                }
            }
        }
    }
}

/// The companion chosen in one listing: the largest regular file whose
/// lower-cased name holds one of `patterns` and none of `exclude`, the first
/// one listed among equally large files.
pub fn find_companion(entries: &Vec<DirEntry>, patterns: &[&str], exclude: &[&str]) -> (found: Option<String>)
    ensures
        found.deep_view() == found_in(entries@, views(patterns@), views(exclude@)),
{
    let ghost pats = views(patterns@);
    let ghost excl = views(exclude@);
    let mut best: Option<usize> = None;
    let mut i: usize = 0;
    while i < entries.len()
        invariant
            i <= entries.len(),
            pats == views(patterns@),
            excl == views(exclude@),
            match best {
                Some(b) => best_entry(entries@.take(i as int), pats, excl) == Some(b as int) && b < i,
                None => best_entry(entries@.take(i as int), pats, excl) is None,
            },
        decreases entries.len() - i,
    {
        let e = &entries[i];
        let mut take = false;
        if e.is_file {
            let name = lower_chars_of(e.name.as_str());
            if contains_any_str(&name, patterns) && !contains_any_str(&name, exclude) {
                take = match best {
                    Some(b) => e.size > entries[b].size,
                    None => true,
                };
            }
        }
        proof {
            let t = entries@.take(i + 1);
            assert(t.drop_last() =~= entries@.take(i as int));
            assert(t[i as int] == entries@[i as int]);
            if let Some(b) = best {
                assert(t[b as int] == entries@[b as int]);
            }
        }
        if take {
            best = Some(i);
        }
        i = i + 1;
    }
    proof {
        assert(entries@.take(i as int) =~= entries@);
    }
    match best {
        Some(b) => Some(entries[b].path.clone()),
        None => None,
    }
}

/// The companion looked for beside the checkpoint, then in each candidate
/// directory in order.
pub fn find_companion_in_all_dirs(models: &Vec<DirEntry>, candidates: &Vec<Vec<DirEntry>>, patterns: &[&str], exclude: &[&str]) -> (found: Option<String>)
    ensures
        found.deep_view() == search(models@, listings(candidates@), views(patterns@), views(exclude@)),
{
    let ghost pats = views(patterns@);
    let ghost excl = views(exclude@);
    let ghost all = seq![models@] + listings(candidates@);
    proof {
        assert(all.drop_first() =~= listings(candidates@));
    }
    let here = find_companion(models, patterns, exclude);
    if here.is_some() {
        return here;
    }
    proof {
        assert(all[0] == models@);
        assert(listings(candidates@).skip(0) =~= listings(candidates@));
    }
    let mut k: usize = 0;
    while k < candidates.len()
        invariant
            k <= candidates.len(),
            pats == views(patterns@),
            excl == views(exclude@),
            all == seq![models@] + listings(candidates@),
            found_first(all, pats, excl) == found_first(listings(candidates@).skip(k as int), pats, excl),
        decreases candidates.len() - k,
    {
        let f = find_companion(&candidates[k], patterns, exclude);
        proof {
            let rest = listings(candidates@).skip(k as int);
            assert(rest[0] == candidates@[k as int]@);
            assert(rest.drop_first() =~= listings(candidates@).skip(k + 1));
        }
        if f.is_some() {
            return f;
        }
        k = k + 1;
    }
    None
}

/// The VAE and text encoders that a checkpoint of `family` needs. `models`
/// is the listing of the directory where the checkpoint was asked for, and
/// `candidates` the listings of the other models directories, in search
/// order. A full checkpoint carries its own and gets none.
pub fn discover_companions(models: &Vec<DirEntry>, candidates: &Vec<Vec<DirEntry>>, family: ModelFamily, uncensored: bool) -> (c: Companions)
    ensures
        c@ == companions_for(models@, listings(candidates@), family, uncensored),
{
    if family == ModelFamily::FullCheckpoint {
        return Companions::none();
    }
    let vae_pats = ["ae.safetensors", "vae"];
    let vae_excl = [".onnx", "decoder", "taesd"];
    proof {
        assert(views(vae_pats@) =~= vae_patterns());
        assert(views(vae_excl@) =~= vae_exclusions());
    }
    let vae = find_companion_in_all_dirs(models, candidates, &vae_pats, &vae_excl);
    let none: [&str; 0] = [];
    proof {
        assert(views(none@) =~= no_patterns());
    }
    match family {
        ModelFamily::ZImage => {
            let llm = if uncensored {
                let pats = ["abliterat", "heretic"];
                proof {
                    assert(views(pats@) =~= uncensored_encoder_patterns());
                }
                find_companion_in_all_dirs(models, candidates, &pats, &none)
            } else {
                let pats = ["qwen3-4b", "qwen3_4b"];
                let excl = ["tts", "abliterat"];
                proof {
                    assert(views(pats@) =~= qwen_encoder_patterns());
                    assert(views(excl@) =~= qwen_encoder_exclusions());
                }
                find_companion_in_all_dirs(models, candidates, &pats, &excl)
            };
            Companions { vae, llm, clip_l: None, t5xxl: None }
        },
        ModelFamily::Flux => {
            let clip = ["clip_l", "clip-l"];
            let t5 = ["t5xxl", "t5-xxl"];
            proof {
                assert(views(clip@) =~= clip_patterns());
                assert(views(t5@) =~= t5_patterns());
            }
            let clip_l = find_companion_in_all_dirs(models, candidates, &clip, &none);
            let t5xxl = find_companion_in_all_dirs(models, candidates, &t5, &none);
            Companions { vae, llm: None, clip_l, t5xxl }
        },
        ModelFamily::FullCheckpoint => Companions::none(),
    }
}

/// The companions a checkpoint of `family` still lacks, as messages.
pub fn missing_companions(family: ModelFamily, companions: &Companions) -> (missing: Vec<&'static str>)
    ensures
        views(missing@) == missing_for(family, companions@),
{
    let mut missing: Vec<&'static str> = Vec::new();
    match family {
        ModelFamily::ZImage => {
            if companions.vae.is_none() {
                missing.push("ae.safetensors (VAE stable-diffusion.cpp)");
            }
            if companions.llm.is_none() {
                missing.push("un encodeur de texte Qwen3");
            }
        },
        ModelFamily::Flux => {
            if companions.vae.is_none() {
                missing.push("ae.safetensors (VAE)");
            }
            if companions.clip_l.is_none() {
                missing.push("un encodeur CLIP-L");
            }
            if companions.t5xxl.is_none() {
                missing.push("un encodeur T5-XXL");
            }
        },
        ModelFamily::FullCheckpoint => {},
    }
    assert(views(missing@) =~= missing_for(family, companions@));
    missing
}

/// A checkpoint lacks nothing exactly when every companion its family needs
/// is present; a full checkpoint never lacks anything.
pub proof fn nothing_missing_iff_complete(family: ModelFamily, c: CompanionPaths)
    ensures
        missing_for(family, c).len() == 0 <==> match family {
            ModelFamily::ZImage => c.0 is Some && c.1 is Some,
            ModelFamily::Flux => c.0 is Some && c.2 is Some && c.3 is Some,
            ModelFamily::FullCheckpoint => true,
        },
{
}

/// The VAE that is chosen is never an excluded file: an ONNX decoder, a
/// decoder-only file or a tiny preview decoder is never selected.
pub proof fn chosen_vae_is_never_an_excluded_file(es: Seq<DirEntry>)
    ensures
        best_entry(es, vae_patterns(), vae_exclusions()) matches Some(i) ==> !contains_any(
            lower(es[i].name@),
            vae_exclusions(),
        ),
{
    best_entry_is_the_largest(es, vae_patterns(), vae_exclusions());
}

/// A full checkpoint is given no companion and lacks nothing.
pub proof fn full_checkpoints_need_nothing(models: Seq<DirEntry>, candidates: Seq<Seq<DirEntry>>, uncensored: bool)
    ensures
        companions_for(models, candidates, ModelFamily::FullCheckpoint, uncensored) == (
            None::<Seq<char>>,
            None::<Seq<char>>,
            None::<Seq<char>>,
            None::<Seq<char>>,
        ),
        missing_for(
            ModelFamily::FullCheckpoint,
            companions_for(models, candidates, ModelFamily::FullCheckpoint, uncensored),
        ).len() == 0,
{
}

/// `e` is in the checkpoint's own listing or in one of the other listings.
pub open spec fn listed(models: Seq<DirEntry>, candidates: Seq<Seq<DirEntry>>, e: DirEntry) -> bool {
    models.contains(e) || exists|k: int| 0 <= k < candidates.len() && (#[trigger] candidates[k]).contains(e)
}

/// `e` is a regular file whose lower-cased name holds one of `needles` and
/// none of `avoid`.
pub open spec fn named_file(e: DirEntry, needles: Seq<Seq<char>>, avoid: Seq<Seq<char>>) -> bool {
    e.is_file && contains_any(lower(e.name@), needles) && !contains_any(lower(e.name@), avoid)
}

/// What a companion slot holds, given the listings: something exactly when
/// some listed file fits, always the path of a listed file that fits, and
/// one beside the checkpoint whenever one fits there.
pub open spec fn slot_filled_from(
    slot: Option<Seq<char>>,
    models: Seq<DirEntry>,
    candidates: Seq<Seq<DirEntry>>,
    needles: Seq<Seq<char>>,
    avoid: Seq<Seq<char>>,
) -> bool {
    &&& (slot is Some <==> exists|e: DirEntry| listed(models, candidates, e) && named_file(e, needles, avoid))
    &&& (slot matches Some(p) ==> exists|e: DirEntry|
        listed(models, candidates, e) && named_file(e, needles, avoid) && e.path@ == p)
    &&& ((exists|e: DirEntry| models.contains(e) && named_file(e, needles, avoid)) ==> (slot matches Some(p)
        && exists|e: DirEntry| models.contains(e) && named_file(e, needles, avoid) && e.path@ == p))
}

proof fn lemma_found_in(es: Seq<DirEntry>, patterns: Seq<Seq<char>>, exclude: Seq<Seq<char>>)
    ensures
        found_in(es, patterns, exclude) is Some <==> exists|e: DirEntry| es.contains(e) && named_file(e, patterns, exclude),
        found_in(es, patterns, exclude) matches Some(p) ==> exists|e: DirEntry|
            es.contains(e) && named_file(e, patterns, exclude) && e.path@ == p,
{
    best_entry_is_the_largest(es, patterns, exclude);
    match best_entry(es, patterns, exclude) {
        Some(i) => {
            assert(es.contains(es[i]));
            assert(named_file(es[i], patterns, exclude));
        },
        None => {
            if exists|e: DirEntry| es.contains(e) && named_file(e, patterns, exclude) {
                let e = choose|e: DirEntry| es.contains(e) && named_file(e, patterns, exclude);
                let k = choose|k: int| 0 <= k < es.len() && es[k] == e;
                assert(eligible(es[k], patterns, exclude));
            }
        },
    }
}

proof fn lemma_found_first(dirs: Seq<Seq<DirEntry>>, patterns: Seq<Seq<char>>, exclude: Seq<Seq<char>>)
    ensures
        found_first(dirs, patterns, exclude) is Some <==> exists|k: int, e: DirEntry|
            0 <= k < dirs.len() && #[trigger] dirs[k].contains(e) && named_file(e, patterns, exclude),
        found_first(dirs, patterns, exclude) matches Some(p) ==> exists|k: int, e: DirEntry|
            0 <= k < dirs.len() && #[trigger] dirs[k].contains(e) && named_file(e, patterns, exclude) && e.path@ == p,
        dirs.len() > 0 && found_in(dirs[0], patterns, exclude) is Some ==> found_first(dirs, patterns, exclude)
            == found_in(dirs[0], patterns, exclude),
    decreases dirs.len(),
{
    if dirs.len() > 0 {
        let rest = dirs.drop_first();
        lemma_found_first(rest, patterns, exclude);
        lemma_found_in(dirs[0], patterns, exclude);
        match found_in(dirs[0], patterns, exclude) {
            Some(p) => {
                let e = choose|e: DirEntry| dirs[0].contains(e) && named_file(e, patterns, exclude) && e.path@ == p;
                assert(dirs[0].contains(e));
            },
            None => {
                if exists|k: int, e: DirEntry|
                    0 <= k < dirs.len() && #[trigger] dirs[k].contains(e) && named_file(e, patterns, exclude) {
                    let (k, e) = choose|k: int, e: DirEntry|
                        0 <= k < dirs.len() && #[trigger] dirs[k].contains(e) && named_file(e, patterns, exclude);
                    assert(k > 0);
                    assert(rest[k - 1] == dirs[k]);
                }
                match found_first(rest, patterns, exclude) {
                    Some(p) => {
                        let (k, e) = choose|k: int, e: DirEntry|
                            0 <= k < rest.len() && #[trigger] rest[k].contains(e) && named_file(e, patterns, exclude)
                                && e.path@ == p;
                        assert(rest[k] == dirs[k + 1]);
                    },
                    None => {},
                }
            },
        }
    }
}

proof fn lemma_search(
    models: Seq<DirEntry>,
    candidates: Seq<Seq<DirEntry>>,
    patterns: Seq<Seq<char>>,
    exclude: Seq<Seq<char>>,
)
    ensures
        slot_filled_from(search(models, candidates, patterns, exclude), models, candidates, patterns, exclude),
{
    let dirs = seq![models] + candidates;
    lemma_found_first(dirs, patterns, exclude);
    lemma_found_in(models, patterns, exclude);
    assert(dirs[0] == models);
    assert forall|k: int| 0 <= k < candidates.len() implies dirs[k + 1] == #[trigger] candidates[k] by {}
    let r = search(models, candidates, patterns, exclude);
    if exists|e: DirEntry| listed(models, candidates, e) && named_file(e, patterns, exclude) {
        let e = choose|e: DirEntry| listed(models, candidates, e) && named_file(e, patterns, exclude);
        if models.contains(e) {
            assert(dirs[0].contains(e));
        } else {
            let k = choose|k: int| 0 <= k < candidates.len() && (#[trigger] candidates[k]).contains(e);
            assert(dirs[k + 1].contains(e));
        }
    }
    if let Some(p) = r {
        let (k, e) = choose|k: int, e: DirEntry|
            0 <= k < dirs.len() && #[trigger] dirs[k].contains(e) && named_file(e, patterns, exclude) && e.path@ == p;
        if k == 0 {
            assert(listed(models, candidates, e));
        } else {
            assert(candidates[k - 1] == dirs[k]);
            assert(listed(models, candidates, e));
        }
    }
    if exists|e: DirEntry| models.contains(e) && named_file(e, patterns, exclude) {
        assert(found_in(models, patterns, exclude) is Some);
    }
}

/// Each companion a checkpoint needs is looked for beside it and in every
/// other models directory: a Flux checkpoint gets a VAE (a file named
/// `ae.safetensors` or holding `vae`, never an ONNX, decoder or taesd file),
/// a CLIP-L (`clip_l`/`clip-l`) and a T5-XXL (`t5xxl`/`t5-xxl`); a Z-Image
/// checkpoint gets the VAE and a Qwen3-4B text encoder (`qwen3-4b`/`qwen3_4b`,
/// no TTS or abliterated one), or an abliterated/heretic one when
/// uncensored. Each slot is filled exactly when such a file is listed
/// anywhere, with the path of such a file, taken beside the checkpoint
/// whenever one is there.
pub proof fn companions_are_found_wherever_they_are(
    models: Seq<DirEntry>,
    candidates: Seq<Seq<DirEntry>>,
    family: ModelFamily,
    uncensored: bool,
)
    ensures
        ({
            let c = companions_for(models, candidates, family, uncensored);
            let vae = seq!["ae.safetensors"@, "vae"@];
            let not_vae = seq![".onnx"@, "decoder"@, "taesd"@];
            let nothing = Seq::<Seq<char>>::empty();
            match family {
                ModelFamily::Flux => {
                    &&& slot_filled_from(c.0, models, candidates, vae, not_vae)
                    &&& c.1 is None
                    &&& slot_filled_from(c.2, models, candidates, seq!["clip_l"@, "clip-l"@], nothing)
                    &&& slot_filled_from(c.3, models, candidates, seq!["t5xxl"@, "t5-xxl"@], nothing)
                },
                ModelFamily::ZImage => {
                    &&& slot_filled_from(c.0, models, candidates, vae, not_vae)
                    &&& (if uncensored {
                        slot_filled_from(c.1, models, candidates, seq!["abliterat"@, "heretic"@], nothing)
                    } else {
                        slot_filled_from(
                            c.1,
                            models,
                            candidates,
                            seq!["qwen3-4b"@, "qwen3_4b"@],
                            seq!["tts"@, "abliterat"@],
                        )
                    })
                    &&& c.2 is None
                    &&& c.3 is None
                },
                ModelFamily::FullCheckpoint => c == (
                    None::<Seq<char>>,
                    None::<Seq<char>>,
                    None::<Seq<char>>,
                    None::<Seq<char>>,
                ),
            }
        }),
{
    lemma_search(models, candidates, vae_patterns(), vae_exclusions());
    lemma_search(models, candidates, clip_patterns(), no_patterns());
    lemma_search(models, candidates, t5_patterns(), no_patterns());
    lemma_search(models, candidates, uncensored_encoder_patterns(), no_patterns());
    lemma_search(models, candidates, qwen_encoder_patterns(), qwen_encoder_exclusions());
}

} // verus!
