//! The settings of a render: which model, at what size, with how many steps
//! and images, as the request and the model's family decide.

use vstd::prelude::*;
use crate::companions::{companions_for, listings, DirEntry};
use crate::engine::{image_args, output_args, request_args, sampling_args, sd_args, tuning_args, weights_args, SdRequest};
use crate::models::{family_cfg_tenths, family_of, family_steps, native_side, default_resolution, default_sampling};
use crate::paths::{batch_pattern, file_name, file_name_string};
use crate::data_url::MaterialisedImage;
use crate::diagnostics::{render_outcome, render_result};
use crate::region::round64;
use crate::text::{chars_of, decimal, owned, signed_decimal, push_decimal, push_str, string_of, trim, trim_chars};

verus! {

/// `v` brought into `lo..=hi`.
pub open spec fn clamp(v: u32, lo: u32, hi: u32) -> u32 {
    if v < lo {
        lo
    } else if v > hi {
        hi
    } else {
        v
    }
}

fn clamp_exec(v: u32, lo: u32, hi: u32) -> (r: u32)
    ensures
        r == clamp(v, lo, hi),
{
    if v < lo {
        lo
    } else if v > hi {
        hi
    } else {
        v
    }
}

/// One image per request unless more are asked for.
pub fn default_variants() -> (n: u32)
    ensures
        n == 1,
{
    1
}

/// The size, steps and number of images of a render.
#[derive(Debug, Clone, Copy, PartialEq, Eq, Structural)]
pub struct RenderSettings {
    pub steps: u32,
    pub width: u32,
    pub height: u32,
    /// Images rendered in one run of the engine.
    pub batch: u32,
    /// The family's guidance, in tenths, used when none is asked for.
    pub cfg_tenths: u32,
}

/// Requested values are kept within what the engine handles; what is not
/// requested follows the model's family.
pub open spec fn settings_for(name: Seq<char>, steps: Option<u32>, width: Option<u32>, height: Option<u32>, variants: u32) -> RenderSettings {
    RenderSettings {
        steps: match steps {
            Some(s) => clamp(s, 1, 100),
            None => family_steps(name),
        },
        width: match width {
            Some(w) => clamp(w, 64, 2048),
            None => native_side(name),
        },
        height: match height {
            Some(h) => clamp(h, 64, 2048),
            None => native_side(name),
        },
        batch: clamp(variants, 1, 8),
        cfg_tenths: family_cfg_tenths(name),
    }
}

/// The settings of a render of the model named `model_name`: steps within
/// 1..=100, sides within 64..=2048, at most 8 images; the family's steps,
/// guidance and native side when the request does not set them.
pub fn render_settings(model_name: &str, steps: Option<u32>, width: Option<u32>, height: Option<u32>, variants: u32) -> (settings: RenderSettings)
    ensures
        settings == settings_for(model_name@, steps, width, height, variants),
{
    let (family_steps, cfg_tenths) = default_sampling(model_name);
    let native = default_resolution(model_name);
    RenderSettings {
        steps: match steps {
            Some(s) => clamp_exec(s, 1, 100),
            None => family_steps,
        },
        width: match width {
            Some(w) => clamp_exec(w, 64, 2048),
            None => native,
        },
        height: match height {
            Some(h) => clamp_exec(h, 64, 2048),
            None => native,
        },
        batch: clamp_exec(variants, 1, 8),
        cfg_tenths,
    }
}

/// Whatever is asked, a render stays within what the engine handles.
pub proof fn settings_stay_in_range(name: Seq<char>, steps: Option<u32>, width: Option<u32>, height: Option<u32>, variants: u32)
    ensures
        1 <= settings_for(name, steps, width, height, variants).steps <= 100,
        64 <= settings_for(name, steps, width, height, variants).width <= 2048,
        64 <= settings_for(name, steps, width, height, variants).height <= 2048,
        1 <= settings_for(name, steps, width, height, variants).batch <= 8,
{
}

/// The prompt given to the engine: the request's, trimmed; a blank prompt
/// is refused.
pub fn render_prompt(prompt: &str) -> (text: Result<String, String>)
    ensures
        match text {
            Ok(p) => trim(prompt@).len() > 0 && p@ == trim(prompt@),
            Err(e) => trim(prompt@).len() == 0 && e@ == "le prompt ne peut pas être vide"@,
        },
{
    let t = trim_chars(&chars_of(prompt));
    if t.len() == 0 {
        return Err(owned("le prompt ne peut pas être vide"));
    }
    Ok(string_of(&t))
}

/// The model named by a request, when it names one (blank names do not).
pub open spec fn named_model(requested: Option<Seq<char>>) -> Option<Seq<char>> {
    match requested {
        Some(m) => if trim(m).len() > 0 {
            Some(m)
        } else {
            None
        },
        None => None,
    }
}

/// The model a render uses: the one requested, else the account's default,
/// else the first installed checkpoint.
pub open spec fn render_model(requested: Option<Seq<char>>, account: Option<Seq<char>>, first: Option<Seq<char>>) -> Result<Seq<char>, Seq<char>> {
    match named_model(requested) {
        Some(m) => Ok(m),
        None => match account {
            Some(a) => Ok(a),
            None => match first {
                Some(f) => Ok(f),
                None => Err("aucun modèle de diffusion installé dans le stockage du plugin"@),
            },
        },
    }
}

/// The model a replacement uses: the one requested (trimmed), else the
/// account's default, else the first installed checkpoint.
pub open spec fn replacement_model(requested: Option<Seq<char>>, account: Option<Seq<char>>, first: Option<Seq<char>>) -> Result<Seq<char>, Seq<char>> {
    match named_model(requested) {
        Some(m) => Ok(trim(m)),
        None => match account {
            Some(a) => Ok(a),
            None => match first {
                Some(f) => Ok(f),
                None => Err("Aucun modèle d'image installé pour un remplacement."@),
            },
        },
    }
}

fn copy_option(s: &Option<String>) -> (r: Option<String>)
    ensures
        r.deep_view() == s.deep_view(),
{
    match s {
        Some(v) => Some(owned(v.as_str())),
        None => None,
    }
}

fn is_blank(s: &String) -> (blank: bool)
    ensures
        blank == (trim(s@).len() == 0),
{
    trim_chars(&chars_of(s.as_str())).len() == 0
}

/// The model a request names, unless it names none or a blank one. When it
/// names one, neither the account's default nor the installed models are
/// needed.
pub fn requested_model(requested: &Option<String>) -> (model: Option<String>)
    ensures
        model.deep_view() == named_model(requested.deep_view()),
{
    match requested {
        Some(m) => if is_blank(m) {
            None
        } else {
            Some(owned(m.as_str()))
        },
        None => None,
    }
}

/// The model of a render: the one requested unless blank, else the
/// account's default, else the first installed checkpoint; refused when
/// none is installed.
pub fn choose_render_model(requested: &Option<String>, account: &Option<String>, first: &Option<String>) -> (model: Result<String, String>)
    ensures
        match model {
            Ok(m) => render_model(requested.deep_view(), account.deep_view(), first.deep_view()) == Ok::<Seq<char>, Seq<char>>(m@),
            Err(e) => render_model(requested.deep_view(), account.deep_view(), first.deep_view()) == Err::<Seq<char>, Seq<char>>(e@),
        },
{
    if let Some(m) = requested {
        if !is_blank(m) {
            return Ok(owned(m.as_str()));
        }
    }
    if let Some(a) = account {
        return Ok(owned(a.as_str()));
    }
    if let Some(f) = first {
        return Ok(owned(f.as_str()));
    }
    Err(owned("aucun modèle de diffusion installé dans le stockage du plugin"))
}

/// The model of a replacement: the one requested (trimmed) unless blank,
/// else the account's default, else the first installed checkpoint.
pub fn choose_replacement_model(requested: &Option<String>, account: &Option<String>, first: &Option<String>) -> (model: Result<String, String>)
    ensures
        match model {
            Ok(m) => replacement_model(requested.deep_view(), account.deep_view(), first.deep_view()) == Ok::<Seq<char>, Seq<char>>(m@),
            Err(e) => replacement_model(requested.deep_view(), account.deep_view(), first.deep_view()) == Err::<Seq<char>, Seq<char>>(e@),
        },
{
    if let Some(m) = requested {
        let t = trim_chars(&chars_of(m.as_str()));
        if t.len() > 0 {
            return Ok(string_of(&t));
        }
    }
    if let Some(a) = account {
        return Ok(owned(a.as_str()));
    }
    if let Some(f) = first {
        return Ok(owned(f.as_str()));
    }
    Err(owned("Aucun modèle d'image installé pour un remplacement."))
}

/// A mask repaints part of a source image, so it needs one.
pub fn check_mask_source(has_mask: bool, has_source: bool) -> (checked: Result<(), String>)
    ensures
        checked is Ok <==> !(has_mask && !has_source),
        checked matches Err(e) ==> e@ == "un masque de retouche demande aussi une image source"@,
{
    if has_mask && !has_source {
        return Err(owned("un masque de retouche demande aussi une image source"));
    }
    Ok(())
}

/// The side at which a replacement is rendered: the crop's side, 768 when
/// it is unknown, rounded to what the engines accept.
pub fn replacement_side(crop: Option<(u32, u32)>) -> (side: u32)
    ensures
        side == ({
            let s = match crop {
                Some(d) => d.0,
                None => 768,
            };
            (if s / 64 > 4 { s / 64 } else { 4 }) * 64
        }),
{
    let s = match crop {
        Some(d) => d.0,
        None => 768,
    };
    round64(s)
}

/// The text of `key` in a JSON document: `None` when the document is not
/// JSON, has no such member, or the member is not a string.
pub uninterp spec fn json_member_text(document: Seq<char>, key: Seq<char>) -> Option<Seq<char>>;

/// `serde_json::from_str::<Value>` on the document, then `Value::get` of the
/// key and `Value::as_str`. What it returns depends on the document and the
/// key alone; it is named here, not described.
#[verifier::external_body]
fn json_text_member(document: &str, key: &str) -> (text: Option<String>)
    ensures
        text.deep_view() == json_member_text(document@, key@),
{
    serde_json::from_str::<serde_json::Value>(document).ok()?.get(key)?.as_str().map(String::from)
}

/// The model an account chose, from the text of its `image_model`
/// preference: trimmed; `None` when there is none or it is blank.
pub fn chosen_model(member: Option<String>) -> (model: Option<String>)
    ensures
        model.deep_view() == match member.deep_view() {
            Some(t) => if trim(t).len() > 0 {
                Some(trim(t))
            } else {
                None
            },
            None => None,
        },
{
    match member {
        Some(t) => {
            let c = trim_chars(&chars_of(t.as_str()));
            if c.len() == 0 {
                None
            } else {
                Some(string_of(&c))
            }
        },
        None => None,
    }
}

/// The image model chosen in the account's model preferences, a JSON
/// document: the text of `image_model`, trimmed; `None` when it is absent,
/// not a string, or blank, or when the document is not JSON.
pub fn preferred_image_model(preferences: &str) -> (model: Option<String>)
    ensures
        model.deep_view() == match json_member_text(preferences@, "image_model"@) {
            Some(t) => if trim(t).len() > 0 {
                Some(trim(t))
            } else {
                None
            },
            None => None,
        },
{
    chosen_model(json_text_member(preferences, "image_model"))
}

/// What a render gives back: the images written and the model used.
pub struct ImageGenResult {
    pub paths: Vec<String>,
    pub model: String,
}

/// The end of a render: the images written by the engine with the model
/// used, or why it failed.
pub fn finish_render(success: bool, written: Vec<String>, errors: &Vec<String>, model: String) -> (result: Result<ImageGenResult, String>)
    ensures
        match result {
            Ok(r) => render_outcome(success, written.deep_view(), errors.deep_view())
                == Ok::<Seq<Seq<char>>, Seq<char>>(r.paths.deep_view()) && r.model@ == model@,
            Err(e) => render_outcome(success, written.deep_view(), errors.deep_view())
                == Err::<Seq<Seq<char>>, Seq<char>>(e@),
        },
{
    match render_result(success, written, errors) {
        Ok(paths) => Ok(ImageGenResult { paths, model }),
        Err(e) => Err(e),
    }
}

/// A file name made unique by a time stamp: `prefix`, the stamp in decimal,
/// then `suffix` (such as `img_<stamp>.png` for a render).
pub fn stamped_file_name(prefix: &str, stamp: u64, suffix: &str) -> (name: String)
    ensures
        name@ == prefix@ + decimal(stamp as nat) + suffix@,
{
    let mut name = owned(prefix);
    push_decimal(&mut name, stamp);
    push_str(&mut name, suffix);
    name
}

/// The scratch file an inline image is written to before the engine reads
/// it.
pub fn scratch_image_name(tag: &str) -> (name: String)
    ensures
        name@ == "locaryn-image-"@ + tag@ + ".png"@,
{
    let mut name = owned("locaryn-image-");
    push_str(&mut name, tag);
    push_str(&mut name, ".png");
    name
}

/// The scratch copy among an image's files, if it is one.
pub open spec fn scratch_of(image: Option<MaterialisedImage>) -> Seq<Seq<char>> {
    match image {
        Some(m) => if m.scratch {
            seq![m.path@]
        } else {
            Seq::empty()
        },
        None => Seq::empty(),
    }
}

/// What is removed once a render is over.
pub open spec fn cleanup_of(
    succeeded: bool,
    input: Option<MaterialisedImage>,
    mask: Option<MaterialisedImage>,
    expected: Seq<Seq<char>>,
) -> Seq<Seq<char>> {
    scratch_of(input) + scratch_of(mask) + if succeeded {
        Seq::empty()
    } else {
        expected
    }
}

fn push_scratch(files: &mut Vec<String>, image: &Option<MaterialisedImage>)
    ensures
        final(files).deep_view() == old(files).deep_view() + scratch_of(*image),
{
    let ghost before = files.deep_view();
    if let Some(m) = image {
        if m.scratch {
            files.push(owned(m.path.as_str()));
        }
    }
    proof {
        assert(files.deep_view() =~= before + scratch_of(*image));
    }
}

/// The files to remove once a render is over: the scratch copies of the
/// source image and the mask (never a file the caller named), and, when the
/// render failed, every file the engine was expected to write.
pub fn render_cleanup(
    succeeded: bool,
    input: &Option<MaterialisedImage>,
    mask: &Option<MaterialisedImage>,
    expected: &Vec<String>,
) -> (files: Vec<String>)
    ensures
        files.deep_view() == cleanup_of(succeeded, *input, *mask, expected.deep_view()),
{
    let mut files: Vec<String> = Vec::new();
    push_scratch(&mut files, input);
    push_scratch(&mut files, mask);
    let ghost before = files.deep_view();
    if !succeeded {
        let mut i: usize = 0;
        while i < expected.len()
            invariant
                i <= expected.len(),
                files.deep_view() =~= before + expected.deep_view().take(i as int),
            decreases expected.len() - i,
        {
            let ghost prev = files.deep_view();
            let copy = owned(expected[i].as_str());
            files.push(copy);
            proof {
                assert(files.deep_view() =~= prev.push(copy@));
                assert(expected.deep_view().take(i + 1) =~= expected.deep_view().take(i as int).push(
                    expected@[i as int]@,
                ));
            }
            i = i + 1;
        }
        proof {
            assert(expected.deep_view().take(i as int) =~= expected.deep_view());
        }
    } else {
        proof {
            assert(files.deep_view() =~= before + Seq::<Seq<char>>::empty());
        }
    }
    files
}

/// A file the caller named is never removed after a render, unless it is
/// also one of the files the engine was to write for a failed render.
pub proof fn callers_images_are_kept(
    succeeded: bool,
    input: Option<MaterialisedImage>,
    mask: Option<MaterialisedImage>,
    expected: Seq<Seq<char>>,
    p: Seq<char>,
)
    requires
        forall|m: MaterialisedImage| (input == Some(m) || mask == Some(m)) && m.scratch ==> m.path@ != p,
        !succeeded ==> !expected.contains(p),
    ensures
        !cleanup_of(succeeded, input, mask, expected).contains(p),
{
    let a = scratch_of(input);
    let b = scratch_of(mask);
    let c: Seq<Seq<char>> = if succeeded {
        Seq::empty()
    } else {
        expected
    };
    if (a + b + c).contains(p) {
        let j = choose|j: int| 0 <= j < (a + b + c).len() && (a + b + c)[j] == p;
        if j < a.len() {
            assert(a[j] == p);
            assert(input->Some_0.scratch);
        } else if j < a.len() + b.len() {
            assert(b[j - a.len()] == p);
            assert(mask->Some_0.scratch);
        } else {
            assert(c[j - a.len() - b.len()] == p);
        }
    }
}

/// A render's command line carries the settings that the request and the
/// model's own file name decide (`name` is the model's name): `-W`, `-H` and `--steps` with the clamped
/// or native values, `-s` with the seed, and at its end `-b` with the batch
/// size when more than one image is rendered, then `-o` with the output.
pub proof fn render_command_line_follows_the_settings(
    r: SdRequest,
    name: Seq<char>,
    steps: Option<u32>,
    width: Option<u32>,
    height: Option<u32>,
    variants: u32,
)
    requires
        r.width == settings_for(name, steps, width, height, variants).width,
        r.height == settings_for(name, steps, width, height, variants).height,
        r.steps == settings_for(name, steps, width, height, variants).steps,
        r.batch_count == settings_for(name, steps, width, height, variants).batch,
    ensures
        sd_args(r) matches Ok(a) ==> {
            let st = settings_for(name, steps, width, height, variants);
            &&& exists|k: int|
                0 <= k && k + 10 <= a.len() && #[trigger] a[k] == "-W"@ && a[k + 1] == decimal(st.width as nat) && a[k + 2]
                    == "-H"@ && a[k + 3] == decimal(st.height as nat) && a[k + 4] == "--steps"@ && a[k + 5]
                    == decimal(st.steps as nat) && a[k + 8] == "-s"@ && a[k + 9] == signed_decimal(r.seed as int)
            &&& st.batch > 1 ==> a.len() >= 4 && a.subrange(a.len() - 4, a.len() as int) == seq![
                "-b"@,
                decimal(st.batch as nat),
                "-o"@,
                batch_pattern(r.out_file@, r.windows),
            ]
            &&& st.batch <= 1 ==> a.len() >= 2 && a.subrange(a.len() - 2, a.len() as int) == seq![
                "-o"@,
                r.out_file@,
            ]
        },
{
    let st = settings_for(name, steps, width, height, variants);
    let model = file_name(r.model_path@, r.windows);
    match sd_args(r) {
        Ok(a) => {
            let neg: Seq<Seq<char>> = match r.negative_prompt {
                Some(n) => if n@.len() > 0 {
                    seq!["-n"@, n@]
                } else {
                    Seq::empty()
                },
                None => Seq::empty(),
            };
            let head: Seq<Seq<char>> = if r.model_is_dir {
                seq!["-M"@, "img_gen"@] + seq!["-m"@, r.directory_checkpoint->Some_0@]
            } else {
                seq!["-M"@, "img_gen"@] + weights_args(
                    family_of(model),
                    r.model_path@,
                    companions_for(r.models_listing@, listings(r.candidate_listings@), family_of(model), r.uncensored),
                )
            };
            assert(a == head + request_args(r));
            let pre = head + (seq!["-p"@, r.prompt@] + neg + image_args(r));
            let sa = sampling_args(r);
            let t = tuning_args(r);
            let o = output_args(r);
            assert(a =~= pre + sa + t + o);
            let k = pre.len() as int;
            assert(a[k] == sa[0] && a[k + 1] == sa[1] && a[k + 2] == sa[2] && a[k + 3] == sa[3]);
            assert(a[k + 4] == sa[4] && a[k + 5] == sa[5] && a[k + 8] == sa[8] && a[k + 9] == sa[9]);
            assert(a.subrange(a.len() - o.len(), a.len() as int) =~= o);
        },
        Err(_) => {},
    }
}

/// What a render request asks for, guidance and strength aside.
pub struct RenderInputs {
    pub prompt: String,
    pub negative_prompt: Option<String>,
    pub width: Option<u32>,
    pub height: Option<u32>,
    pub steps: Option<u32>,
    pub seed: Option<i64>,
    pub sampler: Option<String>,
    pub scheduler: Option<String>,
    pub clip_skip: Option<i32>,
    pub uncensored: bool,
    pub variants: u32,
}

/// What the engine's command line takes from the model on disk and from the
/// machine.
pub struct EngineContext {
    pub model_is_dir: bool,
    pub directory_checkpoint: Option<String>,
    pub models_listing: Vec<DirEntry>,
    pub candidate_listings: Vec<Vec<DirEntry>>,
    pub engine_help: String,
    pub fits_in_vram: bool,
    pub max_vram: Option<String>,
    pub windows: bool,
}

/// The name a render's settings are read from: the file name of the model
/// path, or the model as it was selected when the path has none.
pub open spec fn render_model_name_of(model_path: Seq<char>, selected: Seq<char>, windows: bool) -> Seq<char> {
    if file_name(model_path, windows).len() > 0 {
        file_name(model_path, windows)
    } else {
        selected
    }
}

/// The name a render's settings are read from: the file name of the model
/// path, or the model as it was selected when the path has none.
pub fn render_model_name(model_path: &str, selected: &str, windows: bool) -> (name: String)
    ensures
        name@ == render_model_name_of(model_path@, selected@, windows),
{
    let n = file_name_string(model_path, windows);
    if n.as_str().is_empty() {
        owned(selected)
    } else {
        n
    }
}

/// The seed of a render: the one asked for, else the clock's.
pub open spec fn seed_of(asked: Option<i64>, clock: i64) -> i64 {
    match asked {
        Some(s) => s,
        None => clock,
    }
}

/// The engine request of a render: the trimmed prompt; size, steps and
/// batch as `render_settings` gives them for the model's name; the seed
/// asked for or the clock's; the rest as requested or as found on disk.
pub fn render_request(
    inputs: RenderInputs,
    selected: &str,
    model_path: String,
    clock_seed: i64,
    out_file: String,
    init_image: Option<String>,
    mask: Option<String>,
    cfg_scale: String,
    strength: String,
    context: EngineContext,
) -> (r: SdRequest)
    ensures
        ({
            let st = settings_for(
                render_model_name_of(model_path@, selected@, context.windows),
                inputs.steps,
                inputs.width,
                inputs.height,
                inputs.variants,
            );
            &&& r.width == st.width
            &&& r.height == st.height
            &&& r.steps == st.steps
            &&& r.batch_count == st.batch
            &&& r.seed == seed_of(inputs.seed, clock_seed)
        }),
        r.model_path@ == model_path@,
        r.windows == context.windows,
        r.prompt@ == trim(inputs.prompt@),
        r.negative_prompt.deep_view() == inputs.negative_prompt.deep_view(),
        r.sampler.deep_view() == inputs.sampler.deep_view(),
        r.scheduler.deep_view() == inputs.scheduler.deep_view(),
        r.clip_skip == inputs.clip_skip,
        r.uncensored == inputs.uncensored,
        r.out_file@ == out_file@,
        r.init_image.deep_view() == init_image.deep_view(),
        r.mask.deep_view() == mask.deep_view(),
        r.cfg_scale@ == cfg_scale@,
        r.strength@ == strength@,
        r.model_is_dir == context.model_is_dir,
        r.directory_checkpoint.deep_view() == context.directory_checkpoint.deep_view(),
        r.models_listing@ == context.models_listing@,
        r.candidate_listings@ == context.candidate_listings@,
        r.engine_help@ == context.engine_help@,
        r.fits_in_vram == context.fits_in_vram,
        r.max_vram.deep_view() == context.max_vram.deep_view(),
{
    let name = render_model_name(model_path.as_str(), selected, context.windows);
    let st = render_settings(name.as_str(), inputs.steps, inputs.width, inputs.height, inputs.variants);
    let seed = match inputs.seed {
        Some(s) => s,
        None => clock_seed,
    };
    let prompt = string_of(&trim_chars(&chars_of(inputs.prompt.as_str())));
    SdRequest {
        model_path,
        model_is_dir: context.model_is_dir,
        directory_checkpoint: context.directory_checkpoint,
        models_listing: context.models_listing,
        candidate_listings: context.candidate_listings,
        prompt,
        negative_prompt: inputs.negative_prompt,
        width: st.width,
        height: st.height,
        steps: st.steps,
        cfg_scale,
        seed,
        out_file,
        init_image,
        mask,
        strength,
        sampler: inputs.sampler,
        scheduler: inputs.scheduler,
        clip_skip: inputs.clip_skip,
        batch_count: st.batch,
        uncensored: inputs.uncensored,
        engine_help: context.engine_help,
        windows: context.windows,
        fits_in_vram: context.fits_in_vram,
        max_vram: context.max_vram,
    }
}

/// A render's command line follows the request: `-W` and `-H` carry the
/// requested sides clamped to 64..=2048 or the model's native side,
/// `--steps` the requested steps clamped to 1..=100 or the family's, `-s`
/// the requested seed or the clock's, and the line ends with `-b` and the
/// number of images when more than one is asked for (clamped to 8), then
/// `-o` and the output.
pub proof fn renders_follow_the_request(r: SdRequest, inputs: RenderInputs, selected: Seq<char>, clock_seed: i64)
    requires
        ({
            let st = settings_for(
                render_model_name_of(r.model_path@, selected, r.windows),
                inputs.steps,
                inputs.width,
                inputs.height,
                inputs.variants,
            );
            &&& r.width == st.width
            &&& r.height == st.height
            &&& r.steps == st.steps
            &&& r.batch_count == st.batch
            &&& r.seed == seed_of(inputs.seed, clock_seed)
        }),
    ensures
        sd_args(r) matches Ok(a) ==> {
            let name = render_model_name_of(r.model_path@, selected, r.windows);
            let w = match inputs.width {
                Some(v) => clamp(v, 64, 2048),
                None => native_side(name),
            };
            let h = match inputs.height {
                Some(v) => clamp(v, 64, 2048),
                None => native_side(name),
            };
            let s = match inputs.steps {
                Some(v) => clamp(v, 1, 100),
                None => family_steps(name),
            };
            let n = clamp(inputs.variants, 1, 8);
            &&& exists|k: int|
                0 <= k && k + 10 <= a.len() && #[trigger] a[k] == "-W"@ && a[k + 1] == decimal(w as nat) && a[k + 2]
                    == "-H"@ && a[k + 3] == decimal(h as nat) && a[k + 4] == "--steps"@ && a[k + 5] == decimal(
                    s as nat,
                ) && a[k + 8] == "-s"@ && a[k + 9] == signed_decimal(seed_of(inputs.seed, clock_seed) as int)
            &&& n > 1 ==> a.len() >= 4 && a.subrange(a.len() - 4, a.len() as int) == seq![
                "-b"@,
                decimal(n as nat),
                "-o"@,
                batch_pattern(r.out_file@, r.windows),
            ]
            &&& n <= 1 ==> a.len() >= 2 && a.subrange(a.len() - 2, a.len() as int) == seq!["-o"@, r.out_file@]
        },
{
    let name = render_model_name_of(r.model_path@, selected, r.windows);
    render_command_line_follows_the_settings(r, name, inputs.steps, inputs.width, inputs.height, inputs.variants);
}

} // verus!
