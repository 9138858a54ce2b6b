//! The command line of the stable-diffusion.cpp engine.

use vstd::prelude::*;
use crate::companions::{
    companions_are_found_wherever_they_are, companions_for, discover_companions, listed, listings,
    missing_companions, missing_for, named_file, CompanionPaths, DirEntry,
};
use crate::models::{classify_model, family_of, ModelFamily};
use crate::paths::{batch_files, batch_output, file_name};
use crate::text::{
    chars_of, contains, contains_str, decimal, decimal_string, owned, push_str, signed_decimal,
    signed_decimal_string, string_of, views,
};

verus! {

/// Everything the engine's command line is made from. Paths are texts.
pub struct SdRequest {
    /// The checkpoint file, or a model directory.
    pub model_path: String,
    /// Whether `model_path` is a directory.
    pub model_is_dir: bool,
    /// For a directory: what `-m` must name (a weights file at its top
    /// level, or the directory itself for a diffusers repository); `None`
    /// when the directory holds no model.
    pub directory_checkpoint: Option<String>,
    /// The listing of the primary models directory, where companions are
    /// looked for first.
    pub models_listing: Vec<DirEntry>,
    /// The listings of the other candidate models directories, in order.
    pub candidate_listings: Vec<Vec<DirEntry>>,
    pub prompt: String,
    pub negative_prompt: Option<String>,
    pub width: u32,
    pub height: u32,
    pub steps: u32,
    /// The guidance scale, written with two decimals.
    pub cfg_scale: String,
    pub seed: i64,
    /// The image file to write.
    pub out_file: String,
    pub init_image: Option<String>,
    /// White = repaint, black = keep. Only used with `init_image`.
    pub mask: Option<String>,
    /// The share of the source image rewritten, clamped to 0..1 and written
    /// with two decimals. Only used with `init_image`.
    pub strength: String,
    pub sampler: Option<String>,
    pub scheduler: Option<String>,
    pub clip_skip: Option<i32>,
    pub batch_count: u32,
    pub uncensored: bool,
    /// What the installed engine prints for `--help`: the flags it knows.
    pub engine_help: String,
    /// Whether the engine runs on Windows, which decides how paths are read.
    pub windows: bool,
    /// Whether the weights fit in the video memory budget.
    pub fits_in_vram: bool,
    /// The video memory cap to pass to `--max-vram`, when a budget is known.
    pub max_vram: Option<String>,
}

/// `[flag, value]` when there is a value.
pub open spec fn opt_pair(flag: Seq<char>, value: Option<Seq<char>>) -> Seq<Seq<char>> {
    match value {
        Some(v) => seq![flag, v],
        None => Seq::empty(),
    }
}

/// `[flag, value]` when there is a non-empty value and the engine knows `flag`.
pub open spec fn supported_pair(help: Seq<char>, flag: Seq<char>, value: Option<Seq<char>>) -> Seq<Seq<char>> {
    match value {
        Some(v) => if v.len() > 0 && contains(help, flag) {
            seq![flag, v]
        } else {
            Seq::empty()
        },
        None => Seq::empty(),
    }
}

/// `[flag]` when the engine knows it.
pub open spec fn supported_flag(help: Seq<char>, flag: Seq<char>) -> Seq<Seq<char>> {
    if contains(help, flag) {
        seq![flag]
    } else {
        Seq::empty()
    }
}

/// The texts of `parts` separated by `sep`.
pub open spec fn join_texts(parts: Seq<Seq<char>>, sep: Seq<char>) -> Seq<char>
    decreases parts.len(),
{
    if parts.len() == 0 {
        Seq::empty()
    } else if parts.len() == 1 {
        parts[0]
    } else {
        join_texts(parts.drop_last(), sep) + sep + parts.last()
    }
}

/// Where the weights go, given what the card holds: nothing when they fit;
/// `--auto-fit` when the engine knows it; otherwise the offload flags that
/// the engine knows.
pub open spec fn placement_args(fits: bool, max_vram: Option<Seq<char>>, help: Seq<char>) -> Seq<Seq<char>> {
    if fits {
        Seq::empty()
    } else if contains(help, "--auto-fit"@) {
        seq!["--auto-fit"@]
    } else {
        supported_flag(help, "--offload-to-cpu"@) + (match max_vram {
            Some(v) => if contains(help, "--max-vram"@) {
                seq!["--max-vram"@, v]
            } else {
                Seq::empty()
            },
            None => Seq::empty(),
        }) + (if contains(help, "--backend"@) {
            seq!["--backend"@, "te=cpu"@]
        } else {
            Seq::empty()
        })
    }
}

/// The arguments naming the weights of a single-file checkpoint.
pub open spec fn weights_args(family: ModelFamily, path: Seq<char>, c: CompanionPaths) -> Seq<Seq<char>> {
    match family {
        ModelFamily::FullCheckpoint => seq!["-m"@, path],
        _ => seq!["--diffusion-model"@, path] + opt_pair("--vae"@, c.0) + opt_pair("--llm"@, c.1)
            + opt_pair("--clip_l"@, c.2) + opt_pair("--t5xxl"@, c.3),
    }
}

/// The number of images rendered at once: between 1 and 8.
pub open spec fn batch_size(requested: u32) -> u32 {
    if requested < 1 {
        1
    } else if requested > 8 {
        8
    } else {
        requested
    }
}

/// The source image, its strength and its mask.
pub open spec fn image_args(r: SdRequest) -> Seq<Seq<char>> {
    match r.init_image {
        Some(i) => seq!["-i"@, i@, "--strength"@, r.strength@] + opt_pair("--mask"@, r.mask.deep_view()),
        None => Seq::empty(),
    }
}

/// Size, steps, guidance and seed.
pub open spec fn sampling_args(r: SdRequest) -> Seq<Seq<char>> {
    seq![
        "-W"@,
        decimal(r.width as nat),
        "-H"@,
        decimal(r.height as nat),
        "--steps"@,
        decimal(r.steps as nat),
        "--cfg-scale"@,
        r.cfg_scale@,
        "-s"@,
        signed_decimal(r.seed as int),
    ]
}

/// The tuning flags, each given only when the engine knows it.
pub open spec fn tuning_args(r: SdRequest) -> Seq<Seq<char>> {
    let help = r.engine_help@;
    supported_pair(help, "--sampling-method"@, r.sampler.deep_view()) + supported_pair(
        help,
        "--schedule"@,
        r.scheduler.deep_view(),
    ) + (match r.clip_skip {
        Some(k) => if k > 0 && contains(help, "--clip-skip"@) {
            seq!["--clip-skip"@, signed_decimal(k as int)]
        } else {
            Seq::empty()
        },
        None => Seq::empty(),
    }) + supported_flag(help, "--diffusion-fa"@) + supported_flag(help, "--vae-tiling"@)
        + placement_args(r.fits_in_vram, r.max_vram.deep_view(), help)
}

/// Batch size and output.
pub open spec fn output_args(r: SdRequest) -> Seq<Seq<char>> {
    let count = batch_size(r.batch_count);
    (if count > 1 {
        seq!["-b"@, decimal(count as nat)]
    } else {
        Seq::empty()
    }) + seq!["-o"@, batch_files(r.out_file@, count as nat, r.windows).0]
}

/// Everything after the weights.
pub open spec fn request_args(r: SdRequest) -> Seq<Seq<char>> {
    seq!["-p"@, r.prompt@] + (match r.negative_prompt {
        Some(n) => if n@.len() > 0 {
            seq!["-n"@, n@]
        } else {
            Seq::empty()
        },
        None => Seq::empty(),
    }) + image_args(r) + sampling_args(r) + tuning_args(r) + output_args(r)
}

/// The engine's command line for a request, or why there is none.
pub open spec fn sd_args(r: SdRequest) -> Result<Seq<Seq<char>>, Seq<char>> {
    let name = file_name(r.model_path@, r.windows);
    let family = family_of(name);
    let c = companions_for(r.models_listing@, listings(r.candidate_listings@), family, r.uncensored);
    let head = seq!["-M"@, "img_gen"@];
    if r.model_is_dir {
        match r.directory_checkpoint {
            None => Err("dossier de modèle invalide : "@ + r.model_path@),
            Some(d) => Ok(head + seq!["-m"@, d@] + request_args(r)),
        }
    } else {
        let missing = missing_for(family, c);
        if missing.len() > 0 {
            Err(name + " nécessite : "@ + join_texts(missing, ", "@))
        } else {
            Ok(head + weights_args(family, r.model_path@, c) + request_args(r))
        }
    }
}

/// The names under which the engine ships, the current one first.
pub fn sd_executable_names(windows: bool) -> (names: [&'static str; 2])
    ensures
        views(names@) == if windows {
            seq!["sd-cli.exe"@, "sd.exe"@]
        } else {
            seq!["sd-cli"@, "sd"@]
        },
{
    let names = if windows {
        ["sd-cli.exe", "sd.exe"]
    } else {
        ["sd-cli", "sd"]
    };
    proof {
        assert(views(names@) =~= if windows {
            seq!["sd-cli.exe"@, "sd.exe"@]
        } else {
            seq!["sd-cli"@, "sd"@]
        });
    }
    names
}

fn push_arg(args: &mut Vec<String>, a: &str)
    ensures
        final(args).deep_view() == old(args).deep_view().push(a@),
{
    let s = owned(a);
    args.push(s);
    proof {
        assert(args.deep_view() =~= old(args).deep_view().push(a@));
    }
}

fn push_owned(args: &mut Vec<String>, a: String)
    ensures
        final(args).deep_view() == old(args).deep_view().push(a@),
{
    args.push(a);
    proof {
        assert(args.deep_view() =~= old(args).deep_view().push(a@));
    }
}

fn copy_string(s: &String) -> (r: String)
    ensures
        r@ == s@,
{
    owned(s.as_str())
}

fn copy_option(s: &Option<String>) -> (r: Option<String>)
    ensures
        r.deep_view() == s.deep_view(),
{
    match s {
        Some(v) => Some(copy_string(v)),
        None => None,
    }
}

/// Flags that place the weights when they do not fit in video memory:
/// nothing when they fit; `--auto-fit` when the engine knows it; otherwise
/// the offload to the processor, the video memory cap and the text encoder
/// on the processor, each when the engine knows it.
pub fn memory_placement_args(fits: bool, max_vram: &Option<String>, help: &str) -> (args: Vec<String>)
    ensures
        args.deep_view() == placement_args(fits, max_vram.deep_view(), help@),
{
    let mut args: Vec<String> = Vec::new();
    if fits {
        proof {
            assert(args.deep_view() =~= Seq::<Seq<char>>::empty());
        }
        return args;
    }
    let h = chars_of(help);
    if contains_str(&h, "--auto-fit") {
        push_arg(&mut args, "--auto-fit");
        proof {
            assert(args.deep_view() =~= seq!["--auto-fit"@]);
        }
        return args;
    }
    let ghost a0 = args.deep_view();
    if contains_str(&h, "--offload-to-cpu") {
        push_arg(&mut args, "--offload-to-cpu");
    }
    let ghost a1 = args.deep_view();
    proof {
        assert(a1 =~= a0 + supported_flag(help@, "--offload-to-cpu"@));
    }
    match max_vram {
        Some(v) => {
            if contains_str(&h, "--max-vram") {
                push_arg(&mut args, "--max-vram");
                push_owned(&mut args, copy_string(v));
            }
        },
        None => {},
    }
    let ghost a2 = args.deep_view();
    if contains_str(&h, "--backend") {
        push_arg(&mut args, "--backend");
        push_arg(&mut args, "te=cpu");
    }
    proof {
        assert(args.deep_view() =~= placement_args(fits, max_vram.deep_view(), help@));
    }
    args
}

fn join_messages(parts: &Vec<&'static str>, sep: &str) -> (r: String)
    ensures
        r@ == join_texts(views(parts@), sep@),
{
    let mut r = String::new();
    let mut i: usize = 0;
    while i < parts.len()
        invariant
            i <= parts.len(),
            r@ == join_texts(views(parts@).take(i as int), sep@),
        decreases parts.len() - i,
    {
        let ghost before = r@;
        if i > 0 {
            push_str(&mut r, sep);
        }
        push_str(&mut r, parts[i]);
        proof {
            let t = views(parts@).take(i + 1);
            assert(t.drop_last() =~= views(parts@).take(i as int));
            if i == 0 {
                assert(r@ =~= t[0]);
            } else {
                assert(r@ =~= before + sep@ + t.last());
            }
        }
        i = i + 1;
    }
    proof {
        assert(views(parts@).take(i as int) =~= views(parts@));
    }
    r
}

fn append_args(args: &mut Vec<String>, more: Vec<String>)
    ensures
        final(args).deep_view() == old(args).deep_view() + more.deep_view(),
{
    let ghost start = args.deep_view();
    let mut j: usize = 0;
    while j < more.len()
        invariant
            j <= more.len(),
            args.deep_view() =~= start + more.deep_view().take(j as int),
        decreases more.len() - j,
    {
        push_owned(args, copy_string(&more[j]));
        proof {
            assert(more.deep_view().take(j + 1) =~= more.deep_view().take(j as int).push(
                more@[j as int]@,
            ));
        }
        j = j + 1;
    }
    proof {
        assert(more.deep_view().take(j as int) =~= more.deep_view());
    }
}

/// `-p` and the negative prompt, then the source image.
fn prompt_image_args(request: &SdRequest) -> (args: Vec<String>)
    ensures
        args.deep_view() == seq!["-p"@, request.prompt@] + (match request.negative_prompt {
            Some(n) => if n@.len() > 0 {
                seq!["-n"@, n@]
            } else {
                Seq::empty()
            },
            None => Seq::empty(),
        }) + image_args(*request),
{
    let mut args: Vec<String> = Vec::new();
    push_arg(&mut args, "-p");
    push_owned(&mut args, copy_string(&request.prompt));
    match &request.negative_prompt {
        Some(n) => {
            if !n.as_str().is_empty() {
                push_arg(&mut args, "-n");
                push_owned(&mut args, copy_string(n));
            }
        },
        None => {},
    }
    let ghost after_prompt = args.deep_view();
    match &request.init_image {
        Some(i) => {
            push_arg(&mut args, "-i");
            push_owned(&mut args, copy_string(i));
            push_arg(&mut args, "--strength");
            push_owned(&mut args, copy_string(&request.strength));
            if let Some(m) = &request.mask {
                push_arg(&mut args, "--mask");
                push_owned(&mut args, copy_string(m));
            }
        },
        None => {},
    }
    proof {
        assert(args.deep_view() =~= after_prompt + image_args(*request));
    }
    args
}

fn sampling_args_exec(request: &SdRequest) -> (args: Vec<String>)
    ensures
        args.deep_view() == sampling_args(*request),
{
    let mut args: Vec<String> = Vec::new();
    push_arg(&mut args, "-W");
    push_owned(&mut args, decimal_string(request.width as u64));
    push_arg(&mut args, "-H");
    push_owned(&mut args, decimal_string(request.height as u64));
    push_arg(&mut args, "--steps");
    push_owned(&mut args, decimal_string(request.steps as u64));
    push_arg(&mut args, "--cfg-scale");
    push_owned(&mut args, copy_string(&request.cfg_scale));
    push_arg(&mut args, "-s");
    push_owned(&mut args, signed_decimal_string(request.seed));
    proof {
        assert(args.deep_view() =~= sampling_args(*request));
    }
    args
}

fn supported_pair_exec(help: &Vec<char>, flag: &str, value: &Option<String>) -> (args: Vec<String>)
    ensures
        args.deep_view() == supported_pair(help@, flag@, value.deep_view()),
{
    let mut args: Vec<String> = Vec::new();
    match value {
        Some(s) => {
            if !s.as_str().is_empty() && contains_str(help, flag) {
                push_arg(&mut args, flag);
                push_owned(&mut args, copy_string(s));
            }
        },
        None => {},
    }
    proof {
        assert(args.deep_view() =~= supported_pair(help@, flag@, value.deep_view()));
    }
    args
}

fn supported_flag_exec(help: &Vec<char>, flag: &str) -> (args: Vec<String>)
    ensures
        args.deep_view() == supported_flag(help@, flag@),
{
    let mut args: Vec<String> = Vec::new();
    if contains_str(help, flag) {
        push_arg(&mut args, flag);
    }
    proof {
        assert(args.deep_view() =~= supported_flag(help@, flag@));
    }
    args
}

fn tuning_args_exec(request: &SdRequest) -> (args: Vec<String>)
    ensures
        args.deep_view() == tuning_args(*request),
{
    let help = chars_of(request.engine_help.as_str());
    let mut args = supported_pair_exec(&help, "--sampling-method", &request.sampler);
    append_args(&mut args, supported_pair_exec(&help, "--schedule", &request.scheduler));
    let ghost t2 = args.deep_view();
    match request.clip_skip {
        Some(k) => {
            if k > 0 && contains_str(&help, "--clip-skip") {
                push_arg(&mut args, "--clip-skip");
                push_owned(&mut args, signed_decimal_string(k as i64));
            }
        },
        None => {},
    }
    let ghost t3 = args.deep_view();
    append_args(&mut args, supported_flag_exec(&help, "--diffusion-fa"));
    append_args(&mut args, supported_flag_exec(&help, "--vae-tiling"));
    let placement = memory_placement_args(
        request.fits_in_vram,
        &request.max_vram,
        request.engine_help.as_str(),
    );
    append_args(&mut args, placement);
    proof {
        assert(args.deep_view() =~= tuning_args(*request));
    }
    args
}

fn output_args_exec(request: &SdRequest) -> (args: Vec<String>)
    ensures
        args.deep_view() == output_args(*request),
{
    let mut args: Vec<String> = Vec::new();
    let count: u32 = if request.batch_count < 1 {
        1
    } else if request.batch_count > 8 {
        8
    } else {
        request.batch_count
    };
    if count > 1 {
        push_arg(&mut args, "-b");
        push_owned(&mut args, decimal_string(count as u64));
    }
    let (pattern, _files) = batch_output(request.out_file.as_str(), count, request.windows);
    push_arg(&mut args, "-o");
    push_owned(&mut args, pattern);
    proof {
        assert(args.deep_view() =~= output_args(*request));
    }
    args
}

/// `-M img_gen` and the arguments naming the weights, or why the model
/// cannot be used.
fn model_args(request: &SdRequest) -> (args: Result<Vec<String>, String>)
    ensures
        match args {
            Ok(v) => sd_args(*request) == Ok::<Seq<Seq<char>>, Seq<char>>(v.deep_view() + request_args(*request)),
            Err(e) => sd_args(*request) == Err::<Seq<Seq<char>>, Seq<char>>(e@),
        },
{
    let name_text = crate::paths::file_name_string(request.model_path.as_str(), request.windows);
    let family = classify_model(name_text.as_str());
    let companions = discover_companions(
        &request.models_listing,
        &request.candidate_listings,
        family,
        request.uncensored,
    );
    let mut args: Vec<String> = Vec::new();
    push_arg(&mut args, "-M");
    push_arg(&mut args, "img_gen");
    let ghost head = args.deep_view();
    assert(head =~= seq!["-M"@, "img_gen"@]);
    if request.model_is_dir {
        match &request.directory_checkpoint {
            None => {
                let mut msg = owned("dossier de modèle invalide : ");
                push_str(&mut msg, request.model_path.as_str());
                return Err(msg);
            },
            Some(d) => {
                push_arg(&mut args, "-m");
                push_owned(&mut args, copy_string(d));
                proof {
                    assert(args.deep_view() =~= head + seq!["-m"@, d@]);
                }
                return Ok(args);
            },
        }
    }
    let missing = missing_companions(family, &companions);
    if missing.len() > 0 {
        let mut msg = copy_string(&name_text);
        push_str(&mut msg, " nécessite : ");
        let listed = join_messages(&missing, ", ");
        push_str(&mut msg, listed.as_str());
        return Err(msg);
    }
    match family {
        ModelFamily::FullCheckpoint => {
            push_arg(&mut args, "-m");
            push_owned(&mut args, copy_string(&request.model_path));
        },
        _ => {
            push_arg(&mut args, "--diffusion-model");
            push_owned(&mut args, copy_string(&request.model_path));
            let ghost w0 = args.deep_view();
            if let Some(v) = &companions.vae {
                push_arg(&mut args, "--vae");
                push_owned(&mut args, copy_string(v));
            }
            let ghost w1 = args.deep_view();
            if let Some(v) = &companions.llm {
                push_arg(&mut args, "--llm");
                push_owned(&mut args, copy_string(v));
            }
            let ghost w2 = args.deep_view();
            if let Some(v) = &companions.clip_l {
                push_arg(&mut args, "--clip_l");
                push_owned(&mut args, copy_string(v));
            }
            let ghost w3 = args.deep_view();
            if let Some(v) = &companions.t5xxl {
                push_arg(&mut args, "--t5xxl");
                push_owned(&mut args, copy_string(v));
            }
            proof {
                assert(w1 =~= w0 + opt_pair("--vae"@, companions@.0));
                assert(w2 =~= w1 + opt_pair("--llm"@, companions@.1));
                assert(w3 =~= w2 + opt_pair("--clip_l"@, companions@.2));
                assert(args.deep_view() =~= w3 + opt_pair("--t5xxl"@, companions@.3));
            }
        },
    }
    proof {
        assert(args.deep_view() =~= head + weights_args(family, request.model_path@, companions@));
    }
    Ok(args)
}

/// The engine's command line for a request. The family is read from the
/// model's file name; a single-file Z-Image or Flux checkpoint is given its
/// VAE and text encoders, and refused with the list of what is missing; a
/// directory is given to `-m` as found in it. Tuning flags are passed only
/// when the engine's help lists them.
pub fn build_args(request: &SdRequest) -> (args: Result<Vec<String>, String>)
    ensures
        match args {
            Ok(v) => sd_args(*request) == Ok::<Seq<Seq<char>>, Seq<char>>(v.deep_view()),
            Err(e) => sd_args(*request) == Err::<Seq<Seq<char>>, Seq<char>>(e@),
        },
{
    let mut args = match model_args(request) {
        Ok(v) => v,
        Err(e) => {
            return Err(e);
        },
    };
    let ghost head = args.deep_view();
    append_args(&mut args, prompt_image_args(request));
    append_args(&mut args, sampling_args_exec(request));
    append_args(&mut args, tuning_args_exec(request));
    append_args(&mut args, output_args_exec(request));
    proof {
        assert(args.deep_view() =~= head + request_args(*request));
    }
    Ok(args)
}

/// `p` is the path of a listed regular file whose lower-cased name holds one
/// of `needles` and none of `avoid`.
pub open spec fn listed_file_at(r: SdRequest, p: Seq<char>, needles: Seq<Seq<char>>, avoid: Seq<Seq<char>>) -> bool {
    exists|e: DirEntry|
        listed(r.models_listing@, listings(r.candidate_listings@), e) && named_file(e, needles, avoid) && e.path@ == p
}

/// What may follow each companion flag: `--vae` a VAE file, `--llm` the
/// text encoder the request calls for, `--clip_l` a CLIP-L file and
/// `--t5xxl` a T5-XXL file, each one listed beside the checkpoint or in
/// another models directory.
pub open spec fn companion_flag_fits(r: SdRequest, flag: Seq<char>, p: Seq<char>) -> bool {
    &&& flag == "--vae"@ ==> listed_file_at(r, p, seq!["ae.safetensors"@, "vae"@], seq![".onnx"@, "decoder"@, "taesd"@])
    &&& flag == "--llm"@ ==> if r.uncensored {
        listed_file_at(r, p, seq!["abliterat"@, "heretic"@], Seq::empty())
    } else {
        listed_file_at(r, p, seq!["qwen3-4b"@, "qwen3_4b"@], seq!["tts"@, "abliterat"@])
    }
    &&& flag == "--clip_l"@ ==> listed_file_at(r, p, seq!["clip_l"@, "clip-l"@], Seq::empty())
    &&& flag == "--t5xxl"@ ==> listed_file_at(r, p, seq!["t5xxl"@, "t5-xxl"@], Seq::empty())
}

/// Flag and value pairs, each value fitting its flag.
pub open spec fn pairs_fit(r: SdRequest, w: Seq<Seq<char>>) -> bool {
    &&& w.len() % 2 == 0
    &&& forall|i: int| 0 <= i < w.len() && i % 2 == 0 ==> companion_flag_fits(r, #[trigger] w[i], w[i + 1])
}

proof fn lemma_pairs_concat(r: SdRequest, x: Seq<Seq<char>>, y: Seq<Seq<char>>)
    requires
        pairs_fit(r, x),
        pairs_fit(r, y),
    ensures
        pairs_fit(r, x + y),
{
    let z = x + y;
    assert forall|i: int| 0 <= i < z.len() && i % 2 == 0 implies companion_flag_fits(r, #[trigger] z[i], z[i + 1]) by {
        if i < x.len() {
            assert(z[i] == x[i] && z[i + 1] == x[i + 1]);
        } else {
            assert(z[i] == y[i - x.len()] && z[i + 1] == y[i - x.len() + 1]);
        }
    }
}

proof fn lemma_pair_fits(r: SdRequest, flag: Seq<char>, v: Option<Seq<char>>)
    requires
        v matches Some(p) ==> companion_flag_fits(r, flag, p),
    ensures
        pairs_fit(r, opt_pair(flag, v)),
{
    let w = opt_pair(flag, v);
    if v is Some {
        assert forall|i: int| 0 <= i < w.len() && i % 2 == 0 implies companion_flag_fits(r, #[trigger] w[i], w[i + 1]) by {
            assert(i == 0);
        }
    }
}

/// A single-file checkpoint's companions go under their own flags: in the
/// engine's command line, between the weights and `-p`, `--vae` is always
/// followed by a listed VAE file, `--llm` by a listed text encoder of the
/// kind the request calls for, `--clip_l` by a listed CLIP-L file and
/// `--t5xxl` by a listed T5-XXL file.
pub proof fn companions_go_under_their_own_flags(r: SdRequest)
    requires
        !r.model_is_dir,
    ensures
        sd_args(r) matches Ok(a) ==> exists|m: int|
            4 <= m < a.len() && m % 2 == 0 && a[m] == "-p"@ && a[3] == r.model_path@ && #[trigger] pairs_fit(
                r,
                a.subrange(4, m),
            ),
{
    reveal_strlit("--vae");
    reveal_strlit("--llm");
    reveal_strlit("--clip_l");
    reveal_strlit("--t5xxl");
    assert("--vae"@[2] != "--llm"@[2]);
    assert("--vae"@.len() != "--clip_l"@.len() && "--vae"@.len() != "--t5xxl"@.len());
    assert("--llm"@.len() != "--clip_l"@.len() && "--llm"@.len() != "--t5xxl"@.len());
    assert("--clip_l"@.len() != "--t5xxl"@.len());
    let name = file_name(r.model_path@, r.windows);
    let family = family_of(name);
    let models = r.models_listing@;
    let cands = listings(r.candidate_listings@);
    let c = companions_for(models, cands, family, r.uncensored);
    companions_are_found_wherever_they_are(models, cands, family, r.uncensored);
    if let Ok(a) = sd_args(r) {
        let head = seq!["-M"@, "img_gen"@];
        let wa = weights_args(family, r.model_path@, c);
        assert(a == head + wa + request_args(r));
        let pairs: Seq<Seq<char>> = match family {
            ModelFamily::FullCheckpoint => Seq::empty(),
            _ => opt_pair("--vae"@, c.0) + opt_pair("--llm"@, c.1) + opt_pair("--clip_l"@, c.2) + opt_pair(
                "--t5xxl"@,
                c.3,
            ),
        };
        match family {
            ModelFamily::FullCheckpoint => {
                assert(pairs_fit(r, pairs));
                assert(a[2] == "-m"@);
            },
            _ => {
                lemma_pair_fits(r, "--vae"@, c.0);
                lemma_pair_fits(r, "--llm"@, c.1);
                lemma_pair_fits(r, "--clip_l"@, c.2);
                lemma_pair_fits(r, "--t5xxl"@, c.3);
                lemma_pairs_concat(r, opt_pair("--vae"@, c.0), opt_pair("--llm"@, c.1));
                lemma_pairs_concat(r, opt_pair("--vae"@, c.0) + opt_pair("--llm"@, c.1), opt_pair("--clip_l"@, c.2));
                lemma_pairs_concat(
                    r,
                    opt_pair("--vae"@, c.0) + opt_pair("--llm"@, c.1) + opt_pair("--clip_l"@, c.2),
                    opt_pair("--t5xxl"@, c.3),
                );
                assert(wa =~= seq!["--diffusion-model"@, r.model_path@] + pairs);
            },
        }
        let m: int = 4 + pairs.len() as int;
        let rest = request_args(r);
        assert(a =~= seq!["-M"@, "img_gen"@, wa[0], r.model_path@] + pairs + rest);
        assert(rest[0] == "-p"@);
        assert(a[m] == rest[0]);
        assert(a.subrange(4, m) =~= pairs);
    }
}

} // verus!
