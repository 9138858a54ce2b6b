//! What a weights file is: its diffusion family, the resolution and sampling
//! it was trained for, and whether it can render an image at all.

use vstd::prelude::*;
use crate::text::{
    contains, contains_any, contains_any_str, contains_str, ends_with, ends_with_str, lower,
    lower_chars_of, views,
};

verus! {

/// The three families whose command lines differ.
#[derive(Debug, Clone, Copy, PartialEq, Eq, Structural)]
pub enum ModelFamily {
    ZImage,
    Flux,
    FullCheckpoint,
}

pub open spec fn z_image_markers() -> Seq<Seq<char>> {
    seq!["z_image"@, "z-image"@, "z-img"@, "z_img"@, "zimg"@]
}

/// Names of the full checkpoints trained at 1024 px.
pub open spec fn large_markers() -> Seq<Seq<char>> {
    seq!["sdxl"@, "sd_xl"@, "sd-xl"@, "sd3"@, "playground-v"@, "kolors"@, "pixart"@]
}

/// Names of the distilled checkpoints that need few steps.
pub open spec fn turbo_markers() -> Seq<Seq<char>> {
    seq!["turbo"@, "schnell"@, "lightning"@]
}

/// Files that accompany a checkpoint without being able to render an image:
/// VAE, text encoders, projectors, tokenizers.
pub open spec fn companion_markers() -> Seq<Seq<char>> {
    seq![
        "mmproj-"@,
        "ae.safetensors"@,
        "vae"@,
        "clip"@,
        "t5xxl"@,
        "t5-xxl"@,
        "text_encoder"@,
        "text-encoder"@,
        "tokenizer"@,
        "embed"@,
    ]
}

/// Recognised diffusion families, looked for in the whole relative path.
pub open spec fn diffusion_families() -> Seq<Seq<char>> {
    seq![
        "stable-diffusion"@,
        "stable_diffusion"@,
        "sd-v1"@,
        "sd_v1"@,
        "sd15"@,
        "sd3"@,
        "sdxl"@,
        "sd_xl"@,
        "flux"@,
        "z_image"@,
        "z-image"@,
        "z_img"@,
        "zimg"@,
        "qwen-image"@,
        "qwen_image"@,
        "krea"@,
        "dreamshaper"@,
        "juggernaut"@,
        "pony"@,
        "playground-v"@,
        "kolors"@,
        "hunyuan-dit"@,
        "pixart"@,
        "deliberate"@,
        "realvis"@,
        "illustrious"@,
        "noobai"@,
    ]
}

pub open spec fn weight_extensions() -> Seq<Seq<char>> {
    seq![".gguf"@, ".safetensors"@, ".ckpt"@]
}

/// The family a file name belongs to: a Z-Image marker first, then "flux",
/// every other name being a full checkpoint. Case does not matter.
pub open spec fn family_of(name: Seq<char>) -> ModelFamily {
    let l = lower(name);
    if contains_any(l, z_image_markers()) {
        ModelFamily::ZImage
    } else if contains(l, "flux"@) {
        ModelFamily::Flux
    } else {
        ModelFamily::FullCheckpoint
    }
}

/// The side, in pixels, at which the family of `name` was trained.
pub open spec fn native_side(name: Seq<char>) -> u32 {
    match family_of(name) {
        ModelFamily::ZImage | ModelFamily::Flux => 1024,
        ModelFamily::FullCheckpoint => if contains_any(lower(name), large_markers()) {
            1024
        } else {
            512
        },
    }
}

/// Whether `name` is a distilled checkpoint.
pub open spec fn is_turbo(name: Seq<char>) -> bool {
    contains_any(lower(name), turbo_markers())
}

/// Sampling steps for the family of `name`.
pub open spec fn family_steps(name: Seq<char>) -> u32 {
    match family_of(name) {
        ModelFamily::ZImage => if is_turbo(name) { 8 } else { 20 },
        ModelFamily::Flux => if is_turbo(name) { 4 } else { 20 },
        ModelFamily::FullCheckpoint => if is_turbo(name) { 6 } else { 20 },
    }
}

/// Classifier-free guidance for the family of `name`, in tenths.
pub open spec fn family_cfg_tenths(name: Seq<char>) -> u32 {
    match family_of(name) {
        ModelFamily::ZImage | ModelFamily::Flux => 10,
        ModelFamily::FullCheckpoint => 70,
    }
}

/// `path` names a companion file rather than a checkpoint.
pub open spec fn is_companion(path: Seq<char>) -> bool {
    contains_any(lower(path), companion_markers())
}

/// `path` names one of the recognised diffusion families.
pub open spec fn names_family(path: Seq<char>) -> bool {
    contains_any(lower(path), diffusion_families())
}

/// `path` has a weights extension.
pub open spec fn has_weight_extension(path: Seq<char>) -> bool {
    exists|k: int|
        0 <= k < weight_extensions().len() && ends_with(lower(path), #[trigger] weight_extensions()[k])
}

/// A diffusion checkpoint: a weights file, not a partial download, not a
/// companion, and named after a diffusion family.
pub open spec fn is_checkpoint(path: Seq<char>) -> bool {
    &&& has_weight_extension(path)
    &&& !ends_with(lower(path), ".part"@)
    &&& !ends_with(lower(path), ".tmp"@)
    &&& !is_companion(path)
    &&& names_family(path)
}

/// The family of a model from its file name.
pub fn classify_model(file_name: &str) -> (family: ModelFamily)
    ensures
        family == family_of(file_name@),
{
    let name = lower_chars_of(file_name);
    let z = ["z_image", "z-image", "z-img", "z_img", "zimg"];
    proof {
        assert(views(z@) =~= z_image_markers());
    }
    if contains_any_str(&name, &z) {
        ModelFamily::ZImage
    } else if contains_str(&name, "flux") {
        ModelFamily::Flux
    } else {
        ModelFamily::FullCheckpoint
    }
}

/// The side the model's family was trained at: rendering a Stable Diffusion
/// 1.x checkpoint at 1024 costs four times the compute for a worse image, so
/// without a requested size the native resolution is used.
pub fn default_resolution(file_name: &str) -> (side: u32)
    ensures
        side == native_side(file_name@),
{
    let name = lower_chars_of(file_name);
    match classify_model(file_name) {
        ModelFamily::ZImage | ModelFamily::Flux => 1024,
        ModelFamily::FullCheckpoint => {
            let large = ["sdxl", "sd_xl", "sd-xl", "sd3", "playground-v", "kolors", "pixart"];
            proof {
                assert(views(large@) =~= large_markers());
            }
            if contains_any_str(&name, &large) {
                1024
            } else {
                512
            }
        },
    }
}

/// Steps and classifier-free guidance (in tenths) the family of the model
/// asks for.
pub fn default_sampling(file_name: &str) -> (sampling: (u32, u32))
    ensures
        sampling == (family_steps(file_name@), family_cfg_tenths(file_name@)),
{
    let name = lower_chars_of(file_name);
    let markers = ["turbo", "schnell", "lightning"];
    proof {
        assert(views(markers@) =~= turbo_markers());
    }
    let turbo = contains_any_str(&name, &markers);
    match classify_model(file_name) {
        ModelFamily::ZImage => (
            if turbo {
                8
            } else {
                20
            },
            10,
        ),
        ModelFamily::Flux => (
            if turbo {
                4
            } else {
                20
            },
            10,
        ),
        ModelFamily::FullCheckpoint => (
            if turbo {
                6
            } else {
                20
            },
            70,
        ),
    }
}

/// Whether `path` names a companion file (VAE, text encoder, projector,
/// tokenizer) that cannot render an image by itself.
pub fn is_companion_name(path: &str) -> (companion: bool)
    ensures
        companion == is_companion(path@),
{
    let name = lower_chars_of(path);
    let markers = [
        "mmproj-",
        "ae.safetensors",
        "vae",
        "clip",
        "t5xxl",
        "t5-xxl",
        "text_encoder",
        "text-encoder",
        "tokenizer",
        "embed",
    ];
    proof {
        assert(views(markers@) =~= companion_markers());
    }
    contains_any_str(&name, &markers)
}

/// Whether the whole path names a recognised diffusion family.
pub fn names_a_diffusion_family(path: &str) -> (named: bool)
    ensures
        named == names_family(path@),
{
    let name = lower_chars_of(path);
    let families = [
        "stable-diffusion",
        "stable_diffusion",
        "sd-v1",
        "sd_v1",
        "sd15",
        "sd3",
        "sdxl",
        "sd_xl",
        "flux",
        "z_image",
        "z-image",
        "z_img",
        "zimg",
        "qwen-image",
        "qwen_image",
        "krea",
        "dreamshaper",
        "juggernaut",
        "pony",
        "playground-v",
        "kolors",
        "hunyuan-dit",
        "pixart",
        "deliberate",
        "realvis",
        "illustrious",
        "noobai",
    ];
    proof {
        assert(views(families@) =~= diffusion_families());
    }
    contains_any_str(&name, &families)
}

/// Whether `path` (relative to a models directory, with `/` separators) is a
/// diffusion checkpoint that can be offered for rendering. The directories in
/// the path count: a voice model's `model.safetensors` is told apart from a
/// checkpoint only by its folder.
pub fn is_diffusion_checkpoint(path: &str) -> (checkpoint: bool)
    ensures
        checkpoint == is_checkpoint(path@),
{
    let name = lower_chars_of(path);
    let gguf = ends_with_str(&name, ".gguf");
    let safetensors = ends_with_str(&name, ".safetensors");
    let ckpt = ends_with_str(&name, ".ckpt");
    let valid_extension = gguf || safetensors || ckpt;
    proof {
        let l = lower(path@);
        if valid_extension {
            if gguf {
                assert(ends_with(l, weight_extensions()[0]));
            } else if safetensors {
                assert(ends_with(l, weight_extensions()[1]));
            } else {
                assert(ends_with(l, weight_extensions()[2]));
            }
        }
        assert(valid_extension == has_weight_extension(path@));
    }
    if !valid_extension || ends_with_str(&name, ".part") || ends_with_str(&name, ".tmp")
        || is_companion_name(path) {
        return false;
    }
    names_a_diffusion_family(path)
}

/// Companion files never pass as checkpoints.
pub proof fn companions_are_never_checkpoints(path: Seq<char>)
    requires
        is_companion(path),
    ensures
        !is_checkpoint(path),
{
}

/// The family a name belongs to, as its lower-cased text shows it: a
/// Z-Image marker (`z_image`, `z-image`, `z-img`, `z_img`, `zimg`) makes it
/// Z-Image; otherwise `flux` makes it Flux; anything else is a full
/// checkpoint.
pub proof fn families_follow_the_name(name: Seq<char>)
    ensures
        ({
            let l = lower(name);
            let z = contains(l, "z_image"@) || contains(l, "z-image"@) || contains(l, "z-img"@) || contains(l, "z_img"@)
                || contains(l, "zimg"@);
            &&& family_of(name) == ModelFamily::ZImage <==> z
            &&& family_of(name) == ModelFamily::Flux <==> !z && contains(l, "flux"@)
            &&& family_of(name) == ModelFamily::FullCheckpoint <==> !z && !contains(l, "flux"@)
        }),
{
    let l = lower(name);
    let m = z_image_markers();
    assert(m[0] == "z_image"@ && m[1] == "z-image"@ && m[2] == "z-img"@ && m[3] == "z_img"@ && m[4] == "zimg"@);
    if contains_any(l, m) {
        let k = choose|k: int| 0 <= k < m.len() && contains(l, #[trigger] m[k]);
        assert(0 <= k < 5);
    }
}

/// The side a model renders at by default: 1024 px for Z-Image and Flux,
/// and for the full checkpoints whose lower-cased name holds `sdxl`,
/// `sd_xl`, `sd-xl`, `sd3`, `playground-v`, `kolors` or `pixart`; 512 px for
/// every other full checkpoint.
pub proof fn native_sides_follow_the_name(name: Seq<char>)
    ensures
        family_of(name) != ModelFamily::FullCheckpoint ==> native_side(name) == 1024,
        ({
            let l = lower(name);
            let large = contains(l, "sdxl"@) || contains(l, "sd_xl"@) || contains(l, "sd-xl"@) || contains(l, "sd3"@)
                || contains(l, "playground-v"@) || contains(l, "kolors"@) || contains(l, "pixart"@);
            family_of(name) == ModelFamily::FullCheckpoint ==> native_side(name) == if large {
                1024u32
            } else {
                512u32
            }
        }),
{
    let l = lower(name);
    let m = large_markers();
    assert(m[0] == "sdxl"@ && m[1] == "sd_xl"@ && m[2] == "sd-xl"@ && m[3] == "sd3"@ && m[4] == "playground-v"@
        && m[5] == "kolors"@ && m[6] == "pixart"@);
    if contains_any(l, m) {
        let k = choose|k: int| 0 <= k < m.len() && contains(l, #[trigger] m[k]);
        assert(0 <= k < 7);
    }
}

/// A path is offered as a diffusion checkpoint exactly when its lower-cased
/// text ends with `.gguf`, `.safetensors` or `.ckpt`, does not end with
/// `.part` or `.tmp`, names no companion file, and names one of the known
/// diffusion families.
pub proof fn checkpoints_are_named_diffusion_weights(path: Seq<char>)
    ensures
        ({
            let l = lower(path);
            is_checkpoint(path) <==> {
                &&& ends_with(l, ".gguf"@) || ends_with(l, ".safetensors"@) || ends_with(l, ".ckpt"@)
                &&& !ends_with(l, ".part"@)
                &&& !ends_with(l, ".tmp"@)
                &&& !contains_any(l, seq![
                    "mmproj-"@,
                    "ae.safetensors"@,
                    "vae"@,
                    "clip"@,
                    "t5xxl"@,
                    "t5-xxl"@,
                    "text_encoder"@,
                    "text-encoder"@,
                    "tokenizer"@,
                    "embed"@,
                ])
                &&& contains_any(l, seq![
                    "stable-diffusion"@,
                    "stable_diffusion"@,
                    "sd-v1"@,
                    "sd_v1"@,
                    "sd15"@,
                    "sd3"@,
                    "sdxl"@,
                    "sd_xl"@,
                    "flux"@,
                    "z_image"@,
                    "z-image"@,
                    "z_img"@,
                    "zimg"@,
                    "qwen-image"@,
                    "qwen_image"@,
                    "krea"@,
                    "dreamshaper"@,
                    "juggernaut"@,
                    "pony"@,
                    "playground-v"@,
                    "kolors"@,
                    "hunyuan-dit"@,
                    "pixart"@,
                    "deliberate"@,
                    "realvis"@,
                    "illustrious"@,
                    "noobai"@,
                ])
            }
        }),
{
    let l = lower(path);
    let e = weight_extensions();
    assert(e[0] == ".gguf"@ && e[1] == ".safetensors"@ && e[2] == ".ckpt"@);
    if has_weight_extension(path) {
        let k = choose|k: int| 0 <= k < e.len() && ends_with(l, #[trigger] e[k]);
        assert(0 <= k < 3);
    }
    if ends_with(l, ".gguf"@) {
        assert(ends_with(l, e[0]));
    }
    if ends_with(l, ".safetensors"@) {
        assert(ends_with(l, e[1]));
    }
    if ends_with(l, ".ckpt"@) {
        assert(ends_with(l, e[2]));
    }
}

/// The sampling a family asks for: a distilled checkpoint (its lower-cased
/// name holds `turbo`, `schnell` or `lightning`) takes 8 steps on Z-Image,
/// 4 on Flux and 6 as a full checkpoint, any other 20; guidance is 1.0 for
/// Z-Image and Flux and 7.0 for full checkpoints.
pub proof fn sampling_follows_the_name(name: Seq<char>)
    ensures
        ({
            let l = lower(name);
            let turbo = contains(l, "turbo"@) || contains(l, "schnell"@) || contains(l, "lightning"@);
            &&& family_steps(name) == match family_of(name) {
                ModelFamily::ZImage => if turbo { 8u32 } else { 20u32 },
                ModelFamily::Flux => if turbo { 4u32 } else { 20u32 },
                ModelFamily::FullCheckpoint => if turbo { 6u32 } else { 20u32 },
            }
            &&& family_cfg_tenths(name) == match family_of(name) {
                ModelFamily::FullCheckpoint => 70u32,
                _ => 10u32,
            }
        }),
{
    let l = lower(name);
    let m = turbo_markers();
    assert(m[0] == "turbo"@ && m[1] == "schnell"@ && m[2] == "lightning"@);
    if contains_any(l, m) {
        let k = choose|k: int| 0 <= k < m.len() && contains(l, #[trigger] m[k]);
        assert(0 <= k < 3);
    }
}

} // verus!
