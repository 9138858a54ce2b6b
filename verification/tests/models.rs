use locaryn_plugin_image::catalogue::{directory_checkpoint, list_image_models, offered_name, ModelEntry};
use locaryn_plugin_image::companions::{discover_companions, missing_companions, Companions, DirEntry};
use locaryn_plugin_image::generation::{
    choose_render_model, default_variants, render_settings, RenderSettings,
};
use locaryn_plugin_image::models::{
    classify_model, default_resolution, default_sampling, is_diffusion_checkpoint, ModelFamily,
};

fn entry(dir: &str, name: &str, is_file: bool, size: u64) -> DirEntry {
    DirEntry {
        path: format!("{dir}/{name}"),
        name: name.to_string(),
        is_file,
        size,
    }
}

fn walked(relative: &str, is_dir: bool, is_diffusers_repo: bool) -> ModelEntry {
    ModelEntry {
        relative: relative.to_string(),
        is_dir,
        is_diffusers_repo,
    }
}

#[test]
fn model_families_and_sampling_are_stable() {
    assert_eq!(classify_model("z_image_turbo-Q8.gguf"), ModelFamily::ZImage);
    assert_eq!(classify_model("z-img-Q4.gguf"), ModelFamily::ZImage);
    assert_eq!(classify_model("flux1-schnell-Q4.gguf"), ModelFamily::Flux);
    assert_eq!(classify_model("sdxl-turbo-Q4.gguf"), ModelFamily::FullCheckpoint);
    let (steps, tenths) = default_sampling("z_image_turbo-Q8.gguf");
    assert_eq!((steps, tenths as f32 / 10.0), (8, 1.0));
    let (steps, tenths) = default_sampling("flux1-schnell-Q4.gguf");
    assert_eq!((steps, tenths as f32 / 10.0), (4, 1.0));
}

#[test]
fn full_checkpoints_sample_with_their_own_guidance() {
    assert_eq!(default_sampling("sdxl-turbo-Q4.gguf"), (6, 70));
    assert_eq!(default_sampling("sd15-Q4.gguf"), (20, 70));
    assert_eq!(default_sampling("flux1-dev-Q4.gguf"), (20, 10));
}

#[test]
fn checkpoints_are_recognised_and_companions_hidden() {
    assert!(is_diffusion_checkpoint("z_image_turbo-Q8_0.gguf"));
    assert!(is_diffusion_checkpoint("flux1-schnell-Q4_0.gguf"));
    assert!(is_diffusion_checkpoint("sd_xl_turbo_1.0.q8_0.gguf"));
    assert!(is_diffusion_checkpoint("stable-diffusion-v1-5-pruned-emaonly-Q4_0.gguf"));
    assert!(is_diffusion_checkpoint("Z-Image-AbliteratedV1.Q4_K_M.gguf"));
    assert!(!is_diffusion_checkpoint("ae.safetensors"));
    assert!(!is_diffusion_checkpoint("decoder_fp32_fix.onnx"));
    assert!(!is_diffusion_checkpoint("Qwen3-4B-Instruct-Q4.gguf"));
    assert!(!is_diffusion_checkpoint("L3.2-8X3B-MOE-Dark-Champion-Q3.gguf"));
}

#[test]
fn partial_downloads_are_not_checkpoints() {
    assert!(!is_diffusion_checkpoint("flux1-schnell-Q4_0.gguf.part"));
    assert!(!is_diffusion_checkpoint("flux1-schnell-Q4_0.gguf.tmp"));
    assert!(!is_diffusion_checkpoint("flux1-vae.safetensors"));
    assert!(is_diffusion_checkpoint("DreamShaper_8.CKPT"));
}

#[test]
fn weights_nested_in_a_non_diffusion_repo_are_not_offered() {
    assert!(!is_diffusion_checkpoint("Qwen__Qwen3-TTS-12Hz-0.6B-Base/model.safetensors"));
    assert!(!is_diffusion_checkpoint(
        "Qwen__Qwen3-TTS-12Hz-1.7B-CustomVoice/speech_tokenizer/model.safetensors"
    ));
    assert!(is_diffusion_checkpoint("stable-diffusion-xl/unet/diffusion_pytorch_model.safetensors"));
}

#[test]
fn a_model_renders_at_the_size_it_was_trained_for() {
    assert_eq!(default_resolution("z_image_turbo-Q8_0.gguf"), 1024);
    assert_eq!(default_resolution("flux1-schnell-Q4_0.gguf"), 1024);
    assert_eq!(default_resolution("sd_xl_turbo_1.0.q8_0.gguf"), 1024);
    assert_eq!(default_resolution("stable-diffusion-v1-5-pruned-emaonly-Q4_0.gguf"), 512);
    assert_eq!(default_resolution("stablediffusionapi__deliberate-v2"), 512);
}

#[test]
fn old_onnx_vae_is_never_selected() {
    let root = "/tmp/companions";
    let listing = vec![
        entry(root, "decoder_fp32_fix.onnx", true, 3),
        entry(root, "ae.safetensors", true, 4),
    ];
    let companions = discover_companions(&listing, &Vec::new(), ModelFamily::ZImage, false);
    assert_eq!(companions.vae, Some("/tmp/companions/ae.safetensors".to_string()));
}

#[test]
fn the_largest_matching_companion_wins() {
    let listing = vec![
        entry("/m", "small-vae.safetensors", true, 10),
        entry("/m", "big-vae.safetensors", true, 99),
        entry("/m", "vae-folder", false, 1000),
        entry("/m", "qwen3-4b-q4.gguf", true, 5),
        entry("/m", "qwen3-4b-tts.gguf", true, 50),
    ];
    let c = discover_companions(&listing, &Vec::new(), ModelFamily::ZImage, false);
    assert_eq!(c.vae, Some("/m/big-vae.safetensors".to_string()));
    assert_eq!(c.llm, Some("/m/qwen3-4b-q4.gguf".to_string()));
    assert_eq!(c.clip_l, None);
    assert!(missing_companions(ModelFamily::ZImage, &c).is_empty());
}

#[test]
fn companions_are_searched_in_the_other_directories_next() {
    let models = vec![entry("/m", "ae.safetensors", true, 1)];
    let others = vec![
        vec![entry("/a", "unrelated.bin", true, 1)],
        vec![entry("/b", "Qwen3-4B-abliterated.gguf", true, 2)],
        vec![entry("/c", "heretic-encoder.gguf", true, 9)],
    ];
    let c = discover_companions(&models, &others, ModelFamily::ZImage, true);
    assert_eq!(c.vae, Some("/m/ae.safetensors".to_string()));
    assert_eq!(c.llm, Some("/b/Qwen3-4B-abliterated.gguf".to_string()));
    let plain = discover_companions(&models, &others, ModelFamily::ZImage, false);
    assert_eq!(plain.llm, None);
}

#[test]
fn flux_needs_three_companions() {
    let none = Companions::none();
    assert_eq!(
        missing_companions(ModelFamily::Flux, &none),
        vec!["ae.safetensors (VAE)", "un encodeur CLIP-L", "un encodeur T5-XXL"]
    );
    assert_eq!(
        missing_companions(ModelFamily::ZImage, &none),
        vec!["ae.safetensors (VAE stable-diffusion.cpp)", "un encodeur de texte Qwen3"]
    );
    assert!(missing_companions(ModelFamily::FullCheckpoint, &none).is_empty());
    let listing = vec![
        entry("/m", "clip_l.safetensors", true, 1),
        entry("/m", "t5xxl_fp16.safetensors", true, 1),
    ];
    let c = discover_companions(&listing, &Vec::new(), ModelFamily::Flux, false);
    assert_eq!(missing_companions(ModelFamily::Flux, &c), vec!["ae.safetensors (VAE)"]);
}

#[test]
fn full_checkpoints_take_no_companions() {
    let listing = vec![entry("/m", "ae.safetensors", true, 1)];
    let c = discover_companions(&listing, &Vec::new(), ModelFamily::FullCheckpoint, false);
    assert_eq!(c.vae, None);
    assert_eq!(c.llm, None);
}

#[test]
fn the_listing_is_sorted_without_case_and_each_name_once() {
    let walks = vec![
        vec![
            walked("sdxl-base.gguf", false, false),
            walked("ae.safetensors", false, false),
            walked("Qwen__TTS", true, false),
            walked("Qwen__TTS\\model.safetensors", false, false),
            walked("stablediffusionapi__deliberate-v2", true, true),
            walked("Flux1-dev.gguf", false, false),
        ],
        vec![walked("sdxl-base.gguf", false, false), walked("sub\\z_image.gguf", false, false)],
    ];
    assert_eq!(
        list_image_models(&walks),
        vec![
            "Flux1-dev.gguf".to_string(),
            "sdxl-base.gguf".to_string(),
            "stablediffusionapi__deliberate-v2".to_string(),
            "sub/z_image.gguf".to_string(),
        ]
    );
    assert_eq!(offered_name(&walked("a\\b\\flux.gguf", false, false)), Some("a/b/flux.gguf".to_string()));
    assert_eq!(offered_name(&walked("plain-dir", true, false)), None);
}

#[test]
fn a_diffusers_repository_is_loaded_as_a_directory() {
    let plain = "/tmp/diffusers-dir/un-checkpoint";
    let listing = vec![entry(plain, "model.safetensors", true, 1)];
    assert_eq!(
        directory_checkpoint(plain, &listing, false),
        Some(format!("{plain}/model.safetensors"))
    );
    let repo = "/tmp/diffusers-dir/stablediffusionapi__deliberate-v2";
    let listing = vec![entry(repo, "unet", false, 0), entry(repo, "model_index.json", true, 2)];
    assert_eq!(directory_checkpoint(repo, &listing, true), Some(repo.to_string()));
    let empty = "/tmp/diffusers-dir/rien";
    assert_eq!(directory_checkpoint(empty, &Vec::new(), false), None);
}

#[test]
fn render_settings_follow_the_family_and_stay_in_range() {
    assert_eq!(default_variants(), 1);
    let s = render_settings("z_image_turbo-Q8_0.gguf", None, None, None, 1);
    assert_eq!(
        s,
        RenderSettings { steps: 8, width: 1024, height: 1024, batch: 1, cfg_tenths: 10 }
    );
    let s = render_settings("sd15-Q4.gguf", Some(500), Some(10), Some(4096), 20);
    assert_eq!(
        s,
        RenderSettings { steps: 100, width: 64, height: 2048, batch: 8, cfg_tenths: 70 }
    );
    let s = render_settings("sd15-Q4.gguf", Some(0), Some(640), None, 0);
    assert_eq!((s.steps, s.width, s.height, s.batch), (1, 640, 512, 1));
}

#[test]
fn the_requested_model_comes_before_the_account_and_the_first_installed() {
    let account = Some("account.gguf".to_string());
    let first = Some("first.gguf".to_string());
    assert_eq!(
        choose_render_model(&Some("asked.gguf".to_string()), &account, &first),
        Ok("asked.gguf".to_string())
    );
    assert_eq!(choose_render_model(&Some("   ".to_string()), &account, &first), Ok("account.gguf".to_string()));
    assert_eq!(choose_render_model(&None, &None, &first), Ok("first.gguf".to_string()));
    assert_eq!(
        choose_render_model(&None, &None, &None),
        Err("aucun modèle de diffusion installé dans le stockage du plugin".to_string())
    );
}
