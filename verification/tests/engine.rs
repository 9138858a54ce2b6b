use locaryn_plugin_image::companions::DirEntry;
use locaryn_plugin_image::engine::{build_args, memory_placement_args, sd_executable_names, SdRequest};
use locaryn_plugin_image::generation::{
    render_model_name, render_request, render_settings, requested_model, EngineContext, RenderInputs,
};

fn request(model_path: &str, help: &str) -> SdRequest {
    SdRequest {
        model_path: model_path.to_string(),
        model_is_dir: false,
        directory_checkpoint: None,
        models_listing: Vec::new(),
        candidate_listings: Vec::new(),
        prompt: "a red fox".to_string(),
        negative_prompt: None,
        width: 512,
        height: 768,
        steps: 20,
        cfg_scale: "7.00".to_string(),
        seed: -3,
        out_file: "/out/img_1.png".to_string(),
        init_image: None,
        mask: None,
        strength: "0.75".to_string(),
        sampler: None,
        scheduler: None,
        clip_skip: None,
        batch_count: 1,
        uncensored: false,
        engine_help: help.to_string(),
        fits_in_vram: true,
        max_vram: None,
        windows: false,
    }
}

fn strings(parts: &[&str]) -> Vec<String> {
    parts.iter().map(|p| p.to_string()).collect()
}

#[test]
fn weights_that_fit_the_card_stay_on_it() {
    assert!(memory_placement_args(true, &Some("3.3".to_string()), "--auto-fit --offload-to-cpu").is_empty());
    assert_eq!(
        memory_placement_args(false, &Some("1.5".to_string()), "--auto-fit --offload-to-cpu"),
        vec!["--auto-fit".to_string()]
    );
    assert_eq!(
        memory_placement_args(false, &Some("1.5".to_string()), "--offload-to-cpu --max-vram --backend"),
        strings(&["--offload-to-cpu", "--max-vram", "1.5", "--backend", "te=cpu"])
    );
    assert_eq!(
        memory_placement_args(false, &None, "--offload-to-cpu --max-vram"),
        strings(&["--offload-to-cpu"])
    );
}

#[test]
fn the_engine_is_looked_for_under_both_names() {
    assert_eq!(sd_executable_names(false), ["sd-cli", "sd"]);
    assert_eq!(sd_executable_names(true), ["sd-cli.exe", "sd.exe"]);
}

#[test]
fn a_full_checkpoint_gets_a_plain_command_line() {
    let args = build_args(&request("/m/sd15-Q4.gguf", "")).unwrap();
    assert_eq!(
        args,
        strings(&[
            "-M", "img_gen", "-m", "/m/sd15-Q4.gguf", "-p", "a red fox", "-W", "512", "-H", "768",
            "--steps", "20", "--cfg-scale", "7.00", "-s", "-3", "-o", "/out/img_1.png",
        ])
    );
}

#[test]
fn known_flags_images_and_batches_are_passed() {
    let mut r = request("/m/sd15-Q4.gguf", "--sampling-method --clip-skip --vae-tiling --auto-fit");
    r.negative_prompt = Some("blurry".to_string());
    r.init_image = Some("/tmp/in.png".to_string());
    r.mask = Some("/tmp/mask.png".to_string());
    r.sampler = Some("euler_a".to_string());
    r.scheduler = Some("karras".to_string());
    r.clip_skip = Some(2);
    r.batch_count = 12;
    r.fits_in_vram = false;
    let args = build_args(&r).unwrap();
    assert_eq!(
        args,
        strings(&[
            "-M", "img_gen", "-m", "/m/sd15-Q4.gguf", "-p", "a red fox", "-n", "blurry", "-i",
            "/tmp/in.png", "--strength", "0.75", "--mask", "/tmp/mask.png", "-W", "512", "-H", "768",
            "--steps", "20", "--cfg-scale", "7.00", "-s", "-3", "--sampling-method", "euler_a",
            "--clip-skip", "2", "--vae-tiling", "--auto-fit", "-b", "8", "-o", "/out/img_1_%d.png",
        ])
    );
}

#[test]
fn a_flux_checkpoint_without_companions_is_refused() {
    let e = build_args(&request("/m/flux1-schnell-Q4.gguf", "")).unwrap_err();
    assert_eq!(
        e,
        "flux1-schnell-Q4.gguf nécessite : ae.safetensors (VAE), un encodeur CLIP-L, un encodeur T5-XXL"
    );
}

#[test]
fn a_z_image_checkpoint_is_given_its_companions() {
    let mut r = request("/m/z_image_turbo-Q8.gguf", "");
    r.models_listing = vec![
        DirEntry { path: "/m/ae.safetensors".to_string(), name: "ae.safetensors".to_string(), is_file: true, size: 1 },
        DirEntry { path: "/m/Qwen3-4B-Q4.gguf".to_string(), name: "Qwen3-4B-Q4.gguf".to_string(), is_file: true, size: 1 },
    ];
    let args = build_args(&r).unwrap();
    assert_eq!(
        args[..8].to_vec(),
        strings(&[
            "-M", "img_gen", "--diffusion-model", "/m/z_image_turbo-Q8.gguf", "--vae", "/m/ae.safetensors",
            "--llm", "/m/Qwen3-4B-Q4.gguf",
        ])
    );
}

#[test]
fn a_model_directory_is_given_to_the_engine_as_found() {
    let mut r = request("/m/stablediffusionapi__deliberate-v2", "");
    r.model_is_dir = true;
    assert_eq!(
        build_args(&r),
        Err("dossier de modèle invalide : /m/stablediffusionapi__deliberate-v2".to_string())
    );
    r.directory_checkpoint = Some("/m/stablediffusionapi__deliberate-v2".to_string());
    let args = build_args(&r).unwrap();
    assert_eq!(args[..4].to_vec(), strings(&["-M", "img_gen", "-m", "/m/stablediffusionapi__deliberate-v2"]));
}

#[test]
fn the_command_line_carries_the_render_settings() {
    let settings = render_settings("sd15-Q4.gguf", None, Some(5000), None, 3);
    let mut r = request("/m/sd15-Q4.gguf", "");
    r.width = settings.width;
    r.height = settings.height;
    r.steps = settings.steps;
    r.batch_count = settings.batch;
    r.seed = 1234;
    let args = build_args(&r).unwrap();
    let w = args.iter().position(|a| a == "-W").unwrap();
    assert_eq!(
        args[w..w + 10].to_vec(),
        strings(&["-W", "2048", "-H", "512", "--steps", "20", "--cfg-scale", "7.00", "-s", "1234"])
    );
    assert_eq!(args[args.len() - 4..].to_vec(), strings(&["-b", "3", "-o", "/out/img_1_%d.png"]));
}

#[test]
fn a_render_request_follows_what_was_asked() {
    let inputs = RenderInputs {
        prompt: "  a fox  ".to_string(),
        negative_prompt: None,
        width: Some(5000),
        height: None,
        steps: None,
        seed: None,
        sampler: None,
        scheduler: None,
        clip_skip: None,
        uncensored: false,
        variants: 20,
    };
    let context = EngineContext {
        model_is_dir: false,
        directory_checkpoint: None,
        models_listing: Vec::new(),
        candidate_listings: Vec::new(),
        engine_help: String::new(),
        fits_in_vram: true,
        max_vram: None,
        windows: false,
    };
    let r = render_request(
        inputs,
        "sdxl-turbo.gguf",
        "/m/sdxl-turbo.gguf".to_string(),
        99,
        "/o/img_99.png".to_string(),
        None,
        None,
        "7.00".to_string(),
        "0.75".to_string(),
        context,
    );
    let args = build_args(&r).unwrap();
    assert_eq!(
        args,
        strings(&[
            "-M", "img_gen", "-m", "/m/sdxl-turbo.gguf", "-p", "a fox", "-W", "2048", "-H", "1024",
            "--steps", "6", "--cfg-scale", "7.00", "-s", "99", "-b", "8", "-o", "/o/img_99_%d.png",
        ])
    );
    assert_eq!(render_model_name("/m/", "chosen.gguf", false), "chosen.gguf");
    assert_eq!(requested_model(&Some("  ".to_string())), None);
    assert_eq!(requested_model(&Some(" x ".to_string())), Some(" x ".to_string()));
}
