use locaryn_plugin_image::install::{install_step, InstallAction, InstallEvent, InstallState};
use locaryn_plugin_image::data_url::{image_file, decode_base64, decode_data_url, image_source, missing_image_message, ImageSource};
use locaryn_plugin_image::generation::{render_cleanup, scratch_image_name, stamped_file_name};
use locaryn_plugin_image::paths::{batch_output, file_name_string, is_absolute_path, parent_string, plain_path};
use locaryn_plugin_image::sources::{
    extraction_step,
    engine_file, expand_model_sources, extracted_engine, filename_from_url, flattened_entry_name,
    is_engine_file, is_runtime_source, is_zip_source, normalize_huggingface_source, InstallRequest,
    RuntimeInstallRequest,
};

const VAE: &str = "https://huggingface.co/black-forest-labs/FLUX.1-schnell/resolve/main/ae.safetensors";
const ENCODER: &str =
    "https://huggingface.co/second-state/Qwen3-4B-Instruct-2507-GGUF/resolve/main/Qwen3-4B-Instruct-2507-Q4_K_M.gguf";

#[test]
fn data_url_and_batch_paths_are_valid() {
    assert_eq!(decode_data_url("data:image/png;base64,aGVsbG8=").unwrap(), b"hello");
    let (pattern, files) = batch_output("out/img.png", 3, false);
    assert!(pattern.contains("img_%d.png"));
    assert_eq!(files[0], "out/img_0.png");
    assert_eq!(files[2], "out/img_2.png");
}

#[test]
fn one_image_is_written_where_it_was_asked() {
    let (pattern, files) = batch_output("out/img.png", 1, false);
    assert_eq!(pattern, "out/img.png");
    assert_eq!(files, vec!["out/img.png".to_string()]);
    let (pattern, files) = batch_output("C:\\gen\\img_5.png", 2, true);
    assert_eq!(pattern, "C:\\gen\\img_5_%d.png");
    assert_eq!(files, vec!["C:\\gen\\img_5_0.png".to_string(), "C:\\gen\\img_5_1.png".to_string()]);
    let (pattern, files) = batch_output("img", 2, false);
    assert_eq!(pattern, "img_%d.");
    assert_eq!(files[1], "img_1.");
}

#[test]
fn base64_is_decoded_with_or_without_padding() {
    assert_eq!(decode_base64("aGVsbG8gd29ybGQ=").unwrap(), b"hello world");
    assert_eq!(decode_base64("aGVs\r\nbG8").unwrap(), b"hello");
    assert_eq!(decode_base64("+/+/").unwrap(), vec![0xFB, 0xFF, 0xBF]);
    assert_eq!(decode_base64("").unwrap(), Vec::<u8>::new());
    assert_eq!(decode_base64("aGVs*G8="), Err("image source base64 invalide".to_string()));
    assert_eq!(decode_data_url("aGk=").unwrap(), b"hi");
}

#[test]
fn an_image_comes_inline_as_a_file_or_not_at_all() {
    assert!(matches!(image_source(&None), Ok(ImageSource::Absent)));
    assert!(matches!(image_source(&Some("   ".to_string())), Ok(ImageSource::Absent)));
    match image_source(&Some(" /tmp/photo.png ".to_string())) {
        Ok(ImageSource::File(p)) => assert_eq!(p, "/tmp/photo.png"),
        _ => panic!("a path is a file"),
    }
    match image_source(&Some("data:image/png;base64,aGk=".to_string())) {
        Ok(ImageSource::Inline(b)) => assert_eq!(b, b"hi"),
        _ => panic!("a data URL is inline"),
    }
    assert!(image_source(&Some("data:image/png;base64,!!".to_string())).is_err());
    assert_eq!(missing_image_message("x.png"), "image introuvable : x.png");
    assert_eq!(scratch_image_name("input-12"), "locaryn-image-input-12.png");
    assert_eq!(stamped_file_name("img_", 1700000000123, ".png"), "img_1700000000123.png");
}

#[test]
fn the_engine_gets_a_path_it_can_reopen() {
    assert_eq!(plain_path(r"\\?\D:\modeles\sd.gguf", true), r"D:\modeles\sd.gguf");
    assert_eq!(plain_path(r"\\?\UNC\serveur\part\sd.gguf", true), r"\\serveur\part\sd.gguf");
    assert_eq!(plain_path(r"D:\deja\simple.gguf", true), r"D:\deja\simple.gguf");
}

#[test]
fn paths_are_kept_as_they_are_outside_windows() {
    assert_eq!(plain_path(r"\\?\D:\x", false), r"\\?\D:\x");
    assert_eq!(parent_string("/models/a.gguf", false), "/models");
    assert_eq!(parent_string("/a.gguf", false), "/");
    assert_eq!(parent_string("a.gguf", false), "");
    assert_eq!(parent_string("C:\\a.gguf", true), "C:\\");
    assert_eq!(parent_string("C:\\m\\a.gguf", true), "C:\\m");
    assert_eq!(parent_string("a\\b.gguf", false), "");
    assert_eq!(file_name_string("a/b\\c.gguf", true), "c.gguf");
    assert_eq!(file_name_string("a/b\\c.gguf", false), "b\\c.gguf");
    assert!(is_absolute_path("/x", false));
    assert!(!is_absolute_path("C:\\x", false));
    assert!(is_absolute_path("C:\\x", true));
    assert!(is_absolute_path("\\\\srv\\x", true));
    assert!(!is_absolute_path("x\\y", true));
}

#[test]
fn hugging_face_sources_are_normalised_and_others_refused() {
    assert_eq!(
        normalize_huggingface_source("  hf.co/org/repo/resolve/main/m.gguf "),
        Ok("https://huggingface.co/org/repo/resolve/main/m.gguf".to_string())
    );
    assert_eq!(
        normalize_huggingface_source("http://huggingface.co/x"),
        Err("les modèles doivent venir de huggingface.co en HTTPS".to_string())
    );
    assert!(normalize_huggingface_source("https://example.com/m.gguf").is_err());
}

#[test]
fn download_names_come_from_the_url_and_stay_in_their_directory() {
    assert_eq!(filename_from_url("https://huggingface.co/a/b/m.gguf?download=true"), Ok("m.gguf".to_string()));
    assert_eq!(filename_from_url("https://huggingface.co/a/b/m.gguf#frag"), Ok("m.gguf".to_string()));
    assert_eq!(filename_from_url("https://huggingface.co/a/"), Err("nom de fichier invalide".to_string()));
    assert!(filename_from_url("https://huggingface.co/a/..").is_err());
    assert!(filename_from_url("https://huggingface.co/a/x\\y").is_err());
}

#[test]
fn a_z_image_install_brings_its_companions() {
    let plan = expand_model_sources(
        &vec!["https://huggingface.co/x/z-image-turbo/resolve/main/z.gguf".to_string(), VAE.to_string()],
        &Some("  ".to_string()),
    )
    .unwrap();
    assert_eq!(
        plan,
        vec![
            VAE.to_string(),
            ENCODER.to_string(),
            "https://huggingface.co/x/z-image-turbo/resolve/main/z.gguf".to_string(),
        ]
    );
    assert_eq!(expand_model_sources(&Vec::new(), &None), Err("aucune source de modèle".to_string()));
    let request = InstallRequest { source: Some("hf.co/a/sd.gguf".to_string()), sources: Vec::new(), token: None };
    assert_eq!(request.download_plan(), Ok(vec!["hf.co/a/sd.gguf".to_string()]));
}

#[test]
fn runtime_archive_is_flattened_into_bin() {
    assert_eq!(flattened_entry_name("sd-master-bin/", false), None);
    assert_eq!(flattened_entry_name("sd-master-bin/sd", false), Some("sd".to_string()));
    assert_eq!(flattened_entry_name("sd-master-bin\\ggml.dll", false), Some("ggml.dll".to_string()));
    assert!(is_engine_file("sd", false));
    assert!(is_engine_file("SD.EXE", true));
    assert!(!is_engine_file("ggml.dll", false));
    assert_eq!(engine_file(true), "sd.exe");
    assert_eq!(extracted_engine(Some("bin/sd".to_string()), false), Ok("bin/sd".to_string()));
}

#[test]
fn runtime_archive_without_engine_is_refused() {
    assert_eq!(
        extracted_engine(None, false),
        Err("l'archive ne contient pas d'exécutable « sd » de stable-diffusion.cpp".to_string())
    );
    assert!(extracted_engine(None, true).unwrap_err().contains("sd.exe"));
}

#[test]
fn runtimes_only_come_from_github_over_https() {
    assert!(is_runtime_source(" https://github.com/leejet/stable-diffusion.cpp/releases/x.zip "));
    assert!(!is_runtime_source("http://github.com/x"));
    assert!(is_zip_source("https://github.com/a/B.ZIP "));
    assert!(!is_zip_source("https://github.com/a/sd"));
    let ok = RuntimeInstallRequest { source: " https://github.com/a/sd ".to_string() };
    assert_eq!(ok.checked_source(), Ok("https://github.com/a/sd".to_string()));
    let bad = RuntimeInstallRequest { source: "https://example.com/sd".to_string() };
    assert_eq!(bad.checked_source(), Err("le runtime doit être un asset HTTPS de GitHub".to_string()));
}

#[test]
fn the_images_of_a_batch_never_share_a_file() {
    let (_, files) = batch_output("/gen/img.png", 12, false);
    assert_eq!(files.len(), 12);
    for i in 0..files.len() {
        for j in (i + 1)..files.len() {
            assert_ne!(files[i], files[j]);
        }
    }
    assert_eq!(files[11], "/gen/img_11.png");
}

#[test]
fn drive_prefixed_archive_names_are_not_extracted_on_windows() {
    assert_eq!(flattened_entry_name("x/C:evil.dll", true), None);
    assert_eq!(flattened_entry_name("C:evil.dll", true), None);
    assert_eq!(flattened_entry_name("C:evil.dll", false), Some("C:evil.dll".to_string()));
    assert_eq!(flattened_entry_name("x/..", false), Some("..".to_string()));
    assert_eq!(flattened_entry_name(".", true), Some(".".to_string()));
    assert_eq!(flattened_entry_name("a/..b", true), Some("..b".to_string()));
    assert_eq!(flattened_entry_name("dir\\ab:c.txt", true), Some("ab:c.txt".to_string()));
}

#[test]
fn a_failed_install_removes_only_what_it_downloaded() {
    let state = InstallState::new();
    let (state, action) = install_step(state, "ae.safetensors", "/m/ae.safetensors", InstallEvent::Present);
    assert!(matches!(action, InstallAction::Next));
    let (state, action) = install_step(state, "z.gguf", "/m/z.gguf", InstallEvent::Downloaded);
    assert!(matches!(action, InstallAction::Next));
    assert_eq!(state.installed, vec!["ae.safetensors".to_string(), "z.gguf".to_string()]);
    assert_eq!(state.created, vec!["/m/z.gguf".to_string()]);
    let (state, action) = install_step(state, "", "", InstallEvent::Failed("téléchargement : refusé".to_string()));
    match action {
        InstallAction::Fail { remove, error } => {
            assert_eq!(remove, vec!["/m/z.gguf".to_string()]);
            assert_eq!(error, "téléchargement : refusé");
        }
        InstallAction::Next => panic!("a failure stops the installation"),
    }
    assert!(state.created.is_empty());
}

#[test]
fn only_scratch_copies_and_failed_outputs_are_cleaned_up() {
    let input = image_file(&ImageSource::File("/home/u/photo.png".to_string()), "/tmp/locaryn-image-input-1.png");
    let mask = image_file(&ImageSource::Inline(vec![1, 2]), "/tmp/locaryn-image-mask-1.png");
    assert!(image_file(&ImageSource::Absent, "/tmp/x.png").is_none());
    let expected = vec!["/o/img_1.png".to_string()];
    assert_eq!(render_cleanup(true, &input, &mask, &expected), vec!["/tmp/locaryn-image-mask-1.png".to_string()]);
    assert_eq!(
        render_cleanup(false, &input, &mask, &expected),
        vec!["/tmp/locaryn-image-mask-1.png".to_string(), "/o/img_1.png".to_string()]
    );
}

#[test]
fn encoded_bytes_decode_back_through_whitespace() {
    assert_eq!(decode_base64("aGVs bG8g\nd29y\tbGQ=").unwrap(), b"hello world");
    assert_eq!(decode_base64("AAEC/f7/").unwrap(), vec![0, 1, 2, 253, 254, 255]);
    assert_eq!(decode_base64("AA==").unwrap(), vec![0]);
    assert!(decode_base64("AA-=").is_err());
    assert_eq!(decode_base64("AA=!").unwrap(), vec![0]);
}

#[test]
fn extraction_writes_inside_bin_and_returns_the_last_engine() {
    let (target, found) = extraction_step(None, "sd-master-bin/", true, "/p/bin", false);
    assert_eq!((target, found.clone()), (None, None));
    let (target, found) = extraction_step(found, "sd-master-bin/sd", false, "/p/bin", false);
    assert_eq!(target, Some("/p/bin/sd".to_string()));
    assert_eq!(found, Some("/p/bin/sd".to_string()));
    let (target, found) = extraction_step(found, "sd-master-bin/ggml.dll", false, "/p/bin", false);
    assert_eq!(target, Some("/p/bin/ggml.dll".to_string()));
    assert_eq!(found, Some("/p/bin/sd".to_string()));
    let (target, found) = extraction_step(found, "C:SD.EXE", false, "C:\\p\\bin", true);
    assert_eq!((target, found), (None, Some("/p/bin/sd".to_string())));
    let (target, found) = extraction_step(None, "x\\SD.exe", false, "C:\\p\\bin", true);
    assert_eq!(target, Some("C:\\p\\bin\\SD.exe".to_string()));
    assert_eq!(found, Some("C:\\p\\bin\\SD.exe".to_string()));
}
