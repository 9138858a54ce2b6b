use locaryn_plugin_image::diagnostics::summarise_python_error;
use locaryn_plugin_image::generation::{choose_replacement_model, replacement_side};
use locaryn_plugin_image::headers::image_dimensions;
use locaryn_plugin_image::engine::build_args;
use locaryn_plugin_image::generation::EngineContext;
use locaryn_plugin_image::region::{
    edit_files, missing_model_message, replacement_rendered, replacement_request,
    build_script, edit_output_name, parse_hex_colour, parse_mode, plan_edit, replacement_prompt,
    round64, stage_name, EditMode,
};

#[test]
fn colours_are_parsed_and_bad_ones_refused() {
    assert_eq!(parse_hex_colour("#633E26").unwrap(), (99, 62, 38));
    assert_eq!(parse_hex_colour("1C2A5C").unwrap(), (28, 42, 92));
    for bad in ["#12345", "oops", "#GGGGGG", ""] {
        assert!(parse_hex_colour(bad).is_err(), "{bad} aurait dû être refusé");
    }
}

#[test]
fn a_bad_colour_is_named_in_its_refusal() {
    assert_eq!(
        parse_hex_colour(" #12345 "),
        Err("couleur invalide :  #12345  (attendu #RRGGBB)".to_string())
    );
    assert_eq!(parse_hex_colour("  ##ff8000 "), Ok((255, 128, 0)));
}

#[test]
fn both_spellings_of_each_mode_are_accepted() {
    assert_eq!(parse_mode("recolor").unwrap(), EditMode::Recolour);
    assert_eq!(parse_mode("Recolour").unwrap(), EditMode::Recolour);
    assert_eq!(parse_mode(" replace ").unwrap(), EditMode::Replace);
    assert!(parse_mode("erase").is_err());
}

#[test]
fn french_mode_names_are_accepted_and_unknown_ones_named() {
    assert_eq!(parse_mode("COULEUR"), Ok(EditMode::Recolour));
    assert_eq!(parse_mode("remplacer"), Ok(EditMode::Replace));
    assert_eq!(parse_mode("Aperçu"), Ok(EditMode::Preview));
    assert_eq!(parse_mode("apercu"), Ok(EditMode::Preview));
    assert_eq!(parse_mode(" Erase "), Err("mode inconnu : erase".to_string()));
}

#[test]
fn dimensions_are_rounded_to_what_the_engines_accept() {
    assert_eq!(round64(1280), 1280);
    assert_eq!(round64(720), 704);
    assert_eq!(round64(10), 256, "une valeur absurde ne doit pas donner 0");
}

#[test]
fn replacements_render_at_the_crop_side() {
    assert_eq!(replacement_side(Some((700, 700))), 640);
    assert_eq!(replacement_side(None), 768);
    assert_eq!(replacement_side(Some((100, 100))), 256);
}

#[test]
fn png_and_jpeg_dimensions_are_read_from_the_header() {
    let mut png = vec![0x89, b'P', b'N', b'G', 0x0D, 0x0A, 0x1A, 0x0A];
    png.extend(13u32.to_be_bytes());
    png.extend(b"IHDR");
    png.extend(1280u32.to_be_bytes());
    png.extend(720u32.to_be_bytes());
    png.extend([8, 2, 0, 0, 0]);
    assert_eq!(image_dimensions(&png), Some((1280, 720)));
}

#[test]
fn a_jpeg_frame_header_gives_its_size() {
    // SOI, an APP0 segment of length 4, then SOF0 with height 480 and width 640.
    let jpeg = vec![
        0xFF, 0xD8, 0xFF, 0xE0, 0x00, 0x04, 0x00, 0x00, 0xFF, 0xC0, 0x00, 0x11, 0x08, 0x01, 0xE0,
        0x02, 0x80, 0x03, 0x00, 0x00, 0x00,
    ];
    assert_eq!(image_dimensions(&jpeg), Some((640, 480)));
    // DHT (0xC4) is not a frame header: it is skipped by its length.
    let jpeg = vec![
        0xFF, 0xD8, 0xFF, 0xC4, 0x00, 0x02, 0xFF, 0xC2, 0x00, 0x11, 0x08, 0x00, 0x10, 0x00, 0x20,
        0x03, 0x00, 0x00, 0x00,
    ];
    assert_eq!(image_dimensions(&jpeg), Some((32, 16)));
    assert_eq!(image_dimensions(&vec![0xFF, 0xD8, 0xFF]), None);
    assert_eq!(image_dimensions(&b"GIF89a".to_vec()), None);
}

#[test]
fn the_generated_script_selects_the_right_stage() {
    let recolour = build_script("i.png", "m.png", "the t-shirt", "recolour", (99, 62, 38), "", "o.png", "", "");
    assert!(recolour.contains(r#"stage = "recolour""#));
    assert!(recolour.contains("(99, 62, 38)"));
    assert!(recolour.contains(r#"target = "the t-shirt""#));

    let replace = build_script("i.png", "m.png", "the shelf", "composite", (0, 0, 0), "g.png", "o.png", "", "");
    assert!(replace.contains(r#"stage = "composite""#));
}

#[test]
fn a_quote_in_the_description_cannot_break_the_script() {
    let s = build_script("i.png", "m.png", "the \"blue\" mug", "recolour", (1, 2, 3), "", "o.png", "", "");
    assert!(s.contains(r#"target = "the \"blue\" mug""#), "{s}");
}

#[test]
fn paths_and_control_characters_are_escaped_in_the_script() {
    let s = build_script("C:\\in.png", "m.png", "a\nb\u{1}", "preview", (1, 2, 3), "", "o.png", "", "");
    assert!(s.contains(r#"image_path = "C:\\in.png""#), "{s}");
    assert!(s.contains(r#"target = "a\nb\u0001""#), "{s}");
}

#[test]
fn each_mode_runs_its_own_stage_and_output() {
    assert_eq!(stage_name(EditMode::Recolour), "recolour");
    assert_eq!(stage_name(EditMode::Preview), "preview");
    assert_eq!(stage_name(EditMode::Replace), "composite");
    assert_eq!(edit_output_name(EditMode::Preview, 17), "preview_17.jpg");
    assert_eq!(edit_output_name(EditMode::Replace, 0), "edit_0.png");
}

#[test]
fn an_edit_request_is_checked_before_any_work() {
    let p = plan_edit("recolor", "  le t-shirt ", &Some("#633E26".to_string())).unwrap();
    assert_eq!((p.mode, p.target.as_str(), p.rgb), (EditMode::Recolour, "le t-shirt", (99, 62, 38)));
    let p = plan_edit("preview", "the mug", &None).unwrap();
    assert_eq!(p.rgb, (220, 60, 60));
    let p = plan_edit("replace", "the mug", &Some("#zzzzzz".to_string())).unwrap();
    assert_eq!(p.rgb, (0, 0, 0));
    assert_eq!(
        plan_edit("recolor", "   ", &None).err(),
        Some("Décrivez la zone à modifier (ex. « le t-shirt »).".to_string())
    );
    assert_eq!(
        plan_edit("recolor", "the mug", &None).err(),
        Some("Choisissez une couleur cible pour une recoloration.".to_string())
    );
    assert_eq!(plan_edit("erase", "the mug", &None).err(), Some("mode inconnu : erase".to_string()));
}

#[test]
fn a_replacement_needs_a_prompt_and_a_model() {
    assert_eq!(replacement_prompt(&Some("  a red vase ".to_string())), Ok("a red vase".to_string()));
    assert_eq!(
        replacement_prompt(&Some("  ".to_string())),
        Err("Décrivez ce qui doit remplacer la zone.".to_string())
    );
    assert_eq!(
        choose_replacement_model(&Some(" sd15.gguf ".to_string()), &None, &None),
        Ok("sd15.gguf".to_string())
    );
    assert_eq!(
        choose_replacement_model(&None, &None, &None),
        Err("Aucun modèle d'image installé pour un remplacement.".to_string())
    );
}

#[test]
fn python_failures_are_summarised_from_the_last_error() {
    let stderr = "oneDNN custom operations are on\nTraceback (most recent call last):\n  File \"x\"\nValueError: bad image\n   \n  extra detail\n";
    assert_eq!(summarise_python_error(stderr), "ValueError: bad image extra detail");
    assert_eq!(summarise_python_error("a\nb\nc\nd\ne\n"), "b c d e");
    assert_eq!(summarise_python_error(" \n"), "erreur inconnue (aucune sortie)");
}

#[test]
fn every_written_colour_reads_back() {
    for r in (0u8..=255).step_by(17) {
        for g in [0u8, 1, 127, 128, 254, 255] {
            for b in [0u8, 9, 10, 15, 16, 160, 255] {
                assert_eq!(parse_hex_colour(&format!("#{r:02X}{g:02X}{b:02X}")), Ok((r, g, b)));
                assert_eq!(parse_hex_colour(&format!("{r:02x}{g:02x}{b:02x}")), Ok((r, g, b)));
                assert_eq!(parse_hex_colour(&format!("###{r:02x}{g:02X}{b:02x}")), Ok((r, g, b)));
            }
        }
    }
}

#[test]
fn an_edit_names_its_files_after_its_stamp() {
    let files = edit_files(EditMode::Preview, "/out", "/tmp/s", 42, false);
    assert_eq!(files.out, "/out/preview_42.jpg");
    assert_eq!(files.mask, "/tmp/s/mask_42.png");
    assert_eq!(files.crop, "/tmp/s/crop_42.png");
    assert_eq!(files.crop_mask, "/tmp/s/cropmask_42.png");
    assert_eq!(files.generated, "/tmp/s/gen_42.png");
    let files = edit_files(EditMode::Replace, "C:\\out", "C:\\s", 7, true);
    assert_eq!(files.out, "C:\\out\\edit_7.png");
    assert_eq!(missing_model_message("x.gguf"), "modèle introuvable : x.gguf");
    assert_eq!(replacement_rendered(true, true), Ok(()));
    assert_eq!(replacement_rendered(true, false), Err("la génération de la zone a échoué".to_string()));
    assert!(replacement_rendered(false, true).is_err());
}

#[test]
fn a_replacement_redraws_the_crop_once_with_a_fixed_seed() {
    let files = edit_files(EditMode::Replace, "/out", "/s", 3, false);
    let context = EngineContext {
        model_is_dir: false,
        directory_checkpoint: None,
        models_listing: Vec::new(),
        candidate_listings: Vec::new(),
        engine_help: String::new(),
        fits_in_vram: true,
        max_vram: None,
        windows: false,
    };
    let r = replacement_request(
        "sd15-Q4.gguf",
        "/m/sd15-Q4.gguf".to_string(),
        "a vase".to_string(),
        None,
        Some((700, 700)),
        &files,
        "7.00".to_string(),
        "0.85".to_string(),
        context,
    );
    let args = build_args(&r).unwrap();
    let expected: Vec<String> = [
        "-M", "img_gen", "-m", "/m/sd15-Q4.gguf", "-p", "a vase", "-i", "/s/crop_3.png", "--strength",
        "0.85", "--mask", "/s/cropmask_3.png", "-W", "640", "-H", "640", "--steps", "20", "--cfg-scale",
        "7.00", "-s", "42", "-o", "/s/gen_3.png",
    ]
    .iter()
    .map(|a| a.to_string())
    .collect();
    assert_eq!(args, expected);
}
