use locaryn_plugin_image::generation::{chosen_model, finish_render, preferred_image_model};
use locaryn_plugin_image::layout::{
    account_default_model,
    candidate_model_dirs, engine_candidates, find_sd_binary, generated_images_dir, hf_cache_dir, installed_python_candidates,
    join_path, model_path_candidates, models_dir, plugin_root, python_env, python_file_candidates,
    python_venv_candidates, resolve_model_path, scratch_dir, venv_python, HostEnvironment,
};
use locaryn_plugin_image::mcp::{
    classify_method, offered_tools, tool_name, tool_named, unknown_method_message, unknown_tool_message,
    McpMethod, Tool,
};

fn bare() -> HostEnvironment {
    HostEnvironment {
        plugin_root: None,
        extension_models_dir: None,
        host_models_dir: None,
        extension_media_dir: None,
        generated_media_dir: None,
        extension_data_dir: None,
        data_dir: None,
        sd_binary: None,
        plugin_bin_dir: None,
        python_venv: None,
        windows: false,
        appdata: None,
        userprofile: None,
        home: None,
        current_dir: None,
        path_entries: Vec::new(),
        temp_dir: None,
        system_temp_dir: "/tmp".to_string(),
        hf_cache_dir: None,
        python: None,
        local_appdata: None,
    }
}

fn strings(parts: &[&str]) -> Vec<String> {
    parts.iter().map(|p| p.to_string()).collect()
}

#[test]
fn directories_fall_back_to_the_extension_root() {
    let mut env = bare();
    assert_eq!(plugin_root(&env), ".");
    assert_eq!(models_dir(&env), "./models");
    assert_eq!(generated_images_dir(&env), "./data/generated_images");
    assert_eq!(scratch_dir(&env), "/tmp");
    env.plugin_root = Some("/ext".to_string());
    env.extension_data_dir = Some("/data".to_string());
    assert_eq!(models_dir(&env), "/ext/models");
    assert_eq!(generated_images_dir(&env), "/data/generated_images");
    assert_eq!(hf_cache_dir(&env), "/ext/hf-cache");
    env.generated_media_dir = Some("/media".to_string());
    assert_eq!(generated_images_dir(&env), "/media");
    env.extension_media_dir = Some("/ext-media".to_string());
    assert_eq!(generated_images_dir(&env), "/ext-media");
    env.extension_models_dir = Some("/models".to_string());
    env.temp_dir = Some("/scratch".to_string());
    assert_eq!(models_dir(&env), "/models");
    assert_eq!(scratch_dir(&env), "/scratch");
}

#[test]
fn each_models_directory_is_searched_once() {
    let mut env = bare();
    env.plugin_root = Some("/ext".to_string());
    env.extension_models_dir = Some("/ext/models".to_string());
    env.host_models_dir = Some("/host/models".to_string());
    env.home = Some("/home/u".to_string());
    env.current_dir = Some("/ext".to_string());
    assert_eq!(
        candidate_model_dirs(&env),
        strings(&[
            "/ext/models",
            "/host/models",
            "/home/u/.locaryn/models",
            "/home/u/.local/share/Locaryn/models",
            "/models",
        ])
    );
    let mut win = bare();
    win.windows = true;
    win.plugin_root = Some("C:\\ext".to_string());
    win.appdata = Some("C:\\Users\\u\\AppData\\Roaming".to_string());
    win.home = Some("/ignored".to_string());
    assert_eq!(
        candidate_model_dirs(&win),
        strings(&[
            "C:\\ext\\models",
            "C:\\Users\\u\\AppData\\Roaming\\Locaryn\\models",
            "C:\\Users\\u\\AppData\\Roaming\\syncho\\models",
        ])
    );
}

#[test]
fn the_bundled_engine_is_tried_first_under_both_names() {
    let mut env = bare();
    env.plugin_root = Some("/ext".to_string());
    env.sd_binary = Some("/opt/sd".to_string());
    env.path_entries = strings(&["/usr/bin"]);
    let c = engine_candidates(&env);
    assert_eq!(
        c[..7].to_vec(),
        strings(&[
            "/opt/sd",
            "/ext/bin/sd/sd-cli",
            "/ext/bin/sd/sd",
            "/ext/bin/sd-cli",
            "/ext/bin/sd",
            "/ext/sd-cli",
            "/ext/sd",
        ])
    );
    // Around the one models directory: its bin, itself, its parent's bin, its parent.
    assert_eq!(
        c[7..15].to_vec(),
        strings(&[
            "/ext/models/bin/sd-cli",
            "/ext/models/bin/sd",
            "/ext/models/sd-cli",
            "/ext/models/sd",
            "/ext/bin/sd-cli",
            "/ext/bin/sd",
            "/ext/sd-cli",
            "/ext/sd",
        ])
    );
    assert_eq!(c[15..].to_vec(), strings(&["/usr/bin/sd-cli", "/usr/bin/sd"]));
}

#[test]
fn a_model_is_resolved_in_the_first_directory_that_holds_it() {
    let mut env = bare();
    env.extension_models_dir = Some("/m".to_string());
    env.host_models_dir = Some("/h".to_string());
    let cands = model_path_candidates("sub/x.gguf", &env);
    assert_eq!(cands, strings(&["/m/sub/x.gguf", "/m/x.gguf", "/h/sub/x.gguf", "/h/x.gguf", "./models/sub/x.gguf", "./models/x.gguf"]));
    assert_eq!(resolve_model_path("sub/x.gguf", &env, &vec![false, false, false, true, false, false]), "/h/x.gguf");
    assert_eq!(resolve_model_path("sub/x.gguf", &env, &vec![false; 6]), "/m/sub/x.gguf");
    let cands = model_path_candidates("/abs/x.gguf", &env);
    assert_eq!(cands[0], "/abs/x.gguf");
    assert_eq!(cands[1], "/abs/x.gguf");
    assert_eq!(cands[2], "/m/x.gguf");
    assert_eq!(resolve_model_path("/abs/x.gguf", &env, &vec![false; cands.len()]), "/abs/x.gguf");
}

#[test]
fn account_default_is_ignored_when_the_file_is_gone() {
    let mut env = bare();
    env.extension_models_dir = Some("/tmp/prefs".to_string());
    let chosen = preferred_image_model(r#"{"image_model":"disparu-Q4.gguf"}"#);
    assert_eq!(chosen, Some("disparu-Q4.gguf".to_string()));
    let nothing = vec![false; model_path_candidates("disparu-Q4.gguf", &env).len()];
    assert_eq!(account_default_model(chosen, &env, &nothing), None);

    let chosen = preferred_image_model(r#"{"image_model":"z_image_turbo-Q8_0.gguf"}"#);
    let mut found = vec![false; model_path_candidates("z_image_turbo-Q8_0.gguf", &env).len()];
    found[0] = true;
    assert_eq!(account_default_model(chosen, &env, &found).as_deref(), Some("z_image_turbo-Q8_0.gguf"));
    assert_eq!(account_default_model(None, &env, &Vec::new()), None);
}

#[test]
fn an_unresolved_model_falls_back_inside_the_models_directory() {
    let mut env = bare();
    env.extension_models_dir = Some("/tmp/prefs".to_string());
    let cands = model_path_candidates("disparu-Q4.gguf", &env);
    assert_eq!(resolve_model_path("disparu-Q4.gguf", &env, &vec![false; cands.len()]), "/tmp/prefs/disparu-Q4.gguf");
    assert!(cands.contains(&"/tmp/prefs/disparu-Q4.gguf".to_string()));
}

#[test]
fn the_account_preference_is_read_from_json() {
    assert_eq!(preferred_image_model(r#"{"image_model":"  sd15.gguf "}"#), Some("sd15.gguf".to_string()));
    assert_eq!(preferred_image_model(r#"{"image_model":"   "}"#), None);
    assert_eq!(preferred_image_model(r#"{"image_model":3}"#), None);
    assert_eq!(preferred_image_model(r#"{"other":"x"}"#), None);
    assert_eq!(preferred_image_model("not json"), None);
    assert_eq!(chosen_model(Some(" a ".to_string())), Some("a".to_string()));
    assert_eq!(chosen_model(None), None);
}

#[test]
fn python_is_looked_for_in_the_known_environments() {
    let mut env = bare();
    env.python_venv = Some("/venvs".to_string());
    env.data_dir = Some(String::new());
    env.extension_models_dir = Some("/data/models".to_string());
    env.current_dir = Some("/work".to_string());
    assert_eq!(
        python_venv_candidates(&env),
        strings(&["/venvs/python-env", "/venvs", "/data/python-env", "/data/.venv", "/work/.venv"])
    );
    env.python = Some("/usr/bin/python3".to_string());
    let files = python_file_candidates(&env);
    assert_eq!(files[0], "/usr/bin/python3");
    assert_eq!(files[1], "/venvs/python-env/bin/python");
    assert_eq!(files.len(), 6);
    assert_eq!(venv_python("C:\\env", true), "C:\\env\\Scripts\\python.exe");
    env.local_appdata = Some("C:\\Users\\u\\AppData\\Local".to_string());
    assert_eq!(
        installed_python_candidates(&env)[0],
        "C:\\Users\\u\\AppData\\Local/Programs/Python/Python313/python.exe"
    );
    let vars = python_env(&env);
    assert_eq!(vars[0], ("HF_HOME", "./hf-cache".to_string()));
    assert_eq!(vars[6], ("TMP", "/tmp".to_string()));
    env.windows = true;
    assert_eq!(
        installed_python_candidates(&env)[0],
        "C:\\Users\\u\\AppData\\Local\\Programs\\Python\\Python313\\python.exe"
    );
    assert_eq!(python_env(&env)[0], ("HF_HOME", ".\\hf-cache".to_string()));
}

#[test]
fn names_are_joined_with_the_machine_separator() {
    assert_eq!(join_path("C:\\a", "b", true), "C:\\a\\b");
    assert_eq!(join_path("C:/a", "b", true), "C:/a\\b");
    assert_eq!(join_path("C:", "b", true), "C:b");
    assert_eq!(join_path("/a/", "b", false), "/a/b");
    assert_eq!(join_path("", "b", false), "b");
    assert_eq!(join_path("a", "b", false), "a/b");
    assert_eq!(join_path("a\\", "b", false), "a\\/b");
    assert_eq!(join_path("a", "b", true), "a\\b");
}

#[test]
fn a_render_reports_its_images_or_the_last_error() {
    let ok = finish_render(true, strings(&["/o/img.png"]), &Vec::new(), "m.gguf".to_string()).unwrap();
    assert_eq!((ok.paths, ok.model), (strings(&["/o/img.png"]), "m.gguf".to_string()));
    assert_eq!(
        finish_render(false, strings(&["/o/img.png"]), &strings(&["[ERROR] a", "[ERROR] out of memory"]), "m".to_string()).err(),
        Some("génération échouée : [ERROR] out of memory".to_string())
    );
    assert_eq!(
        finish_render(true, Vec::new(), &Vec::new(), "m".to_string()).err(),
        Some("génération échouée : aucune image écrite".to_string())
    );
}

#[test]
fn requests_are_dispatched_by_method_and_tool() {
    assert_eq!(classify_method("initialize"), McpMethod::Initialize);
    assert_eq!(classify_method("tools/list"), McpMethod::ListTools);
    assert_eq!(classify_method("tools/call"), McpMethod::CallTool);
    assert_eq!(classify_method("notifications/initialized"), McpMethod::Notification);
    assert_eq!(classify_method(""), McpMethod::Unknown);
    assert_eq!(classify_method("resources/list"), McpMethod::Unknown);
    assert_eq!(tool_named("generate_image"), Some(Tool::GenerateImage));
    assert_eq!(tool_named("edit_image"), None);
    for tool in offered_tools() {
        assert_eq!(tool_named(tool_name(tool)), Some(tool));
    }
    assert_eq!(unknown_method_message("x"), "méthode MCP inconnue : x");
    assert_eq!(unknown_tool_message("y"), "outil image inconnu : y");
}

#[test]
fn the_first_engine_file_found_is_run() {
    let mut env = bare();
    env.plugin_root = Some("/ext".to_string());
    let count = engine_candidates(&env).len();
    let mut is_file = vec![false; count];
    assert_eq!(find_sd_binary(&env, &is_file), None);
    is_file[4] = true;
    is_file[5] = true;
    assert_eq!(find_sd_binary(&env, &is_file), Some("/ext/sd-cli".to_string()));
}

#[test]
fn the_default_models_directory_uses_the_machine_separator() {
    let mut env = bare();
    env.windows = true;
    assert_eq!(models_dir(&env), ".\\models");
    assert_eq!(generated_images_dir(&env), ".\\data\\generated_images");
}
