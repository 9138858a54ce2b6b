//! Where the extension keeps its files: the directories the host publishes,
//! with their fallbacks, and the places searched for models, the engine and
//! a Python environment.

use vstd::prelude::*;
use crate::engine::sd_executable_names;
use crate::paths::{file_name, file_name_string, is_absolute, is_absolute_path, join, join_onto, parent};
use crate::text::{owned, push_char, push_str, views};

verus! {

/// What the host tells the extension through its environment, and what the
/// machine says of itself. Absent variables are `None`.
pub struct HostEnvironment {
    /// `LOCARYN_MORPH_ROOT`: the extension's own directory.
    pub plugin_root: Option<String>,
    /// `LOCARYN_EXTENSION_MODELS_DIR`: the primary models directory.
    pub extension_models_dir: Option<String>,
    /// `LOCARYN_MODELS_DIR`: the host's models directory.
    pub host_models_dir: Option<String>,
    /// `LOCARYN_EXTENSION_MEDIA_DIR`.
    pub extension_media_dir: Option<String>,
    /// `LOCARYN_GENERATED_MEDIA_DIR`.
    pub generated_media_dir: Option<String>,
    /// `LOCARYN_EXTENSION_DATA_DIR`.
    pub extension_data_dir: Option<String>,
    /// `LOCARYN_DATA_DIR`.
    pub data_dir: Option<String>,
    /// `LOCARYN_SD_BINARY`: an engine named explicitly.
    pub sd_binary: Option<String>,
    /// `LOCARYN_PLUGIN_BIN_DIR`.
    pub plugin_bin_dir: Option<String>,
    /// `LOCARYN_PYTHON_VENV`.
    pub python_venv: Option<String>,
    /// Whether the machine runs Windows.
    pub windows: bool,
    /// `APPDATA` (Windows).
    pub appdata: Option<String>,
    /// `USERPROFILE` (Windows).
    pub userprofile: Option<String>,
    /// `HOME` (elsewhere).
    pub home: Option<String>,
    /// The current working directory, when it can be read.
    pub current_dir: Option<String>,
    /// The entries of `PATH`, in order.
    pub path_entries: Vec<String>,
    /// `LOCARYN_TEMP_DIR`: where the host wants scratch files.
    pub temp_dir: Option<String>,
    /// The machine's own temporary directory.
    pub system_temp_dir: String,
    /// `LOCARYN_HF_CACHE_DIR`: where model downloads of Python tools go.
    pub hf_cache_dir: Option<String>,
    /// `LOCARYN_PYTHON`: an interpreter named explicitly.
    pub python: Option<String>,
    /// `LOCALAPPDATA` (Windows).
    pub local_appdata: Option<String>,
}

/// `name` inside `dir`, as `Path::join` writes a relative name.
pub open spec fn join_in(dir: Seq<char>, name: Seq<char>, windows: bool) -> Seq<char> {
    join(dir, name, windows)
}

pub open spec fn root_of(env: HostEnvironment) -> Seq<char> {
    match env.plugin_root {
        Some(r) => r@,
        None => "."@,
    }
}

pub open spec fn models_dir_of(env: HostEnvironment) -> Seq<char> {
    match env.extension_models_dir {
        Some(d) => d@,
        None => join_in(root_of(env), "models"@, env.windows),
    }
}

pub open spec fn generated_dir_of(env: HostEnvironment) -> Seq<char> {
    match env.extension_media_dir {
        Some(d) => d@,
        None => match env.generated_media_dir {
            Some(d) => d@,
            None => join_in(
                match env.extension_data_dir {
                    Some(d) => d@,
                    None => join_in(root_of(env), "data"@, env.windows),
                },
                "generated_images"@, env.windows,
            ),
        },
    }
}

pub open spec fn opt_seq(x: Option<String>) -> Seq<Seq<char>> {
    match x {
        Some(v) => seq![v@],
        None => Seq::empty(),
    }
}

/// Every place models may be in, in search order, before repeats are
/// removed.
pub open spec fn raw_model_dirs(env: HostEnvironment) -> Seq<Seq<char>> {
    opt_seq(env.extension_models_dir) + opt_seq(env.host_models_dir) + seq![
        join_in(root_of(env), "models"@, env.windows),
    ] + (if env.windows {
        (match env.appdata {
            Some(a) => seq![
                join_in(join_in(a@, "Locaryn"@, env.windows), "models"@, env.windows),
                join_in(join_in(a@, "syncho"@, env.windows), "models"@, env.windows),
            ],
            None => Seq::empty(),
        }) + (match env.userprofile {
            Some(u) => seq![join_in(join_in(u@, ".locaryn"@, env.windows), "models"@, env.windows)],
            None => Seq::empty(),
        })
    } else {
        match env.home {
            Some(h) => seq![
                join_in(join_in(h@, ".locaryn"@, env.windows), "models"@, env.windows),
                join_in(join_in(join_in(join_in(h@, ".local"@, env.windows), "share"@, env.windows), "Locaryn"@, env.windows), "models"@, env.windows),
            ],
            None => Seq::empty(),
        }
    }) + (match env.current_dir {
        Some(c) => seq![join_in(c@, "models"@, env.windows), join_in(parent(c@, env.windows), "models"@, env.windows)],
        None => Seq::empty(),
    })
}

/// `s` with every element after its first occurrence removed.
pub open spec fn unique_in_order(s: Seq<Seq<char>>) -> Seq<Seq<char>>
    decreases s.len(),
{
    if s.len() == 0 {
        Seq::empty()
    } else {
        let r = unique_in_order(s.drop_last());
        if r.contains(s.last()) {
            r
        } else {
            r.push(s.last())
        }
    }
}

/// The candidate models directories, in search order, each once.
pub open spec fn model_dirs_of(env: HostEnvironment) -> Seq<Seq<char>> {
    unique_in_order(raw_model_dirs(env))
}

/// The engine's file names inside `dir`, the current name first.
pub open spec fn engine_files_in(dir: Seq<char>, windows: bool) -> Seq<Seq<char>> {
    if windows {
        seq![join_in(dir, "sd-cli.exe"@, windows), join_in(dir, "sd.exe"@, windows)]
    } else {
        seq![join_in(dir, "sd-cli"@, windows), join_in(dir, "sd"@, windows)]
    }
}

/// Engine locations under a data directory: `bin/sd`, `bin`, the directory.
pub open spec fn engine_files_under(dir: Seq<char>, windows: bool) -> Seq<Seq<char>> {
    engine_files_in(join_in(join_in(dir, "bin"@, windows), "sd"@, windows), windows) + engine_files_in(join_in(dir, "bin"@, windows), windows)
        + engine_files_in(dir, windows)
}

/// Engine locations around each models directory: its `bin`, itself, and
/// the same in its parent.
pub open spec fn engine_files_near(dirs: Seq<Seq<char>>, windows: bool) -> Seq<Seq<char>>
    decreases dirs.len(),
{
    if dirs.len() == 0 {
        Seq::empty()
    } else {
        let d = dirs.last();
        engine_files_near(dirs.drop_last(), windows) + engine_files_in(join_in(d, "bin"@, windows), windows)
            + engine_files_in(d, windows) + engine_files_in(join_in(parent(d, windows), "bin"@, windows), windows)
            + engine_files_in(parent(d, windows), windows)
    }
}

/// Engine locations along `PATH`.
pub open spec fn engine_files_along(entries: Seq<Seq<char>>, windows: bool) -> Seq<Seq<char>>
    decreases entries.len(),
{
    if entries.len() == 0 {
        Seq::empty()
    } else {
        engine_files_along(entries.drop_last(), windows) + engine_files_in(entries.last(), windows)
    }
}

/// Every place the engine may be, in the order they are tried: a binary
/// bundled with the extension wins over an old one lying elsewhere.
pub open spec fn engine_candidates_of(env: HostEnvironment) -> Seq<Seq<char>> {
    engine_files_named(env) + engine_files_near(model_dirs_of(env), env.windows) + engine_files_along(
        env.path_entries.deep_view(),
        env.windows,
    )
}

/// Places a Python environment may be in, in the order they are tried.
pub open spec fn venv_candidates_of(env: HostEnvironment) -> Seq<Seq<char>> {
    (match env.python_venv {
        Some(v) => if v@.len() > 0 {
            seq![join_in(v@, "python-env"@, env.windows), v@]
        } else {
            Seq::empty()
        },
        None => Seq::empty(),
    }) + (match env.data_dir {
        Some(v) => if v@.len() > 0 {
            seq![join_in(v@, "python-env"@, env.windows), v@]
        } else {
            Seq::empty()
        },
        None => Seq::empty(),
    }) + seq![
        join_in(parent(models_dir_of(env), env.windows), "python-env"@, env.windows),
        join_in(parent(models_dir_of(env), env.windows), ".venv"@, env.windows),
    ] + (match env.current_dir {
        Some(c) => seq![join_in(c@, ".venv"@, env.windows)],
        None => Seq::empty(),
    })
}

/// `name` inside `dir`, as `Path::join` writes a relative name: with the
/// machine's separator unless `dir` is empty or already ends with one.
pub fn join_path(dir: &str, name: &str, windows: bool) -> (path: String)
    ensures
        path@ == join_in(dir@, name@, windows),
{
    crate::paths::join_names(dir, name, windows)
}

/// The parent of a path.
pub fn parent_path(path: &str, windows: bool) -> (p: String)
    ensures
        p@ == parent(path@, windows),
{
    crate::paths::parent_string(path, windows)
}

/// The extension's directory: the one the host publishes, else the current
/// directory.
pub fn plugin_root(env: &HostEnvironment) -> (root: String)
    ensures
        root@ == root_of(*env),
{
    match &env.plugin_root {
        Some(r) => owned(r.as_str()),
        None => owned("."),
    }
}

/// The primary models directory, where downloads go.
pub fn models_dir(env: &HostEnvironment) -> (dir: String)
    ensures
        dir@ == models_dir_of(*env),
{
    match &env.extension_models_dir {
        Some(d) => owned(d.as_str()),
        None => join_path(plugin_root(env).as_str(), "models", env.windows),
    }
}

/// Where rendered images are written.
pub fn generated_images_dir(env: &HostEnvironment) -> (dir: String)
    ensures
        dir@ == generated_dir_of(*env),
{
    match &env.extension_media_dir {
        Some(d) => owned(d.as_str()),
        None => match &env.generated_media_dir {
            Some(d) => owned(d.as_str()),
            None => {
                let data = match &env.extension_data_dir {
                    Some(d) => owned(d.as_str()),
                    None => join_path(plugin_root(env).as_str(), "data", env.windows),
                };
                join_path(data.as_str(), "generated_images", env.windows)
            },
        },
    }
}

fn contains_text(list: &Vec<String>, x: &String) -> (found: bool)
    ensures
        found == list.deep_view().contains(x@),
{
    let mut i: usize = 0;
    while i < list.len()
        invariant
            i <= list.len(),
            forall|j: int| 0 <= j < i ==> list.deep_view()[j] != x@,
        decreases list.len() - i,
    {
        if list[i] == *x {
            assert(list.deep_view()[i as int] == x@);
            return true;
        }
        i = i + 1;
    }
    false
}

fn push_unique(list: &mut Vec<String>, x: String)
    ensures
        final(list).deep_view() == if old(list).deep_view().contains(x@) {
            old(list).deep_view()
        } else {
            old(list).deep_view().push(x@)
        },
{
    if !contains_text(list, &x) {
        let ghost before = list.deep_view();
        list.push(x);
        proof {
            assert(list.deep_view() =~= before.push(x@));
        }
    }
}

fn push_all(list: &mut Vec<String>, more: Vec<String>)
    ensures
        final(list).deep_view() == old(list).deep_view() + more.deep_view(),
{
    let ghost start = list.deep_view();
    let mut j: usize = 0;
    while j < more.len()
        invariant
            j <= more.len(),
            list.deep_view() =~= start + more.deep_view().take(j as int),
        decreases more.len() - j,
    {
        let ghost before = list.deep_view();
        list.push(owned(more[j].as_str()));
        proof {
            assert(list.deep_view() =~= before.push(more@[j as int]@));
            assert(more.deep_view().take(j + 1) =~= more.deep_view().take(j as int).push(
                more@[j as int]@,
            ));
        }
        j = j + 1;
    }
    proof {
        assert(more.deep_view().take(j as int) =~= more.deep_view());
    }
}

fn raw_model_dirs_exec(env: &HostEnvironment) -> (dirs: Vec<String>)
    ensures
        dirs.deep_view() == raw_model_dirs(*env),
{
    let mut dirs: Vec<String> = Vec::new();
    if let Some(d) = &env.extension_models_dir {
        dirs.push(owned(d.as_str()));
    }
    if let Some(d) = &env.host_models_dir {
        dirs.push(owned(d.as_str()));
    }
    let root = plugin_root(env);
    dirs.push(join_path(root.as_str(), "models", env.windows));
    let ghost a = dirs.deep_view();
    if env.windows {
        if let Some(ad) = &env.appdata {
            dirs.push(join_path(join_path(ad.as_str(), "Locaryn", env.windows).as_str(), "models", env.windows));
            dirs.push(join_path(join_path(ad.as_str(), "syncho", env.windows).as_str(), "models", env.windows));
        }
        if let Some(u) = &env.userprofile {
            dirs.push(join_path(join_path(u.as_str(), ".locaryn", env.windows).as_str(), "models", env.windows));
        }
    } else {
        if let Some(h) = &env.home {
            dirs.push(join_path(join_path(h.as_str(), ".locaryn", env.windows).as_str(), "models", env.windows));
            let local = join_path(h.as_str(), ".local", env.windows);
            let share = join_path(local.as_str(), "share", env.windows);
            let loc = join_path(share.as_str(), "Locaryn", env.windows);
            dirs.push(join_path(loc.as_str(), "models", env.windows));
        }
    }
    let ghost b = dirs.deep_view();
    if let Some(c) = &env.current_dir {
        dirs.push(join_path(c.as_str(), "models", env.windows));
        let p = parent_path(c.as_str(), env.windows);
        dirs.push(join_path(p.as_str(), "models", env.windows));
    }
    proof {
        assert(dirs.deep_view() =~= raw_model_dirs(*env));
    }
    dirs
}

/// Every directory where diffusion models or their companions may be, in
/// search order, each once: the extension's models directory, the host's,
/// the extension's own `models`, the user's data directories, then `models`
/// beside and above the current directory.
pub fn candidate_model_dirs(env: &HostEnvironment) -> (dirs: Vec<String>)
    ensures
        dirs.deep_view() == model_dirs_of(*env),
{
    let raw = raw_model_dirs_exec(env);
    let ghost r = raw.deep_view();
    let mut dirs: Vec<String> = Vec::new();
    let mut i: usize = 0;
    while i < raw.len()
        invariant
            i <= raw.len(),
            r == raw.deep_view(),
            dirs.deep_view() == unique_in_order(r.take(i as int)),
        decreases raw.len() - i,
    {
        proof {
            let t = r.take(i + 1);
            assert(t.drop_last() =~= r.take(i as int));
            assert(t.last() == raw@[i as int]@);
        }
        push_unique(&mut dirs, owned(raw[i].as_str()));
        i = i + 1;
    }
    proof {
        assert(r.take(i as int) =~= r);
    }
    dirs
}

/// The candidate models directories hold each place once, and every place
/// that was asked for.
pub proof fn model_dirs_are_listed_once(s: Seq<Seq<char>>)
    ensures
        forall|i: int, j: int|
            0 <= i < j < unique_in_order(s).len() ==> #[trigger] unique_in_order(s)[i]
                != #[trigger] unique_in_order(s)[j],
        forall|e: Seq<char>| #[trigger] unique_in_order(s).contains(e) <==> s.contains(e),
    decreases s.len(),
{
    if s.len() > 0 {
        let d = s.drop_last();
        model_dirs_are_listed_once(d);
        let r = unique_in_order(d);
        assert forall|e: Seq<char>| #[trigger] unique_in_order(s).contains(e) <==> s.contains(e) by {
            if s.contains(e) {
                let k = choose|k: int| 0 <= k < s.len() && s[k] == e;
                if k < s.len() - 1 {
                    assert(d[k] == e);
                    assert(d.contains(e));
                    assert(r.contains(e));
                    if !r.contains(s.last()) {
                        let m = choose|m: int| 0 <= m < r.len() && r[m] == e;
                        assert(r.push(s.last())[m] == e);
                    }
                } else if !r.contains(s.last()) {
                    assert(r.push(s.last())[r.len() as int] == e);
                }
            }
            if unique_in_order(s).contains(e) {
                if r.contains(e) {
                    assert(d.contains(e));
                    let m = choose|m: int| 0 <= m < d.len() && d[m] == e;
                    assert(s[m] == e);
                } else {
                    let m = choose|m: int| 0 <= m < r.push(s.last()).len() && r.push(s.last())[m] == e;
                    assert(m == r.len());
                    assert(s[s.len() - 1] == e);
                }
            }
        }
        if !r.contains(s.last()) {
            let t = r.push(s.last());
            assert forall|i: int, j: int| 0 <= i < j < t.len() implies #[trigger] t[i] != #[trigger] t[j] by {
                if j == t.len() - 1 {
                    assert(t[i] == r[i]);
                    if r[i] == s.last() {
                        assert(r.contains(s.last()));
                    }
                } else {
                    assert(t[i] == r[i] && t[j] == r[j]);
                }
            }
        }
    }
}

fn engine_files_in_exec(dir: &str, windows: bool, out: &mut Vec<String>)
    ensures
        final(out).deep_view() == old(out).deep_view() + engine_files_in(dir@, windows),
{
    let names = sd_executable_names(windows);
    let ghost before = out.deep_view();
    out.push(join_path(dir, names[0], windows));
    out.push(join_path(dir, names[1], windows));
    proof {
        assert(names@[0]@ == views(names@)[0]);
        assert(names@[1]@ == views(names@)[1]);
        assert(out.deep_view() =~= before + engine_files_in(dir@, windows));
    }
}

fn engine_files_under_exec(dir: &str, windows: bool, out: &mut Vec<String>)
    ensures
        final(out).deep_view() == old(out).deep_view() + engine_files_under(dir@, windows),
{
    let ghost before = out.deep_view();
    let bin = join_path(dir, "bin", windows);
    engine_files_in_exec(join_path(bin.as_str(), "sd", windows).as_str(), windows, out);
    engine_files_in_exec(bin.as_str(), windows, out);
    engine_files_in_exec(dir, windows, out);
    proof {
        assert(out.deep_view() =~= before + engine_files_under(dir@, windows));
    }
}

fn engine_files_near_exec(dirs: &Vec<String>, windows: bool, out: &mut Vec<String>)
    ensures
        final(out).deep_view() == old(out).deep_view() + engine_files_near(dirs.deep_view(), windows),
{
    let ghost start = out.deep_view();
    let ghost ds = dirs.deep_view();
    let mut i: usize = 0;
    while i < dirs.len()
        invariant
            i <= dirs.len(),
            ds == dirs.deep_view(),
            out.deep_view() =~= start + engine_files_near(ds.take(i as int), windows),
        decreases dirs.len() - i,
    {
        let d = dirs[i].as_str();
        engine_files_in_exec(join_path(d, "bin", windows).as_str(), windows, out);
        engine_files_in_exec(d, windows, out);
        let p = parent_path(d, windows);
        engine_files_in_exec(join_path(p.as_str(), "bin", windows).as_str(), windows, out);
        engine_files_in_exec(p.as_str(), windows, out);
        proof {
            let t = ds.take(i + 1);
            assert(t.drop_last() =~= ds.take(i as int));
            assert(t.last() == d@);
        }
        i = i + 1;
    }
    proof {
        assert(ds.take(i as int) =~= ds);
    }
}

fn engine_files_along_exec(entries: &Vec<String>, windows: bool, out: &mut Vec<String>)
    ensures
        final(out).deep_view() == old(out).deep_view() + engine_files_along(entries.deep_view(), windows),
{
    let ghost start = out.deep_view();
    let ghost es = entries.deep_view();
    let mut k: usize = 0;
    while k < entries.len()
        invariant
            k <= entries.len(),
            es == entries.deep_view(),
            out.deep_view() =~= start + engine_files_along(es.take(k as int), windows),
        decreases entries.len() - k,
    {
        engine_files_in_exec(entries[k].as_str(), windows, out);
        proof {
            let t = es.take(k + 1);
            assert(t.drop_last() =~= es.take(k as int));
            assert(t.last() == entries@[k as int]@);
        }
        k = k + 1;
    }
    proof {
        assert(es.take(k as int) =~= es);
    }
}

/// The engine's places that the host's settings name, before the models
/// directories and `PATH`.
pub open spec fn engine_files_named(env: HostEnvironment) -> Seq<Seq<char>> {
    let w = env.windows;
    let root = root_of(env);
    opt_seq(env.sd_binary) + engine_files_in(join_in(join_in(root, "bin"@, env.windows), "sd"@, env.windows), w)
        + engine_files_in(join_in(root, "bin"@, env.windows), w) + engine_files_in(root, w) + (match env.plugin_bin_dir {
        Some(b) => engine_files_in(join_in(b@, "sd"@, env.windows), w) + engine_files_in(b@, w),
        None => Seq::empty(),
    }) + (match env.extension_data_dir {
        Some(d) => engine_files_under(d@, w),
        None => Seq::empty(),
    }) + (match env.data_dir {
        Some(d) => engine_files_under(d@, w),
        None => Seq::empty(),
    })
}

fn engine_files_named_exec(env: &HostEnvironment) -> (out: Vec<String>)
    ensures
        out.deep_view() == engine_files_named(*env),
{
    let w = env.windows;
    let mut out: Vec<String> = Vec::new();
    if let Some(b) = &env.sd_binary {
        out.push(owned(b.as_str()));
    }
    let ghost a0 = out.deep_view();
    proof {
        assert(a0 =~= opt_seq(env.sd_binary));
    }
    let root = plugin_root(env);
    let root_bin = join_path(root.as_str(), "bin", env.windows);
    engine_files_in_exec(join_path(root_bin.as_str(), "sd", env.windows).as_str(), w, &mut out);
    engine_files_in_exec(root_bin.as_str(), w, &mut out);
    engine_files_in_exec(root.as_str(), w, &mut out);
    let ghost a1 = out.deep_view();
    if let Some(b) = &env.plugin_bin_dir {
        engine_files_in_exec(join_path(b.as_str(), "sd", env.windows).as_str(), w, &mut out);
        engine_files_in_exec(b.as_str(), w, &mut out);
    }
    let ghost a2 = out.deep_view();
    if let Some(d) = &env.extension_data_dir {
        engine_files_under_exec(d.as_str(), w, &mut out);
    }
    let ghost a3 = out.deep_view();
    if let Some(d) = &env.data_dir {
        engine_files_under_exec(d.as_str(), w, &mut out);
    }
    proof {
        assert(out.deep_view() =~= engine_files_named(*env));
    }
    out
}

/// Every place the engine may be, in the order they are tried: the binary
/// named by the host; `bin/sd`, `bin` and the root of the extension; the
/// extension's bin directory; the host's data directories; around each
/// models directory; along `PATH`. Each place is tried under both engine
/// names, the current one first.
pub fn engine_candidates(env: &HostEnvironment) -> (paths: Vec<String>)
    ensures
        paths.deep_view() == engine_candidates_of(*env),
{
    let mut out = engine_files_named_exec(env);
    let dirs = candidate_model_dirs(env);
    engine_files_near_exec(&dirs, env.windows, &mut out);
    engine_files_along_exec(&env.path_entries, env.windows, &mut out);
    proof {
        assert(out.deep_view() =~= engine_candidates_of(*env));
    }
    out
}

/// Places a Python environment may be in, in the order they are tried: the
/// host's environment and data directories, beside the models directory,
/// then the current directory.
pub fn python_venv_candidates(env: &HostEnvironment) -> (paths: Vec<String>)
    ensures
        paths.deep_view() == venv_candidates_of(*env),
{
    let mut out: Vec<String> = Vec::new();
    if let Some(v) = &env.python_venv {
        if !v.as_str().is_empty() {
            out.push(join_path(v.as_str(), "python-env", env.windows));
            out.push(owned(v.as_str()));
        }
    }
    let ghost a = out.deep_view();
    if let Some(v) = &env.data_dir {
        if !v.as_str().is_empty() {
            out.push(join_path(v.as_str(), "python-env", env.windows));
            out.push(owned(v.as_str()));
        }
    }
    let ghost b = out.deep_view();
    let m = models_dir(env);
    let p = parent_path(m.as_str(), env.windows);
    out.push(join_path(p.as_str(), "python-env", env.windows));
    out.push(join_path(p.as_str(), ".venv", env.windows));
    let ghost c = out.deep_view();
    if let Some(cwd) = &env.current_dir {
        out.push(join_path(cwd.as_str(), ".venv", env.windows));
    }
    proof {
        assert(out.deep_view() =~= venv_candidates_of(*env));
    }
    out
}

/// Where a model named `raw` may be, per models directory: `raw` inside
/// it, then the last component of `raw` inside it.
pub open spec fn dir_candidates(dirs: Seq<Seq<char>>, raw: Seq<char>, windows: bool) -> Seq<Seq<char>>
    decreases dirs.len(),
{
    if dirs.len() == 0 {
        Seq::empty()
    } else {
        let d = dirs.last();
        dir_candidates(dirs.drop_last(), raw, windows) + seq![
            join_onto(d, raw, windows),
            join_onto(d, file_name(raw, windows), windows),
        ]
    }
}

/// Every place a model named `raw` may be, in the order they are tried.
pub open spec fn model_path_candidates_of(raw: Seq<char>, env: HostEnvironment) -> Seq<Seq<char>> {
    (if is_absolute(raw, env.windows) {
        seq![raw]
    } else {
        Seq::empty()
    }) + dir_candidates(model_dirs_of(env), raw, env.windows)
}

/// The index of the first `true` of `exists`.
pub open spec fn first_existing(exists: Seq<bool>) -> Option<int>
    decreases exists.len(),
{
    if exists.len() == 0 {
        None
    } else if exists[0] {
        Some(0)
    } else {
        match first_existing(exists.drop_first()) {
            Some(i) => Some(i + 1),
            None => None,
        }
    }
}

/// The path of the model named `raw`, given which of its candidate places
/// exist: the first that does, else `raw` in the primary models directory.
pub open spec fn resolved_model_path(raw: Seq<char>, env: HostEnvironment, exists: Seq<bool>) -> Seq<char> {
    match first_existing(exists) {
        Some(i) => model_path_candidates_of(raw, env)[i],
        None => join_onto(models_dir_of(env), raw, env.windows),
    }
}

/// `name` inside `dir`, unless `name` is absolute and replaces it.
fn join_onto_exec(dir: &str, name: &str, windows: bool) -> (path: String)
    ensures
        path@ == join_onto(dir@, name@, windows),
{
    if is_absolute_path(name, windows) {
        owned(name)
    } else {
        join_path(dir, name, windows)
    }
}

/// Every place a model named `raw` may be, in the order they are tried: `raw`
/// itself when it is absolute; then, in each candidate models directory,
/// `raw` and its last component.
pub fn model_path_candidates(raw: &str, env: &HostEnvironment) -> (paths: Vec<String>)
    ensures
        paths.deep_view() == model_path_candidates_of(raw@, *env),
{
    let w = env.windows;
    let mut out: Vec<String> = Vec::new();
    if is_absolute_path(raw, w) {
        out.push(owned(raw));
    }
    let ghost start = out.deep_view();
    let dirs = candidate_model_dirs(env);
    let ghost ds = dirs.deep_view();
    let clean = file_name_string(raw, env.windows);
    let mut i: usize = 0;
    while i < dirs.len()
        invariant
            i <= dirs.len(),
            ds == dirs.deep_view(),
            clean@ == file_name(raw@, env.windows),
            w == env.windows,
            out.deep_view() =~= start + dir_candidates(ds.take(i as int), raw@, w),
        decreases dirs.len() - i,
    {
        let d = dirs[i].as_str();
        let ghost before = out.deep_view();
        let a = join_onto_exec(d, raw, w);
        let b = join_onto_exec(d, clean.as_str(), w);
        out.push(a);
        out.push(b);
        proof {
            assert(out.deep_view() =~= before + seq![a@, b@]);
            let t = ds.take(i + 1);
            assert(t.drop_last() =~= ds.take(i as int));
            assert(t.last() == d@);
        }
        i = i + 1;
    }
    proof {
        assert(ds.take(i as int) =~= ds);
    }
    out
}

/// The path of the model named `raw`. `exists` says, for each place of
/// `model_path_candidates`, whether something is there: the first such
/// place is the model; when none is, `raw` inside the primary models
/// directory.
pub fn resolve_model_path(raw: &str, env: &HostEnvironment, exists: &Vec<bool>) -> (path: String)
    requires
        exists.len() == model_path_candidates_of(raw@, *env).len(),
    ensures
        path@ == resolved_model_path(raw@, *env, exists@),
{
    let candidates = model_path_candidates(raw, env);
    let mut i: usize = 0;
    while i < exists.len()
        invariant
            i <= exists.len(),
            candidates.len() == exists.len(),
            candidates.deep_view() == model_path_candidates_of(raw@, *env),
            forall|j: int| 0 <= j < i ==> !exists@[j],
        decreases exists.len() - i,
    {
        if exists[i] {
            proof {
                lemma_first_existing(exists@, i as int);
            }
            return owned(candidates[i].as_str());
        }
        i = i + 1;
    }
    proof {
        lemma_none_existing(exists@);
    }
    let m = models_dir(env);
    join_onto_exec(m.as_str(), raw, env.windows)
}

proof fn lemma_first_existing(exists: Seq<bool>, i: int)
    requires
        0 <= i < exists.len(),
        exists[i],
        forall|j: int| 0 <= j < i ==> !exists[j],
    ensures
        first_existing(exists) == Some(i),
    decreases i,
{
    if i > 0 {
        let d = exists.drop_first();
        assert forall|j: int| 0 <= j < i - 1 implies !d[j] by {
            assert(d[j] == exists[j + 1]);
        }
        lemma_first_existing(d, i - 1);
    }
}

proof fn lemma_none_existing(exists: Seq<bool>)
    requires
        forall|j: int| 0 <= j < exists.len() ==> !exists[j],
    ensures
        first_existing(exists) is None,
    decreases exists.len(),
{
    if exists.len() > 0 {
        let d = exists.drop_first();
        assert forall|j: int| 0 <= j < d.len() implies !d[j] by {
            assert(d[j] == exists[j + 1]);
        }
        lemma_none_existing(d);
    }
}

/// Where scratch files of a render go.
pub open spec fn scratch_dir_of(env: HostEnvironment) -> Seq<char> {
    match env.temp_dir {
        Some(d) => d@,
        None => env.system_temp_dir@,
    }
}

/// Where Python tools keep their downloads.
pub open spec fn hf_cache_of(env: HostEnvironment) -> Seq<char> {
    match env.hf_cache_dir {
        Some(d) => d@,
        None => join_in(root_of(env), "hf-cache"@, env.windows),
    }
}

/// The interpreter inside a Python environment.
pub open spec fn venv_python_of(venv: Seq<char>, windows: bool) -> Seq<char> {
    if windows {
        join_in(join_in(venv, "Scripts"@, windows), "python.exe"@, windows)
    } else {
        join_in(join_in(venv, "bin"@, windows), "python"@, windows)
    }
}

pub open spec fn venv_pythons(venvs: Seq<Seq<char>>, windows: bool) -> Seq<Seq<char>>
    decreases venvs.len(),
{
    if venvs.len() == 0 {
        Seq::empty()
    } else {
        venv_pythons(venvs.drop_last(), windows).push(venv_python_of(venvs.last(), windows))
    }
}

/// The interpreter files tried before `python` on the search path: the one
/// the host names, then one in each Python environment candidate.
pub open spec fn python_files_of(env: HostEnvironment) -> Seq<Seq<char>> {
    opt_seq(env.python) + venv_pythons(venv_candidates_of(env), env.windows)
}

/// The usual CPython installations under `LOCALAPPDATA`, newest first.
pub open spec fn installed_pythons_of(env: HostEnvironment) -> Seq<Seq<char>> {
    match env.local_appdata {
        Some(l) => {
            let base = join_in(join_in(l@, "Programs"@, env.windows), "Python"@, env.windows);
            seq![
                join_in(join_in(base, "Python313"@, env.windows), "python.exe"@, env.windows),
                join_in(join_in(base, "Python312"@, env.windows), "python.exe"@, env.windows),
                join_in(join_in(base, "Python311"@, env.windows), "python.exe"@, env.windows),
                join_in(join_in(base, "Python310"@, env.windows), "python.exe"@, env.windows),
            ]
        },
        None => Seq::empty(),
    }
}

/// Where scratch files of a render go: the host's choice, else the
/// machine's temporary directory.
pub fn scratch_dir(env: &HostEnvironment) -> (dir: String)
    ensures
        dir@ == scratch_dir_of(*env),
{
    match &env.temp_dir {
        Some(d) => owned(d.as_str()),
        None => owned(env.system_temp_dir.as_str()),
    }
}

/// Where Python tools keep their downloads: the host's choice, else
/// `hf-cache` in the extension's directory.
pub fn hf_cache_dir(env: &HostEnvironment) -> (dir: String)
    ensures
        dir@ == hf_cache_of(*env),
{
    match &env.hf_cache_dir {
        Some(d) => owned(d.as_str()),
        None => join_path(plugin_root(env).as_str(), "hf-cache", env.windows),
    }
}

/// What every Python process inherits: its download cache, the switches
/// that keep `transformers` from loading TensorFlow, and the scratch
/// directory as its temporary directory.
pub fn python_env(env: &HostEnvironment) -> (vars: Vec<(&'static str, String)>)
    ensures
        vars@.len() == 7,
        vars@[0].0@ == "HF_HOME"@ && vars@[0].1@ == hf_cache_of(*env),
        vars@[1].0@ == "TRANSFORMERS_NO_TF"@ && vars@[1].1@ == "1"@,
        vars@[2].0@ == "USE_TF"@ && vars@[2].1@ == "0"@,
        vars@[3].0@ == "TF_CPP_MIN_LOG_LEVEL"@ && vars@[3].1@ == "3"@,
        vars@[4].0@ == "TMPDIR"@ && vars@[4].1@ == scratch_dir_of(*env),
        vars@[5].0@ == "TEMP"@ && vars@[5].1@ == scratch_dir_of(*env),
        vars@[6].0@ == "TMP"@ && vars@[6].1@ == scratch_dir_of(*env),
{
    let mut vars: Vec<(&'static str, String)> = Vec::new();
    vars.push(("HF_HOME", hf_cache_dir(env)));
    vars.push(("TRANSFORMERS_NO_TF", owned("1")));
    vars.push(("USE_TF", owned("0")));
    vars.push(("TF_CPP_MIN_LOG_LEVEL", owned("3")));
    vars.push(("TMPDIR", scratch_dir(env)));
    vars.push(("TEMP", scratch_dir(env)));
    vars.push(("TMP", scratch_dir(env)));
    vars
}

/// The interpreter inside the Python environment `venv`.
pub fn venv_python(venv: &str, windows: bool) -> (exe: String)
    ensures
        exe@ == venv_python_of(venv@, windows),
{
    if windows {
        join_path(join_path(venv, "Scripts", windows).as_str(), "python.exe", windows)
    } else {
        join_path(join_path(venv, "bin", windows).as_str(), "python", windows)
    }
}

/// The interpreter files tried, in order, before `python` on the search
/// path: the one the host names, then one in each environment that
/// `python_venv_candidates` lists.
pub fn python_file_candidates(env: &HostEnvironment) -> (files: Vec<String>)
    ensures
        files.deep_view() == python_files_of(*env),
{
    let mut out: Vec<String> = Vec::new();
    if let Some(p) = &env.python {
        out.push(owned(p.as_str()));
    }
    let ghost start = out.deep_view();
    proof {
        assert(start =~= opt_seq(env.python));
    }
    let venvs = python_venv_candidates(env);
    let ghost vs = venvs.deep_view();
    let mut i: usize = 0;
    while i < venvs.len()
        invariant
            i <= venvs.len(),
            vs == venvs.deep_view(),
            out.deep_view() =~= start + venv_pythons(vs.take(i as int), env.windows),
        decreases venvs.len() - i,
    {
        let ghost before = out.deep_view();
        let exe = venv_python(venvs[i].as_str(), env.windows);
        out.push(exe);
        proof {
            let t = vs.take(i + 1);
            assert(t.drop_last() =~= vs.take(i as int));
            assert(t.last() == venvs@[i as int]@);
            assert(out.deep_view() =~= before.push(exe@));
        }
        i = i + 1;
    }
    proof {
        assert(vs.take(i as int) =~= vs);
    }
    out
}

/// The usual CPython installations under `LOCALAPPDATA`, newest first,
/// tried after `python` on the search path.
pub fn installed_python_candidates(env: &HostEnvironment) -> (files: Vec<String>)
    ensures
        files.deep_view() == installed_pythons_of(*env),
{
    let mut out: Vec<String> = Vec::new();
    if let Some(l) = &env.local_appdata {
        let base = join_path(join_path(l.as_str(), "Programs", env.windows).as_str(), "Python", env.windows);
        out.push(join_path(join_path(base.as_str(), "Python313", env.windows).as_str(), "python.exe", env.windows));
        out.push(join_path(join_path(base.as_str(), "Python312", env.windows).as_str(), "python.exe", env.windows));
        out.push(join_path(join_path(base.as_str(), "Python311", env.windows).as_str(), "python.exe", env.windows));
        out.push(join_path(join_path(base.as_str(), "Python310", env.windows).as_str(), "python.exe", env.windows));
    }
    proof {
        assert(out.deep_view() =~= installed_pythons_of(*env));
    }
    out
}

/// The engine to run. `is_file` says, for each place of
/// `engine_candidates`, whether a file is there: the first such place is the
/// engine; `None` when there is none.
pub fn find_sd_binary(env: &HostEnvironment, is_file: &Vec<bool>) -> (binary: Option<String>)
    requires
        is_file.len() == engine_candidates_of(*env).len(),
    ensures
        binary.deep_view() == match first_existing(is_file@) {
            Some(i) => Some(engine_candidates_of(*env)[i]),
            None => None,
        },
{
    let candidates = engine_candidates(env);
    let mut i: usize = 0;
    while i < is_file.len()
        invariant
            i <= is_file.len(),
            candidates.len() == is_file.len(),
            candidates.deep_view() == engine_candidates_of(*env),
            forall|j: int| 0 <= j < i ==> !is_file@[j],
        decreases is_file.len() - i,
    {
        if is_file[i] {
            proof {
                lemma_first_existing(is_file@, i as int);
            }
            return Some(owned(candidates[i].as_str()));
        }
        i = i + 1;
    }
    proof {
        lemma_none_existing(is_file@);
    }
    None
}

proof fn lemma_dir_candidates_contain(dirs: Seq<Seq<char>>, raw: Seq<char>, windows: bool, d: Seq<char>)
    requires
        dirs.contains(d),
    ensures
        dir_candidates(dirs, raw, windows).contains(join_onto(d, raw, windows)),
    decreases dirs.len(),
{
    let p = dirs.drop_last();
    let rest = dir_candidates(p, raw, windows);
    let tail = seq![join_onto(dirs.last(), raw, windows), join_onto(dirs.last(), file_name(raw, windows), windows)];
    if dirs.last() == d {
        assert((rest + tail)[rest.len() as int] == join_onto(d, raw, windows));
    } else {
        let k = choose|k: int| 0 <= k < dirs.len() && dirs[k] == d;
        assert(p[k] == d);
        lemma_dir_candidates_contain(p, raw, windows, d);
        let j = choose|j: int| 0 <= j < rest.len() && rest[j] == join_onto(d, raw, windows);
        assert((rest + tail)[j] == join_onto(d, raw, windows));
    }
}

/// Where no candidate place holds the model, the path it is resolved to is
/// itself one of those places: it names nothing either.
pub proof fn fallback_is_a_candidate(raw: Seq<char>, env: HostEnvironment)
    ensures
        model_path_candidates_of(raw, env).contains(join_onto(models_dir_of(env), raw, env.windows)),
{
    let r = raw_model_dirs(env);
    let m = models_dir_of(env);
    let a = opt_seq(env.extension_models_dir);
    let b = opt_seq(env.host_models_dir);
    match env.extension_models_dir {
        Some(d) => {
            assert(r[0] == m);
        },
        None => {
            assert(r[(a.len() + b.len()) as int] == m);
        },
    }
    assert(r.contains(m));
    model_dirs_are_listed_once(r);
    assert(model_dirs_of(env).contains(m));
    lemma_dir_candidates_contain(model_dirs_of(env), raw, env.windows, m);
    let pre: Seq<Seq<char>> = if is_absolute(raw, env.windows) {
        seq![raw]
    } else {
        Seq::empty()
    };
    let dc = dir_candidates(model_dirs_of(env), raw, env.windows);
    let j = choose|j: int| 0 <= j < dc.len() && dc[j] == join_onto(m, raw, env.windows);
    assert((pre + dc)[pre.len() + j] == join_onto(m, raw, env.windows));
}

/// The account's default model, `chosen` (as `preferred_image_model` read
/// it), kept only while something is at one of its candidate places:
/// `exists` says, for each place of `model_path_candidates`, whether
/// something is there. A model uninstalled since it was chosen is ignored.
pub fn account_default_model(chosen: Option<String>, env: &HostEnvironment, exists: &Vec<bool>) -> (model: Option<
    String,
>)
    requires
        chosen matches Some(c) ==> exists.len() == model_path_candidates_of(c@, *env).len(),
    ensures
        model.deep_view() == match chosen.deep_view() {
            Some(c) => if first_existing(exists@) is Some {
                Some(c)
            } else {
                None
            },
            None => None,
        },
{
    let ghost dv = chosen.deep_view();
    match chosen {
        Some(c) => {
            assert(dv == Some(c@));
            let mut i: usize = 0;
            while i < exists.len()
                invariant
                    i <= exists.len(),
                    dv == Some(c@),
                    dv == chosen.deep_view(),
                    forall|j: int| 0 <= j < i ==> !exists@[j],
                decreases exists.len() - i,
            {
                if exists[i] {
                    proof {
                        lemma_first_existing(exists@, i as int);
                    }
                    let r = Some(c);
                    assert(r.deep_view() == Some(dv->Some_0));
                    assert(first_existing(exists@) is Some);
                    assert(dv == chosen.deep_view());
                    return r;
                }
                i = i + 1;
            }
            proof {
                lemma_none_existing(exists@);
            }
            None
        },
        None => None,
    }
}

} // verus!
