//! Paths as texts, as `std::path` reads them on the machine at hand: `/`
//! separates components everywhere, `\\` too on Windows, and a name is joined
//! to a directory with the machine's own separator.

use vstd::prelude::*;
use crate::text::{
    chars_of, decimal, owned, push_char, push_decimal, push_str, slice_chars, starts_with, starts_with_str,
    string_of,
};

verus! {

/// A component separator: `/`, and on Windows `\\` too.
pub open spec fn is_sep(c: char, windows: bool) -> bool {
    c == '/' || (windows && c == '\\')
}

pub open spec fn sep_pred(windows: bool) -> spec_fn(char) -> bool {
    |c: char| is_sep(c, windows)
}

/// The separator a join inserts.
pub open spec fn main_sep(windows: bool) -> char {
    if windows {
        '\\'
    } else {
        '/'
    }
}

pub open spec fn dot_pred() -> spec_fn(char) -> bool {
    |c: char| c == '.'
}

/// Position of the last character of `s` that satisfies `p`, or -1.
pub open spec fn last_pos(s: Seq<char>, p: spec_fn(char) -> bool) -> int
    decreases s.len(),
{
    if s.len() == 0 {
        -1
    } else if p(s.last()) {
        s.len() - 1
    } else {
        last_pos(s.drop_last(), p)
    }
}

/// The last component of a path.
pub open spec fn file_name(path: Seq<char>, windows: bool) -> Seq<char> {
    path.skip(last_pos(path, sep_pred(windows)) + 1)
}

/// A drive letter and a colon.
pub open spec fn is_drive(path: Seq<char>) -> bool {
    path.len() >= 2 && (('a' <= path[0] && path[0] <= 'z') || ('A' <= path[0] && path[0] <= 'Z'))
        && path[1] == ':'
}

/// The length of a path's root: `/` on Unix; on Windows a drive with its
/// separator, or a leading separator.
pub open spec fn root_len(path: Seq<char>, windows: bool) -> int {
    if windows && path.len() >= 3 && is_drive(path) && is_sep(path[2], windows) {
        3
    } else if path.len() >= 1 && is_sep(path[0], windows) {
        1
    } else {
        0
    }
}

/// Everything before the last component; a root is kept whole.
pub open spec fn parent(path: Seq<char>, windows: bool) -> Seq<char> {
    let k = last_pos(path, sep_pred(windows));
    if k < 0 {
        Seq::empty()
    } else if k < root_len(path, windows) {
        path.take(root_len(path, windows))
    } else {
        path.take(k)
    }
}

/// `name` inside the directory `dir`: no separator is added after an empty
/// directory, a separator, or (on Windows) a bare drive.
pub open spec fn join(dir: Seq<char>, name: Seq<char>, windows: bool) -> Seq<char> {
    if dir.len() == 0 {
        name
    } else if is_sep(dir.last(), windows) || (windows && dir.len() == 2 && is_drive(dir)) {
        dir + name
    } else {
        dir.push(main_sep(windows)) + name
    }
}

/// A file name without its extension; a leading dot does not start one.
pub open spec fn stem(name: Seq<char>) -> Seq<char> {
    let k = last_pos(name, dot_pred());
    if k > 0 {
        name.take(k)
    } else {
        name
    }
}

/// The extension of a file name, without its dot; empty when there is none.
pub open spec fn extension(name: Seq<char>) -> Seq<char> {
    let k = last_pos(name, dot_pred());
    if k > 0 {
        name.skip(k + 1)
    } else {
        Seq::empty()
    }
}

/// The file of a batch member: `<stem>_<index>.<extension>` beside `out`.
pub open spec fn batch_member(out: Seq<char>, index: nat, windows: bool) -> Seq<char> {
    let name = file_name(out, windows);
    join(
        parent(out, windows),
        stem(name) + seq!['_'] + decimal(index) + seq!['.'] + extension(name),
        windows,
    )
}

/// The output pattern handed to the engine for a batch: `<stem>_%d.<extension>`.
pub open spec fn batch_pattern(out: Seq<char>, windows: bool) -> Seq<char> {
    let name = file_name(out, windows);
    join(parent(out, windows), stem(name) + "_%d."@ + extension(name), windows)
}

/// The pattern given to the engine and the files it writes, for `count`
/// images rendered into `out`.
pub open spec fn batch_files(out: Seq<char>, count: nat, windows: bool) -> (Seq<char>, Seq<Seq<char>>) {
    if count <= 1 {
        (out, seq![out])
    } else {
        (batch_pattern(out, windows), Seq::new(count, |i: int| batch_member(out, i as nat, windows)))
    }
}

pub proof fn lemma_last_pos_bound(s: Seq<char>, p: spec_fn(char) -> bool)
    ensures
        -1 <= last_pos(s, p) < s.len(),
        last_pos(s, p) >= 0 ==> p(s[last_pos(s, p)]),
        forall|i: int| last_pos(s, p) < i < s.len() ==> !p(#[trigger] s[i]),
    decreases s.len(),
{
    if s.len() > 0 && !p(s.last()) {
        lemma_last_pos_bound(s.drop_last(), p);
        assert forall|i: int| last_pos(s, p) < i < s.len() implies !p(#[trigger] s[i]) by {
            if i < s.len() - 1 {
                assert(s[i] == s.drop_last()[i]);
            }
        }
    }
}

pub proof fn lemma_last_pos_unique(s: Seq<char>, p: spec_fn(char) -> bool, k: int)
    requires
        -1 <= k < s.len(),
        k >= 0 ==> p(s[k]),
        forall|i: int| k < i < s.len() ==> !p(#[trigger] s[i]),
    ensures
        last_pos(s, p) == k,
    decreases s.len(),
{
    if s.len() > 0 && k < s.len() - 1 {
        assert(!p(s[s.len() - 1]));
        let d = s.drop_last();
        assert forall|i: int| k < i < d.len() implies !p(#[trigger] d[i]) by {
            assert(d[i] == s[i]);
        }
        if k >= 0 {
            assert(d[k] == s[k]);
        }
        lemma_last_pos_unique(d, p, k);
    }
}

/// Position of the last separator of `v`, or `v.len()` when there is none.
fn last_sep_exec(v: &Vec<char>, windows: bool) -> (k: usize)
    ensures
        k <= v.len(),
        k == v.len() <==> last_pos(v@, sep_pred(windows)) == -1,
        k < v.len() ==> last_pos(v@, sep_pred(windows)) == k,
{
    let mut i = v.len();
    while i > 0 && !(v[i - 1] == '/' || (windows && v[i - 1] == '\\'))
        invariant
            i <= v.len(),
            forall|j: int| i <= j < v.len() ==> !is_sep(#[trigger] v@[j], windows),
        decreases i,
    {
        i = i - 1;
    }
    if i == 0 {
        proof {
            lemma_last_pos_unique(v@, sep_pred(windows), -1);
        }
        v.len()
    } else {
        proof {
            lemma_last_pos_unique(v@, sep_pred(windows), i - 1);
        }
        i - 1
    }
}

/// Position of the last dot of `v`, or `v.len()` when there is none.
fn last_dot_exec(v: &Vec<char>) -> (k: usize)
    ensures
        k <= v.len(),
        k == v.len() <==> last_pos(v@, dot_pred()) == -1,
        k < v.len() ==> last_pos(v@, dot_pred()) == k,
{
    let mut i = v.len();
    while i > 0 && v[i - 1] != '.'
        invariant
            i <= v.len(),
            forall|j: int| i <= j < v.len() ==> #[trigger] v@[j] != '.',
        decreases i,
    {
        i = i - 1;
    }
    if i == 0 {
        proof {
            lemma_last_pos_unique(v@, dot_pred(), -1);
        }
        v.len()
    } else {
        proof {
            lemma_last_pos_unique(v@, dot_pred(), i - 1);
        }
        i - 1
    }
}

fn is_sep_exec(c: char, windows: bool) -> (sep: bool)
    ensures
        sep == is_sep(c, windows),
{
    c == '/' || (windows && c == '\\')
}

fn is_drive_exec(v: &Vec<char>) -> (drive: bool)
    ensures
        drive == is_drive(v@),
{
    v.len() >= 2 && (('a' <= v[0] && v[0] <= 'z') || ('A' <= v[0] && v[0] <= 'Z')) && v[1] == ':'
}

fn root_len_exec(v: &Vec<char>, windows: bool) -> (n: usize)
    ensures
        n as int == root_len(v@, windows),
        n <= v.len(),
{
    if windows && v.len() >= 3 && is_drive_exec(v) && is_sep_exec(v[2], windows) {
        3
    } else if v.len() >= 1 && is_sep_exec(v[0], windows) {
        1
    } else {
        0
    }
}

/// Everything before the last component of a path; a root is kept whole.
pub fn parent_string(path: &str, windows: bool) -> (dir: String)
    ensures
        dir@ == parent(path@, windows),
{
    let v = chars_of(path);
    string_of(&parent_chars(&v, windows))
}

fn parent_chars(v: &Vec<char>, windows: bool) -> (dir: Vec<char>)
    ensures
        dir@ == parent(v@, windows),
{
    let k = last_sep_exec(v, windows);
    let root = root_len_exec(v, windows);
    let r = if k == v.len() {
        Vec::new()
    } else if k < root {
        slice_chars(v, 0, root)
    } else {
        slice_chars(v, 0, k)
    };
    proof {
        assert(r@ =~= parent(v@, windows));
    }
    r
}

/// `name` inside the directory `dir`, as `Path::join` writes it for a
/// relative name.
pub fn join_names(dir: &str, name: &str, windows: bool) -> (path: String)
    ensures
        path@ == join(dir@, name@, windows),
{
    let v = chars_of(dir);
    join_into(&v, name, windows)
}

fn join_into(dir: &Vec<char>, name: &str, windows: bool) -> (r: String)
    ensures
        r@ == join(dir@, name@, windows),
{
    let mut r = string_of(dir);
    let bare_drive = windows && dir.len() == 2 && is_drive_exec(dir);
    if dir.len() > 0 && !is_sep_exec(dir[dir.len() - 1], windows) && !bare_drive {
        push_char(&mut r, if windows { '\\' } else { '/' });
    }
    push_str(&mut r, name);
    proof {
        if dir@.len() == 0 {
            assert(r@ =~= name@);
        }
    }
    r
}

/// The extension of a file name, without its dot; empty when there is none.
pub fn extension_string(name: &str) -> (ext: String)
    ensures
        ext@ == extension(name@),
{
    let v = chars_of(name);
    let d = last_dot_exec(&v);
    if d < v.len() && d > 0 {
        let r = slice_chars(&v, d + 1, v.len());
        string_of(&r)
    } else {
        proof {
            assert(Seq::<char>::empty() =~= extension(name@));
        }
        String::new()
    }
}

/// Whether a path is absolute: on Windows, a drive letter, a colon and a
/// separator, or a path that begins with two separators (a share or a
/// verbatim path); elsewhere, a path that begins with `/`.
pub open spec fn is_absolute(path: Seq<char>, windows: bool) -> bool {
    if windows {
        (path.len() >= 3 && (('a' <= path[0] && path[0] <= 'z') || ('A' <= path[0] && path[0] <= 'Z'))
            && path[1] == ':' && is_sep(path[2], true)) || (path.len() >= 2 && is_sep(path[0], true) && is_sep(path[1], true))
    } else {
        path.len() >= 1 && path[0] == '/'
    }
}

/// A path in the ordinary form that the engine can reopen: on Windows, the
/// verbatim prefix `\\?\` is dropped, and `\\?\UNC\` becomes `\\`.
pub open spec fn plain_form(path: Seq<char>, windows: bool) -> Seq<char> {
    if windows && starts_with(path, "\\\\?\\UNC\\"@) {
        "\\\\"@ + path.skip(8)
    } else if windows && starts_with(path, "\\\\?\\"@) {
        path.skip(4)
    } else {
        path
    }
}

/// Whether `path` is absolute on the machine described by `windows`.
pub fn is_absolute_path(path: &str, windows: bool) -> (absolute: bool)
    ensures
        absolute == is_absolute(path@, windows),
{
    let v = chars_of(path);
    if windows {
        (v.len() >= 3 && (('a' <= v[0] && v[0] <= 'z') || ('A' <= v[0] && v[0] <= 'Z')) && v[1] == ':'
            && (v[2] == '/' || v[2] == '\\')) || (v.len() >= 2 && (v[0] == '/' || v[0] == '\\') && (v[1]
            == '/' || v[1] == '\\'))
    } else {
        v.len() >= 1 && v[0] == '/'
    }
}

/// The ordinary form of a path that the engine can reopen. On Windows a
/// canonical path comes back as `\\?\D:\...`, which the engine refuses for a
/// directory; elsewhere the path is kept as it is.
pub fn plain_path(path: &str, windows: bool) -> (plain: String)
    ensures
        plain@ == plain_form(path@, windows),
{
    proof {
        reveal_strlit("\\\\?\\UNC\\");
        reveal_strlit("\\\\?\\");
    }
    let v = chars_of(path);
    if windows && starts_with_str(&v, "\\\\?\\UNC\\") {
        let mut r = owned("\\\\");
        let rest = slice_chars(&v, 8, v.len());
        push_str(&mut r, string_of(&rest).as_str());
        r
    } else if windows && starts_with_str(&v, "\\\\?\\") {
        string_of(&slice_chars(&v, 4, v.len()))
    } else {
        owned(path)
    }
}

/// `name` inside `dir`, unless `name` is absolute, which then replaces it.
pub open spec fn join_onto(dir: Seq<char>, name: Seq<char>, windows: bool) -> Seq<char> {
    if is_absolute(name, windows) {
        name
    } else {
        join(dir, name, windows)
    }
}

/// The last component of a path.
pub fn file_name_string(path: &str, windows: bool) -> (name: String)
    ensures
        name@ == file_name(path@, windows),
{
    let v = chars_of(path);
    let k = last_sep_exec(&v, windows);
    let start = if k == v.len() {
        0
    } else {
        k + 1
    };
    let r = slice_chars(&v, start, v.len());
    proof {
        assert(r@ =~= file_name(path@, windows));
    }
    string_of(&r)
}

/// The pieces of a path that a batch needs: directory, stem and extension.
struct PathPieces {
    dir: Vec<char>,
    stem: Vec<char>,
    extension: Vec<char>,
}

fn path_pieces(out: &str, windows: bool) -> (p: PathPieces)
    ensures
        p.dir@ == parent(out@, windows),
        p.stem@ == stem(file_name(out@, windows)),
        p.extension@ == extension(file_name(out@, windows)),
{
    let v = chars_of(out);
    let k = last_sep_exec(&v, windows);
    let dir = parent_chars(&v, windows);
    let start = if k == v.len() {
        0
    } else {
        k + 1
    };
    let name = slice_chars(&v, start, v.len());
    proof {
        assert(name@ =~= file_name(out@, windows));
    }
    let d = last_dot_exec(&name);
    if d < name.len() && d > 0 {
        let st = slice_chars(&name, 0, d);
        let ext = slice_chars(&name, d + 1, name.len());
        proof {
            assert(st@ =~= stem(name@));
            assert(ext@ =~= extension(name@));
        }
        PathPieces { dir, stem: st, extension: ext }
    } else {
        proof {
            assert(name@ =~= stem(name@));
            assert(Seq::<char>::empty() =~= extension(name@));
        }
        PathPieces { dir, stem: name, extension: Vec::new() }
    }
}

/// The output pattern handed to the engine and the files it will write when
/// `count` images are rendered into `out_file`: one file is `out_file`
/// itself; a batch writes `<stem>_<index>.<extension>` beside it, which the
/// engine is asked for with `<stem>_%d.<extension>`.
pub fn batch_output(out_file: &str, count: u32, windows: bool) -> (files: (String, Vec<String>))
    ensures
        (files.0@, files.1.deep_view()) == batch_files(out_file@, count as nat, windows),
{
    if count <= 1 {
        let a = owned(out_file);
        let b = owned(out_file);
        let mut v: Vec<String> = Vec::new();
        v.push(b);
        proof {
            assert(v.deep_view() =~= seq![out_file@]);
        }
        return (a, v);
    }
    let pieces = path_pieces(out_file, windows);
    let mut name = string_of(&pieces.stem);
    push_str(&mut name, "_%d.");
    let ext = string_of(&pieces.extension);
    push_str(&mut name, ext.as_str());
    let pattern = join_into(&pieces.dir, name.as_str(), windows);
    let mut paths: Vec<String> = Vec::new();
    let mut i: u32 = 0;
    while i < count
        invariant
            i <= count,
            pieces.dir@ == parent(out_file@, windows),
            pieces.stem@ == stem(file_name(out_file@, windows)),
            ext@ == extension(file_name(out_file@, windows)),
            paths.deep_view() =~= Seq::new(i as nat, |j: int| batch_member(out_file@, j as nat, windows)),
        decreases count - i,
    {
        let mut member = string_of(&pieces.stem);
        push_char(&mut member, '_');
        push_decimal(&mut member, i as u64);
        push_char(&mut member, '.');
        push_str(&mut member, ext.as_str());
        let joined = join_into(&pieces.dir, member.as_str(), windows);
        proof {
            assert(member@ =~= stem(file_name(out_file@, windows)) + seq!['_'] + decimal(i as nat) + seq!['.']
                + extension(file_name(out_file@, windows)));
        }
        let ghost before = paths.deep_view();
        paths.push(joined);
        proof {
            assert(joined@ == batch_member(out_file@, i as nat, windows));
            assert(paths.deep_view() =~= before.push(joined@));
        }
        i = i + 1;
    }
    (pattern, paths)
}

proof fn lemma_decimal_len(n: nat)
    ensures
        decimal(n).len() >= 1,
        n >= 10 ==> decimal(n).len() >= 2,
    decreases n,
{
    if n >= 10 {
        lemma_decimal_len(n / 10);
    }
}

proof fn lemma_digit_injective(a: nat, b: nat)
    requires
        a < 10,
        b < 10,
        decimal(a) == decimal(b),
    ensures
        a == b,
{
    assert(decimal(a)[0] == decimal(b)[0]);
    assert(decimal(a)[0] as u32 == 48 + a);
    assert(decimal(b)[0] as u32 == 48 + b);
}

/// Distinct numbers are written differently.
pub proof fn lemma_decimal_injective(a: nat, b: nat)
    requires
        decimal(a) == decimal(b),
    ensures
        a == b,
    decreases a,
{
    lemma_decimal_len(a);
    lemma_decimal_len(b);
    if a < 10 && b < 10 {
        lemma_digit_injective(a, b);
    } else if a >= 10 && b >= 10 {
        let da = decimal(a);
        let db = decimal(b);
        assert(da.drop_last() =~= decimal(a / 10));
        assert(db.drop_last() =~= decimal(b / 10));
        lemma_decimal_injective(a / 10, b / 10);
        assert(da.last() == db.last());
        assert(da.last() as u32 == 48 + a % 10);
        assert(db.last() as u32 == 48 + b % 10);
    } else {
        assert(decimal(a).len() != decimal(b).len());
    }
}

/// A batch writes as many files as it renders, each under its own name: no
/// two images of one batch overwrite each other.
pub proof fn batch_files_are_distinct(out: Seq<char>, count: nat, windows: bool)
    ensures
        batch_files(out, count, windows).1.len() == if count <= 1 { 1 } else { count },
        forall|i: int, j: int|
            0 <= i < j < batch_files(out, count, windows).1.len() ==> #[trigger] batch_files(out, count, windows).1[i]
                != #[trigger] batch_files(out, count, windows).1[j],
{
    if count > 1 {
        assert forall|i: int, j: int|
            0 <= i < j < batch_files(out, count, windows).1.len() implies #[trigger] batch_files(out, count, windows).1[i]
                != #[trigger] batch_files(out, count, windows).1[j] by {
            lemma_members_differ(out, i as nat, j as nat, windows);
        }
    }
}

proof fn lemma_members_differ(out: Seq<char>, i: nat, j: nat, windows: bool)
    requires
        i != j,
    ensures
        batch_member(out, i, windows) != batch_member(out, j, windows),
{
    let name = file_name(out, windows);
    let st = stem(name);
    let ext = extension(name);
    let ni = st + seq!['_'] + decimal(i) + seq!['.'] + ext;
    let nj = st + seq!['_'] + decimal(j) + seq!['.'] + ext;
    let dir = parent(out, windows);
    if batch_member(out, i, windows) == batch_member(out, j, windows) {
        let pre: Seq<char> = if dir.len() == 0 {
            Seq::empty()
        } else if is_sep(dir.last(), windows) || (windows && dir.len() == 2 && is_drive(dir)) {
            dir
        } else {
            dir.push(main_sep(windows))
        };
        assert(batch_member(out, i, windows) == pre + ni);
        assert(batch_member(out, j, windows) == pre + nj);
        assert(ni =~= (pre + ni).skip(pre.len() as int));
        assert(nj =~= (pre + nj).skip(pre.len() as int));
        assert(ni == nj);
        assert(ni.len() == nj.len());
        let k: int = st.len() as int + 1;
        assert(decimal(i).len() == decimal(j).len());
        assert(decimal(i) =~= ni.subrange(k, k + decimal(i).len()));
        assert(decimal(j) =~= nj.subrange(k, k + decimal(j).len()));
        lemma_decimal_injective(i, j);
    }
}

} // verus!
