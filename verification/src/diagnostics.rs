//! What is reported when a rendering or an edit fails: the useful cause in
//! a Python traceback, the engine's error lines, and the outcome of a render.

use vstd::prelude::*;
use crate::engine::join_texts;
use crate::text::{
    chars_of, contains, contains_any, contains_any_str, contains_str, lower, lower_chars_of, owned,
    push_str, string_of, trim, trim_chars, views,
};

verus! {

/// The text split at each line feed.
pub open spec fn split_lines(s: Seq<char>) -> Seq<Seq<char>>
    decreases s.len(),
{
    if s.len() == 0 {
        seq![Seq::empty()]
    } else {
        let r = split_lines(s.drop_last());
        if s.last() == '\n' {
            r.push(Seq::empty())
        } else {
            r.update(r.len() - 1, r.last().push(s.last()))
        }
    }
}

/// Start-up chatter of TensorFlow, oneDNN and transformers that says
/// nothing about the failure.
pub open spec fn noise_markers() -> Seq<Seq<char>> {
    seq![
        "absl::InitializeLog"@,
        "oneDNN custom operations"@,
        "TF_ENABLE_ONEDNN_OPTS"@,
        "All log messages before"@,
        "port.cc:"@,
        "flash-attn is not installed"@,
    ]
}

/// The trimmed lines that are neither blank nor noise, in order.
pub open spec fn useful_lines(lines: Seq<Seq<char>>) -> Seq<Seq<char>>
    decreases lines.len(),
{
    if lines.len() == 0 {
        Seq::empty()
    } else {
        let r = useful_lines(lines.drop_last());
        let t = trim(lines.last());
        if t.len() > 0 && !contains_any(t, noise_markers()) {
            r.push(t)
        } else {
            r
        }
    }
}

pub open spec fn is_error_line(l: Seq<char>) -> bool {
    contains(l, "Error:"@) || contains(l, "Exception:"@)
}

/// Position of the last line naming an error or exception, or -1.
pub open spec fn last_error(u: Seq<Seq<char>>) -> int
    decreases u.len(),
{
    if u.len() == 0 {
        -1
    } else if is_error_line(u.last()) {
        u.len() - 1
    } else {
        last_error(u.drop_last())
    }
}

/// The cause of a Python failure: from the last line naming an error to the
/// end; without such a line, the last four useful lines.
pub open spec fn failure_summary(stderr: Seq<char>) -> Seq<char> {
    let u = useful_lines(split_lines(stderr));
    let k = last_error(u);
    if k >= 0 {
        join_texts(u.skip(k), " "@)
    } else if u.len() == 0 {
        "erreur inconnue (aucune sortie)"@
    } else if u.len() <= 4 {
        join_texts(u, " "@)
    } else {
        join_texts(u.skip(u.len() - 4), " "@)
    }
}

/// An engine output line reports an error.
pub open spec fn is_engine_error(line: Seq<char>) -> bool {
    contains(line, "[ERROR]"@) || contains(lower(line), "error"@)
}

/// The outcome of a render: the images written, or the last error the
/// engine reported.
pub open spec fn render_outcome(success: bool, written: Seq<Seq<char>>, errors: Seq<Seq<char>>) -> Result<Seq<Seq<char>>, Seq<char>> {
    if !success || written.len() == 0 {
        Err(
            "génération échouée : "@ + if errors.len() > 0 {
                errors.last()
            } else {
                "aucune image écrite"@
            },
        )
    } else {
        Ok(written)
    }
}

fn copy_chars(v: &Vec<char>) -> (r: Vec<char>)
    ensures
        r@ == v@,
{
    crate::text::slice_chars(v, 0, v.len())
}

/// The lines of a text, split at each line feed.
fn lines_of(s: &str) -> (lines: Vec<Vec<char>>)
    ensures
        lines@.map_values(|l: Vec<char>| l@) == split_lines(s@),
{
    let chars = chars_of(s);
    let mut done: Vec<Vec<char>> = Vec::new();
    let mut current: Vec<char> = Vec::new();
    let mut i: usize = 0;
    while i < chars.len()
        invariant
            chars@ == s@,
            i <= chars.len(),
            done@.map_values(|l: Vec<char>| l@).push(current@) == split_lines(chars@.take(i as int)),
        decreases chars.len() - i,
    {
        let c = chars[i];
        let ghost prev = done@.map_values(|l: Vec<char>| l@).push(current@);
        proof {
            let t = chars@.take(i + 1);
            assert(t.drop_last() =~= chars@.take(i as int));
            assert(t.last() == c);
        }
        if c == '\n' {
            let finished = copy_chars(&current);
            done.push(finished);
            current = Vec::new();
            proof {
                assert(done@.map_values(|l: Vec<char>| l@).push(current@) =~= prev.push(
                    Seq::<char>::empty(),
                ));
            }
        } else {
            current.push(c);
            proof {
                assert(done@.map_values(|l: Vec<char>| l@).push(current@) =~= prev.update(
                    prev.len() - 1,
                    prev.last().push(c),
                ));
            }
        }
        i = i + 1;
    }
    done.push(current);
    proof {
        assert(chars@.take(i as int) =~= chars@);
    }
    done
}

/// The useful cause in a Python traceback: noise and blank lines dropped,
/// then from the last line naming an error or exception to the end, or
/// else the last four lines, joined by spaces.
pub fn summarise_python_error(stderr: &str) -> (summary: String)
    ensures
        summary@ == failure_summary(stderr@),
{
    let lines = lines_of(stderr);
    let ghost all = lines@.map_values(|l: Vec<char>| l@);
    let noise = [
        "absl::InitializeLog",
        "oneDNN custom operations",
        "TF_ENABLE_ONEDNN_OPTS",
        "All log messages before",
        "port.cc:",
        "flash-attn is not installed",
    ];
    proof {
        assert(views(noise@) =~= noise_markers());
    }
    let mut useful: Vec<Vec<char>> = Vec::new();
    let mut i: usize = 0;
    while i < lines.len()
        invariant
            i <= lines.len(),
            all == lines@.map_values(|l: Vec<char>| l@),
            views(noise@) == noise_markers(),
            useful@.map_values(|l: Vec<char>| l@) == useful_lines(all.take(i as int)),
        decreases lines.len() - i,
    {
        let t = crate::text::trim_chars(&lines[i]);
        let ghost before = useful@.map_values(|l: Vec<char>| l@);
        proof {
            let p = all.take(i + 1);
            assert(p.drop_last() =~= all.take(i as int));
            assert(p.last() == lines@[i as int]@);
        }
        if t.len() > 0 && !contains_any_str(&t, &noise) {
            useful.push(t);
            proof {
                assert(useful@.map_values(|l: Vec<char>| l@) =~= before.push(t@));
            }
        }
        i = i + 1;
    }
    proof {
        assert(all.take(i as int) =~= all);
    }
    let ghost u = useful@.map_values(|l: Vec<char>| l@);
    let mut k: usize = useful.len();
    let mut found = false;
    proof {
        assert(u.take(k as int) =~= u);
    }
    while k > 0 && !found
        invariant
            k <= useful.len(),
            u == useful@.map_values(|l: Vec<char>| l@),
            !found ==> last_error(u) == last_error(u.take(k as int)),
            found ==> k < useful.len() && last_error(u) == k,
        decreases k + (if found { 0int } else { 1int }),
    {
        let l = &useful[k - 1];
        proof {
            let p = u.take(k as int);
            assert(p.drop_last() =~= u.take(k - 1));
            assert(p.last() == l@);
        }
        if contains_str(l, "Error:") || contains_str(l, "Exception:") {
            found = true;
            k = k - 1;
        } else {
            k = k - 1;
        }
    }
    let start: usize = if found {
        k
    } else {
        proof {
            assert(u.take(0) =~= Seq::<Seq<char>>::empty());
        }
        if useful.len() == 0 {
            return owned("erreur inconnue (aucune sortie)");
        }
        if useful.len() <= 4 {
            0
        } else {
            useful.len() - 4
        }
    };
    let mut r = String::new();
    let mut j: usize = start;
    proof {
        assert(u.skip(start as int).take(0) =~= Seq::<Seq<char>>::empty());
        if !found && useful.len() <= 4 {
            assert(u.skip(0) =~= u);
        }
    }
    while j < useful.len()
        invariant
            start <= j <= useful.len(),
            u == useful@.map_values(|l: Vec<char>| l@),
            r@ == join_texts(u.skip(start as int).take(j - start), " "@),
        decreases useful.len() - j,
    {
        let ghost before = r@;
        if j > start {
            push_str(&mut r, " ");
        }
        let piece = string_of(&useful[j]);
        push_str(&mut r, piece.as_str());
        proof {
            let q = u.skip(start as int).take(j + 1 - start);
            assert(q.drop_last() =~= u.skip(start as int).take(j - start));
            assert(q.last() == u[j as int]);
            if j == start {
                assert(r@ =~= q[0]);
            } else {
                assert(r@ =~= before + " "@ + q.last());
            }
        }
        j = j + 1;
    }
    proof {
        assert(u.skip(start as int).take(j - start) =~= u.skip(start as int));
    }
    r
}

/// Whether an engine output line reports an error.
pub fn engine_error_line(line: &str) -> (error: bool)
    ensures
        error == is_engine_error(line@),
{
    let v = chars_of(line);
    let l = lower_chars_of(line);
    contains_str(&v, "[ERROR]") || contains_str(&l, "error")
}

/// The images a render wrote, or why it failed: the engine failed or wrote
/// nothing, reported with the last error line it printed.
pub fn render_result(success: bool, written: Vec<String>, errors: &Vec<String>) -> (outcome: Result<Vec<String>, String>)
    ensures
        match outcome {
            Ok(v) => render_outcome(success, written.deep_view(), errors.deep_view()) == Ok::<Seq<Seq<char>>, Seq<char>>(v.deep_view()),
            Err(e) => render_outcome(success, written.deep_view(), errors.deep_view()) == Err::<Seq<Seq<char>>, Seq<char>>(e@),
        },
{
    if !success || written.len() == 0 {
        let mut msg = owned("génération échouée : ");
        if errors.len() > 0 {
            push_str(&mut msg, errors[errors.len() - 1].as_str());
        } else {
            push_str(&mut msg, "aucune image écrite");
        }
        return Err(msg);
    }
    Ok(written)
}

proof fn lemma_useful_lines_nonblank(lines: Seq<Seq<char>>)
    ensures
        forall|i: int| 0 <= i < useful_lines(lines).len() ==> #[trigger] useful_lines(lines)[i].len() > 0,
    decreases lines.len(),
{
    if lines.len() > 0 {
        let r = useful_lines(lines.drop_last());
        lemma_useful_lines_nonblank(lines.drop_last());
        let t = trim(lines.last());
        if t.len() > 0 && !contains_any(t, noise_markers()) {
            assert forall|i: int| 0 <= i < r.push(t).len() implies #[trigger] r.push(t)[i].len() > 0 by {
                if i < r.len() {
                    assert(r.push(t)[i] == r[i]);
                }
            }
        }
    }
}

proof fn lemma_join_nonempty(parts: Seq<Seq<char>>, sep: Seq<char>)
    requires
        parts.len() > 0,
        parts[0].len() > 0,
    ensures
        join_texts(parts, sep).len() > 0,
    decreases parts.len(),
{
    if parts.len() > 1 {
        assert(parts.drop_last()[0] == parts[0]);
        lemma_join_nonempty(parts.drop_last(), sep);
    }
}

/// A failed edit always reports a cause: the summary of a Python failure is
/// never empty, whatever the error stream held.
pub proof fn failures_always_have_a_cause(stderr: Seq<char>)
    ensures
        failure_summary(stderr).len() > 0,
{
    let u = useful_lines(split_lines(stderr));
    lemma_useful_lines_nonblank(split_lines(stderr));
    let k = last_error(u);
    lemma_last_error_bound(u);
    if k >= 0 {
        assert(u.skip(k)[0] == u[k]);
        lemma_join_nonempty(u.skip(k), " "@);
    } else if u.len() > 4 {
        assert(u.skip(u.len() - 4)[0] == u[u.len() - 4]);
        lemma_join_nonempty(u.skip(u.len() - 4), " "@);
    } else if u.len() > 0 {
        lemma_join_nonempty(u, " "@);
    } else {
        reveal_strlit("erreur inconnue (aucune sortie)");
    }
}

proof fn lemma_last_error_bound(u: Seq<Seq<char>>)
    ensures
        -1 <= last_error(u) < u.len(),
    decreases u.len(),
{
    if u.len() > 0 {
        lemma_last_error_bound(u.drop_last());
    }
}

} // verus!
