//! Editing one named area of an image, leaving the rest untouched: the
//! edit's mode and colour, its checks, and the script that does the pixel
//! work through a mask.

use vstd::prelude::*;
use crate::engine::SdRequest;
use crate::generation::{replacement_side, EngineContext};
use crate::paths::{file_name, is_drive, is_sep, join, join_names, last_pos, lemma_last_pos_unique, main_sep, parent, sep_pred};
use crate::script::SCRIPT_BODY;
use crate::text::{
    drop_leading, is_space, lemma_leading_unique, lemma_trailing_unique, space_pred,
    chars_of, decimal, eq_chars, decimal_string, lower, owned, push_decimal, push_str, string_of, trim,
    trim_chars,
};

verus! {

/// How the selected area is changed.
#[derive(Debug, Clone, Copy, PartialEq, Eq, Structural)]
pub enum EditMode {
    /// Exact colour change in LAB space, no diffusion model.
    Recolour,
    /// The area is redrawn by the engine.
    Replace,
    /// Segment only, and tint the selection so it can be checked first.
    Preview,
}

/// The mode a text names, case and surrounding whitespace ignored.
pub open spec fn mode_named(s: Seq<char>) -> Option<EditMode> {
    let m = lower(trim(s));
    if m == "recolor"@ || m == "recolour"@ || m == "couleur"@ {
        Some(EditMode::Recolour)
    } else if m == "replace"@ || m == "remplacer"@ {
        Some(EditMode::Replace)
    } else if m == "preview"@ || m == "apercu"@ || m == "aperçu"@ {
        Some(EditMode::Preview)
    } else {
        None
    }
}

pub open spec fn is_hex_digit(c: char) -> bool {
    ('0' <= c && c <= '9') || ('a' <= c && c <= 'f') || ('A' <= c && c <= 'F')
}

pub open spec fn hex_value(c: char) -> nat {
    if '0' <= c && c <= '9' {
        ((c as u32) - ('0' as u32)) as nat
    } else if 'a' <= c && c <= 'f' {
        ((c as u32) - ('a' as u32) + 10) as nat
    } else {
        ((c as u32) - ('A' as u32) + 10) as nat
    }
}

pub open spec fn hash_pred() -> spec_fn(char) -> bool {
    |c: char| c == '#'
}

/// The hexadecimal part of a colour: trimmed, leading `#`s removed.
pub open spec fn colour_digits(s: Seq<char>) -> Seq<char> {
    crate::text::drop_leading(trim(s), hash_pred())
}

/// The colour `#RRGGBB` (or `RRGGBB`) names, if it is one.
pub open spec fn colour_named(s: Seq<char>) -> Option<(u8, u8, u8)> {
    let h = colour_digits(s);
    if h.len() == 6 && forall|i: int| 0 <= i < 6 ==> is_hex_digit(#[trigger] h[i]) {
        Some(
            (
                (16 * hex_value(h[0]) + hex_value(h[1])) as u8,
                (16 * hex_value(h[2]) + hex_value(h[3])) as u8,
                (16 * hex_value(h[4]) + hex_value(h[5])) as u8,
            ),
        )
    } else {
        None
    }
}

/// One character escaped as serde_json writes it inside a JSON string.
pub open spec fn json_escape(c: char) -> Seq<char> {
    if c == '"' {
        seq!['\\', '"']
    } else if c == '\\' {
        seq!['\\', '\\']
    } else if c == '\u{08}' {
        seq!['\\', 'b']
    } else if c == '\t' {
        seq!['\\', 't']
    } else if c == '\n' {
        seq!['\\', 'n']
    } else if c == '\u{0C}' {
        seq!['\\', 'f']
    } else if c == '\r' {
        seq!['\\', 'r']
    } else if (c as u32) < 0x20 {
        seq!['\\', 'u', '0', '0', if (c as u32) < 0x10 { '0' } else { '1' }, json_hex((c as u32) % 16)]
    } else {
        seq![c]
    }
}

/// A lower-case hexadecimal digit.
pub open spec fn json_hex(d: u32) -> char {
    if d < 10 {
        ((('0' as u32) + d) as u32) as char
    } else {
        ((('a' as u32) + d - 10) as u32) as char
    }
}

pub open spec fn json_escaped(s: Seq<char>) -> Seq<char>
    decreases s.len(),
{
    if s.len() == 0 {
        Seq::empty()
    } else {
        json_escaped(s.drop_last()) + json_escape(s.last())
    }
}

/// A text written as a JSON string literal.
pub open spec fn json_quote(s: Seq<char>) -> Seq<char> {
    seq!['"'] + json_escaped(s) + seq!['"']
}

/// The script for one stage of an edit: its settings, each path and the
/// description written as a JSON (and so Python) string literal, then the
/// pixel work.
pub open spec fn script_text(
    image: Seq<char>,
    mask_out: Seq<char>,
    target: Seq<char>,
    stage: Seq<char>,
    rgb: (u8, u8, u8),
    generated: Seq<char>,
    out: Seq<char>,
    crop: Seq<char>,
    crop_mask: Seq<char>,
) -> Seq<char> {
    "# Masked region edit\nimport json, sys, os\n\nimage_path = "@ + json_quote(image)
        + "\nmask_path = "@ + json_quote(mask_out) + "\ntarget = "@ + json_quote(target)
        + "\ngenerated_path = "@ + json_quote(generated) + "\nout_path = "@ + json_quote(out)
        + "\ncrop_path = "@ + json_quote(crop) + "\ncrop_mask_path = "@ + json_quote(crop_mask)
        + "\nstage = \""@ + stage + "\"\ntarget_rgb = ("@ + decimal(rgb.0 as nat) + ", "@
        + decimal(rgb.1 as nat) + ", "@ + decimal(rgb.2 as nat) + ")\n"@ + SCRIPT_BODY@
}

/// The script stage that produces the edit of a mode.
pub open spec fn stage_of(mode: EditMode) -> Seq<char> {
    match mode {
        EditMode::Recolour => "recolour"@,
        EditMode::Preview => "preview"@,
        EditMode::Replace => "composite"@,
    }
}

/// What an edit asks for once its request has been checked.
pub struct EditPlan {
    pub mode: EditMode,
    /// The area to select, trimmed.
    pub target: String,
    /// The colour to apply, or to tint the selection with in a preview.
    pub rgb: (u8, u8, u8),
}

/// The plan of an edit, or why the request is refused: an unknown mode, an
/// empty description, a recolour without a valid colour. Checked in that
/// order.
pub open spec fn edit_plan(mode: Seq<char>, target: Seq<char>, color: Option<Seq<char>>) -> Result<(EditMode, Seq<char>, (u8, u8, u8)), Seq<char>> {
    match mode_named(mode) {
        None => Err("mode inconnu : "@ + lower(trim(mode))),
        Some(m) => if trim(target).len() == 0 {
            Err("Décrivez la zone à modifier (ex. « le t-shirt »)."@)
        } else {
            match m {
                EditMode::Preview => Ok((m, trim(target), (220u8, 60u8, 60u8))),
                EditMode::Replace => Ok((m, trim(target), (0u8, 0u8, 0u8))),
                EditMode::Recolour => match color {
                    None => Err("Choisissez une couleur cible pour une recoloration."@),
                    Some(c) => match colour_named(c) {
                        Some(rgb) => Ok((m, trim(target), rgb)),
                        None => Err(invalid_colour_message(c)),
                    },
                },
            }
        },
    }
}

pub open spec fn invalid_colour_message(s: Seq<char>) -> Seq<char> {
    "couleur invalide : "@ + s + " (attendu #RRGGBB)"@
}


fn lowered(v: &Vec<char>) -> (l: Vec<char>)
    ensures
        l@ == lower(v@),
{
    let s = string_of(v);
    crate::text::lower_chars_of(s.as_str())
}

/// The edit mode a text names: `recolor`, `recolour` or `couleur`;
/// `replace` or `remplacer`; `preview`, `apercu` or `aperçu`. Case and
/// surrounding whitespace are ignored.
pub fn parse_mode(s: &str) -> (mode: Result<EditMode, String>)
    ensures
        match mode {
            Ok(m) => mode_named(s@) == Some(m),
            Err(e) => mode_named(s@) is None && e@ == "mode inconnu : "@ + lower(trim(s@)),
        },
{
    let m = lowered(&trim_chars(&chars_of(s)));
    if eq_chars(&m, "recolor") || eq_chars(&m, "recolour") || eq_chars(&m, "couleur") {
        Ok(EditMode::Recolour)
    } else if eq_chars(&m, "replace") || eq_chars(&m, "remplacer") {
        Ok(EditMode::Replace)
    } else if eq_chars(&m, "preview") || eq_chars(&m, "apercu") || eq_chars(&m, "aperçu") {
        Ok(EditMode::Preview)
    } else {
        let mut e = owned("mode inconnu : ");
        let text = string_of(&m);
        push_str(&mut e, text.as_str());
        Err(e)
    }
}

fn hex_value_exec(c: char) -> (v: u8)
    requires
        is_hex_digit(c),
    ensures
        v as nat == hex_value(c),
        v < 16,
{
    if '0' <= c && c <= '9' {
        ((c as u32) - ('0' as u32)) as u8
    } else if 'a' <= c && c <= 'f' {
        ((c as u32) - ('a' as u32) + 10) as u8
    } else {
        ((c as u32) - ('A' as u32) + 10) as u8
    }
}

/// Parses `#RRGGBB` (or `RRGGBB`) into its components; surrounding
/// whitespace and any number of leading `#` are ignored.
pub fn parse_hex_colour(s: &str) -> (rgb: Result<(u8, u8, u8), String>)
    ensures
        match rgb {
            Ok(c) => colour_named(s@) == Some(c),
            Err(e) => colour_named(s@) is None && e@ == invalid_colour_message(s@),
        },
{
    let t = trim_chars(&chars_of(s));
    let mut a: usize = 0;
    while a < t.len() && t[a] == '#'
        invariant
            a <= t.len(),
            forall|i: int| 0 <= i < a ==> #[trigger] t@[i] == '#',
        decreases t.len() - a,
    {
        a = a + 1;
    }
    proof {
        crate::text::lemma_leading_unique(t@, hash_pred(), a as int);
    }
    let h = crate::text::slice_chars(&t, a, t.len());
    proof {
        assert(h@ =~= colour_digits(s@));
    }
    let mut ok = h.len() == 6;
    let mut i: usize = 0;
    while ok && i < 6
        invariant
            ok ==> h.len() == 6,
            i <= 6,
            ok ==> forall|j: int| 0 <= j < i ==> is_hex_digit(#[trigger] h@[j]),
            !ok ==> !(h@.len() == 6 && forall|j: int| 0 <= j < 6 ==> is_hex_digit(#[trigger] h@[j])),
        decreases 6 - i,
    {
        let c = h[i];
        if !(('0' <= c && c <= '9') || ('a' <= c && c <= 'f') || ('A' <= c && c <= 'F')) {
            ok = false;
        }
        i = i + 1;
    }
    if !ok {
        let mut e = owned("couleur invalide : ");
        push_str(&mut e, s);
        push_str(&mut e, " (attendu #RRGGBB)");
        return Err(e);
    }
    let r = hex_value_exec(h[0]) * 16 + hex_value_exec(h[1]);
    let g = hex_value_exec(h[2]) * 16 + hex_value_exec(h[3]);
    let b = hex_value_exec(h[4]) * 16 + hex_value_exec(h[5]);
    Ok((r, g, b))
}

/// A side rounded down to a multiple of 64, the engines' granularity, and
/// never below 256.
pub fn round64(v: u32) -> (side: u32)
    ensures
        side == (if v / 64 > 4 {
            v / 64
        } else {
            4
        }) * 64,
{
    let q = v / 64;
    let m = if q > 4 {
        q
    } else {
        4
    };
    m * 64
}

/// A rounded side is a multiple of 64, at least 256, and never more than the
/// side it came from when that side was at least 256.
pub proof fn rounded_sides_suit_the_engines(v: u32)
    ensures
        ((if v / 64 > 4 { v / 64 } else { 4 }) * 64) % 64 == 0,
        (if v / 64 > 4 { v / 64 } else { 4 }) * 64 >= 256,
        v >= 256 ==> (if v / 64 > 4 { v / 64 } else { 4 }) * 64 <= v,
{
}

/// The name of an edit's output file: a JPEG for a preview, a PNG otherwise.
pub fn edit_output_name(mode: EditMode, stamp: u64) -> (name: String)
    ensures
        name@ == (if mode == EditMode::Preview {
            "preview_"@ + decimal(stamp as nat) + ".jpg"@
        } else {
            "edit_"@ + decimal(stamp as nat) + ".png"@
        }),
{
    let mut name = if mode == EditMode::Preview {
        owned("preview_")
    } else {
        owned("edit_")
    };
    push_decimal(&mut name, stamp);
    if mode == EditMode::Preview {
        push_str(&mut name, ".jpg");
    } else {
        push_str(&mut name, ".png");
    }
    name
}

/// The script stage that produces an edit.
pub fn stage_name(mode: EditMode) -> (stage: &'static str)
    ensures
        stage@ == stage_of(mode),
{
    match mode {
        EditMode::Recolour => "recolour",
        EditMode::Preview => "preview",
        EditMode::Replace => "composite",
    }
}

/// Checks an edit request: the mode must be known, the area described, and
/// a recolour must name a valid colour. A preview tints the selection red; a
/// replacement takes no colour.
pub fn plan_edit(mode: &str, target: &str, color: &Option<String>) -> (plan: Result<EditPlan, String>)
    ensures
        match plan {
            Ok(p) => edit_plan(mode@, target@, color.deep_view()) == Ok::<(EditMode, Seq<char>, (u8, u8, u8)), Seq<char>>((p.mode, p.target@, p.rgb)),
            Err(e) => edit_plan(mode@, target@, color.deep_view()) == Err::<(EditMode, Seq<char>, (u8, u8, u8)), Seq<char>>(e@),
        },
{
    let m = match parse_mode(mode) {
        Ok(m) => m,
        Err(e) => {
            return Err(e);
        },
    };
    let t = trim_chars(&chars_of(target));
    if t.len() == 0 {
        return Err(owned("Décrivez la zone à modifier (ex. « le t-shirt »)."));
    }
    let rgb = match m {
        EditMode::Preview => (220u8, 60u8, 60u8),
        EditMode::Replace => (0u8, 0u8, 0u8),
        EditMode::Recolour => match color {
            None => {
                return Err(owned("Choisissez une couleur cible pour une recoloration."));
            },
            Some(c) => match parse_hex_colour(c.as_str()) {
                Ok(rgb) => rgb,
                Err(e) => {
                    return Err(e);
                },
            },
        },
    };
    Ok(EditPlan { mode: m, target: string_of(&t), rgb })
}

/// What a replacement draws: the prompt, trimmed; refused when blank.
pub fn replacement_prompt(prompt: &Option<String>) -> (text: Result<String, String>)
    ensures
        match text {
            Ok(p) => prompt.deep_view() matches Some(q) && trim(q).len() > 0 && p@ == trim(q),
            Err(e) => !(prompt.deep_view() matches Some(q) && trim(q).len() > 0) && e@
                == "Décrivez ce qui doit remplacer la zone."@,
        },
{
    match prompt {
        Some(p) => {
            let t = trim_chars(&chars_of(p.as_str()));
            if t.len() > 0 {
                return Ok(string_of(&t));
            }
        },
        None => {},
    }
    Err(owned("Décrivez ce qui doit remplacer la zone."))
}

/// `serde_json::to_string` on a string slice: the text as a JSON string
/// literal, with `"` and `\` escaped, `\b \t \n \f \r` written short and the
/// other control characters as `\u00xx` (lower-case hexadecimal). It cannot
/// fail on a string slice.
#[verifier::external_body]
fn json_string(s: &str) -> (quoted: String)
    ensures
        quoted@ == json_quote(s@),
{
    serde_json::to_string(s).unwrap_or_default()
}

/// The script for one stage of an edit. Every path and the description are
/// written as JSON string literals, so a quote in the description cannot
/// break out of its string.
pub fn build_script(
    image: &str,
    mask_out: &str,
    target: &str,
    stage: &str,
    rgb: (u8, u8, u8),
    generated: &str,
    out: &str,
    crop: &str,
    crop_mask: &str,
) -> (script: String)
    ensures
        script@ == script_text(
            image@,
            mask_out@,
            target@,
            stage@,
            rgb,
            generated@,
            out@,
            crop@,
            crop_mask@,
        ),
{
    let mut s = owned("# Masked region edit\nimport json, sys, os\n\nimage_path = ");
    push_str(&mut s, json_string(image).as_str());
    push_str(&mut s, "\nmask_path = ");
    push_str(&mut s, json_string(mask_out).as_str());
    push_str(&mut s, "\ntarget = ");
    push_str(&mut s, json_string(target).as_str());
    push_str(&mut s, "\ngenerated_path = ");
    push_str(&mut s, json_string(generated).as_str());
    push_str(&mut s, "\nout_path = ");
    push_str(&mut s, json_string(out).as_str());
    push_str(&mut s, "\ncrop_path = ");
    push_str(&mut s, json_string(crop).as_str());
    push_str(&mut s, "\ncrop_mask_path = ");
    push_str(&mut s, json_string(crop_mask).as_str());
    push_str(&mut s, "\nstage = \"");
    push_str(&mut s, stage);
    push_str(&mut s, "\"\ntarget_rgb = (");
    push_decimal(&mut s, rgb.0 as u64);
    push_str(&mut s, ", ");
    push_decimal(&mut s, rgb.1 as u64);
    push_str(&mut s, ", ");
    push_decimal(&mut s, rgb.2 as u64);
    push_str(&mut s, ")\n");
    push_str(&mut s, SCRIPT_BODY);
    s
}

/// The description appears in the script only as a JSON string literal,
/// which holds no raw line break or control character: the script's
/// `target` line cannot be broken out of.
pub proof fn descriptions_stay_quoted(target: Seq<char>)
    ensures
        json_quote(target)[0] == '"',
        json_quote(target).last() == '"',
        forall|i: int|
            0 <= i < json_quote(target).len() ==> (#[trigger] json_quote(target)[i] as u32) >= 0x20,
    decreases target.len(),
{
    lemma_escaped_printable(target);
    let q = json_quote(target);
    assert forall|i: int| 0 <= i < q.len() implies (#[trigger] q[i] as u32) >= 0x20 by {
        if 0 < i < q.len() - 1 {
            assert(q[i] == json_escaped(target)[i - 1]);
        }
    }
}

proof fn lemma_escaped_printable(s: Seq<char>)
    ensures
        forall|i: int| 0 <= i < json_escaped(s).len() ==> (#[trigger] json_escaped(s)[i] as u32) >= 0x20,
    decreases s.len(),
{
    if s.len() > 0 {
        lemma_escaped_printable(s.drop_last());
        let a = json_escaped(s.drop_last());
        let b = json_escape(s.last());
        let c = s.last();
        assert forall|i: int| 0 <= i < b.len() implies (#[trigger] b[i] as u32) >= 0x20 by {
            if (c as u32) < 0x20 && c != '\u{08}' && c != '\t' && c != '\n' && c != '\u{0C}' && c != '\r' {
                let d = (c as u32) % 16;
                assert(d < 16);
                assert(json_hex(d) as u32 >= 0x30);
            }
        }
        assert forall|i: int| 0 <= i < json_escaped(s).len() implies (#[trigger] json_escaped(s)[i] as u32) >= 0x20 by {
            if i < a.len() {
                assert(json_escaped(s)[i] == a[i]);
            } else {
                assert(json_escaped(s)[i] == b[i - a.len()]);
            }
        }
    }
}

/// A hexadecimal digit, upper- or lower-case.
pub open spec fn hex_char(d: nat, upper: bool) -> char {
    if d < 10 {
        (((d + 48) as u32) as char)
    } else if upper {
        (((d + 55) as u32) as char)
    } else {
        (((d + 87) as u32) as char)
    }
}

/// A colour written as `hashes` times `#`, then `RRGGBB` in the chosen case.
pub open spec fn colour_text(rgb: (u8, u8, u8), upper: bool, hashes: nat) -> Seq<char> {
    Seq::new(hashes, |i: int| '#') + seq![
        hex_char((rgb.0 / 16) as nat, upper),
        hex_char((rgb.0 % 16) as nat, upper),
        hex_char((rgb.1 / 16) as nat, upper),
        hex_char((rgb.1 % 16) as nat, upper),
        hex_char((rgb.2 / 16) as nat, upper),
        hex_char((rgb.2 % 16) as nat, upper),
    ]
}

proof fn lemma_hex_char(d: nat, upper: bool)
    requires
        d < 16,
    ensures
        is_hex_digit(hex_char(d, upper)),
        hex_value(hex_char(d, upper)) == d,
        !is_space(hex_char(d, upper)),
        hex_char(d, upper) != '#',
{
}

/// Every colour written as `#RRGGBB` or `RRGGBB`, in upper or lower case,
/// behind any number of `#`, is read back as itself.
pub proof fn written_colours_read_back(rgb: (u8, u8, u8), upper: bool, hashes: nat)
    ensures
        colour_named(colour_text(rgb, upper, hashes)) == Some(rgb),
{
    let s = colour_text(rgb, upper, hashes);
    let n = hashes as int;
    lemma_hex_char((rgb.0 / 16) as nat, upper);
    lemma_hex_char((rgb.0 % 16) as nat, upper);
    lemma_hex_char((rgb.1 / 16) as nat, upper);
    lemma_hex_char((rgb.1 % 16) as nat, upper);
    lemma_hex_char((rgb.2 / 16) as nat, upper);
    lemma_hex_char((rgb.2 % 16) as nat, upper);
    assert(s.len() == n + 6);
    assert forall|i: int| 0 <= i < s.len() implies !is_space(#[trigger] s[i]) by {
        if i >= n {
            assert(s[i] == seq![
                hex_char((rgb.0 / 16) as nat, upper),
                hex_char((rgb.0 % 16) as nat, upper),
                hex_char((rgb.1 / 16) as nat, upper),
                hex_char((rgb.1 % 16) as nat, upper),
                hex_char((rgb.2 / 16) as nat, upper),
                hex_char((rgb.2 % 16) as nat, upper),
            ][i - n]);
        }
    }
    assert(!is_space(s[0]));
    assert(!is_space(s[s.len() - 1]));
    lemma_leading_unique(s, space_pred(), 0);
    assert(drop_leading(s, space_pred()) =~= s);
    lemma_trailing_unique(s, space_pred(), 0);
    assert(trim(s) =~= s);
    assert(s[n] == hex_char((rgb.0 / 16) as nat, upper));
    assert forall|i: int| 0 <= i < n implies (hash_pred())(#[trigger] s[i]) by {
        assert(s[i] == '#');
    }
    lemma_leading_unique(s, hash_pred(), n);
    let h = colour_digits(s);
    assert(h =~= s.skip(n));
    assert(h[0] == hex_char((rgb.0 / 16) as nat, upper));
    assert(h[1] == hex_char((rgb.0 % 16) as nat, upper));
    assert(h[2] == hex_char((rgb.1 / 16) as nat, upper));
    assert(h[3] == hex_char((rgb.1 % 16) as nat, upper));
    assert(h[4] == hex_char((rgb.2 / 16) as nat, upper));
    assert(h[5] == hex_char((rgb.2 % 16) as nat, upper));
    assert(forall|i: int| 0 <= i < 6 ==> is_hex_digit(#[trigger] h[i]));
}

/// A text is a colour exactly when, trimmed and without its leading `#`s,
/// it is six hexadecimal digits; each pair of digits is one component.
pub proof fn colours_are_six_hex_digits(s: Seq<char>)
    ensures
        colour_named(s) is Some <==> (colour_digits(s).len() == 6 && forall|i: int|
            0 <= i < 6 ==> is_hex_digit(#[trigger] colour_digits(s)[i])),
        colour_named(s) matches Some(rgb) ==> rgb.0 == 16 * hex_value(colour_digits(s)[0]) + hex_value(
            colour_digits(s)[1],
        ) && rgb.1 == 16 * hex_value(colour_digits(s)[2]) + hex_value(colour_digits(s)[3]) && rgb.2 == 16
            * hex_value(colour_digits(s)[4]) + hex_value(colour_digits(s)[5]),
{
    let h = colour_digits(s);
    if colour_named(s) is Some {
        assert(is_hex_digit(h[0]) && is_hex_digit(h[1]) && is_hex_digit(h[2]));
        assert(is_hex_digit(h[3]) && is_hex_digit(h[4]) && is_hex_digit(h[5]));
        assert(hex_value(h[0]) < 16 && hex_value(h[1]) < 16 && hex_value(h[2]) < 16);
        assert(hex_value(h[3]) < 16 && hex_value(h[4]) < 16 && hex_value(h[5]) < 16);
    }
}

/// The name of an edit's output file.
pub open spec fn edit_output_name_of(mode: EditMode, stamp: nat) -> Seq<char> {
    if mode == EditMode::Preview {
        "preview_"@ + decimal(stamp) + ".jpg"@
    } else {
        "edit_"@ + decimal(stamp) + ".png"@
    }
}

/// The files of one edit: its output in the output directory, and its mask,
/// crop, crop mask and rendered replacement in the scratch directory, each
/// named after the call's time stamp.
pub struct EditFiles {
    pub out: String,
    pub mask: String,
    pub crop: String,
    pub crop_mask: String,
    pub generated: String,
}

pub open spec fn scratch_file(scratch: Seq<char>, prefix: Seq<char>, stamp: nat, windows: bool) -> Seq<char> {
    join(scratch, prefix + decimal(stamp) + ".png"@, windows)
}

fn scratch_file_exec(scratch: &str, prefix: &str, stamp: u64, windows: bool) -> (path: String)
    ensures
        path@ == scratch_file(scratch@, prefix@, stamp as nat, windows),
{
    let mut name = owned(prefix);
    push_decimal(&mut name, stamp);
    push_str(&mut name, ".png");
    join_names(scratch, name.as_str(), windows)
}

/// The files of an edit made at `stamp`.
pub fn edit_files(mode: EditMode, output_dir: &str, scratch: &str, stamp: u64, windows: bool) -> (files: EditFiles)
    ensures
        files.out@ == join(output_dir@, edit_output_name_of(mode, stamp as nat), windows),
        files.mask@ == scratch_file(scratch@, "mask_"@, stamp as nat, windows),
        files.crop@ == scratch_file(scratch@, "crop_"@, stamp as nat, windows),
        files.crop_mask@ == scratch_file(scratch@, "cropmask_"@, stamp as nat, windows),
        files.generated@ == scratch_file(scratch@, "gen_"@, stamp as nat, windows),
{
    let name = edit_output_name(mode, stamp);
    EditFiles {
        out: join_names(output_dir, name.as_str(), windows),
        mask: scratch_file_exec(scratch, "mask_", stamp, windows),
        crop: scratch_file_exec(scratch, "crop_", stamp, windows),
        crop_mask: scratch_file_exec(scratch, "cropmask_", stamp, windows),
        generated: scratch_file_exec(scratch, "gen_", stamp, windows),
    }
}

proof fn lemma_decimal_digits(n: nat)
    ensures
        forall|i: int| 0 <= i < decimal(n).len() ==> '0' <= #[trigger] decimal(n)[i] <= '9',
    decreases n,
{
    if n >= 10 {
        lemma_decimal_digits(n / 10);
        let d = decimal(n / 10);
        assert forall|i: int| 0 <= i < decimal(n).len() implies '0' <= #[trigger] decimal(n)[i] <= '9' by {
            if i < d.len() {
                assert(decimal(n)[i] == d[i]);
            }
        }
    }
}

/// A name placed in a directory that does not end with a separator (nor is
/// a bare drive) has that directory as its parent and itself as file name,
/// when it holds no separator.
proof fn lemma_join_parts(dir: Seq<char>, name: Seq<char>, windows: bool)
    requires
        dir.len() > 0,
        !is_sep(dir.last(), windows),
        !(windows && dir.len() == 2 && is_drive(dir)),
        forall|i: int| 0 <= i < name.len() ==> !is_sep(#[trigger] name[i], windows),
    ensures
        parent(join(dir, name, windows), windows) == dir,
        file_name(join(dir, name, windows), windows) == name,
{
    let p = join(dir, name, windows);
    let k = dir.len() as int;
    assert(p == dir.push(main_sep(windows)) + name);
    assert(p[k] == main_sep(windows));
    assert forall|i: int| k < i < p.len() implies !(sep_pred(windows))(#[trigger] p[i]) by {
        assert(p[i] == name[i - k - 1]);
    }
    lemma_last_pos_unique(p, sep_pred(windows), k);
    assert(p.take(k) =~= dir);
    assert(p.skip(k + 1) =~= name);
}

/// An edit writes its output into the output directory it was given, under
/// `preview_<stamp>.jpg` for a preview and `edit_<stamp>.png` otherwise, and
/// its mask into the scratch directory under `mask_<stamp>.png`.
pub proof fn edits_write_where_they_are_told(
    mode: EditMode,
    output_dir: Seq<char>,
    scratch: Seq<char>,
    stamp: nat,
    windows: bool,
)
    requires
        output_dir.len() > 0,
        !is_sep(output_dir.last(), windows),
        !(windows && output_dir.len() == 2 && is_drive(output_dir)),
        scratch.len() > 0,
        !is_sep(scratch.last(), windows),
        !(windows && scratch.len() == 2 && is_drive(scratch)),
    ensures
        parent(join(output_dir, edit_output_name_of(mode, stamp), windows), windows) == output_dir,
        file_name(join(output_dir, edit_output_name_of(mode, stamp), windows), windows) == edit_output_name_of(
            mode,
            stamp,
        ),
        parent(scratch_file(scratch, "mask_"@, stamp, windows), windows) == scratch,
        file_name(scratch_file(scratch, "mask_"@, stamp, windows), windows) == "mask_"@ + decimal(stamp) + ".png"@,
{
    reveal_strlit("preview_");
    reveal_strlit(".jpg");
    reveal_strlit("edit_");
    reveal_strlit(".png");
    reveal_strlit("mask_");
    lemma_decimal_digits(stamp);
    let d = decimal(stamp);
    let n = edit_output_name_of(mode, stamp);
    assert forall|i: int| 0 <= i < n.len() implies !is_sep(#[trigger] n[i], windows) by {
        if mode == EditMode::Preview {
            if 8 <= i < 8 + d.len() {
                assert(n[i] == d[i - 8]);
            }
        } else {
            if 5 <= i < 5 + d.len() {
                assert(n[i] == d[i - 5]);
            }
        }
    }
    lemma_join_parts(output_dir, n, windows);
    let m = "mask_"@ + d + ".png"@;
    assert forall|i: int| 0 <= i < m.len() implies !is_sep(#[trigger] m[i], windows) by {
        if 5 <= i < 5 + d.len() {
            assert(m[i] == d[i - 5]);
        }
    }
    lemma_join_parts(scratch, m, windows);
}

/// The refusal of a replacement whose model is not on disk.
pub fn missing_model_message(model: &str) -> (msg: String)
    ensures
        msg@ == "modèle introuvable : "@ + model@,
{
    crate::text::concat2("modèle introuvable : ", model)
}

/// The outcome of the engine's run for a replacement: it must succeed and
/// write its image.
pub fn replacement_rendered(success: bool, written: bool) -> (outcome: Result<(), String>)
    ensures
        outcome is Ok <==> success && written,
        outcome matches Err(e) ==> e@ == "la génération de la zone a échoué"@,
{
    if success && written {
        Ok(())
    } else {
        Err(owned("la génération de la zone a échoué"))
    }
}

/// The engine request that redraws the cropped area: the replacement prompt
/// with no negative one; a square at the crop's side rounded for the engine
/// (768 when it is unknown); the steps asked for or the family's for the
/// selected model's name; a fixed seed of 42; one image; the crop and its
/// mask as source and mask; no sampler, scheduler or CLIP skip; never
/// uncensored.
pub fn replacement_request(
    model: &str,
    model_path: String,
    prompt: String,
    steps: Option<u32>,
    crop_size: Option<(u32, u32)>,
    files: &EditFiles,
    cfg_scale: String,
    strength: String,
    context: EngineContext,
) -> (r: SdRequest)
    ensures
        r.model_path@ == model_path@,
        r.prompt@ == prompt@,
        r.negative_prompt is None,
        r.width == ({
            let s = match crop_size {
                Some(d) => d.0,
                None => 768,
            };
            (if s / 64 > 4 { s / 64 } else { 4 }) * 64
        }),
        r.height == r.width,
        r.steps == match steps {
            Some(s) => s,
            None => crate::models::family_steps(model@),
        },
        r.cfg_scale@ == cfg_scale@,
        r.seed == 42,
        r.out_file@ == files.generated@,
        r.init_image.deep_view() == Some(files.crop@),
        r.mask.deep_view() == Some(files.crop_mask@),
        r.strength@ == strength@,
        r.sampler is None,
        r.scheduler is None,
        r.clip_skip is None,
        r.batch_count == 1,
        !r.uncensored,
        r.windows == context.windows,
        r.model_is_dir == context.model_is_dir,
        r.directory_checkpoint.deep_view() == context.directory_checkpoint.deep_view(),
        r.models_listing@ == context.models_listing@,
        r.candidate_listings@ == context.candidate_listings@,
        r.engine_help@ == context.engine_help@,
        r.fits_in_vram == context.fits_in_vram,
        r.max_vram.deep_view() == context.max_vram.deep_view(),
{
    let side = replacement_side(crop_size);
    let (family_steps, _) = crate::models::default_sampling(model);
    SdRequest {
        model_path,
        model_is_dir: context.model_is_dir,
        directory_checkpoint: context.directory_checkpoint,
        models_listing: context.models_listing,
        candidate_listings: context.candidate_listings,
        prompt,
        negative_prompt: None,
        width: side,
        height: side,
        steps: match steps {
            Some(s) => s,
            None => family_steps,
        },
        cfg_scale,
        seed: 42,
        out_file: owned(files.generated.as_str()),
        init_image: Some(owned(files.crop.as_str())),
        mask: Some(owned(files.crop_mask.as_str())),
        strength,
        sampler: None,
        scheduler: None,
        clip_skip: None,
        batch_count: 1,
        uncensored: false,
        engine_help: context.engine_help,
        windows: context.windows,
        fits_in_vram: context.fits_in_vram,
        max_vram: context.max_vram,
    }
}

} // verus!
