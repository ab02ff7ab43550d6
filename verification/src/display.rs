//! What the windows show, apart from drawing: the colour a colour sensor
//! reports, the tag of a file, the shortened working directory and the
//! texts written to the console.

use vstd::prelude::*;
use crate::text::{push_str, replace, replace_all, string_of, after_last, after_last_char, str_equal};

verus! {

/// A colour with its Spanish name.
#[derive(Debug, Clone, Copy)]
pub struct ColorSwatch {
    pub r: u8,
    pub g: u8,
    pub b: u8,
    pub name: &'static str,
}

/// The colour shown for a colour sensor's code: red, green, blue and name.
pub open spec fn swatch_for(code: u8) -> (u8, u8, u8, Seq<char>) {
    if code == 0 {
        (30, 30, 35, "ninguno"@)
    } else if code == 1 {
        (20, 20, 20, "negro"@)
    } else if code == 2 {
        (40, 60, 160, "azul"@)
    } else if code == 3 {
        (30, 140, 40, "verde"@)
    } else if code == 4 {
        (200, 30, 30, "rojo"@)
    } else if code == 5 {
        (220, 220, 40, "amarillo"@)
    } else if code == 6 {
        (220, 120, 30, "blanco"@)
    } else if code == 7 {
        (230, 230, 230, "blanco"@)
    } else {
        (90, 90, 110, "?"@)
    }
}

/// The colour shown for a colour sensor's code.
pub fn color_for_code(code: u8) -> (c: ColorSwatch)
    ensures
        (c.r, c.g, c.b, c.name@) == swatch_for(code),
{
    match code {
        0 => ColorSwatch { r: 30, g: 30, b: 35, name: "ninguno" },
        1 => ColorSwatch { r: 20, g: 20, b: 20, name: "negro" },
        2 => ColorSwatch { r: 40, g: 60, b: 160, name: "azul" },
        3 => ColorSwatch { r: 30, g: 140, b: 40, name: "verde" },
        4 => ColorSwatch { r: 200, g: 30, b: 30, name: "rojo" },
        5 => ColorSwatch { r: 220, g: 220, b: 40, name: "amarillo" },
        6 => ColorSwatch { r: 220, g: 120, b: 30, name: "blanco" },
        7 => ColorSwatch { r: 230, g: 230, b: 230, name: "blanco" },
        _ => ColorSwatch { r: 90, g: 90, b: 110, name: "?" },
    }
}

/// The tag shown before a file name: by the text after its last `.`.
pub open spec fn tag_text(name: Seq<char>) -> Seq<char> {
    let ext = after_last(name, '.');
    if ext == "py"@ {
        "[py]"@
    } else if ext == "sh"@ {
        "[sh]"@
    } else {
        "[  ]"@
    }
}

/// The tag shown before a file name in the file browser.
pub fn file_tag(name: &str) -> (r: &'static str)
    ensures
        r@ == tag_text(name@),
{
    let ext = after_last_char(name, '.');
    if str_equal(ext.as_str(), "py") {
        "[py]"
    } else if str_equal(ext.as_str(), "sh") {
        "[sh]"
    } else {
        "[  ]"
    }
}

/// The working directory as the prompt shows it: the home directory
/// written as `~`.
pub fn cwd_display(cwd: &str) -> (r: String)
    ensures
        r@ == replace(cwd@, "/home/robot"@, "~"@),
{
    proof {
        reveal_strlit("/home/robot");
    }
    replace_all(cwd, "/home/robot", "~")
}

/// The console line that echoes a command: `\n{dir}$ {cmd}\n`.
pub fn console_prompt(dir: &str, cmd: &str) -> (r: String)
    ensures
        r@ == "\n"@ + dir@ + "$ "@ + cmd@ + "\n"@,
{
    let mut v: Vec<char> = Vec::new();
    push_str(&mut v, "\n");
    push_str(&mut v, dir);
    push_str(&mut v, "$ ");
    push_str(&mut v, cmd);
    push_str(&mut v, "\n");
    assert(v@ =~= "\n"@ + dir@ + "$ "@ + cmd@ + "\n"@);
    string_of(&v)
}

/// What the console shows for a command's output: `(sin salida)` when it
/// printed nothing.
pub fn command_output_text(out: &str) -> (r: String)
    ensures
        out@.len() == 0 ==> r@ == "(sin salida)\n"@,
        out@.len() > 0 ==> r@ == out@ + "\n"@,
{
    let mut v: Vec<char> = Vec::new();
    if out.is_empty() {
        push_str(&mut v, "(sin salida)\n");
        assert(v@ =~= "(sin salida)\n"@);
    } else {
        push_str(&mut v, out);
        push_str(&mut v, "\n");
    }
    string_of(&v)
}


// ───────────────────────── laws ─────────────────────────

/// The red, green and blue of a swatch.
pub open spec fn rgb(code: u8) -> (u8, u8, u8) {
    (swatch_for(code).0, swatch_for(code).1, swatch_for(code).2)
}

/// Colour sensor codes follow the EV3 numbering (2 blue, 3 green, 4 red,
/// 5 yellow), each shown in its colour, and no two codes of the sensor
/// (0 to 7) nor an unknown code are drawn alike: blue swatches are mostly
/// blue, green ones mostly green, red ones mostly red, yellow ones red and
/// green over blue.
pub proof fn law_colour_codes_shown_apart(c1: u8, c2: u8)
    ensures
        c1 <= 8 && c2 <= 8 && c1 != c2 ==> rgb(c1) != rgb(c2),
        c1 > 8 ==> swatch_for(c1) == swatch_for(8),
        swatch_for(2).3 == "azul"@,
        swatch_for(3).3 == "verde"@,
        swatch_for(4).3 == "rojo"@,
        swatch_for(5).3 == "amarillo"@,
        swatch_for(c1).3 == "azul"@ ==> swatch_for(c1).2 > swatch_for(c1).0 && swatch_for(c1).2
            > swatch_for(c1).1,
        swatch_for(c1).3 == "verde"@ ==> swatch_for(c1).1 > swatch_for(c1).0 && swatch_for(c1).1
            > swatch_for(c1).2,
        swatch_for(c1).3 == "rojo"@ ==> swatch_for(c1).0 > swatch_for(c1).1 && swatch_for(c1).0
            > swatch_for(c1).2,
        swatch_for(c1).3 == "amarillo"@ ==> swatch_for(c1).0 > swatch_for(c1).2 && swatch_for(c1).1
            > swatch_for(c1).2,
{
    reveal_strlit("ninguno");
    reveal_strlit("negro");
    reveal_strlit("azul");
    reveal_strlit("verde");
    reveal_strlit("rojo");
    reveal_strlit("amarillo");
    reveal_strlit("blanco");
    reveal_strlit("?");
    assert("azul"@.len() == 4 && "verde"@.len() == 5 && "rojo"@.len() == 4);
    assert("amarillo"@.len() == 8 && "ninguno"@.len() == 7 && "negro"@.len() == 5
        && "blanco"@.len() == 6 && "?"@.len() == 1);
    assert("azul"@[0] == 'a' && "rojo"@[0] == 'r');
    assert("verde"@ != "negro"@ && "verde"@ != "ninguno"@ && "verde"@ != "blanco"@) by {
        assert("verde"@[0] != "negro"@[0]);
        assert("verde"@.len() != "ninguno"@.len());
        assert("verde"@[0] != "blanco"@[0]);
    }
    assert("azul"@ != "rojo"@ && "azul"@ != "?"@);
    assert("verde"@ != "?"@ && "verde"@ != "amarillo"@);
    assert("azul"@ != "ninguno"@ && "azul"@ != "negro"@ && "azul"@ != "blanco"@ && "azul"@
        != "amarillo"@ && "azul"@ != "verde"@);
}

proof fn lemma_after_last_dot(p: Seq<char>, e: Seq<char>)
    requires
        forall|i: int| 0 <= i < e.len() ==> e[i] != '.',
    ensures
        after_last(p + seq!['.'] + e, '.') == e,
    decreases e.len(),
{
    let s = p + seq!['.'] + e;
    if e.len() == 0 {
        assert(s.last() == '.');
    } else {
        assert(s.last() == e.last());
        assert(s.drop_last() =~= p + seq!['.'] + e.drop_last());
        lemma_after_last_dot(p, e.drop_last());
        assert(e.drop_last().push(e.last()) =~= e);
    }
}

/// A file's tag depends only on the text after its last `.`: whatever comes
/// before, a name ending in `.py` is tagged `[py]`, one ending in `.sh`
/// `[sh]`, and one ending in `.` and an extension `e` is tagged as `.e` is.
pub proof fn law_tag_by_last_extension(p: Seq<char>, e: Seq<char>)
    requires
        forall|i: int| 0 <= i < e.len() ==> e[i] != '.',
    ensures
        tag_text(p + ".py"@) == "[py]"@,
        tag_text(p + ".sh"@) == "[sh]"@,
        tag_text(p + "."@ + e) == tag_text("."@ + e),
{
    reveal_strlit(".py");
    reveal_strlit(".sh");
    reveal_strlit("py");
    reveal_strlit("sh");
    reveal_strlit(".");
    assert(".py"@ =~= seq!['.'] + "py"@);
    assert(p + ".py"@ =~= p + seq!['.'] + "py"@);
    lemma_after_last_dot(p, "py"@);
    assert(".sh"@ =~= seq!['.'] + "sh"@);
    assert(p + ".sh"@ =~= p + seq!['.'] + "sh"@);
    lemma_after_last_dot(p, "sh"@);
    assert("."@ =~= seq!['.']);
    lemma_after_last_dot(p, e);
    lemma_after_last_dot(Seq::<char>::empty(), e);
    assert(Seq::<char>::empty() + seq!['.'] + e =~= "."@ + e);
}

} // verus!
