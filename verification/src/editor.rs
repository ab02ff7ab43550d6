//! The terminal and program editor: the language of the program, the file
//! tree of the brick, the bash command line with its history and its
//! completions.

use vstd::prelude::*;
use crate::decimal::{decimal, push_count};
use crate::remote::{remote_path, remote_path_text};
use crate::text::{
    before_first, before_first_char, contains, owned, push_str, split_char, split_on,
    starts_with, str_contains, str_equal, str_starts_with, string_of, trim, trim_end_char,
    trim_end_matching, trim_start_matching, trim_start_pat, trim_str, views,
};

verus! {

/// The language of the program in the editor.
#[derive(Debug, Clone, Copy, PartialEq, Eq, Structural)]
pub enum Language {
    Python,
    Bash,
}

/// The name of a language.
pub open spec fn label_text(l: Language) -> Seq<char> {
    match l {
        Language::Python => "Python"@,
        Language::Bash => "Bash"@,
    }
}

/// The file extension of a language.
pub open spec fn extension_text(l: Language) -> Seq<char> {
    match l {
        Language::Python => "py"@,
        Language::Bash => "sh"@,
    }
}

/// The command that runs the program at `path` in a language.
pub open spec fn run_text(l: Language, path: Seq<char>) -> Seq<char> {
    match l {
        Language::Python => "python3 "@ + path,
        Language::Bash => "bash "@ + path,
    }
}

impl Language {
    /// The language's name.
    pub fn label(&self) -> (r: &'static str)
        ensures
            r@ == label_text(*self),
    {
        match self {
            Language::Python => "Python",
            Language::Bash => "Bash",
        }
    }

    /// The extension of the language's source files.
    pub fn extension(&self) -> (r: &'static str)
        ensures
            r@ == extension_text(*self),
    {
        match self {
            Language::Python => "py",
            Language::Bash => "sh",
        }
    }

    /// The command that runs the program at `path`.
    pub fn run_cmd(&self, path: &str) -> (r: String)
        ensures
            r@ == run_text(*self, path@),
    {
        let mut v: Vec<char> = Vec::new();
        match self {
            Language::Python => push_str(&mut v, "python3 "),
            Language::Bash => push_str(&mut v, "bash "),
        }
        push_str(&mut v, path);
        string_of(&v)
    }
}

/// A file or directory on the brick, as the file browser shows it.
#[derive(Debug)]
pub struct FileNode {
    pub name: String,
    pub path: String,
    pub is_dir: bool,
    pub children: Vec<FileNode>,
    pub expanded: bool,
}

// ───────────────────────── completions ─────────────────────────

/// Unicode lower case of `s`, as `str::to_lowercase` gives it.
pub uninterp spec fn lowercase(s: Seq<char>) -> Seq<char>;

/// Lower-cases `s` (std `str::to_lowercase`).
/// Claims only that the result is the lower case of `s`, which depends on
/// `s` alone; the Unicode case tables themselves are left unstated.
#[verifier::external_body]
fn to_lowercase(s: &str) -> (r: String)
    ensures
        r@ == lowercase(s@),
{
    s.to_lowercase()
}

/// The bash commands offered as completions.
pub open spec fn bash_pool() -> Seq<Seq<char>> {
    seq![
        "ls"@,
        "ls -la"@,
        "ls /sys/class/tacho-motor/"@,
        "ls /sys/class/lego-sensor/"@,
        "cat"@,
        "echo"@,
        "python3"@,
        "bash"@,
        "cd /home/robot"@,
        "cd /sys/class/tacho-motor/"@,
        "kill"@,
        "ps aux"@,
        "top"@,
        "echo run-forever >"@,
        "echo stop >"@,
        "cat /sys/class/power_supply/lego-ev3-battery/voltage_now"@,
    ]
}

/// The Python lines offered as completions.
pub open spec fn python_pool() -> Seq<Seq<char>> {
    seq![
        "import ev3dev2"@,
        "from ev3dev2.motor import LargeMotor, OUTPUT_A, OUTPUT_B"@,
        "from ev3dev2.sensor import INPUT_1"@,
        "from ev3dev2.sensor.lego import TouchSensor, UltrasonicSensor, ColorSensor, GyroSensor"@,
        "from ev3dev2.display import Display"@,
        "from ev3dev2.sound import Sound"@,
        "motor = LargeMotor(OUTPUT_A)"@,
        "motor.on_for_seconds(speed=50, seconds=2)"@,
        "motor.on(speed=50)"@,
        "motor.off()"@,
        "sensor = TouchSensor(INPUT_1)"@,
        "sensor.is_pressed"@,
        "sensor = UltrasonicSensor(INPUT_1)"@,
        "sensor.distance_centimeters"@,
        "import time"@,
        "time.sleep(1)"@,
        "print()"@,
    ]
}

/// The completions offered for a language.
pub open spec fn pool_for(l: Language) -> Seq<Seq<char>> {
    match l {
        Language::Python => python_pool(),
        Language::Bash => bash_pool(),
    }
}

/// The views of a sequence of string slices.
pub open spec fn str_views(v: Seq<&str>) -> Seq<Seq<char>> {
    v.map_values(|s: &str| s@)
}

/// The candidates in `pool` whose lower case (`lpool`) begins with the lower
/// case of the input (`linput`) and that differ from the input, in order.
pub open spec fn select(
    input: Seq<char>,
    linput: Seq<char>,
    pool: Seq<Seq<char>>,
    lpool: Seq<Seq<char>>,
) -> Seq<Seq<char>>
    decreases pool.len(),
{
    if pool.len() == 0 {
        Seq::empty()
    } else {
        let rest = select(input, linput, pool.drop_last(), lpool.drop_last());
        if starts_with(lpool[pool.len() - 1], linput) && pool.last() != input {
            rest.push(pool.last())
        } else {
            rest
        }
    }
}

/// At most the first six elements of `s`.
pub open spec fn first_six(s: Seq<Seq<char>>) -> Seq<Seq<char>> {
    if s.len() <= 6 {
        s
    } else {
        s.take(6)
    }
}

/// The completions offered for `input`: none for an empty input, else the
/// first six candidates of the language that begin with the input, compared
/// in lower case, and that are not the input itself.
pub open spec fn completion_list(input: Seq<char>, l: Language) -> Seq<Seq<char>> {
    if input.len() == 0 {
        Seq::empty()
    } else {
        first_six(
            select(input, lowercase(input), pool_for(l), pool_for(l).map_values(|c| lowercase(c))),
        )
    }
}

/// The completion candidates of a language, in the order they are offered.
pub fn completion_pool(l: Language) -> (r: Vec<&'static str>)
    ensures
        str_views(r@) == pool_for(l),
{
    let r = match l {
        Language::Python => vec![
            "import ev3dev2",
            "from ev3dev2.motor import LargeMotor, OUTPUT_A, OUTPUT_B",
            "from ev3dev2.sensor import INPUT_1",
            "from ev3dev2.sensor.lego import TouchSensor, UltrasonicSensor, ColorSensor, GyroSensor",
            "from ev3dev2.display import Display",
            "from ev3dev2.sound import Sound",
            "motor = LargeMotor(OUTPUT_A)",
            "motor.on_for_seconds(speed=50, seconds=2)",
            "motor.on(speed=50)",
            "motor.off()",
            "sensor = TouchSensor(INPUT_1)",
            "sensor.is_pressed",
            "sensor = UltrasonicSensor(INPUT_1)",
            "sensor.distance_centimeters",
            "import time",
            "time.sleep(1)",
            "print()",
        ],
        Language::Bash => vec![
            "ls",
            "ls -la",
            "ls /sys/class/tacho-motor/",
            "ls /sys/class/lego-sensor/",
            "cat",
            "echo",
            "python3",
            "bash",
            "cd /home/robot",
            "cd /sys/class/tacho-motor/",
            "kill",
            "ps aux",
            "top",
            "echo run-forever >",
            "echo stop >",
            "cat /sys/class/power_supply/lego-ev3-battery/voltage_now",
        ],
    };
    assert(str_views(r@) =~= pool_for(l));
    r
}

proof fn lemma_first_six_push(s: Seq<Seq<char>>, x: Seq<char>)
    ensures
        first_six(s.push(x)) == if s.len() < 6 {
            s.push(x)
        } else {
            first_six(s)
        },
{
    if s.len() >= 6 {
        assert(s.push(x).take(6) =~= s.take(6));
        if s.len() == 6 {
            assert(s.take(6) =~= s);
        }
    }
}

/// The completions among `pool` for `input`, given the lower case of the
/// input and of each candidate: those whose lower case begins with the
/// input's and that are not the input itself, at most six, in order.
pub fn filter_completions(
    input: &str,
    input_lower: &str,
    pool: &Vec<&str>,
    pool_lower: &Vec<String>,
) -> (r: Vec<String>)
    requires
        pool_lower@.len() == pool@.len(),
    ensures
        views(r@) == first_six(select(input@, input_lower@, str_views(pool@), views(pool_lower@))),
{
    let mut out: Vec<String> = Vec::new();
    let n = pool.len();
    let ghost p = str_views(pool@);
    let ghost lp = views(pool_lower@);
    assert(p.take(0) =~= Seq::<Seq<char>>::empty());
    for i in 0..n
        invariant
            n == pool@.len() == pool_lower@.len(),
            p == str_views(pool@),
            lp == views(pool_lower@),
            views(out@) == first_six(select(input@, input_lower@, p.take(i as int), lp.take(i as int))),
    {
        let ghost prev = select(input@, input_lower@, p.take(i as int), lp.take(i as int));
        assert(p.take(i + 1).drop_last() == p.take(i as int));
        assert(lp.take(i + 1).drop_last() == lp.take(i as int));
        assert(p.take(i + 1).last() == pool@[i as int]@);
        assert(lp.take(i + 1)[i as int] == pool_lower@[i as int]@);
        let c = pool[i];
        let accept = str_starts_with(pool_lower[i].as_str(), input_lower) && !str_equal(c, input);
        proof {
            lemma_first_six_push(prev, c@);
        }
        if accept && out.len() < 6 {
            let w = owned(c);
            let ghost before = out@;
            out.push(w);
            assert(out@ == before.push(w));
            assert(views(out@) =~= views(before).push(w@));
        }
    }
    assert(p.take(n as int) == p);
    assert(lp.take(n as int) == lp);
    out
}

/// The completions offered for `input` in language `l`.
pub fn get_completions(input: &str, lang: &Language) -> (r: Vec<String>)
    ensures
        views(r@) == completion_list(input@, *lang),
{
    if input.is_empty() {
        return Vec::new();
    }
    let input_lower = to_lowercase(input);
    let l = *lang;
    let pool = completion_pool(l);
    let mut lower: Vec<String> = Vec::new();
    let n = pool.len();
    for i in 0..n
        invariant
            n == pool@.len(),
            lower@.len() == i,
            forall|k: int| 0 <= k < i ==> (#[trigger] lower@[k])@ == lowercase(pool@[k]@),
    {
        lower.push(to_lowercase(pool[i]));
    }
    let r = filter_completions(input, input_lower.as_str(), &pool, &lower);
    assert(views(lower@) =~= pool_for(l).map_values(|c| lowercase(c)));
    r
}

// ───────────────────────── the editor's state ─────────────────────────

/// The editor's state, apart from what the background tasks share.
#[derive(Debug)]
pub struct EditorState {
    pub open: bool,
    pub code: String,
    pub language: Language,
    pub file_tree: Vec<FileNode>,
    pub save_name: String,
    pub save_dir: String,
    pub bash_input: String,
    /// Commands run from the command line, oldest first.
    pub history: Vec<String>,
    /// The history entry being shown, if the user is browsing the history.
    pub history_idx: Option<usize>,
    /// What the user had typed before browsing the history.
    pub history_buffer: String,
    pub completions: Vec<String>,
    pub completion_idx: Option<usize>,
    /// A refresh of the file tree was started and has not been taken in.
    pub tree_pending: bool,
    /// A file was asked for and its contents have not been taken in.
    pub load_pending: bool,
}

/// The most commands the history keeps.
pub open spec fn history_limit() -> nat {
    100
}

/// `h` after running `t`: `t` is added unless it repeats the last entry, and
/// the oldest entry goes when there are more than a hundred.
pub open spec fn pushed_history(h: Seq<Seq<char>>, t: Seq<char>) -> Seq<Seq<char>> {
    if h.len() > 0 && h.last() == t {
        h
    } else if h.len() + 1 > history_limit() {
        h.push(t).drop_first()
    } else {
        h.push(t)
    }
}

/// A history as the editor keeps it: at most a hundred non-empty trimmed
/// commands, no two neighbours equal.
pub open spec fn history_ok(h: Seq<Seq<char>>) -> bool {
    &&& h.len() <= history_limit()
    &&& forall|i: int| 0 <= i < h.len() ==> (#[trigger] h[i]).len() > 0 && trim(h[i]) == h[i]
    &&& forall|i: int| 0 < i < h.len() ==> #[trigger] h[i] != h[i - 1]
}

proof fn lemma_pushed_history_ok(h: Seq<Seq<char>>, t: Seq<char>)
    requires
        history_ok(h),
        t.len() > 0,
        trim(t) == t,
    ensures
        history_ok(pushed_history(h, t)),
{
    let p = h.push(t);
    if h.len() > 0 && h.last() == t {
    } else {
        assert forall|i: int| 0 < i < p.len() implies #[trigger] p[i] != p[i - 1] by {
            if i < h.len() {
                assert(p[i] == h[i] && p[i - 1] == h[i - 1]);
            } else {
                assert(p[i - 1] == h.last());
            }
        }
        if h.len() + 1 > history_limit() {
            let d = p.drop_first();
            assert forall|i: int| 0 < i < d.len() implies #[trigger] d[i] != d[i - 1] by {
                assert(d[i] == p[i + 1] && d[i - 1] == p[i]);
            }
            assert forall|i: int| 0 <= i < d.len() implies (#[trigger] d[i]).len() > 0 && trim(
                d[i],
            ) == d[i] by {
                assert(d[i] == p[i + 1]);
            }
        }
    }
}

/// Adds the trimmed command `t` to `history` as the history keeps it.
fn push_trimmed(history: &mut Vec<String>, t: String)
    ensures
        views(final(history)@) == pushed_history(views(old(history)@), t@),
{
    let ghost h0 = views(history@);
    let ghost tv = t@;
    let n = history.len();
    let repeats = n > 0 && str_equal(history[n - 1].as_str(), t.as_str());
    if repeats {
        assert(h0.last() == history@[n - 1]@);
        return;
    }
    history.push(t);
    assert(views(history@) =~= h0.push(tv));
    if history.len() > 100 {
        let ghost pushed = history@;
        history.remove(0);
        assert(history@ =~= pushed.drop_first());
        assert(views(history@) =~= h0.push(tv).drop_first());
    }
}

impl EditorState {
    /// What the editor's own methods keep: the history holds at most a
    /// hundred non-empty trimmed commands, no two neighbours equal; the
    /// browsed entry exists; at most six completions are offered.
    pub open spec fn wf(&self) -> bool {
        &&& history_ok(views(self.history@))
        &&& self.history_idx matches Some(i) ==> i < self.history@.len()
        &&& self.completions@.len() <= 6
    }

    /// The document side of `a` and `b` is the same: window, code, language,
    /// files and pending background results.
    pub open spec fn same_document(a: &EditorState, b: &EditorState) -> bool {
        &&& a.open == b.open
        &&& a.code == b.code
        &&& a.language == b.language
        &&& a.file_tree == b.file_tree
        &&& a.save_name == b.save_name
        &&& a.save_dir == b.save_dir
        &&& a.tree_pending == b.tree_pending
        &&& a.load_pending == b.load_pending
    }

    /// The command-line side of `a` and `b` is the same.
    pub open spec fn same_terminal(a: &EditorState, b: &EditorState) -> bool {
        &&& a.bash_input == b.bash_input
        &&& a.history == b.history
        &&& a.history_idx == b.history_idx
        &&& a.history_buffer == b.history_buffer
        &&& a.completions == b.completions
        &&& a.completion_idx == b.completion_idx
    }

    /// What the editor looks like when it first opens.
    pub fn new() -> (e: EditorState)
        ensures
            !e.open,
            e.code@ == "# Escribe tu programa aqui\nprint('Hola desde el EV3!')\n"@,
            e.language == Language::Python,
            e.file_tree@.len() == 0,
            e.save_name@ == "programa.py"@,
            e.save_dir@ == "/home/robot"@,
            e.bash_input@.len() == 0,
            e.history@.len() == 0,
            e.history_idx is None,
            e.history_buffer@.len() == 0,
            e.completions@.len() == 0,
            e.completion_idx is None,
            !e.tree_pending,
            !e.load_pending,
            e.wf(),
    {
        EditorState {
            open: false,
            code: owned("# Escribe tu programa aqui\nprint('Hola desde el EV3!')\n"),
            language: Language::Python,
            file_tree: Vec::new(),
            save_name: owned("programa.py"),
            save_dir: owned("/home/robot"),
            bash_input: String::new(),
            history: Vec::new(),
            history_idx: None,
            history_buffer: String::new(),
            completions: Vec::new(),
            completion_idx: None,
            tree_pending: false,
            load_pending: false,
        }
    }

    // ── file tree and file loading ──

    /// A refresh of the file tree starts.
    pub fn begin_tree_refresh(&mut self)
        ensures
            final(self).tree_pending,
            EditorState::same_terminal(old(self), final(self)),
            final(self).open == old(self).open,
            final(self).code == old(self).code,
            final(self).language == old(self).language,
            final(self).file_tree == old(self).file_tree,
            final(self).save_name == old(self).save_name,
            final(self).save_dir == old(self).save_dir,
            final(self).load_pending == old(self).load_pending,
    {
        self.tree_pending = true;
    }

    /// Takes in the result of a tree refresh once it is done: `loading` is
    /// whether the refresh still runs, `fetched` what it produced, or `None`
    /// where it could not be looked at right now.  An empty tree is not
    /// taken in.
    pub fn poll_tree_result(&mut self, loading: bool, fetched: Option<Vec<FileNode>>)
        ensures
            ({
                let taken = old(self).tree_pending && !loading && (fetched matches Some(t)
                    && t@.len() > 0);
                &&& taken ==> final(self).file_tree == fetched->0 && !final(self).tree_pending
                &&& !taken ==> final(self).file_tree == old(self).file_tree
                    && final(self).tree_pending == old(self).tree_pending
            }),
            EditorState::same_terminal(old(self), final(self)),
            final(self).open == old(self).open,
            final(self).code == old(self).code,
            final(self).language == old(self).language,
            final(self).save_name == old(self).save_name,
            final(self).save_dir == old(self).save_dir,
            final(self).load_pending == old(self).load_pending,
            old(self).wf() ==> final(self).wf(),
    {
        if self.tree_pending && !loading {
            match fetched {
                Some(nodes) => {
                    if nodes.len() > 0 {
                        self.file_tree = nodes;
                        self.tree_pending = false;
                    }
                },
                None => {},
            }
        }
    }

    /// Asks for the file `name`: its contents will replace the code once
    /// they arrive, and it will be saved under that name.
    pub fn begin_open_file(&mut self, name: &str)
        ensures
            final(self).load_pending,
            final(self).save_name@ == name@,
            EditorState::same_terminal(old(self), final(self)),
            final(self).open == old(self).open,
            final(self).code == old(self).code,
            final(self).language == old(self).language,
            final(self).file_tree == old(self).file_tree,
            final(self).save_dir == old(self).save_dir,
            final(self).tree_pending == old(self).tree_pending,
            old(self).wf() ==> final(self).wf(),
    {
        self.load_pending = true;
        self.save_name = owned(name);
    }

    /// Takes in the contents of the file asked for: `fetched` is what has
    /// arrived, or `None` where it could not be looked at right now.  Empty
    /// contents are not taken in.
    pub fn poll_pending_load(&mut self, fetched: Option<String>)
        ensures
            ({
                let taken = old(self).load_pending && (fetched matches Some(c) && c@.len() > 0);
                &&& taken ==> final(self).code == fetched->0 && !final(self).load_pending
                &&& !taken ==> final(self).code == old(self).code && final(self).load_pending
                    == old(self).load_pending
            }),
            EditorState::same_terminal(old(self), final(self)),
            final(self).open == old(self).open,
            final(self).language == old(self).language,
            final(self).file_tree == old(self).file_tree,
            final(self).save_name == old(self).save_name,
            final(self).save_dir == old(self).save_dir,
            final(self).tree_pending == old(self).tree_pending,
            old(self).wf() ==> final(self).wf(),
    {
        if self.load_pending {
            match fetched {
                Some(content) => {
                    if !content.as_str().is_empty() {
                        self.code = content;
                        self.load_pending = false;
                    }
                },
                None => {},
            }
        }
    }

    /// Switches the program to language `l`: the file name keeps the part
    /// before its first `.` and takes the language's extension, and the
    /// completions are dropped.  Choosing the current language does nothing.
    pub fn select_language(&mut self, l: Language)
        ensures
            old(self).language == l ==> *final(self) == *old(self),
            old(self).language != l ==> {
                &&& final(self).language == l
                &&& final(self).save_name@ == before_first(old(self).save_name@, '.') + "."@
                    + extension_text(l)
                &&& final(self).completions@.len() == 0
                &&& final(self).open == old(self).open
                &&& final(self).code == old(self).code
                &&& final(self).file_tree == old(self).file_tree
                &&& final(self).save_dir == old(self).save_dir
                &&& final(self).tree_pending == old(self).tree_pending
                &&& final(self).load_pending == old(self).load_pending
                &&& final(self).bash_input == old(self).bash_input
                &&& final(self).history == old(self).history
                &&& final(self).history_idx == old(self).history_idx
                &&& final(self).history_buffer == old(self).history_buffer
                &&& final(self).completion_idx == old(self).completion_idx
            },
            old(self).wf() ==> final(self).wf(),
    {
        if self.language == l {
            return;
        }
        let ext = l.extension();
        self.language = l;
        let base = before_first_char(self.save_name.as_str(), '.');
        let mut v: Vec<char> = Vec::new();
        push_str(&mut v, base.as_str());
        push_str(&mut v, ".");
        push_str(&mut v, ext);
        self.save_name = string_of(&v);
        self.completions = Vec::new();
    }

    // ── history ──

    /// `b` is `a` after stepping back in the history.
    pub open spec fn stepped_up(a: &EditorState, b: &EditorState) -> bool {
        let n = a.history@.len();
        &&& EditorState::same_document(a, b)
        &&& b.history == a.history
        &&& b.completion_idx == a.completion_idx
        &&& if n == 0 {
            b.bash_input == a.bash_input && b.history_idx == a.history_idx && b.history_buffer
                == a.history_buffer && b.completions == a.completions
        } else {
            &&& b.completions@.len() == 0
            &&& match a.history_idx {
                None => {
                    &&& b.history_buffer == a.bash_input
                    &&& b.history_idx == Some((n - 1) as usize)
                    &&& b.bash_input == a.history@[n - 1]
                },
                Some(i) => if i == 0 {
                    b.history_buffer == a.history_buffer && b.history_idx == a.history_idx
                        && b.bash_input == a.bash_input
                } else {
                    &&& b.history_buffer == a.history_buffer
                    &&& b.history_idx == Some((i - 1) as usize)
                    &&& b.bash_input == a.history@[i - 1]
                },
            }
        }
    }

    /// `b` is `a` after stepping forward in the history.
    pub open spec fn stepped_down(a: &EditorState, b: &EditorState) -> bool {
        &&& EditorState::same_document(a, b)
        &&& b.history == a.history
        &&& b.completion_idx == a.completion_idx
        &&& b.history_buffer == a.history_buffer
        &&& b.completions@.len() == 0
        &&& match a.history_idx {
            None => b.history_idx is None && b.bash_input == a.bash_input,
            Some(i) => if i + 1 >= a.history@.len() {
                b.history_idx is None && b.bash_input == a.history_buffer
            } else {
                b.history_idx == Some((i + 1) as usize) && b.bash_input == a.history@[i + 1]
            },
        }
    }

    /// The line shown while the user browses the history: the position in
    /// it, counted from 1, and its length; `None` when not browsing.
    pub fn history_hint(&self) -> (r: Option<String>)
        requires
            self.history_idx matches Some(i) ==> i < usize::MAX,
        ensures
            match self.history_idx {
                None => r is None,
                Some(i) => r matches Some(t) && t@ == "historial ["@ + decimal(i + 1) + "/"@
                    + decimal(self.history@.len() as int) + "] — ↑↓ para navegar"@,
            },
    {
        match self.history_idx {
            None => None,
            Some(i) => {
                let mut v: Vec<char> = Vec::new();
                push_str(&mut v, "historial [");
                push_count(&mut v, i + 1);
                push_str(&mut v, "/");
                push_count(&mut v, self.history.len());
                push_str(&mut v, "] — ↑↓ para navegar");
                assert(v@ =~= "historial ["@ + decimal(i + 1) + "/"@ + decimal(
                    self.history@.len() as int,
                ) + "] — ↑↓ para navegar"@);
                Some(string_of(&v))
            },
        }
    }

    /// Shows the previous command of the history (the last one when the
    /// user was not browsing), keeping what was typed to come back to.
    pub fn history_up(&mut self)
        requires
            old(self).history@.len() > 0 ==> (old(self).history_idx matches Some(i) ==> i <= old(
                self,
            ).history@.len()),
        ensures
            EditorState::stepped_up(old(self), final(self)),
            old(self).wf() ==> final(self).wf(),
    {
        let n = self.history.len();
        if n == 0 {
            return;
        }
        match self.history_idx {
            None => {
                self.history_buffer = self.bash_input.clone();
                self.history_idx = Some(n - 1);
                self.bash_input = self.history[n - 1].clone();
            },
            Some(i) => {
                if i != 0 {
                    self.history_idx = Some(i - 1);
                    self.bash_input = self.history[i - 1].clone();
                }
            },
        }
        self.completions = Vec::new();
    }

    /// Shows the next command of the history, or what the user had typed
    /// after the last one.
    pub fn history_down(&mut self)
        requires
            old(self).history_idx matches Some(i) ==> i < usize::MAX,
        ensures
            EditorState::stepped_down(old(self), final(self)),
            old(self).wf() ==> final(self).wf(),
    {
        match self.history_idx {
            None => {},
            Some(i) => {
                if i + 1 >= self.history.len() {
                    self.history_idx = None;
                    self.bash_input = self.history_buffer.clone();
                } else {
                    self.history_idx = Some(i + 1);
                    self.bash_input = self.history[i + 1].clone();
                }
            },
        }
        self.completions = Vec::new();
    }

    /// `b` is `a` after running `cmd` through the history.
    pub open spec fn pushed(a: &EditorState, b: &EditorState, cmd: Seq<char>) -> bool {
        let t = trim(cmd);
        &&& t.len() == 0 ==> *b == *a
        &&& t.len() > 0 ==> {
            &&& views(b.history@) == pushed_history(views(a.history@), t)
            &&& b.history_idx is None
            &&& b.history_buffer@.len() == 0
            &&& b.bash_input == a.bash_input
            &&& b.completions == a.completions
            &&& b.completion_idx == a.completion_idx
            &&& EditorState::same_document(a, b)
        }
    }

    /// Records a command in the history: trimmed, ignored when blank, not
    /// repeated after itself, the oldest dropped past a hundred entries.
    pub fn push_history(&mut self, cmd: &str)
        ensures
            EditorState::pushed(old(self), final(self), cmd@),
            old(self).wf() ==> final(self).wf(),
    {
        let t = trim_str(cmd);
        if t.as_str().is_empty() {
            return;
        }
        let ghost h0 = views(self.history@);
        let ghost tv = t@;
        push_trimmed(&mut self.history, t);
        proof {
            crate::text::lemma_trim_idempotent(cmd@);
            if old(self).wf() {
                lemma_pushed_history_ok(h0, tv);
            }
        }
        self.history_idx = None;
        self.history_buffer = String::new();
    }

    // ── completions ──

    /// Offers the completions of what is typed, none selected.
    pub fn update_completions(&mut self)
        ensures
            views(final(self).completions@) == completion_list(old(self).bash_input@, old(self).language),
            final(self).completion_idx is None,
            final(self).bash_input == old(self).bash_input,
            final(self).history == old(self).history,
            final(self).history_idx == old(self).history_idx,
            final(self).history_buffer == old(self).history_buffer,
            EditorState::same_document(old(self), final(self)),
            old(self).wf() ==> final(self).wf(),
    {
        self.completions = get_completions(self.bash_input.as_str(), &self.language);
        self.completion_idx = None;
        assert(views(self.completions@).len() == self.completions@.len());
    }

    /// Takes completion `idx` into the command line and closes the list;
    /// does nothing when there is no such completion.
    pub fn apply_completion(&mut self, idx: usize)
        ensures
            idx >= old(self).completions@.len() ==> *final(self) == *old(self),
            idx < old(self).completions@.len() ==> {
                &&& final(self).bash_input == old(self).completions@[idx as int]
                &&& final(self).completions@.len() == 0
                &&& final(self).completion_idx is None
                &&& final(self).history == old(self).history
                &&& final(self).history_idx == old(self).history_idx
                &&& final(self).history_buffer == old(self).history_buffer
                &&& EditorState::same_document(old(self), final(self))
            },
            old(self).wf() ==> final(self).wf(),
    {
        if idx < self.completions.len() {
            self.bash_input = self.completions[idx].clone();
            self.completions = Vec::new();
            self.completion_idx = None;
        }
    }

    /// The Tab key: with no completions shown, offers them, taking a single
    /// one straight into the command line; with completions shown, moves to
    /// the next one, round to the first, and puts it in the command line.
    pub fn tab_complete(&mut self)
        requires
            old(self).completion_idx matches Some(i) ==> i < usize::MAX,
        ensures
            EditorState::same_document(old(self), final(self)),
            final(self).history == old(self).history,
            final(self).history_idx == old(self).history_idx,
            final(self).history_buffer == old(self).history_buffer,
            old(self).completions@.len() == 0 ==> {
                let c = completion_list(old(self).bash_input@, old(self).language);
                &&& final(self).completion_idx is None
                &&& c.len() == 1 ==> final(self).bash_input@ == c[0]
                    && final(self).completions@.len() == 0
                &&& c.len() != 1 ==> final(self).bash_input == old(self).bash_input
                    && views(final(self).completions@) == c
            },
            old(self).completions@.len() > 0 ==> {
                let n = old(self).completions@.len();
                let next: int = match old(self).completion_idx {
                    Some(i) => (i + 1) % (n as int),
                    None => 0,
                };
                &&& final(self).completion_idx == Some(next as usize)
                &&& final(self).bash_input == old(self).completions@[next]
                &&& final(self).completions == old(self).completions
            },
            old(self).wf() ==> final(self).wf(),
    {
        if self.completions.len() == 0 {
            self.update_completions();
            if self.completions.len() == 1 {
                let c = self.completions[0].clone();
                self.bash_input = c;
                self.completions = Vec::new();
            }
        } else {
            let n = self.completions.len();
            let next = match self.completion_idx {
                Some(i) => (i + 1) % n,
                None => 0,
            };
            self.completion_idx = Some(next);
            let c = self.completions[next].clone();
            self.bash_input = c;
        }
    }

    /// The Enter key: takes the trimmed command line to run.  Nothing
    /// happens, and `None` is returned, when it is blank or a command is
    /// still running; else the command goes into the history and the
    /// command line and its completions are cleared.
    pub fn begin_bash_command(&mut self, busy: bool) -> (r: Option<String>)
        ensures
            (trim(old(self).bash_input@).len() == 0 || busy) ==> r is None && *final(self) == *old(
                self,
            ),
            (trim(old(self).bash_input@).len() > 0 && !busy) ==> {
                &&& r matches Some(c) && c@ == trim(old(self).bash_input@)
                &&& views(final(self).history@) == pushed_history(
                    views(old(self).history@),
                    trim(old(self).bash_input@),
                )
                &&& final(self).history_idx is None
                &&& final(self).history_buffer@.len() == 0
                &&& final(self).bash_input@.len() == 0
                &&& final(self).completions@.len() == 0
                &&& final(self).completion_idx == old(self).completion_idx
                &&& EditorState::same_document(old(self), final(self))
            },
            old(self).wf() ==> final(self).wf(),
    {
        let cmd = trim_str(self.bash_input.as_str());
        if cmd.as_str().is_empty() || busy {
            return None;
        }
        self.push_history(cmd.as_str());
        proof {
            crate::text::lemma_trim_idempotent(old(self).bash_input@);
        }
        self.bash_input = String::new();
        self.completions = Vec::new();
        Some(cmd)
    }
}

impl Default for EditorState {
    fn default() -> (e: EditorState)
        ensures
            !e.open,
            e.code@ == "# Escribe tu programa aqui\nprint('Hola desde el EV3!')\n"@,
            e.language == Language::Python,
            e.file_tree@.len() == 0,
            e.save_name@ == "programa.py"@,
            e.save_dir@ == "/home/robot"@,
            e.bash_input@.len() == 0,
            e.history@.len() == 0,
            e.history_idx is None,
            e.history_buffer@.len() == 0,
            e.completions@.len() == 0,
            e.completion_idx is None,
            !e.tree_pending,
            !e.load_pending,
            e.wf(),
    {
        EditorState::new()
    }
}

// ───────────────────────── the cd command ─────────────────────────

/// Whether a command line is a directory change (it begins with `cd`).
pub fn is_cd_command(cmd: &str) -> (r: bool)
    ensures
        r == starts_with(cmd@, "cd"@),
{
    str_starts_with(cmd, "cd")
}

/// The directory a `cd` command line asks for, relative to `current_dir`:
/// the home directory when no target is given, the target itself when it is
/// absolute, else the target under the current directory.
pub open spec fn cd_target_text(cmd: Seq<char>, current_dir: Seq<char>) -> Seq<char> {
    let target = trim(trim_start_pat(cmd, "cd"@));
    if target.len() == 0 {
        "/home/robot"@
    } else if starts_with(target, "/"@) {
        target
    } else {
        remote_path_text(current_dir, target)
    }
}

/// The directory a `cd` command line asks for.
pub fn cd_target(cmd: &str, current_dir: &str) -> (r: String)
    ensures
        r@ == cd_target_text(cmd@, current_dir@),
{
    proof {
        reveal_strlit("cd");
    }
    let rest = trim_start_matching(cmd, "cd");
    let target = trim_str(rest.as_str());
    if target.as_str().is_empty() {
        owned("/home/robot")
    } else if str_starts_with(target.as_str(), "/") {
        target
    } else {
        remote_path(current_dir, target.as_str())
    }
}

/// Whether the reply to a `cd` probe names a directory rather than an error.
pub fn cd_accepted(reply: &str) -> (r: bool)
    ensures
        r == (!starts_with(reply@, "bash:"@) && !contains(reply@, "No such"@)),
{
    !str_starts_with(reply, "bash:") && !str_contains(reply, "No such")
}

// ───────────────────────── directory listings ─────────────────────────

/// The non-empty elements of `s`, in order.
pub open spec fn non_empty(s: Seq<Seq<char>>) -> Seq<Seq<char>>
    decreases s.len(),
{
    if s.len() == 0 {
        Seq::empty()
    } else if s.last().len() == 0 {
        non_empty(s.drop_last())
    } else {
        non_empty(s.drop_last()).push(s.last())
    }
}

/// The entries of a listing: its lines, trimmed, blank ones left out.
pub open spec fn listing_entries(out: Seq<char>) -> Seq<Seq<char>> {
    non_empty(split_on(out, '\n').map_values(|l: Seq<char>| trim(l)))
}

proof fn lemma_split_on_nonempty(s: Seq<char>, c: char)
    ensures
        split_on(s, c).len() >= 1,
    decreases s.len(),
{
    if s.len() > 0 {
        lemma_split_on_nonempty(s.drop_last(), c);
    }
}

proof fn lemma_split_on_without(s: Seq<char>, c: char)
    requires
        forall|i: int| 0 <= i < s.len() ==> s[i] != c,
    ensures
        split_on(s, c) == seq![s],
    decreases s.len(),
{
    if s.len() > 0 {
        assert(s[s.len() - 1] != c);
        lemma_split_on_without(s.drop_last(), c);
        let w = split_on(s.drop_last(), c);
        assert(w.len() == 1 && w.last() == s.drop_last());
        assert(s.drop_last().push(s.last()) =~= s);
        assert(w.update(w.len() - 1, w.last().push(s.last())) =~= seq![s]);
    } else {
        assert(s =~= Seq::<char>::empty());
    }
}

proof fn lemma_split_on_join(x: Seq<char>, y: Seq<char>, c: char)
    ensures
        split_on(x + seq![c] + y, c) == split_on(x, c) + split_on(y, c),
    decreases y.len(),
{
    let s = x + seq![c] + y;
    if y.len() == 0 {
        assert(s.drop_last() =~= x);
        assert(split_on(y, c) =~= seq![Seq::<char>::empty()]);
    } else {
        assert(s.drop_last() =~= x + seq![c] + y.drop_last());
        assert(s.last() == y.last());
        lemma_split_on_join(x, y.drop_last(), c);
        lemma_split_on_nonempty(y.drop_last(), c);
        let a = split_on(x, c);
        let b = split_on(y.drop_last(), c);
        if y.last() == c {
            assert((a + b).push(Seq::<char>::empty()) =~= a + b.push(Seq::<char>::empty()));
        } else {
            let w = a + b;
            assert(w.last() == b.last());
            assert(w.update(w.len() - 1, w.last().push(y.last())) =~= a + b.update(
                b.len() - 1,
                b.last().push(y.last()),
            ));
        }
    }
}

proof fn lemma_non_empty_concat(p: Seq<Seq<char>>, q: Seq<Seq<char>>)
    ensures
        non_empty(p + q) == non_empty(p) + non_empty(q),
    decreases q.len(),
{
    if q.len() == 0 {
        assert(p + q =~= p);
        assert(non_empty(p) + non_empty(q) =~= non_empty(p));
    } else {
        assert((p + q).drop_last() =~= p + q.drop_last());
        assert((p + q).last() == q.last());
        lemma_non_empty_concat(p, q.drop_last());
        if q.last().len() != 0 {
            assert((non_empty(p) + non_empty(q.drop_last())).push(q.last()) =~= non_empty(p) + non_empty(
                q.drop_last(),
            ).push(q.last()));
        }
    }
}

/// A listing is read line by line: a line without a line break gives one
/// entry, itself trimmed, however many spaces it holds inside (none when it
/// is blank); and a listing made of a line, a line break and the rest gives
/// that line's entries followed by those of the rest.
pub proof fn law_listing_one_entry_per_line(line: Seq<char>, rest: Seq<char>)
    requires
        forall|i: int| 0 <= i < line.len() ==> line[i] != '\n',
    ensures
        trim(line).len() > 0 ==> listing_entries(line) == seq![trim(line)],
        trim(line).len() == 0 ==> listing_entries(line).len() == 0,
        listing_entries(line + seq!['\n'] + rest) == listing_entries(line) + listing_entries(rest),
{
    let f = |l: Seq<char>| trim(l);
    lemma_split_on_without(line, '\n');
    assert(seq![line].map_values(f) =~= seq![trim(line)]);
    assert(seq![trim(line)].drop_last() =~= Seq::<Seq<char>>::empty());
    assert(non_empty(Seq::<Seq<char>>::empty()) == Seq::<Seq<char>>::empty());
    assert(listing_entries(line) == non_empty(seq![trim(line)]));
    lemma_split_on_join(line, rest, '\n');
    assert((split_on(line, '\n') + split_on(rest, '\n')).map_values(f) =~= split_on(line, '\n').map_values(f)
        + split_on(rest, '\n').map_values(f));
    lemma_non_empty_concat(split_on(line, '\n').map_values(f), split_on(rest, '\n').map_values(f));
}

/// The file browser shows one node per line of the listing: a listing of
/// one non-blank line (ended by a line break or not) gives exactly one node,
/// named by the whole trimmed line without a trailing `/`, spaces inside
/// included, and a directory exactly when the line ends in `/`.
pub proof fn law_listing_line_is_one_node(dir: Seq<char>, line: Seq<char>, nodes: Seq<FileNode>, ended: bool)
    requires
        forall|i: int| 0 <= i < line.len() ==> line[i] != '\n',
        trim(line).len() > 0,
        ({
            let out = if ended { line + seq!['\n'] } else { line };
            &&& nodes.len() == listing_entries(out).len()
            &&& forall|i: int|
                0 <= i < nodes.len() ==> node_for_entry(#[trigger] nodes[i], dir, listing_entries(out)[i])
        }),
    ensures
        nodes.len() == 1,
        nodes[0].name@ == trim_end_char(trim(line), '/'),
        nodes[0].is_dir == (trim(line).last() == '/'),
{
    law_listing_one_entry_per_line(line, Seq::<char>::empty());
    law_listing_one_entry_per_line(Seq::<char>::empty(), Seq::<char>::empty());
    assert(line + seq!['\n'] + Seq::<char>::empty() =~= line + seq!['\n']);
    assert(trim(Seq::<char>::empty()) =~= Seq::<char>::empty());
    assert(listing_entries(line) + listing_entries(Seq::<char>::empty()) =~= listing_entries(line));
    assert(node_for_entry(nodes[0], dir, trim(line)));
}

/// `node` is the entry `e` of a listing of directory `dir`, not yet expanded.
pub open spec fn node_for_entry(node: FileNode, dir: Seq<char>, e: Seq<char>) -> bool {
    &&& node.is_dir == (e.len() > 0 && e.last() == '/')
    &&& node.name@ == trim_end_char(e, '/')
    &&& node.path@ == remote_path_text(dir, trim_end_char(e, '/'))
    &&& node.children@.len() == 0
    &&& !node.expanded
}

/// The nodes for the output of `ls -1p` on directory `dir`, one per entry,
/// in order, without their children.
pub fn parse_listing(dir: &str, output: &str) -> (r: Vec<FileNode>)
    ensures
        r@.len() == listing_entries(output@).len(),
        forall|i: int|
            0 <= i < r@.len() ==> node_for_entry(#[trigger] r@[i], dir@, listing_entries(output@)[i]),
{
    let lines = split_char(output, '\n');
    let ghost ls = views(lines@);
    let ghost trimmed = ls.map_values(|l: Seq<char>| trim(l));
    let mut nodes: Vec<FileNode> = Vec::new();
    let n = lines.len();
    for i in 0..n
        invariant
            n == lines@.len(),
            ls == views(lines@),
            trimmed == ls.map_values(|l: Seq<char>| trim(l)),
            nodes@.len() == non_empty(trimmed.take(i as int)).len(),
            forall|k: int|
                0 <= k < nodes@.len() ==> node_for_entry(
                    #[trigger] nodes@[k],
                    dir@,
                    non_empty(trimmed.take(i as int))[k],
                ),
    {
        assert(trimmed.take(i + 1).drop_last() == trimmed.take(i as int));
        assert(trimmed.take(i + 1).last() == trim(lines@[i as int]@));
        let entry = trim_str(lines[i].as_str());
        if !entry.as_str().is_empty() {
            let ev = crate::text::chars_of(entry.as_str());
            let is_dir = ev.len() > 0 && ev[ev.len() - 1] == '/';
            let name = trim_end_matching(entry.as_str(), '/');
            let path = remote_path(dir, name.as_str());
            let ghost before = nodes@;
            nodes.push(FileNode { name, path, is_dir, children: Vec::new(), expanded: false });
            assert forall|k: int| 0 <= k < nodes@.len() implies node_for_entry(
                #[trigger] nodes@[k],
                dir@,
                non_empty(trimmed.take(i + 1))[k],
            ) by {
                if k < before.len() {
                    assert(nodes@[k] == before[k]);
                }
            }
        }
    }
    assert(trimmed.take(n as int) == trimmed);
    assert(split_on(output@, '\n').map_values(|l: Seq<char>| trim(l)) == trimmed);
    nodes
}

/// Whether the file browser lists the children of a node found at `depth`:
/// only directories in the first two levels.
pub fn should_descend(is_dir: bool, depth: usize) -> (r: bool)
    ensures
        r == (is_dir && depth < 2),
{
    is_dir && depth < 2
}

/// Whether a directory at `depth` is beyond the browser's reach.
pub fn beyond_depth(depth: usize) -> (r: bool)
    ensures
        r == (depth > 3),
{
    depth > 3
}

// ───────────────────────── laws ─────────────────────────
proof fn lemma_select_members(
    input: Seq<char>,
    linput: Seq<char>,
    pool: Seq<Seq<char>>,
    lpool: Seq<Seq<char>>,
    i: int,
)
    requires
        lpool.len() == pool.len(),
        0 <= i < select(input, linput, pool, lpool).len(),
    ensures
        exists|k: int|
            0 <= k < pool.len() && #[trigger] pool[k] == select(input, linput, pool, lpool)[i]
                && starts_with(lpool[k], linput) && pool[k] != input,
    decreases pool.len(),
{
    let rest = select(input, linput, pool.drop_last(), lpool.drop_last());
    let n = pool.len() - 1;
    if i < rest.len() {
        lemma_select_members(input, linput, pool.drop_last(), lpool.drop_last(), i);
        let k = choose|k: int|
            0 <= k < pool.drop_last().len() && #[trigger] pool.drop_last()[k] == rest[i]
                && starts_with(lpool.drop_last()[k], linput) && pool.drop_last()[k] != input;
        assert(pool[k] == pool.drop_last()[k]);
        assert(lpool[k] == lpool.drop_last()[k]);
    } else {
        assert(pool[n] == select(input, linput, pool, lpool)[i]);
    }
}

/// Every completion offered is one of the language's candidates, begins
/// with the input when both are compared in lower case, and is not the input
/// itself; at most six are offered.
pub proof fn law_completions_match_input(input: Seq<char>, l: Language, i: int)
    requires
        0 <= i < completion_list(input, l).len(),
    ensures
        completion_list(input, l).len() <= 6,
        pool_for(l).contains(completion_list(input, l)[i]),
        starts_with(lowercase(completion_list(input, l)[i]), lowercase(input)),
        completion_list(input, l)[i] != input,
{
    let pool = pool_for(l);
    let lpool = pool.map_values(|c| lowercase(c));
    let sel = select(input, lowercase(input), pool, lpool);
    let c = completion_list(input, l)[i];
    assert(c == sel[i]);
    lemma_select_members(input, lowercase(input), pool, lpool, i);
    let k = choose|k: int|
        0 <= k < pool.len() && #[trigger] pool[k] == sel[i] && starts_with(lpool[k], lowercase(input))
            && pool[k] != input;
    assert(lpool[k] == lowercase(pool[k]));
}


/// Stepping back into the history and then forward again gives back what
/// was typed and ends the browsing.
pub proof fn law_history_up_then_down_restores_input(
    s0: EditorState,
    s1: EditorState,
    s2: EditorState,
)
    requires
        s0.wf(),
        s0.history@.len() > 0,
        s0.history_idx is None,
        EditorState::stepped_up(&s0, &s1),
        EditorState::stepped_down(&s1, &s2),
    ensures
        s2.bash_input == s0.bash_input,
        s2.history_idx is None,
        s2.history == s0.history,
{
}

/// How far back `k` steps up from the end of a history of length `len` reach.
spec fn browse_position(len: int, k: int) -> int {
    if k <= len {
        len - k
    } else {
        0
    }
}

/// Each state of `ups` is the one before it after a step back.
pub open spec fn up_step(ups: Seq<EditorState>, k: int) -> bool {
    EditorState::stepped_up(&ups[k], &ups[k + 1])
}

/// Each state of `downs` is the one before it after a step forward.
pub open spec fn down_step(downs: Seq<EditorState>, k: int) -> bool {
    EditorState::stepped_down(&downs[k], &downs[k + 1])
}

proof fn lemma_steps_up(ups: Seq<EditorState>, k: int)
    requires
        ups.len() >= 2,
        0 < ups[0].history@.len() <= usize::MAX,
        ups[0].history_idx is None,
        forall|j: int| 0 <= j < ups.len() - 1 ==> #[trigger] up_step(ups, j),
        1 <= k < ups.len(),
    ensures
        ups[k].history == ups[0].history,
        ups[k].history_buffer == ups[0].bash_input,
        ups[k].history_idx matches Some(i) && i == browse_position(ups[0].history@.len() as int, k),
    decreases k,
{
    assert(up_step(ups, k - 1));
    let a = ups[k - 1];
    let b = ups[k];
    assert(EditorState::stepped_up(&a, &b));
    let len = ups[0].history@.len() as int;
    if k > 1 {
        lemma_steps_up(ups, k - 1);
        let p = browse_position(len, k - 1);
        assert(a.history@.len() == len);
        assert(0 <= p < len);
        if p == 0 {
            assert(browse_position(len, k) == 0);
        } else {
            assert(browse_position(len, k) == p - 1);
        }
    } else {
        assert(a == ups[0]);
    }
}

proof fn lemma_steps_down(
    downs: Seq<EditorState>,
    len: int,
    m: int,
    buffer: String,
    history: Vec<String>,
    j: int,
)
    requires
        1 <= m <= len <= usize::MAX,
        history@.len() == len,
        downs[0].history == history,
        downs[0].history_buffer == buffer,
        downs[0].history_idx matches Some(i) && i == len - m,
        downs.len() == m + 1,
        forall|i: int| 0 <= i < downs.len() - 1 ==> #[trigger] down_step(downs, i),
        0 <= j <= m,
    ensures
        downs[j].history == history,
        downs[j].history_buffer == buffer,
        j < m ==> (downs[j].history_idx matches Some(i) && i == len - m + j),
        j == m ==> downs[j].history_idx is None && downs[j].bash_input == buffer,
    decreases j,
{
    if j > 0 {
        lemma_steps_down(downs, len, m, buffer, history, j - 1);
        assert(down_step(downs, j - 1));
        let a = downs[j - 1];
        let b = downs[j];
        assert(EditorState::stepped_down(&a, &b));
        assert(a.history@.len() == len);
    }
}

/// Browsing back through the history any number of times and then forward
/// as many times as the browsing moved (the number of steps back, but no
/// more than the history holds) gives back what was typed and ends the
/// browsing.
pub proof fn law_history_browse_restores_input(ups: Seq<EditorState>, downs: Seq<EditorState>)
    requires
        ups.len() >= 2,
        ups[0].history@.len() > 0,
        ups[0].history_idx is None,
        forall|k: int| 0 <= k < ups.len() - 1 ==> #[trigger] up_step(ups, k),
        downs.len() == 1 + (if ups.len() - 1 <= ups[0].history@.len() {
            ups.len() - 1
        } else {
            ups[0].history@.len() as int
        }),
        downs[0] == ups.last(),
        forall|k: int| 0 <= k < downs.len() - 1 ==> #[trigger] down_step(downs, k),
    ensures
        downs.last().bash_input == ups[0].bash_input,
        downs.last().history_idx is None,
        downs.last().history == ups[0].history,
{
    vstd::std_specs::vec::axiom_spec_len(&ups[0].history);
    let len = ups[0].history@.len() as int;
    let n = ups.len() - 1;
    let m = downs.len() - 1;
    lemma_steps_up(ups, n);
    assert(browse_position(len, n) == len - m);
    lemma_steps_down(downs, len, m, ups[0].bash_input, ups[0].history, m);
}

/// While the user browses the history, the command line shows the entry the
/// position points at: if that holds before a step back or forward (or the
/// user is not browsing), it holds after it, and the position stays inside
/// the history.
pub proof fn law_browsing_shows_indexed_entry(a: EditorState, b: EditorState, up: bool)
    requires
        a.history_idx matches Some(j) ==> j < a.history@.len() && a.bash_input == a.history@[j as int],
        up ==> EditorState::stepped_up(&a, &b),
        !up ==> EditorState::stepped_down(&a, &b),
    ensures
        b.history_idx matches Some(j) ==> j < b.history@.len() && b.bash_input == b.history@[j as int],
{
    vstd::std_specs::vec::axiom_spec_len(&a.history);
}

/// The command just run is the first one the history recalls.
pub proof fn law_history_recalls_last_command(
    s0: EditorState,
    s1: EditorState,
    s2: EditorState,
    cmd: Seq<char>,
)
    requires
        trim(cmd).len() > 0,
        EditorState::pushed(&s0, &s1, cmd),
        EditorState::stepped_up(&s1, &s2),
    ensures
        s2.bash_input@ == trim(cmd),
        s2.history_idx == Some((s1.history@.len() - 1) as usize),
{
    let h = views(s0.history@);
    let t = trim(cmd);
    let h1 = views(s1.history@);
    assert(h1 == pushed_history(h, t));
    if h.len() > 0 && h.last() == t {
    } else if h.len() + 1 > history_limit() {
        assert(h1.last() == h.push(t).drop_first().last());
    } else {
        assert(h1.last() == t);
    }
    assert(h1.len() > 0);
    assert(h1[h1.len() - 1] == s1.history@[s1.history@.len() - 1]@);
}

} // verus!
