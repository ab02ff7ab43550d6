//! The shell commands and HTTP requests that the terminal, the program
//! runner and the file browser send to the brick, and the decisions taken on
//! the brick's replies.

use vstd::prelude::*;
use crate::decimal::{decimal, parse_u32, parse_u32_spec, push_decimal};
use crate::text::{push_str, replace, replace_all, starts_with, str_equal, string_of, trim, trim_end_char, trim_end_matching, trim_str};

verus! {

/// The log that a program started on the brick writes to.
pub const PROGRAM_LOG: &'static str = "/tmp/ev3_out.log";

/// The shell command that empties the program log.
pub const CLEAR_LOG_COMMAND: &'static str = "echo '' > /tmp/ev3_out.log";

/// The shell command that reads the program log, ignoring a missing log.
pub const READ_LOG_COMMAND: &'static str = "cat /tmp/ev3_out.log 2>/dev/null";

/// The shell command that reads the program log.
pub const READ_LOG_PLAIN_COMMAND: &'static str = "cat /tmp/ev3_out.log";

/// The home directory of the brick's user.
pub const HOME_DIR: &'static str = "/home/robot";

// ───────────────────────── texts ─────────────────────────

/// `{dir without trailing slashes}/{name}`.
pub open spec fn remote_path_text(dir: Seq<char>, name: Seq<char>) -> Seq<char> {
    trim_end_char(dir, '/') + "/"@ + name
}

/// `cd {cwd} 2>/dev/null; {cmd}`.
pub open spec fn bash_in_dir_text(cwd: Seq<char>, cmd: Seq<char>) -> Seq<char> {
    "cd "@ + cwd + " 2>/dev/null; "@ + cmd
}

/// `content` prepared for a single-quoted shell argument: each `'` written
/// as `'\''` (close the quotes, an escaped quote, open them again).
pub open spec fn shell_escape_text(content: Seq<char>) -> Seq<char> {
    replace(content, "'"@, "'\\''"@)
}

/// `printf '%s' '{escaped content}' > {path}`.
pub open spec fn write_file_text(path: Seq<char>, content: Seq<char>) -> Seq<char> {
    "printf '%s' '"@ + shell_escape_text(content) + "' > "@ + path
}

/// `nohup {run} > /tmp/ev3_out.log 2>&1 & echo $!`.
pub open spec fn background_text(run: Seq<char>) -> Seq<char> {
    "nohup "@ + run + " > /tmp/ev3_out.log 2>&1 & echo $!"@
}

/// `python3 {path}` for `"python"`, else `bash {path}`.
pub open spec fn interpreter_text(lang: Seq<char>, path: Seq<char>) -> Seq<char> {
    if lang == "python"@ {
        "python3 "@ + path
    } else {
        "bash "@ + path
    }
}

/// `kill -0 {pid} 2>/dev/null && echo yes || echo no`.
pub open spec fn pid_alive_text(pid: Seq<char>) -> Seq<char> {
    "kill -0 "@ + pid + " 2>/dev/null && echo yes || echo no"@
}

/// `kill -- -{pid} 2>/dev/null || kill {pid} 2>/dev/null`.
pub open spec fn kill_group_text(pid: int) -> Seq<char> {
    "kill -- -"@ + decimal(pid) + " 2>/dev/null || kill "@ + decimal(pid) + " 2>/dev/null"@
}

/// `http://{ip}:8080/?cmd=killpid&pid={pid}`.
pub open spec fn kill_url_text(ip: Seq<char>, pid: int) -> Seq<char> {
    "http://"@ + ip + ":8080/?cmd=killpid&pid="@ + decimal(pid)
}

/// `ls -1p {path} 2>/dev/null`.
pub open spec fn listing_text(path: Seq<char>) -> Seq<char> {
    "ls -1p "@ + path + " 2>/dev/null"@
}

/// `cd {dir} 2>&1 && pwd`.
pub open spec fn cd_probe_text(dir: Seq<char>) -> Seq<char> {
    "cd "@ + dir + " 2>&1 && pwd"@
}

// ───────────────────────── builders ─────────────────────────

/// The path of file `name` in directory `dir` on the brick.
pub fn remote_path(dir: &str, name: &str) -> (r: String)
    ensures
        r@ == remote_path_text(dir@, name@),
{
    let d = trim_end_matching(dir, '/');
    let mut v: Vec<char> = Vec::new();
    push_str(&mut v, d.as_str());
    push_str(&mut v, "/");
    push_str(&mut v, name);
    assert(v@ =~= remote_path_text(dir@, name@));
    string_of(&v)
}

/// A shell command run from directory `cwd`.
pub fn bash_in_dir(cwd: &str, cmd: &str) -> (r: String)
    ensures
        r@ == bash_in_dir_text(cwd@, cmd@),
{
    let mut v: Vec<char> = Vec::new();
    push_str(&mut v, "cd ");
    push_str(&mut v, cwd);
    push_str(&mut v, " 2>/dev/null; ");
    push_str(&mut v, cmd);
    assert(v@ =~= bash_in_dir_text(cwd@, cmd@));
    string_of(&v)
}

/// `content` prepared for a single-quoted shell argument.
pub fn shell_escape(content: &str) -> (r: String)
    ensures
        r@ == shell_escape_text(content@),
{
    proof {
        reveal_strlit("'");
    }
    replace_all(content, "'", "'\\''")
}

/// The shell command that writes `content` to the file `path` on the brick.
pub fn write_file_command(path: &str, content: &str) -> (r: String)
    ensures
        r@ == write_file_text(path@, content@),
{
    let escaped = shell_escape(content);
    let mut v: Vec<char> = Vec::new();
    push_str(&mut v, "printf '%s' '");
    push_str(&mut v, escaped.as_str());
    push_str(&mut v, "' > ");
    push_str(&mut v, path);
    assert(v@ =~= write_file_text(path@, content@));
    string_of(&v)
}

/// The shell command that reads the file `path` on the brick.
pub fn read_file_command(path: &str) -> (r: String)
    ensures
        r@ == "cat "@ + path@,
{
    let mut v: Vec<char> = Vec::new();
    push_str(&mut v, "cat ");
    push_str(&mut v, path);
    string_of(&v)
}

/// The shell command that starts `run` in the background, logging to the
/// program log, and prints its process id.
pub fn background_command(run: &str) -> (r: String)
    ensures
        r@ == background_text(run@),
{
    let mut v: Vec<char> = Vec::new();
    push_str(&mut v, "nohup ");
    push_str(&mut v, run);
    push_str(&mut v, " > /tmp/ev3_out.log 2>&1 & echo $!");
    assert(v@ =~= background_text(run@));
    string_of(&v)
}

/// The command that runs the program at `path`: with `python3` when `lang`
/// is `"python"`, with `bash` otherwise.
pub fn interpreter_command(lang: &str, path: &str) -> (r: String)
    ensures
        r@ == interpreter_text(lang@, path@),
{
    let mut v: Vec<char> = Vec::new();
    if str_equal(lang, "python") {
        push_str(&mut v, "python3 ");
    } else {
        push_str(&mut v, "bash ");
    }
    push_str(&mut v, path);
    string_of(&v)
}

/// The shell command that prints `yes` while process `pid` runs, else `no`.
pub fn pid_alive_command(pid: &str) -> (r: String)
    ensures
        r@ == pid_alive_text(pid@),
{
    let mut v: Vec<char> = Vec::new();
    push_str(&mut v, "kill -0 ");
    push_str(&mut v, pid);
    push_str(&mut v, " 2>/dev/null && echo yes || echo no");
    assert(v@ =~= pid_alive_text(pid@));
    string_of(&v)
}

/// The shell command that kills the process group of `pid`, or the process
/// alone where there is no such group.
pub fn kill_group_command(pid: u32) -> (r: String)
    ensures
        r@ == kill_group_text(pid as int),
{
    let mut v: Vec<char> = Vec::new();
    push_str(&mut v, "kill -- -");
    push_decimal(&mut v, pid as i64);
    push_str(&mut v, " 2>/dev/null || kill ");
    push_decimal(&mut v, pid as i64);
    push_str(&mut v, " 2>/dev/null");
    assert(v@ =~= kill_group_text(pid as int));
    string_of(&v)
}

/// The request that asks the brick's HTTP server to kill process `pid`.
pub fn kill_url(ip: &str, pid: u32) -> (r: String)
    ensures
        r@ == kill_url_text(ip@, pid as int),
{
    let mut v: Vec<char> = Vec::new();
    push_str(&mut v, "http://");
    push_str(&mut v, ip);
    push_str(&mut v, ":8080/?cmd=killpid&pid=");
    push_decimal(&mut v, pid as i64);
    assert(v@ =~= kill_url_text(ip@, pid as int));
    string_of(&v)
}

/// The shell command that lists directory `path`, directories marked with a
/// trailing `/`.
pub fn listing_command(path: &str) -> (r: String)
    ensures
        r@ == listing_text(path@),
{
    let mut v: Vec<char> = Vec::new();
    push_str(&mut v, "ls -1p ");
    push_str(&mut v, path);
    push_str(&mut v, " 2>/dev/null");
    assert(v@ =~= listing_text(path@));
    string_of(&v)
}

/// The shell command that enters `dir` and prints where it landed.
pub fn cd_probe_command(dir: &str) -> (r: String)
    ensures
        r@ == cd_probe_text(dir@),
{
    let mut v: Vec<char> = Vec::new();
    push_str(&mut v, "cd ");
    push_str(&mut v, dir);
    push_str(&mut v, " 2>&1 && pwd");
    assert(v@ =~= cd_probe_text(dir@));
    string_of(&v)
}

// ───────────────────────── replies ─────────────────────────

/// Whether `reply`, trimmed, is exactly `word`.
pub fn reply_is(reply: &str, word: &str) -> (r: bool)
    ensures
        r == (trim(reply@) == word@),
{
    let t = trim_str(reply);
    str_equal(t.as_str(), word)
}

/// The process id printed by a background start, if the trimmed reply is one.
pub fn pid_from_reply(reply: &str) -> (r: Option<u32>)
    ensures
        r == parse_u32_spec(trim(reply@)),
{
    let t = trim_str(reply);
    parse_u32(t.as_str())
}

// ───────────────────────── shell quoting ─────────────────────────

/// The text a POSIX shell takes from word `w`, reading it from the start
/// inside single quotes (`inq`) or outside them: inside, every character but
/// `'` stands for itself and `'` closes the quotes; outside, `'` opens them,
/// `\` makes the next character stand for itself, and any other character
/// stands for itself.
pub open spec fn shell_word(w: Seq<char>, inq: bool) -> Seq<char>
    decreases w.len(),
{
    if w.len() == 0 {
        Seq::empty()
    } else if inq {
        if w[0] == '\'' {
            shell_word(w.drop_first(), false)
        } else {
            seq![w[0]] + shell_word(w.drop_first(), true)
        }
    } else if w[0] == '\'' {
        shell_word(w.drop_first(), true)
    } else if w[0] == '\\' && w.len() > 1 {
        seq![w[1]] + shell_word(w.skip(2), false)
    } else {
        seq![w[0]] + shell_word(w.drop_first(), false)
    }
}

proof fn lemma_quoted_body(d: Seq<char>, rest: Seq<char>)
    ensures
        shell_word(replace(d, "'"@, "'\\''"@) + rest, true) == d + shell_word(rest, true),
    decreases d.len(),
{
    reveal_strlit("'");
    reveal_strlit("'\\''");
    let q = "'"@;
    let e = "'\\''"@;
    if d.len() == 0 {
        assert(replace(d, q, e) + rest =~= rest);
        assert(d + shell_word(rest, true) =~= shell_word(rest, true));
    } else if starts_with_quote(d) {
        let tail = replace(d.skip(1), q, e);
        assert(d.take(1) =~= q);
        assert(replace(d, q, e) == e + tail);
        lemma_quoted_body(d.skip(1), rest);
        let w = e + tail + rest;
        assert(w[0] == '\'');
        assert(w.drop_first() =~= seq!['\\', '\'', '\''] + tail + rest);
        let w1 = w.drop_first();
        assert(w1[0] == '\\' && w1[1] == '\'');
        assert(w1.skip(2) =~= seq!['\''] + tail + rest);
        let w2 = w1.skip(2);
        assert(w2.drop_first() =~= tail + rest);
        assert(shell_word(w2, false) == shell_word(tail + rest, true));
        assert(shell_word(w1, false) == seq!['\''] + shell_word(w2, false));
        assert(shell_word(w, true) == shell_word(w1, false));
        assert(replace(d, q, e) + rest =~= w);
        assert(d =~= seq!['\''] + d.skip(1));
        assert(d + shell_word(rest, true) =~= seq!['\''] + (d.skip(1) + shell_word(rest, true)));
    } else {
        assert(q.len() == 1 && q[0] == '\'');
        assert(d.take(1)[0] == d[0]);
        assert(!starts_with(d, q));
        let tail = replace(d.drop_first(), q, e);
        assert(replace(d, q, e) == seq![d[0]] + tail);
        lemma_quoted_body(d.drop_first(), rest);
        let w = seq![d[0]] + tail + rest;
        assert(w[0] == d[0]);
        assert(w.drop_first() =~= tail + rest);
        assert(shell_word(w, true) == seq![d[0]] + shell_word(tail + rest, true));
        assert(replace(d, q, e) + rest =~= w);
        assert(d + shell_word(rest, true) =~= seq![d[0]] + (d.drop_first() + shell_word(rest, true)));
    }
}

spec fn starts_with_quote(d: Seq<char>) -> bool {
    d.len() > 0 && d[0] == '\''
}

/// The file that `write_file_command` writes holds exactly the content:
/// the shell hands `printf '%s'` the content itself as its argument, single
/// quotes and backslashes included.
pub proof fn law_written_content(content: Seq<char>)
    ensures
        shell_word("'"@ + shell_escape_text(content) + "'"@, false) == content,
{
    reveal_strlit("'");
    let body = replace(content, "'"@, "'\\''"@);
    let w = "'"@ + body + "'"@;
    assert(w[0] == '\'');
    assert(w.drop_first() =~= body + "'"@);
    lemma_quoted_body(content, "'"@);
    assert("'"@.drop_first() =~= Seq::<char>::empty());
    assert(shell_word(Seq::<char>::empty(), false) == Seq::<char>::empty());
    assert(shell_word("'"@, true) == Seq::<char>::empty());
    assert(content + Seq::<char>::empty() =~= content);
}

} // verus!
