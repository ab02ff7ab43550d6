//! The decisions of the tasks that talk to the brick for the terminal and the
//! program runner: what each reply of the brick means, and what the console
//! shows for it.  The tasks themselves, which hold the SSH session, stand
//! outside the library; after each exchange they hand the reply, as text or
//! as an error message, to one of these functions and carry out the result.

use vstd::prelude::*;
use crate::decimal::{decimal, parse_u32_spec, push_decimal};
use crate::display::command_output_text;
use crate::editor::cd_accepted;
use crate::remote::pid_from_reply;
use crate::text::{contains, owned, push_str, starts_with, string_of, trim, trim_str};

verus! {

/// A change to the console's text.
#[derive(Debug)]
pub enum ConsoleEdit {
    /// The console shows this text instead of what it showed.
    Replace(String),
    /// This text is added at the end of the console.
    Append(String),
}

/// A console edit as a pair: whether it replaces the text, and the text.
pub open spec fn edit_view(e: ConsoleEdit) -> (bool, Seq<char>) {
    match e {
        ConsoleEdit::Replace(t) => (true, t@),
        ConsoleEdit::Append(t) => (false, t@),
    }
}

fn replace_with(parts: &Vec<char>) -> (e: ConsoleEdit)
    ensures
        edit_view(e) == (true, parts@),
{
    ConsoleEdit::Replace(string_of(parts))
}

fn append_with(parts: &Vec<char>) -> (e: ConsoleEdit)
    ensures
        edit_view(e) == (false, parts@),
{
    ConsoleEdit::Append(string_of(parts))
}

/// Whether a program run is under way, and the process id it is watching.
/// A stop request takes the process id away; the watch then ends.
pub struct RunFlags {
    pub running: bool,
    pub pid: Option<u32>,
}

impl RunFlags {
    /// No run under way.
    pub fn new() -> (f: RunFlags)
        ensures
            !f.running,
            f.pid is None,
    {
        RunFlags { running: false, pid: None }
    }

    /// Asks to start a run: refused while one is under way; else the run is
    /// under way, with no process yet.
    pub fn begin(&mut self) -> (started: bool)
        ensures
            started == !old(self).running,
            started ==> final(self).running && final(self).pid is None,
            !started ==> *final(self) == *old(self),
    {
        if self.running {
            false
        } else {
            self.running = true;
            self.pid = None;
            true
        }
    }

    /// The run ends before any process was watched (the brick could not be
    /// reached or the upload failed), or a stop request was carried out.
    pub fn end(&mut self)
        ensures
            !final(self).running,
            final(self).pid == old(self).pid,
    {
        self.running = false;
    }

    /// The program was started in the background with process id `pid`, if
    /// one came back: the run watches it, or ends without one.  Says
    /// whether the watch goes on.
    pub fn started(&mut self, pid: Option<u32>) -> (watching: bool)
        ensures
            watching == pid is Some,
            final(self).pid == if watching { pid } else { old(self).pid },
            final(self).running == (old(self).running && watching),
    {
        match pid {
            Some(p) => {
                self.pid = Some(p);
                true
            },
            None => {
                self.running = false;
                false
            },
        }
    }

    /// Whether the user asked to stop the watched program.
    pub fn stop_requested(&self) -> (r: bool)
        ensures
            r == self.pid is None,
    {
        self.pid.is_none()
    }

    /// The watch ended: when the program `finished`, it is no longer
    /// watched; either way the run is over.
    pub fn watch_ended(&mut self, finished: bool)
        ensures
            !final(self).running,
            final(self).pid == if finished { None } else { old(self).pid },
    {
        if finished {
            self.pid = None;
        }
        self.running = false;
    }

    /// A stop request: takes the watched process id, if any, so the watch
    /// stops; the caller kills that process.
    pub fn take_pid(&mut self) -> (r: Option<u32>)
        ensures
            r == old(self).pid,
            final(self).pid is None,
            final(self).running == old(self).running,
    {
        let r = self.pid;
        self.pid = None;
        r
    }
}

/// What the console shows when a run starts.
pub fn run_started() -> (e: ConsoleEdit)
    ensures
        edit_view(e) == (true, "Conectando...\n"@),
{
    ConsoleEdit::Replace(owned("Conectando...\n"))
}

/// What the console shows when the brick cannot be reached for a run.
pub fn run_unreachable() -> (e: ConsoleEdit)
    ensures
        edit_view(e) == (true, "Sin conexion al EV3\n"@),
{
    ConsoleEdit::Replace(owned("Sin conexion al EV3\n"))
}

/// After the program was uploaded to `path`: whether the run goes on, and
/// what the console shows.  `upload` is the error message of a failed
/// upload.
pub fn upload_outcome(path: &str, upload: Result<(), String>) -> (r: (bool, ConsoleEdit))
    ensures
        match upload {
            Ok(_) => r.0 && edit_view(r.1) == (true, "Guardado en "@ + path@
                + "\nEjecutando...\n"@),
            Err(e) => !r.0 && edit_view(r.1) == (true, "Error al subir: "@ + e@ + "\n"@),
        },
{
    let mut v: Vec<char> = Vec::new();
    match upload {
        Ok(_) => {
            push_str(&mut v, "Guardado en ");
            push_str(&mut v, path);
            push_str(&mut v, "\nEjecutando...\n");
            assert(v@ =~= "Guardado en "@ + path@ + "\nEjecutando...\n"@);
            (true, replace_with(&v))
        },
        Err(e) => {
            push_str(&mut v, "Error al subir: ");
            push_str(&mut v, e.as_str());
            push_str(&mut v, "\n");
            assert(v@ =~= "Error al subir: "@ + e@ + "\n"@);
            (false, replace_with(&v))
        },
    }
}

/// After the program was started in the background: its process id, if the
/// trimmed reply is one, and what the console adds.  The run ends when
/// there is none.
pub fn start_outcome(reply: &str) -> (r: (Option<u32>, ConsoleEdit))
    ensures
        r.0 == parse_u32_spec(trim(reply@)),
        r.0 matches Some(pid) ==> edit_view(r.1) == (false, "PID: "@ + decimal(pid as int)
            + "\n"@),
        r.0 is None ==> edit_view(r.1) == (false, "No se pudo obtener el PID\n"@),
{
    let pid = pid_from_reply(reply);
    let mut v: Vec<char> = Vec::new();
    match pid {
        Some(p) => {
            push_str(&mut v, "PID: ");
            push_decimal(&mut v, p as i64);
            push_str(&mut v, "\n");
            assert(v@ =~= "PID: "@ + decimal(p as int) + "\n"@);
        },
        None => {
            push_str(&mut v, "No se pudo obtener el PID\n");
            assert(v@ =~= "No se pudo obtener el PID\n"@);
        },
    }
    (pid, append_with(&v))
}

/// What the console adds when the user stopped the program while the run
/// was watching it.
pub fn run_stopped_by_user() -> (e: ConsoleEdit)
    ensures
        edit_view(e) == (false, "\nDetenido por el usuario\n"@),
{
    ConsoleEdit::Append(owned("\nDetenido por el usuario\n"))
}

/// After one look at the running program, given the reply to the liveness
/// probe and the log read: whether the program has finished (the probe
/// answered `no`), and the console's new text, the process id line and the
/// log, with a closing line once it has finished.
pub fn watch_outcome(pid_text: &str, alive_reply: &str, log: &str) -> (r: (bool, ConsoleEdit))
    ensures
        r.0 == (trim(alive_reply@) == "no"@),
        r.0 ==> edit_view(r.1) == (true, "PID: "@ + pid_text@ + "\n"@ + log@
            + "\n✓ Finalizado\n"@),
        !r.0 ==> edit_view(r.1) == (true, "PID: "@ + pid_text@ + "\n"@ + log@),
{
    let finished = crate::remote::reply_is(alive_reply, "no");
    let mut v: Vec<char> = Vec::new();
    push_str(&mut v, "PID: ");
    push_str(&mut v, pid_text);
    push_str(&mut v, "\n");
    push_str(&mut v, log);
    if finished {
        push_str(&mut v, "\n✓ Finalizado\n");
        assert(v@ =~= "PID: "@ + pid_text@ + "\n"@ + log@ + "\n✓ Finalizado\n"@);
    } else {
        assert(v@ =~= "PID: "@ + pid_text@ + "\n"@ + log@);
    }
    (finished, replace_with(&v))
}

/// What the console adds when the program was killed on request.
pub fn stopped_text(pid: u32) -> (r: String)
    ensures
        r@ == "\nDetenido (PID "@ + decimal(pid as int) + ")\n"@,
{
    let mut v: Vec<char> = Vec::new();
    push_str(&mut v, "\nDetenido (PID ");
    push_decimal(&mut v, pid as i64);
    push_str(&mut v, ")\n");
    assert(v@ =~= "\nDetenido (PID "@ + decimal(pid as int) + ")\n"@);
    string_of(&v)
}

/// After a `cd` probe: the new working directory, if the brick accepted
/// the change, and what the console adds.  `reply` is the probe's output or
/// the error message of a failed exchange.
pub fn cd_outcome(reply: Result<String, String>) -> (r: (Option<String>, String))
    ensures
        match reply {
            Ok(out) => if !starts_with(out@, "bash:"@) && !contains(out@, "No such"@) {
                r.0 matches Some(d) && d@ == trim(out@) && r.1@ == trim(out@) + "\n"@
            } else {
                r.0 is None && r.1@ == out@ + "\n"@
            },
            Err(e) => r.0 is None && r.1@ == "Error: "@ + e@ + "\n"@,
        },
{
    let mut v: Vec<char> = Vec::new();
    match reply {
        Ok(out) => {
            if cd_accepted(out.as_str()) {
                let dir = trim_str(out.as_str());
                push_str(&mut v, dir.as_str());
                push_str(&mut v, "\n");
                (Some(dir), string_of(&v))
            } else {
                push_str(&mut v, out.as_str());
                push_str(&mut v, "\n");
                (None, string_of(&v))
            }
        },
        Err(e) => {
            push_str(&mut v, "Error: ");
            push_str(&mut v, e.as_str());
            push_str(&mut v, "\n");
            assert(v@ =~= "Error: "@ + e@ + "\n"@);
            (None, string_of(&v))
        },
    }
}

/// What the console adds after a command ran: its output, `(sin salida)`
/// when it printed nothing, or the error message of a failed exchange.
pub fn command_outcome(reply: Result<String, String>) -> (r: String)
    ensures
        match reply {
            Ok(out) => if out@.len() == 0 {
                r@ == "(sin salida)\n"@
            } else {
                r@ == out@ + "\n"@
            },
            Err(e) => r@ == "Error: "@ + e@ + "\n"@,
        },
{
    match reply {
        Ok(out) => command_output_text(out.as_str()),
        Err(e) => {
            let mut v: Vec<char> = Vec::new();
            push_str(&mut v, "Error: ");
            push_str(&mut v, e.as_str());
            push_str(&mut v, "\n");
            assert(v@ =~= "Error: "@ + e@ + "\n"@);
            string_of(&v)
        },
    }
}

/// What the console shows when the editor starts saving its program.
pub fn save_started() -> (e: ConsoleEdit)
    ensures
        edit_view(e) == (true, "Guardando...\n"@),
{
    ConsoleEdit::Replace(owned("Guardando...\n"))
}

/// What the console shows once the editor's program was saved to `path`:
/// `session` is `None` when the brick could not be reached, else the outcome
/// of the write.
pub fn save_outcome(path: &str, session: Option<Result<(), String>>) -> (e: ConsoleEdit)
    ensures
        match session {
            None => edit_view(e) == (true, "Sin conexion\n"@),
            Some(Ok(_)) => edit_view(e) == (true, "✓ Guardado en "@ + path@ + "\n"@),
            Some(Err(m)) => edit_view(e) == (true, "Error: "@ + m@ + "\n"@),
        },
{
    let mut v: Vec<char> = Vec::new();
    match session {
        None => ConsoleEdit::Replace(owned("Sin conexion\n")),
        Some(Ok(_)) => {
            push_str(&mut v, "✓ Guardado en ");
            push_str(&mut v, path);
            push_str(&mut v, "\n");
            assert(v@ =~= "✓ Guardado en "@ + path@ + "\n"@);
            replace_with(&v)
        },
        Some(Err(m)) => {
            push_str(&mut v, "Error: ");
            push_str(&mut v, m.as_str());
            push_str(&mut v, "\n");
            assert(v@ =~= "Error: "@ + m@ + "\n"@);
            replace_with(&v)
        },
    }
}

// ───────────────────────── replies of the dashboard's commands ─────────────────────────

/// The answer to a bash command sent from the dashboard: `session` is
/// `None` without an SSH session, else the command's output or the error
/// message of a failed exchange.
pub fn bash_reply(session: Option<Result<String, String>>) -> (r: String)
    ensures
        match session {
            None => r@ == "Sin conexion SSH"@,
            Some(Ok(out)) => r@ == out@,
            Some(Err(e)) => r@ == "Error: "@ + e@,
        },
{
    match session {
        None => owned("Sin conexion SSH"),
        Some(Ok(out)) => out,
        Some(Err(e)) => {
            let mut v: Vec<char> = Vec::new();
            push_str(&mut v, "Error: ");
            push_str(&mut v, e.as_str());
            string_of(&v)
        },
    }
}

/// The answer to saving a file at `path` from the dashboard: `session` is
/// `None` without an SSH session, else the outcome of the write.
pub fn save_reply(path: &str, session: Option<Result<(), String>>) -> (r: String)
    ensures
        match session {
            None => r@ == "Sin conexion"@,
            Some(Ok(_)) => r@ == "Guardado en "@ + path@,
            Some(Err(e)) => r@ == "Error: "@ + e@,
        },
{
    let mut v: Vec<char> = Vec::new();
    match session {
        None => owned("Sin conexion"),
        Some(Ok(_)) => {
            push_str(&mut v, "Guardado en ");
            push_str(&mut v, path);
            string_of(&v)
        },
        Some(Err(e)) => {
            push_str(&mut v, "Error: ");
            push_str(&mut v, e.as_str());
            string_of(&v)
        },
    }
}

/// The dashboard's answer when starting a program stops at the upload:
/// `upload` is `None` without an SSH session, else the outcome of writing the
/// program.  `None` comes back when the upload succeeded and the start goes
/// on.
pub fn upload_reply(upload: Option<Result<(), String>>) -> (r: Option<String>)
    ensures
        match upload {
            None => r matches Some(t) && t@ == "Sin conexion SSH"@,
            Some(Ok(_)) => r is None,
            Some(Err(e)) => r matches Some(t) && t@ == "Error al subir: "@ + e@,
        },
{
    match upload {
        None => Some(owned("Sin conexion SSH")),
        Some(Ok(_)) => None,
        Some(Err(e)) => {
            let mut v: Vec<char> = Vec::new();
            push_str(&mut v, "Error al subir: ");
            push_str(&mut v, e.as_str());
            Some(string_of(&v))
        },
    }
}

/// The dashboard's answer once the program was started in the background:
/// `session` is `None` without an SSH session, else the reply of the start
/// command; the answer is that reply trimmed (the process id), and empty for
/// a failed exchange.
pub fn start_reply(session: Option<Result<String, String>>) -> (r: String)
    ensures
        match session {
            None => r@ == "Sin conexion"@,
            Some(Ok(out)) => r@ == trim(out@),
            Some(Err(_)) => r@.len() == 0,
        },
{
    match session {
        None => owned("Sin conexion"),
        Some(Ok(out)) => trim_str(out.as_str()),
        Some(Err(_)) => String::new(),
    }
}

/// Whether the liveness probe of a process says it still runs: the reply
/// trimmed is `yes`; a failed exchange counts as `no`.
pub fn pid_alive(reply: Result<String, String>) -> (r: bool)
    ensures
        match reply {
            Ok(out) => r == (trim(out@) == "yes"@),
            Err(_) => !r,
        },
{
    match reply {
        Ok(out) => crate::remote::reply_is(out.as_str(), "yes"),
        Err(_) => false,
    }
}

} // verus!
