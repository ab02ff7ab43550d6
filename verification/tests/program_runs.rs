use ev3_controller::program::{
    bash_reply, cd_outcome, command_outcome, pid_alive, run_started, run_stopped_by_user,
    run_unreachable, save_outcome, save_reply, save_started, start_outcome, start_reply,
    stopped_text, upload_outcome, upload_reply, watch_outcome, ConsoleEdit, RunFlags,
};

fn replaced(e: &ConsoleEdit) -> Option<&str> {
    match e {
        ConsoleEdit::Replace(t) => Some(t.as_str()),
        ConsoleEdit::Append(_) => None,
    }
}

fn appended(e: &ConsoleEdit) -> Option<&str> {
    match e {
        ConsoleEdit::Append(t) => Some(t.as_str()),
        ConsoleEdit::Replace(_) => None,
    }
}

#[test]
fn run_start_and_unreachable_texts() {
    assert_eq!(replaced(&run_started()), Some("Conectando...\n"));
    assert_eq!(replaced(&run_unreachable()), Some("Sin conexion al EV3\n"));
    assert_eq!(appended(&run_stopped_by_user()), Some("\nDetenido por el usuario\n"));
    assert_eq!(stopped_text(42), "\nDetenido (PID 42)\n");
}

#[test]
fn upload_outcomes() {
    let (go, e) = upload_outcome("/home/robot/a.py", Ok(()));
    assert!(go);
    assert_eq!(replaced(&e), Some("Guardado en /home/robot/a.py\nEjecutando...\n"));
    let (go, e) = upload_outcome("/x", Err("timeout".to_string()));
    assert!(!go);
    assert_eq!(replaced(&e), Some("Error al subir: timeout\n"));
}

#[test]
fn start_outcomes() {
    let (pid, e) = start_outcome("  4321\n");
    assert_eq!(pid, Some(4321));
    assert_eq!(appended(&e), Some("PID: 4321\n"));
    let (pid, e) = start_outcome("");
    assert_eq!(pid, None);
    assert_eq!(appended(&e), Some("No se pudo obtener el PID\n"));
}

#[test]
fn watch_outcomes() {
    let (done, e) = watch_outcome("12", "yes", "hola\n");
    assert!(!done);
    assert_eq!(replaced(&e), Some("PID: 12\nhola\n"));
    let (done, e) = watch_outcome("12", " no\n", "fin");
    assert!(done);
    assert_eq!(replaced(&e), Some("PID: 12\nfin\n✓ Finalizado\n"));
}

#[test]
fn cd_outcomes() {
    assert_eq!(cd_outcome(Ok(" /tmp ".to_string())), (Some("/tmp".to_string()), "/tmp\n".to_string()));
    assert_eq!(
        cd_outcome(Ok("bash: cd: x: No such file or directory".to_string())),
        (None, "bash: cd: x: No such file or directory\n".to_string())
    );
    assert_eq!(cd_outcome(Err("closed".to_string())), (None, "Error: closed\n".to_string()));
}

#[test]
fn command_outcomes() {
    assert_eq!(command_outcome(Ok(String::new())), "(sin salida)\n");
    assert_eq!(command_outcome(Ok("a b".to_string())), "a b\n");
    assert_eq!(command_outcome(Err("boom".to_string())), "Error: boom\n");
}

#[test]
fn dashboard_replies() {
    assert_eq!(bash_reply(None), "Sin conexion SSH");
    assert_eq!(bash_reply(Some(Ok("out".to_string()))), "out");
    assert_eq!(bash_reply(Some(Err("e".to_string()))), "Error: e");
    assert_eq!(save_reply("/p", None), "Sin conexion");
    assert_eq!(save_reply("/p", Some(Ok(()))), "Guardado en /p");
    assert_eq!(save_reply("/p", Some(Err("x".to_string()))), "Error: x");
    assert!(pid_alive(Ok("yes\n".to_string())));
    assert!(!pid_alive(Ok("no".to_string())));
    assert!(!pid_alive(Err("x".to_string())));
}

#[test]
fn saving_from_the_editor() {
    assert_eq!(replaced(&save_started()), Some("Guardando...\n"));
    assert_eq!(replaced(&save_outcome("/home/robot/a.py", Some(Ok(())))), Some("✓ Guardado en /home/robot/a.py\n"));
    assert_eq!(replaced(&save_outcome("/x", Some(Err("denied".to_string())))), Some("Error: denied\n"));
    assert_eq!(replaced(&save_outcome("/x", None)), Some("Sin conexion\n"));
}

#[test]
fn dashboard_start_replies() {
    assert_eq!(upload_reply(None), Some("Sin conexion SSH".to_string()));
    assert_eq!(upload_reply(Some(Ok(()))), None);
    assert_eq!(upload_reply(Some(Err("disk full".to_string()))), Some("Error al subir: disk full".to_string()));
    assert_eq!(start_reply(None), "Sin conexion");
    assert_eq!(start_reply(Some(Ok(" 4242\n".to_string()))), "4242");
    assert_eq!(start_reply(Some(Err("broken pipe".to_string()))), "");
}

#[test]
fn run_flags_follow_a_run() {
    let mut f = RunFlags::new();
    assert!(f.begin());
    assert!(f.running && f.pid.is_none());
    assert!(!f.begin());
    assert!(f.started(Some(77)));
    assert_eq!(f.pid, Some(77));
    assert!(!f.stop_requested());
    assert_eq!(f.take_pid(), Some(77));
    assert!(f.stop_requested());
    assert!(f.running);
    f.end();
    assert!(!f.running);
    assert!(f.begin());
    assert!(!f.started(None));
    assert!(!f.running);
    assert!(f.begin());
    assert!(f.started(Some(5)));
    f.watch_ended(true);
    assert!(!f.running && f.pid.is_none());
    assert!(f.begin());
    assert!(f.started(Some(6)));
    f.watch_ended(false);
    assert!(!f.running);
    assert_eq!(f.pid, Some(6));
}
