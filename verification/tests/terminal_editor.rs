use ev3_controller::display::{
    color_for_code, command_output_text, console_prompt, cwd_display,
    file_tag,
};
use ev3_controller::editor::{
    beyond_depth, cd_accepted, cd_target, completion_pool, filter_completions, get_completions,
    is_cd_command, parse_listing, should_descend, EditorState, FileNode, Language,
};
use ev3_controller::remote::{
    background_command, bash_in_dir, cd_probe_command, interpreter_command, kill_group_command,
    kill_url, listing_command, pid_alive_command, pid_from_reply, read_file_command, remote_path,
    reply_is, shell_escape, write_file_command,
};

fn with_history(cmds: &[&str]) -> EditorState {
    let mut e = EditorState::new();
    for c in cmds {
        e.push_history(c);
    }
    e
}

#[test]
fn default_editor() {
    let e = EditorState::default();
    assert!(!e.open);
    assert_eq!(e.code, "# Escribe tu programa aqui\nprint('Hola desde el EV3!')\n");
    assert_eq!(e.language, Language::Python);
    assert_eq!(e.save_name, "programa.py");
    assert_eq!(e.save_dir, "/home/robot");
    assert!(e.history.is_empty() && e.history_idx.is_none());
}

#[test]
fn language_names_and_commands() {
    assert_eq!(Language::Python.label(), "Python");
    assert_eq!(Language::Bash.label(), "Bash");
    assert_eq!(Language::Python.extension(), "py");
    assert_eq!(Language::Bash.extension(), "sh");
    assert_eq!(Language::Python.run_cmd("/home/robot/a.py"), "python3 /home/robot/a.py");
    assert_eq!(Language::Bash.run_cmd("x.sh"), "bash x.sh");
}

#[test]
fn selecting_a_language_renames_the_file() {
    let mut e = EditorState::new();
    e.completions = vec!["ls".to_string()];
    e.select_language(Language::Bash);
    assert_eq!(e.language, Language::Bash);
    assert_eq!(e.save_name, "programa.sh");
    assert!(e.completions.is_empty());
    e.save_name = "a.b.c".to_string();
    e.select_language(Language::Bash);
    assert_eq!(e.save_name, "a.b.c");
    e.select_language(Language::Python);
    assert_eq!(e.save_name, "a.py");
}

#[test]
fn push_history_trims_skips_blank_and_repeats() {
    let mut e = with_history(&["  ls  ", "ls", "", "   ", "pwd"]);
    assert_eq!(e.history, vec!["ls".to_string(), "pwd".to_string()]);
    e.history_idx = Some(0);
    e.history_buffer = "x".to_string();
    e.push_history("pwd");
    assert_eq!(e.history.len(), 2);
    assert!(e.history_idx.is_none());
    assert!(e.history_buffer.is_empty());
}

#[test]
fn history_keeps_a_hundred_commands() {
    let mut e = EditorState::new();
    for i in 0..105 {
        e.push_history(&format!("echo {}", i));
    }
    assert_eq!(e.history.len(), 100);
    assert_eq!(e.history[0], "echo 5");
    assert_eq!(e.history[99], "echo 104");
}

#[test]
fn history_up_walks_back_and_stops_at_the_oldest() {
    let mut e = with_history(&["a", "b", "c"]);
    e.bash_input = "typing".to_string();
    e.history_up();
    assert_eq!(e.bash_input, "c");
    assert_eq!(e.history_idx, Some(2));
    assert_eq!(e.history_buffer, "typing");
    e.history_up();
    e.history_up();
    assert_eq!(e.bash_input, "a");
    assert_eq!(e.history_idx, Some(0));
    e.history_up();
    assert_eq!(e.bash_input, "a");
    assert_eq!(e.history_idx, Some(0));
}

#[test]
fn history_up_with_empty_history_does_nothing() {
    let mut e = EditorState::new();
    e.bash_input = "x".to_string();
    e.completions = vec!["xy".to_string()];
    e.history_up();
    assert_eq!(e.bash_input, "x");
    assert_eq!(e.completions.len(), 1);
}

#[test]
fn history_up_then_down_restores_what_was_typed() {
    let mut e = with_history(&["ls", "pwd"]);
    e.bash_input = "half typed".to_string();
    e.history_up();
    e.history_down();
    assert_eq!(e.bash_input, "half typed");
    assert!(e.history_idx.is_none());
}

#[test]
fn history_down_walks_forward() {
    let mut e = with_history(&["a", "b", "c"]);
    e.history_up();
    e.history_up();
    e.history_up();
    e.history_down();
    assert_eq!(e.bash_input, "b");
    assert_eq!(e.history_idx, Some(1));
    e.history_down();
    e.history_down();
    assert!(e.history_idx.is_none());
    e.history_down();
    assert!(e.history_idx.is_none());
}

#[test]
fn last_command_is_recalled_first() {
    let mut e = with_history(&["ls"]);
    e.push_history("  cat /tmp/x ");
    e.history_up();
    assert_eq!(e.bash_input, "cat /tmp/x");
}

#[test]
fn completions_for_bash() {
    assert!(get_completions("", &Language::Bash).is_empty());
    assert_eq!(
        get_completions("ls", &Language::Bash),
        vec!["ls -la".to_string(), "ls /sys/class/tacho-motor/".to_string(), "ls /sys/class/lego-sensor/".to_string()]
    );
    assert_eq!(get_completions("LS -", &Language::Bash), vec!["ls -la".to_string()]);
    let echo = get_completions("e", &Language::Bash);
    assert_eq!(echo, vec!["echo".to_string(), "echo run-forever >".to_string(), "echo stop >".to_string()]);
}

#[test]
fn completions_are_capped_at_six() {
    let r = get_completions("from", &Language::Python);
    assert_eq!(r.len(), 5);
    let all = get_completions("s", &Language::Python);
    assert_eq!(all, vec!["sensor = TouchSensor(INPUT_1)".to_string(), "sensor.is_pressed".to_string(), "sensor = UltrasonicSensor(INPUT_1)".to_string(), "sensor.distance_centimeters".to_string()]);
    let m = get_completions("m", &Language::Python);
    assert_eq!(m.len(), 4);
    let c = get_completions("c", &Language::Bash);
    assert_eq!(c, vec!["cat".to_string(), "cd /home/robot".to_string(), "cd /sys/class/tacho-motor/".to_string(), "cat /sys/class/power_supply/lego-ev3-battery/voltage_now".to_string()]);
}

#[test]
fn filter_keeps_the_first_six_matches() {
    let pool = vec!["a1", "a2", "b", "a3", "a4", "a5", "a6", "a7", "a"];
    let lower: Vec<String> = pool.iter().map(|s| s.to_string()).collect();
    let r = filter_completions("a", "a", &pool, &lower);
    assert_eq!(r, vec!["a1", "a2", "a3", "a4", "a5", "a6"]);
    assert_eq!(completion_pool(Language::Bash).len(), 16);
    assert_eq!(completion_pool(Language::Python).len(), 17);
}

#[test]
fn tab_completes_a_single_match_directly() {
    let mut e = EditorState::new();
    e.language = Language::Bash;
    e.bash_input = "ps".to_string();
    e.tab_complete();
    assert_eq!(e.bash_input, "ps aux");
    assert!(e.completions.is_empty());
    assert!(e.completion_idx.is_none());
}

#[test]
fn tab_cycles_through_completions() {
    let mut e = EditorState::new();
    e.language = Language::Bash;
    e.bash_input = "ls".to_string();
    e.tab_complete();
    assert_eq!(e.completions.len(), 3);
    assert_eq!(e.bash_input, "ls");
    e.tab_complete();
    assert_eq!(e.completion_idx, Some(0));
    assert_eq!(e.bash_input, "ls -la");
    e.tab_complete();
    e.tab_complete();
    assert_eq!(e.completion_idx, Some(2));
    e.tab_complete();
    assert_eq!(e.completion_idx, Some(0));
    assert_eq!(e.bash_input, "ls -la");
}

#[test]
fn apply_completion_takes_the_chosen_one() {
    let mut e = EditorState::new();
    e.completions = vec!["cat".to_string(), "cd /home/robot".to_string()];
    e.completion_idx = Some(0);
    e.apply_completion(5);
    assert_eq!(e.completions.len(), 2);
    e.apply_completion(1);
    assert_eq!(e.bash_input, "cd /home/robot");
    assert!(e.completions.is_empty());
    assert!(e.completion_idx.is_none());
}

#[test]
fn update_completions_follows_the_input() {
    let mut e = EditorState::new();
    e.language = Language::Bash;
    e.bash_input = "to".to_string();
    e.completion_idx = Some(3);
    e.update_completions();
    assert_eq!(e.completions, vec!["top".to_string()]);
    assert!(e.completion_idx.is_none());
}

#[test]
fn begin_bash_command() {
    let mut e = EditorState::new();
    e.bash_input = "   ".to_string();
    assert!(e.begin_bash_command(false).is_none());
    e.bash_input = " ls -la ".to_string();
    assert!(e.begin_bash_command(true).is_none());
    assert_eq!(e.bash_input, " ls -la ");
    assert_eq!(e.begin_bash_command(false), Some("ls -la".to_string()));
    assert!(e.bash_input.is_empty());
    assert_eq!(e.history, vec!["ls -la".to_string()]);
}

#[test]
fn tree_and_file_loading() {
    let mut e = EditorState::new();
    let node = FileNode { name: "a.py".to_string(), path: "/home/robot/a.py".to_string(), is_dir: false, children: vec![], expanded: false };
    e.poll_tree_result(false, Some(vec![]));
    assert!(e.file_tree.is_empty());
    e.begin_tree_refresh();
    e.poll_tree_result(true, None);
    assert!(e.tree_pending);
    e.poll_tree_result(false, Some(vec![]));
    assert!(e.tree_pending);
    e.poll_tree_result(false, Some(vec![node]));
    assert!(!e.tree_pending);
    assert_eq!(e.file_tree.len(), 1);
    e.begin_open_file("b.sh");
    assert_eq!(e.save_name, "b.sh");
    e.poll_pending_load(Some(String::new()));
    assert!(e.load_pending);
    e.poll_pending_load(Some("echo hi".to_string()));
    assert_eq!(e.code, "echo hi");
    assert!(!e.load_pending);
}

#[test]
fn cd_commands() {
    assert!(is_cd_command("cd /tmp"));
    assert!(is_cd_command("cdrom"));
    assert!(!is_cd_command("ls"));
    assert_eq!(cd_target("cd", "/tmp"), "/home/robot");
    assert_eq!(cd_target("cd   ", "/tmp"), "/home/robot");
    assert_eq!(cd_target("cd /sys/class", "/tmp"), "/sys/class");
    assert_eq!(cd_target("cd lib", "/usr/"), "/usr/lib");
    assert_eq!(cd_target("cd ..", "/home/robot"), "/home/robot/..");
    assert!(cd_accepted("/home/robot/lib"));
    assert!(!cd_accepted("bash: cd: x: No such file or directory"));
    assert!(!cd_accepted("sh: 1: cd: can't cd to x: No such file"));
}

#[test]
fn listing_is_parsed_into_nodes() {
    let nodes = parse_listing("/home/robot/", "prog.py\nlib/\n\n  \r\ndata.txt\r\n");
    assert_eq!(nodes.len(), 3);
    assert_eq!(nodes[0].name, "prog.py");
    assert_eq!(nodes[0].path, "/home/robot/prog.py");
    assert!(!nodes[0].is_dir);
    assert_eq!(nodes[1].name, "lib");
    assert_eq!(nodes[1].path, "/home/robot/lib");
    assert!(nodes[1].is_dir);
    assert_eq!(nodes[2].name, "data.txt");
    assert!(parse_listing("/x", "").is_empty());
    assert!(should_descend(true, 1));
    assert!(!should_descend(true, 2));
    assert!(!should_descend(false, 0));
    assert!(beyond_depth(4));
    assert!(!beyond_depth(3));
}

#[test]
fn remote_commands() {
    assert_eq!(remote_path("/home/robot/", "a.py"), "/home/robot/a.py");
    assert_eq!(remote_path("", "a.py"), "/a.py");
    assert_eq!(bash_in_dir("/tmp", "ls"), "cd /tmp 2>/dev/null; ls");
    assert_eq!(shell_escape("it's a \\n"), "it'\\''s a \\n");
    assert_eq!(write_file_command("/tmp/a", "x'y"), "printf '%s' 'x'\\''y' > /tmp/a");
    assert_eq!(write_file_command("/tmp/a", "a\\b"), "printf '%s' 'a\\b' > /tmp/a");
    assert_eq!(read_file_command("/tmp/a"), "cat /tmp/a");
    assert_eq!(background_command("python3 a.py"), "nohup python3 a.py > /tmp/ev3_out.log 2>&1 & echo $!");
    assert_eq!(interpreter_command("python", "a"), "python3 a");
    assert_eq!(interpreter_command("bash", "a"), "bash a");
    assert_eq!(interpreter_command("Python", "a"), "bash a");
    assert_eq!(pid_alive_command("12"), "kill -0 12 2>/dev/null && echo yes || echo no");
    assert_eq!(kill_group_command(77), "kill -- -77 2>/dev/null || kill 77 2>/dev/null");
    assert_eq!(kill_url("10.0.0.1", 5), "http://10.0.0.1:8080/?cmd=killpid&pid=5");
    assert_eq!(listing_command("/home/robot"), "ls -1p /home/robot 2>/dev/null");
    assert_eq!(cd_probe_command("/x"), "cd /x 2>&1 && pwd");
}

#[test]
fn replies_from_the_brick() {
    assert!(reply_is(" yes\n", "yes"));
    assert!(!reply_is("yes please", "yes"));
    assert!(reply_is("no", "no"));
    assert_eq!(pid_from_reply(" 1234\n"), Some(1234));
    assert_eq!(pid_from_reply(""), None);
    assert_eq!(pid_from_reply("-3"), None);
}

#[test]
fn display_helpers() {
    let c = color_for_code(2);
    assert_eq!((c.r, c.g, c.b, c.name), (40, 60, 160, "azul"));
    assert_eq!(color_for_code(7).name, "blanco");
    assert_eq!(color_for_code(200).name, "?");
    assert_eq!(file_tag("main.py"), "[py]");
    assert_eq!(file_tag("run.sh"), "[sh]");
    assert_eq!(file_tag("notes"), "[  ]");
    assert_eq!(file_tag("a.py.txt"), "[  ]");
    assert_eq!(cwd_display("/home/robot/prog"), "~/prog");
    assert_eq!(cwd_display("/tmp"), "/tmp");
    assert_eq!(console_prompt("/tmp", "ls"), "\n/tmp$ ls\n");
    assert_eq!(command_output_text(""), "(sin salida)\n");
    assert_eq!(command_output_text("a"), "a\n");
}

/// Reads one shell word the way a POSIX shell does with quotes and backslashes.
fn read_shell_word(w: &str) -> String {
    let chars: Vec<char> = w.chars().collect();
    let mut out = String::new();
    let mut quoted = false;
    let mut i = 0;
    while i < chars.len() {
        let c = chars[i];
        if quoted {
            if c == '\'' {
                quoted = false;
            } else {
                out.push(c);
            }
            i += 1;
        } else if c == '\'' {
            quoted = true;
            i += 1;
        } else if c == '\\' && i + 1 < chars.len() {
            out.push(chars[i + 1]);
            i += 2;
        } else {
            out.push(c);
            i += 1;
        }
    }
    out
}

#[test]
fn quoted_content_reaches_printf() {
    let plain = "print('hi')\nx = \"a b\"";
    let word = format!("'{}'", shell_escape(plain));
    assert_eq!(read_shell_word(&word), plain);
    let with_backslash = "a\\nb'c";
    let word = format!("'{}'", shell_escape(with_backslash));
    assert_eq!(read_shell_word(&word), with_backslash);
}

#[test]
fn browsing_back_and_forward_restores_what_was_typed() {
    for ups in 1..6 {
        let mut e = with_history(&["ls", "pwd", "uptime"]);
        e.bash_input = "half typed".to_string();
        for _ in 0..ups {
            e.history_up();
        }
        let downs = if ups < 3 { ups } else { 3 };
        for _ in 0..downs {
            e.history_down();
        }
        assert_eq!(e.bash_input, "half typed", "after {} steps back", ups);
        assert!(e.history_idx.is_none());
        assert_eq!(e.history, vec!["ls".to_string(), "pwd".to_string(), "uptime".to_string()]);
    }
}

#[test]
fn history_hint_counts_from_one() {
    let mut e = with_history(&["ls", "pwd", "uptime"]);
    assert_eq!(e.history_hint(), None);
    e.history_up();
    assert_eq!(e.history_hint(), Some("historial [3/3] — ↑↓ para navegar".to_string()));
    e.history_up();
    e.history_up();
    assert_eq!(e.history_hint(), Some("historial [1/3] — ↑↓ para navegar".to_string()));
}
