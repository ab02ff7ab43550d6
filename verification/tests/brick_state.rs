use ev3_controller::polling::{
    attribute_command, complete_motor_list, device_ids, disconnected_alerts, motor_from_readings,
    motor_id_for, motor_url, port_to_motor_index, battery_reading_from, parse_reading, port_from_address,
    run_command, sensor_from_readings, sensor_type_from_driver, speed_command, stop_command,
    stop_url, PollAction, Poller, BATTERY_COMMAND, LIST_MOTORS_COMMAND, MOTOR_CLASS,
};
use ev3_controller::state::{Ev3State, Motor, MotorCommand, SensorType};
use ev3_controller::status::sensor_type_label;

fn motor(port: &str, id: &str, connected: bool, speed: i32) -> Motor {
    Motor { port: port.to_string(), motor_id: id.to_string(), connected, speed }
}

#[test]
fn default_state_is_disconnected_and_empty() {
    let s = Ev3State::default();
    assert!(!s.connected);
    assert!(s.motors.is_empty());
    assert!(s.sensors.is_empty());
    assert!(s.alerts.is_empty());
    assert!(s.pending_commands.is_empty());
    assert_eq!(s.ip, "192.168.10.15");
    assert!(!s.reconnect_requested);
    assert_eq!(s.battery_reading, "0");
    assert_eq!(s.desired_speed("outA"), 0);
}

#[test]
fn queue_speed_records_desired_speed_and_command() {
    let mut s = Ev3State::new();
    s.queue_speed("outB".to_string(), 40);
    assert_eq!(s.desired_speed("outB"), 40);
    assert_eq!(s.desired_speed("outA"), 0);
    s.queue_speed("outB".to_string(), -25);
    assert_eq!(s.desired_speed("outB"), -25);
    assert_eq!(s.pending_commands.len(), 2);
    match &s.pending_commands[1] {
        MotorCommand::HttpSetSpeed { port, speed } => {
            assert_eq!(port, "outB");
            assert_eq!(*speed, -25);
        }
        other => panic!("unexpected command {:?}", other),
    }
}

#[test]
fn ssh_slider_records_desired_speed() {
    let mut s = Ev3State::new();
    s.queue_ssh_speed("outC".to_string(), 700);
    s.queue_run("outC".to_string());
    s.queue_ssh_stop("outC".to_string());
    assert_eq!(s.desired_speed("outC"), 700);
    assert!(matches!(s.pending_commands[0], MotorCommand::SetSpeed { speed: 700, .. }));
    assert!(matches!(s.pending_commands[1], MotorCommand::Run { .. }));
    assert!(matches!(s.pending_commands[2], MotorCommand::Stop { .. }));
}

#[test]
fn stop_all_queues_four_stops_in_port_order() {
    let mut s = Ev3State::new();
    s.queue_stop("outD".to_string());
    s.queue_stop_all();
    assert_eq!(s.pending_commands.len(), 5);
    let ports: Vec<&str> = s.pending_commands.iter().map(|c| match c {
        MotorCommand::HttpStop { port } => port.as_str(),
        _ => panic!("not a stop"),
    }).collect();
    assert_eq!(ports, vec!["outD", "outA", "outB", "outC", "outD"]);
}

#[test]
fn taken_commands_leave_in_queue_order() {
    let mut s = Ev3State::new();
    s.queue_speed("outA".to_string(), 10);
    s.queue_stop("outB".to_string());
    let taken = s.take_pending_commands();
    assert!(s.pending_commands.is_empty());
    assert_eq!(taken.len(), 2);
    assert!(matches!(&taken[0], MotorCommand::HttpSetSpeed { speed: 10, .. }));
    assert!(matches!(&taken[1], MotorCommand::HttpStop { port } if port == "outB"));
}

#[test]
fn set_ip_and_reconnect_request() {
    let mut s = Ev3State::new();
    s.connected = true;
    s.set_ip("10.0.0.2".to_string());
    assert_eq!(s.ip, "10.0.0.2");
    assert!(s.reconnect_requested);
    assert!(!s.connected);
    let mut t = Ev3State::new();
    t.connected = true;
    t.request_reconnect();
    assert!(t.reconnect_requested && !t.connected);
    assert_eq!(t.ip, "192.168.10.15");
}

#[test]
fn apply_new_ip_ignores_blank_and_trims() {
    let mut s = Ev3State::new();
    s.apply_new_ip("   ");
    assert_eq!(s.ip, "192.168.10.15");
    assert!(!s.reconnect_requested);
    s.apply_new_ip("  10.1.1.1 \n");
    assert_eq!(s.ip, "10.1.1.1");
    assert!(s.reconnect_requested);
}

#[test]
fn new_ip_reaches_the_next_cycle() {
    let mut s = Ev3State::new();
    let mut p = Poller::new(&s);
    assert_eq!(p.current_ip, "192.168.10.15");
    assert!(!p.begin_cycle(&mut s));
    s.set_ip("127.0.0.1".to_string());
    assert!(p.begin_cycle(&mut s));
    assert_eq!(p.current_ip, "127.0.0.1");
    assert!(!s.reconnect_requested);
    assert!(!s.connected);
    assert!(!p.begin_cycle(&mut s));
}

#[test]
fn unreachable_brick_clears_devices() {
    let mut s = Ev3State::new();
    s.apply_telemetry(vec![motor("outA", "motor0", true, 3)], vec![], "7850000".to_string());
    s.mark_unreachable();
    assert!(!s.connected);
    assert!(s.motors.is_empty() && s.sensors.is_empty() && s.alerts.is_empty());
    assert_eq!(s.battery_reading, "7850000");
}

#[test]
fn actions_for_http_commands() {
    let p = Poller { current_ip: "192.168.1.5".to_string() };
    let motors = vec![];
    let a = p.action_for(&MotorCommand::HttpSetSpeed { port: "outB".to_string(), speed: -40 }, &motors);
    match a {
        Some(PollAction::HttpGet(u)) => assert_eq!(u, "http://192.168.1.5:8080/?cmd=motor&port=outB&speed=-40"),
        other => panic!("unexpected {:?}", other),
    }
    let b = p.action_for(&MotorCommand::HttpStop { port: "outD".to_string() }, &motors);
    match b {
        Some(PollAction::HttpGet(u)) => assert_eq!(u, "http://192.168.1.5:8080/?cmd=stop&port=outD"),
        other => panic!("unexpected {:?}", other),
    }
}

#[test]
fn actions_for_ssh_commands_need_a_connected_motor() {
    let p = Poller { current_ip: "x".to_string() };
    let motors = vec![motor("outA", "motor9", false, 0), motor("outA", "motor1", true, 0), motor("outA", "motor2", true, 0)];
    match p.action_for(&MotorCommand::SetSpeed { port: "outA".to_string(), speed: 500 }, &motors) {
        Some(PollAction::Shell(c)) => assert_eq!(c, "echo 500 > /sys/class/tacho-motor/motor1/speed_sp"),
        other => panic!("unexpected {:?}", other),
    }
    match p.action_for(&MotorCommand::Run { port: "outA".to_string() }, &motors) {
        Some(PollAction::Shell(c)) => assert_eq!(c, "echo run-forever > /sys/class/tacho-motor/motor1/command"),
        other => panic!("unexpected {:?}", other),
    }
    match p.action_for(&MotorCommand::Stop { port: "outA".to_string() }, &motors) {
        Some(PollAction::Shell(c)) => assert_eq!(c, "echo stop > /sys/class/tacho-motor/motor1/command"),
        other => panic!("unexpected {:?}", other),
    }
    assert!(p.action_for(&MotorCommand::Run { port: "outC".to_string() }, &motors).is_none());
}

#[test]
fn motor_id_lookup() {
    let motors = vec![motor("outB", "", false, 0), motor("outB", "motor3", true, 0)];
    assert_eq!(motor_id_for(&motors, "outB"), Some("motor3".to_string()));
    assert_eq!(motor_id_for(&motors, "outA"), None);
}

#[test]
fn command_texts() {
    assert_eq!(motor_url("h", "outA", 0), "http://h:8080/?cmd=motor&port=outA&speed=0");
    assert_eq!(stop_url("h", "outA"), "http://h:8080/?cmd=stop&port=outA");
    assert_eq!(speed_command("motor0", -1050), "echo -1050 > /sys/class/tacho-motor/motor0/speed_sp");
    assert_eq!(run_command("m"), "echo run-forever > /sys/class/tacho-motor/m/command");
    assert_eq!(stop_command("m"), "echo stop > /sys/class/tacho-motor/m/command");
    assert_eq!(attribute_command(MOTOR_CLASS, "motor0", "address"), "cat /sys/class/tacho-motor/motor0/address");
    assert_eq!(LIST_MOTORS_COMMAND, "ls /sys/class/tacho-motor/ 2>/dev/null");
    assert_eq!(BATTERY_COMMAND, "cat /sys/class/power_supply/lego-ev3-battery/voltage_now");
}

#[test]
fn readings_are_parsed() {
    assert_eq!(device_ids("motor0  motor2\n"), vec!["motor0".to_string(), "motor2".to_string()]);
    assert!(device_ids("").is_empty());
    assert_eq!(port_from_address("ev3-ports:outB"), "outB");
    assert_eq!(port_from_address(" in1 "), "in1");
    assert_eq!(parse_reading(" -120\n"), -120);
    assert_eq!(parse_reading("garbage"), 0);
    assert_eq!(parse_reading(""), 0);
    assert_eq!(battery_reading_from(" 7850000\n"), "7850000");
    assert_eq!(battery_reading_from("n/a"), "n/a");
}

#[test]
fn driver_names_give_sensor_kinds() {
    assert!(matches!(sensor_type_from_driver("lego-ev3-touch"), SensorType::Touch));
    assert!(matches!(sensor_type_from_driver(" lego-ev3-color\n"), SensorType::Color));
    assert!(matches!(sensor_type_from_driver("lego-ev3-us"), SensorType::Ultrasonic));
    assert!(matches!(sensor_type_from_driver("lego-ev3-gyro"), SensorType::Gyro));
    assert!(matches!(sensor_type_from_driver("lego-ev3-ir"), SensorType::Infrared));
    match sensor_type_from_driver(" nxt-light ") {
        SensorType::Unknown(n) => assert_eq!(n, "nxt-light"),
        other => panic!("unexpected {:?}", other),
    }
}

#[test]
fn devices_from_readings() {
    let m = motor_from_readings("motor0", "ev3-ports:outA", "35");
    assert_eq!(m.port, "outA");
    assert_eq!(m.motor_id, "motor0");
    assert!(m.connected);
    assert_eq!(m.speed, 35);
    let s = sensor_from_readings("ev3-ports:in1", "lego-ev3-us", "42\n");
    assert_eq!(s.port, "in1");
    assert!(matches!(s.sensor_type, SensorType::Ultrasonic));
    assert_eq!(s.value, "42");
    let g = sensor_from_readings("in2", "lego-ev3-gyro", " 12.5\n");
    assert_eq!(g.value, "12.5");
}

#[test]
fn missing_ports_become_empty_slots() {
    let found = vec![motor("outA", "motor0", true, 1), motor("outD", "motor1", true, 2)];
    let all = complete_motor_list(found);
    let ports: Vec<&str> = all.iter().map(|m| m.port.as_str()).collect();
    assert_eq!(ports, vec!["outA", "outD", "outB", "outC"]);
    assert!(!all[2].connected && all[2].motor_id.is_empty() && all[2].speed == 0);
    for p in ["outA", "outB", "outC", "outD"] {
        assert!(all.iter().any(|m| m.port == p));
    }
    let none = complete_motor_list(vec![]);
    assert_eq!(none.len(), 4);
}

#[test]
fn alerts_name_each_empty_slot() {
    let motors = vec![motor("outA", "m", true, 0), motor("outB", "", false, 0), motor("outC", "", false, 0)];
    let alerts = disconnected_alerts(&motors);
    assert_eq!(alerts, vec!["⚠ Motor outB desconectado".to_string(), "⚠ Motor outC desconectado".to_string()]);
    let mut s = Ev3State::new();
    s.apply_telemetry(motors, vec![], "1".to_string());
    assert!(s.connected);
    assert_eq!(s.alerts.len() + s.connected_motor_count(), s.motors.len());
    assert_eq!(s.connected_motor_count(), 1);
}

#[test]
fn status_snapshot() {
    let mut s = Ev3State::new();
    let sensors = vec![
        sensor_from_readings("in1", "lego-ev3-touch", "1"),
        sensor_from_readings("in2", "odd\"driver", "5"),
    ];
    s.apply_telemetry(vec![motor("outA", "m", true, 12)], sensors, "7000000".to_string());
    let st = s.status();
    assert!(st.connected);
    assert_eq!(st.ip, "192.168.10.15");
    assert_eq!(st.battery_reading, "7000000");
    assert_eq!(st.motors.len(), 1);
    assert_eq!(st.motors[0].port, "outA");
    assert_eq!(st.motors[0].speed, 12);
    assert_eq!(st.sensors[0].sensor_type, "Touch");
    assert_eq!(st.sensors[0].value, "1");
    assert_eq!(st.sensors[1].sensor_type, "Unknown(\"odd\\\"driver\")");
    assert!(st.alerts.is_empty());
}

#[test]
fn sensor_type_labels_match_debug() {
    let kinds = [SensorType::Touch, SensorType::Color, SensorType::Ultrasonic, SensorType::Gyro, SensorType::Infrared, SensorType::Unknown("x y".to_string())];
    for k in kinds {
        assert_eq!(sensor_type_label(&k), format!("{:?}", k));
    }
}

#[test]
fn find_devices_by_port() {
    let mut s = Ev3State::new();
    s.apply_telemetry(vec![motor("outB", "m", true, 0)], vec![sensor_from_readings("in4", "lego-ev3-ir", "3")], "0".to_string());
    assert_eq!(s.find_motor("outB"), Some(0));
    assert_eq!(s.find_motor("outA"), None);
    assert_eq!(s.find_sensor("in4"), Some(0));
    assert_eq!(s.find_sensor("in1"), None);
}

#[test]
fn http_motor_indices() {
    assert_eq!(port_to_motor_index("outB"), Some(0));
    assert_eq!(port_to_motor_index("outD"), Some(1));
    assert_eq!(port_to_motor_index("outA"), None);
    assert_eq!(port_to_motor_index("outb"), None);
}

#[test]
fn unreachable_brick_is_reported_disconnected() {
    let mut s = Ev3State::new();
    s.apply_telemetry(vec![motor("outA", "m", true, 1), motor("outB", "", false, 0)], vec![sensor_from_readings("in1", "lego-ev3-us", "9")], "5".to_string());
    s.mark_unreachable();
    let st = s.status();
    assert!(!st.connected);
    assert!(st.motors.is_empty() && st.sensors.is_empty() && st.alerts.is_empty());
}
