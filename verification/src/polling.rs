//! The decisions of the polling loop: reconnection handling, turning queued
//! motor commands into HTTP requests or shell commands, and turning the raw
//! sysfs readings of the brick into motors, sensors, alerts and a battery
//! level.  The loop itself, which talks to the brick and sleeps, stands
//! outside the library and hands each reading to these functions.

use vstd::prelude::*;
use crate::decimal::{decimal, parse_i32, parse_i32_spec, push_decimal};
use crate::state::{Ev3State, Motor, MotorCommand, Sensor, SensorType, output_ports};
use crate::text::{
    after_last, after_last_char, owned, push_str, split_words, str_equal, string_of, trim,
    trim_str, views, words,
};

verus! {

/// The shell command that lists the motors the brick sees.
pub const LIST_MOTORS_COMMAND: &'static str = "ls /sys/class/tacho-motor/ 2>/dev/null";

/// The shell command that lists the sensors the brick sees.
pub const LIST_SENSORS_COMMAND: &'static str = "ls /sys/class/lego-sensor/ 2>/dev/null";

/// The shell command that reads the battery voltage in microvolts.
pub const BATTERY_COMMAND: &'static str = "cat /sys/class/power_supply/lego-ev3-battery/voltage_now";

/// The sysfs class directory of the motors.
pub const MOTOR_CLASS: &'static str = "tacho-motor";

/// The sysfs class directory of the sensors.
pub const SENSOR_CLASS: &'static str = "lego-sensor";

// ───────────────────────── command texts ─────────────────────────

/// `http://{ip}:8080/?cmd=motor&port={port}&speed={speed}`.
pub open spec fn motor_url_text(ip: Seq<char>, port: Seq<char>, speed: int) -> Seq<char> {
    "http://"@ + ip + ":8080/?cmd=motor&port="@ + port + "&speed="@ + decimal(speed)
}

/// `http://{ip}:8080/?cmd=stop&port={port}`.
pub open spec fn stop_url_text(ip: Seq<char>, port: Seq<char>) -> Seq<char> {
    "http://"@ + ip + ":8080/?cmd=stop&port="@ + port
}

/// `echo {speed} > /sys/class/tacho-motor/{id}/speed_sp`.
pub open spec fn speed_command_text(id: Seq<char>, speed: int) -> Seq<char> {
    "echo "@ + decimal(speed) + " > /sys/class/tacho-motor/"@ + id + "/speed_sp"@
}

/// `echo run-forever > /sys/class/tacho-motor/{id}/command`.
pub open spec fn run_command_text(id: Seq<char>) -> Seq<char> {
    "echo run-forever > /sys/class/tacho-motor/"@ + id + "/command"@
}

/// `echo stop > /sys/class/tacho-motor/{id}/command`.
pub open spec fn stop_command_text(id: Seq<char>) -> Seq<char> {
    "echo stop > /sys/class/tacho-motor/"@ + id + "/command"@
}

/// `cat /sys/class/{class}/{id}/{attr}`.
pub open spec fn attribute_command_text(class: Seq<char>, id: Seq<char>, attr: Seq<char>) -> Seq<
    char,
> {
    "cat /sys/class/"@ + class + "/"@ + id + "/"@ + attr
}

/// The request that sets a motor's speed through the brick's HTTP server.
pub fn motor_url(ip: &str, port: &str, speed: i32) -> (r: String)
    ensures
        r@ == motor_url_text(ip@, port@, speed as int),
{
    let mut v: Vec<char> = Vec::new();
    push_str(&mut v, "http://");
    push_str(&mut v, ip);
    push_str(&mut v, ":8080/?cmd=motor&port=");
    push_str(&mut v, port);
    push_str(&mut v, "&speed=");
    push_decimal(&mut v, speed as i64);
    assert(v@ =~= motor_url_text(ip@, port@, speed as int));
    string_of(&v)
}

/// The request that stops a motor through the brick's HTTP server.
pub fn stop_url(ip: &str, port: &str) -> (r: String)
    ensures
        r@ == stop_url_text(ip@, port@),
{
    let mut v: Vec<char> = Vec::new();
    push_str(&mut v, "http://");
    push_str(&mut v, ip);
    push_str(&mut v, ":8080/?cmd=stop&port=");
    push_str(&mut v, port);
    assert(v@ =~= stop_url_text(ip@, port@));
    string_of(&v)
}

/// The shell command that sets the speed set-point of motor `id`.
pub fn speed_command(id: &str, speed: i32) -> (r: String)
    ensures
        r@ == speed_command_text(id@, speed as int),
{
    let mut v: Vec<char> = Vec::new();
    push_str(&mut v, "echo ");
    push_decimal(&mut v, speed as i64);
    push_str(&mut v, " > /sys/class/tacho-motor/");
    push_str(&mut v, id);
    push_str(&mut v, "/speed_sp");
    assert(v@ =~= speed_command_text(id@, speed as int));
    string_of(&v)
}

/// The shell command that starts motor `id`.
pub fn run_command(id: &str) -> (r: String)
    ensures
        r@ == run_command_text(id@),
{
    let mut v: Vec<char> = Vec::new();
    push_str(&mut v, "echo run-forever > /sys/class/tacho-motor/");
    push_str(&mut v, id);
    push_str(&mut v, "/command");
    assert(v@ =~= run_command_text(id@));
    string_of(&v)
}

/// The shell command that stops motor `id`.
pub fn stop_command(id: &str) -> (r: String)
    ensures
        r@ == stop_command_text(id@),
{
    let mut v: Vec<char> = Vec::new();
    push_str(&mut v, "echo stop > /sys/class/tacho-motor/");
    push_str(&mut v, id);
    push_str(&mut v, "/command");
    assert(v@ =~= stop_command_text(id@));
    string_of(&v)
}

/// The shell command that reads attribute `attr` of device `id` in the sysfs
/// class `class`.
pub fn attribute_command(class: &str, id: &str, attr: &str) -> (r: String)
    ensures
        r@ == attribute_command_text(class@, id@, attr@),
{
    let mut v: Vec<char> = Vec::new();
    push_str(&mut v, "cat /sys/class/");
    push_str(&mut v, class);
    push_str(&mut v, "/");
    push_str(&mut v, id);
    push_str(&mut v, "/");
    push_str(&mut v, attr);
    assert(v@ =~= attribute_command_text(class@, id@, attr@));
    string_of(&v)
}

// ───────────────────────── the loop's state ─────────────────────────

/// What the polling loop does to carry out one queued command.
#[derive(Debug)]
pub enum PollAction {
    /// Send a GET request to this URL.
    HttpGet(String),
    /// Run this command over the SSH session.
    Shell(String),
}

/// The polling loop's own state: the address it is connected to.
pub struct Poller {
    pub current_ip: String,
}

/// The first connected motor on `port` in `motors`.
pub open spec fn first_connected(motors: Seq<Motor>, port: Seq<char>) -> Option<int> {
    if exists|i: int| 0 <= i < motors.len() && #[trigger] motors[i].port@ == port && motors[i].connected {
        Some(
            choose|i: int|
                0 <= i < motors.len() && #[trigger] motors[i].port@ == port && motors[i].connected
                    && forall|k: int|
                    0 <= k < i ==> !(#[trigger] motors[k].port@ == port && motors[k].connected),
        )
    } else {
        None
    }
}

/// The sysfs id of the first connected motor on `port`.
pub fn motor_id_for(motors: &Vec<Motor>, port: &str) -> (r: Option<String>)
    ensures
        r is Some <==> (exists|i: int|
            0 <= i < motors@.len() && #[trigger] motors@[i].port@ == port@ && motors@[i].connected),
        r matches Some(id) ==> exists|i: int|
            0 <= i < motors@.len() && #[trigger] motors@[i].port@ == port@ && motors@[i].connected
                && id@ == motors@[i].motor_id@ && forall|k: int|
                0 <= k < i ==> !(#[trigger] motors@[k].port@ == port@ && motors@[k].connected),
{
    let n = motors.len();
    for i in 0..n
        invariant
            n == motors@.len(),
            forall|k: int|
                0 <= k < i ==> !(#[trigger] motors@[k].port@ == port@ && motors@[k].connected),
    {
        if motors[i].connected && str_equal(motors[i].port.as_str(), port) {
            return Some(owned(motors[i].motor_id.as_str()));
        }
    }
    None
}

/// The action for `cmd`, where `id` is the motor id found for its port.
pub open spec fn action_text(ip: Seq<char>, cmd: MotorCommand, id: Option<Seq<char>>) -> Option<
    (bool, Seq<char>),
> {
    match cmd {
        MotorCommand::HttpSetSpeed { port, speed } => Some(
            (true, motor_url_text(ip, port@, speed as int)),
        ),
        MotorCommand::HttpStop { port } => Some((true, stop_url_text(ip, port@))),
        MotorCommand::SetSpeed { port, speed } => match id {
            Some(m) => Some((false, speed_command_text(m, speed as int))),
            None => None,
        },
        MotorCommand::Run { port } => match id {
            Some(m) => Some((false, run_command_text(m))),
            None => None,
        },
        MotorCommand::Stop { port } => match id {
            Some(m) => Some((false, stop_command_text(m))),
            None => None,
        },
    }
}

/// An action as a pair: whether it is an HTTP request, and its text.
pub open spec fn action_view(a: PollAction) -> (bool, Seq<char>) {
    match a {
        PollAction::HttpGet(u) => (true, u@),
        PollAction::Shell(c) => (false, c@),
    }
}

impl Poller {
    /// The loop starts at the address the state holds.
    pub fn new(state: &Ev3State) -> (p: Poller)
        ensures
            p.current_ip@ == state.ip@,
    {
        Poller { current_ip: owned(state.ip.as_str()) }
    }

    /// One cycle of the loop starts: `reset` is whether a reconnection was
    /// requested, which the cycle then takes over from the state.
    pub open spec fn cycle_started(
        p0: &Poller,
        p1: &Poller,
        s0: &Ev3State,
        s1: &Ev3State,
        reset: bool,
    ) -> bool {
        &&& reset == s0.reconnect_requested
        &&& reset ==> {
            &&& p1.current_ip@ == s0.ip@
            &&& !s1.reconnect_requested
            &&& !s1.connected
        }
        &&& !reset ==> p1.current_ip == p0.current_ip && s1.connected == s0.connected
            && s1.reconnect_requested == s0.reconnect_requested
        &&& s1.ip == s0.ip
        &&& s1.motors == s0.motors
        &&& s1.sensors == s0.sensors
        &&& s1.battery_reading == s0.battery_reading
        &&& s1.alerts == s0.alerts
        &&& s1.desired_speeds == s0.desired_speeds
        &&& s1.pending_commands == s0.pending_commands
    }

    /// Starts a cycle.  When it returns true the caller drops the SSH
    /// session, so that the next connection goes to the new address.
    pub fn begin_cycle(&mut self, state: &mut Ev3State) -> (reset: bool)
        ensures
            Poller::cycle_started(old(self), final(self), old(state), final(state), reset),
    {
        if state.reconnect_requested {
            self.current_ip = owned(state.ip.as_str());
            state.reconnect_requested = false;
            state.connected = false;
            true
        } else {
            false
        }
    }

    /// What to do for `cmd`, given the motors of the last reading: HTTP
    /// commands always become a request; SSH commands become a shell command
    /// on the first connected motor of their port, or nothing when there is
    /// none.
    pub fn action_for(&self, cmd: &MotorCommand, motors: &Vec<Motor>) -> (r: Option<PollAction>)
        ensures
            ({
                let id = first_connected_id(motors@, cmd.port_of());
                match r {
                    Some(a) => action_text(self.current_ip@, *cmd, id) == Some(action_view(a)),
                    None => action_text(self.current_ip@, *cmd, id) is None,
                }
            }),
    {
        match cmd {
            MotorCommand::HttpSetSpeed { port, speed } => Some(
                PollAction::HttpGet(motor_url(self.current_ip.as_str(), port.as_str(), *speed)),
            ),
            MotorCommand::HttpStop { port } => Some(
                PollAction::HttpGet(stop_url(self.current_ip.as_str(), port.as_str())),
            ),
            MotorCommand::SetSpeed { port, speed } => {
                let id = motor_id_for(motors, port.as_str());
                proof {
                    lemma_first_connected_id(motors@, port@, id);
                }
                match id {
                    Some(m) => Some(PollAction::Shell(speed_command(m.as_str(), *speed))),
                    None => None,
                }
            },
            MotorCommand::Run { port } => {
                let id = motor_id_for(motors, port.as_str());
                proof {
                    lemma_first_connected_id(motors@, port@, id);
                }
                match id {
                    Some(m) => Some(PollAction::Shell(run_command(m.as_str()))),
                    None => None,
                }
            },
            MotorCommand::Stop { port } => {
                let id = motor_id_for(motors, port.as_str());
                proof {
                    lemma_first_connected_id(motors@, port@, id);
                }
                match id {
                    Some(m) => Some(PollAction::Shell(stop_command(m.as_str()))),
                    None => None,
                }
            },
        }
    }
}

/// The motor id of the first connected motor on `port`.
pub open spec fn first_connected_id(motors: Seq<Motor>, port: Seq<char>) -> Option<Seq<char>> {
    match first_connected(motors, port) {
        Some(i) => Some(motors[i].motor_id@),
        None => None,
    }
}

proof fn lemma_first_connected_id(motors: Seq<Motor>, port: Seq<char>, id: Option<String>)
    requires
        id is Some <==> (exists|i: int|
            0 <= i < motors.len() && #[trigger] motors[i].port@ == port && motors[i].connected),
        id matches Some(m) ==> exists|i: int|
            0 <= i < motors.len() && #[trigger] motors[i].port@ == port && motors[i].connected
                && m@ == motors[i].motor_id@ && forall|k: int|
                0 <= k < i ==> !(#[trigger] motors[k].port@ == port && motors[k].connected),
    ensures
        match id {
            Some(m) => first_connected_id(motors, port) == Some(m@),
            None => first_connected_id(motors, port) is None,
        },
{
    if let Some(m) = id {
        let i = choose|i: int|
            0 <= i < motors.len() && #[trigger] motors[i].port@ == port && motors[i].connected
                && m@ == motors[i].motor_id@ && forall|k: int|
                0 <= k < i ==> !(#[trigger] motors[k].port@ == port && motors[k].connected);
        let j = first_connected(motors, port)->0;
        assert(motors[j].port@ == port && motors[j].connected);
        if j < i {
            assert(!(motors[j].port@ == port && motors[j].connected));
        }
        if i < j {
            assert(!(motors[i].port@ == port && motors[i].connected));
        }
    }
}

/// The motor index that the brick's HTTP server uses for a port: 0 for
/// `outB`, 1 for `outD`, none for the others.
pub fn port_to_motor_index(port: &str) -> (r: Option<u8>)
    ensures
        r == if port@ == "outB"@ {
            Some(0u8)
        } else if port@ == "outD"@ {
            Some(1u8)
        } else {
            None::<u8>
        },
{
    if str_equal(port, "outB") {
        Some(0)
    } else if str_equal(port, "outD") {
        Some(1)
    } else {
        None
    }
}

// ───────────────────────── readings ─────────────────────────

/// The device ids in the output of a sysfs class listing.
pub fn device_ids(listing: &str) -> (r: Vec<String>)
    ensures
        views(r@) == words(listing@),
{
    split_words(listing)
}

/// The port name in a device's `address` attribute: what follows its last
/// `:`, trimmed.
pub fn port_from_address(raw: &str) -> (r: String)
    ensures
        r@ == trim(after_last(raw@, ':')),
{
    let last = after_last_char(raw, ':');
    trim_str(last.as_str())
}

/// An integer reading: the trimmed text parsed as an `i32`, 0 where it is
/// not one.
pub open spec fn reading_i32(raw: Seq<char>) -> i32 {
    match parse_i32_spec(trim(raw)) {
        Some(v) => v,
        None => 0,
    }
}

/// A motor speed read from sysfs, 0 where the text is not an integer.
pub fn parse_reading(raw: &str) -> (r: i32)
    ensures
        r == reading_i32(raw@),
{
    let t = trim_str(raw);
    match parse_i32(t.as_str()) {
        Some(v) => v,
        None => 0,
    }
}

/// The battery's `voltage_now` reading with surrounding white space
/// removed.
pub fn battery_reading_from(raw: &str) -> (r: String)
    ensures
        r@ == trim(raw@),
{
    trim_str(raw)
}

/// The sensor kind named by a trimmed driver name.
pub open spec fn sensor_type_for(t: Seq<char>, st: SensorType) -> bool {
    if t == "lego-ev3-touch"@ {
        st is Touch
    } else if t == "lego-ev3-color"@ {
        st is Color
    } else if t == "lego-ev3-us"@ {
        st is Ultrasonic
    } else if t == "lego-ev3-gyro"@ {
        st is Gyro
    } else if t == "lego-ev3-ir"@ {
        st is Infrared
    } else {
        st matches SensorType::Unknown(name) && name@ == t
    }
}

/// The sensor kind for the driver name in a sensor's `driver_name`
/// attribute.
pub fn sensor_type_from_driver(raw: &str) -> (r: SensorType)
    ensures
        sensor_type_for(trim(raw@), r),
{
    let t = trim_str(raw);
    if str_equal(t.as_str(), "lego-ev3-touch") {
        SensorType::Touch
    } else if str_equal(t.as_str(), "lego-ev3-color") {
        SensorType::Color
    } else if str_equal(t.as_str(), "lego-ev3-us") {
        SensorType::Ultrasonic
    } else if str_equal(t.as_str(), "lego-ev3-gyro") {
        SensorType::Gyro
    } else if str_equal(t.as_str(), "lego-ev3-ir") {
        SensorType::Infrared
    } else {
        SensorType::Unknown(t)
    }
}

/// A plugged-in motor from its id and the raw readings of its `address` and
/// `speed` attributes.
pub fn motor_from_readings(id: &str, address_raw: &str, speed_raw: &str) -> (m: Motor)
    ensures
        m.port@ == trim(after_last(address_raw@, ':')),
        m.motor_id@ == id@,
        m.connected,
        m.speed == reading_i32(speed_raw@),
{
    Motor {
        port: port_from_address(address_raw),
        motor_id: owned(id),
        connected: true,
        speed: parse_reading(speed_raw),
    }
}

/// A sensor from the raw readings of its `address`, `driver_name` and
/// `value0` attributes.
pub fn sensor_from_readings(address_raw: &str, driver_raw: &str, value_raw: &str) -> (s: Sensor)
    ensures
        s.port@ == trim(after_last(address_raw@, ':')),
        sensor_type_for(trim(driver_raw@), s.sensor_type),
        s.value@ == trim(value_raw@),
{
    Sensor {
        port: port_from_address(address_raw),
        sensor_type: sensor_type_from_driver(driver_raw),
        value: trim_str(value_raw),
    }
}

/// Some motor in `motors` is on port `p`.
pub open spec fn has_port(motors: Seq<Motor>, p: Seq<char>) -> bool {
    exists|i: int| 0 <= i < motors.len() && #[trigger] motors[i].port@ == p
}

/// The ports of `ports` that no motor in `found` is on, in order.
pub open spec fn absent_ports(ports: Seq<Seq<char>>, found: Seq<Motor>) -> Seq<Seq<char>>
    decreases ports.len(),
{
    if ports.len() == 0 {
        Seq::empty()
    } else {
        let rest = absent_ports(ports.drop_last(), found);
        if has_port(found, ports.last()) {
            rest
        } else {
            rest.push(ports.last())
        }
    }
}

/// An empty motor slot on `port`.
pub open spec fn is_empty_slot(m: Motor, port: Seq<char>) -> bool {
    &&& m.port@ == port
    &&& m.motor_id@.len() == 0
    &&& !m.connected
    &&& m.speed == 0
}

/// The motors found, followed by an empty slot for each of the four motor
/// ports that none of them is on.
pub fn complete_motor_list(found: Vec<Motor>) -> (r: Vec<Motor>)
    ensures
        r@.len() == found@.len() + absent_ports(output_ports(), found@).len(),
        r@.take(found@.len() as int) == found@,
        forall|j: int|
            0 <= j < absent_ports(output_ports(), found@).len() ==> is_empty_slot(
                #[trigger] r@[found@.len() + j],
                absent_ports(output_ports(), found@)[j],
            ),
{
    let ghost f = found@;
    let expected: [&str; 4] = ["outA", "outB", "outC", "outD"];
    let ghost ports = output_ports();
    assert(expected@.map_values(|p: &str| p@) =~= ports);
    let mut r = found;
    let n0 = r.len();
    for k in 0..4usize
        invariant
            n0 == f.len(),
            ports == output_ports(),
            expected@.map_values(|p: &str| p@) == ports,
            r@.len() == f.len() + absent_ports(ports.take(k as int), f).len(),
            r@.take(f.len() as int) == f,
            forall|j: int|
                0 <= j < absent_ports(ports.take(k as int), f).len() ==> is_empty_slot(
                    #[trigger] r@[f.len() + j],
                    absent_ports(ports.take(k as int), f)[j],
                ),
    {
        let p = expected[k];
        assert(p@ == ports[k as int]);
        assert(ports.take(k + 1).drop_last() == ports.take(k as int));
        assert(ports.take(k + 1).last() == ports[k as int]);
        let mut present = false;
        let mut i: usize = 0;
        while i < n0
            invariant
                i <= n0 == f.len(),
                r@.take(f.len() as int) == f,
                r@.len() >= f.len(),
                present <==> exists|q: int| 0 <= q < i && #[trigger] f[q].port@ == p@,
            decreases n0 - i,
        {
            assert(r@[i as int] == f[i as int]) by {
                assert(r@.take(f.len() as int)[i as int] == r@[i as int]);
            }
            if str_equal(r[i].port.as_str(), p) {
                present = true;
            }
            i = i + 1;
        }
        let ghost before = r@;
        let ghost prev = absent_ports(ports.take(k as int), f);
        if !present {
            r.push(Motor {
                port: owned(p),
                motor_id: String::new(),
                connected: false,
                speed: 0,
            });
            assert(r@.take(f.len() as int) =~= before.take(f.len() as int));
        }
        proof {
            let cur = absent_ports(ports.take(k + 1), f);
            assert(has_port(f, p@) == present);
            if present {
                assert(cur == prev);
            } else {
                assert(cur == prev.push(p@));
                assert forall|j: int| 0 <= j < cur.len() implies is_empty_slot(
                    #[trigger] r@[f.len() + j],
                    cur[j],
                ) by {
                    if j < prev.len() {
                        assert(r@[f.len() + j] == before[f.len() + j]);
                    } else {
                        assert(j == prev.len());
                        assert(r@[f.len() + j] == r@.last());
                        assert(cur[j] == p@);
                    }
                }
            }
        }
    }
    assert(output_ports().take(4) == output_ports());
    r
}

/// `⚠ Motor {port} desconectado`.
pub open spec fn alert_text(port: Seq<char>) -> Seq<char> {
    "⚠ Motor "@ + port + " desconectado"@
}

/// One alert for each motor slot that is empty, in order.
pub open spec fn alerts_for(motors: Seq<Motor>) -> Seq<Seq<char>>
    decreases motors.len(),
{
    if motors.len() == 0 {
        Seq::empty()
    } else {
        let rest = alerts_for(motors.drop_last());
        if motors.last().connected {
            rest
        } else {
            rest.push(alert_text(motors.last().port@))
        }
    }
}

/// The alerts for the empty motor slots in `motors`.
pub fn disconnected_alerts(motors: &Vec<Motor>) -> (r: Vec<String>)
    ensures
        views(r@) == alerts_for(motors@),
{
    let mut out: Vec<String> = Vec::new();
    let n = motors.len();
    for i in 0..n
        invariant
            n == motors@.len(),
            views(out@) == alerts_for(motors@.take(i as int)),
    {
        assert(motors@.take(i + 1).drop_last() == motors@.take(i as int));
        assert(motors@.take(i + 1).last() == motors@[i as int]);
        if !motors[i].connected {
            let mut v: Vec<char> = Vec::new();
            push_str(&mut v, "⚠ Motor ");
            push_str(&mut v, motors[i].port.as_str());
            push_str(&mut v, " desconectado");
            let a = string_of(&v);
            let ghost before = out@;
            out.push(a);
            assert(out@ == before.push(a));
            assert(a@ =~= alert_text(motors@[i as int].port@));
            assert(views(out@) =~= views(before).push(a@));
        }
    }
    assert(motors@.take(n as int) == motors@);
    out
}

impl Ev3State {
    /// The brick could not be reached: nothing is known about its devices.
    pub fn mark_unreachable(&mut self)
        ensures
            !final(self).connected,
            final(self).motors@.len() == 0,
            final(self).sensors@.len() == 0,
            final(self).alerts@.len() == 0,
            final(self).battery_reading == old(self).battery_reading,
            final(self).ip == old(self).ip,
            final(self).reconnect_requested == old(self).reconnect_requested,
            final(self).desired_speeds == old(self).desired_speeds,
            final(self).pending_commands == old(self).pending_commands,
    {
        self.connected = false;
        self.motors = Vec::new();
        self.sensors = Vec::new();
        self.alerts = Vec::new();
    }

    /// Stores a complete reading of the brick: it is connected, and the
    /// alerts are those of the empty motor slots.
    pub fn apply_telemetry(&mut self, motors: Vec<Motor>, sensors: Vec<Sensor>, battery_reading: String)
        ensures
            final(self).connected,
            final(self).motors@ == motors@,
            final(self).sensors@ == sensors@,
            final(self).battery_reading == battery_reading,
            views(final(self).alerts@) == alerts_for(motors@),
            final(self).ip == old(self).ip,
            final(self).reconnect_requested == old(self).reconnect_requested,
            final(self).desired_speeds == old(self).desired_speeds,
            final(self).pending_commands == old(self).pending_commands,
    {
        let alerts = disconnected_alerts(&motors);
        self.connected = true;
        self.motors = motors;
        self.sensors = sensors;
        self.battery_reading = battery_reading;
        self.alerts = alerts;
    }
}

// ───────────────────────── laws ─────────────────────────

proof fn lemma_absent_ports_complete(ports: Seq<Seq<char>>, found: Seq<Motor>, k: int)
    requires
        0 <= k < ports.len(),
        !has_port(found, ports[k]),
    ensures
        absent_ports(ports, found).contains(ports[k]),
    decreases ports.len(),
{
    let rest = absent_ports(ports.drop_last(), found);
    if k == ports.len() - 1 {
        assert(absent_ports(ports, found).last() == ports[k]);
    } else {
        assert(ports.drop_last()[k] == ports[k]);
        lemma_absent_ports_complete(ports.drop_last(), found, k);
        let j = choose|j: int| 0 <= j < rest.len() && rest[j] == ports[k];
        if !has_port(found, ports.last()) {
            assert(absent_ports(ports, found)[j] == ports[k]);
        }
    }
}

/// After a reading, every one of the four motor ports has a slot: either a
/// motor that was found on it or an empty slot.
pub proof fn law_every_output_port_listed(found: Seq<Motor>, listed: Seq<Motor>, k: int)
    requires
        0 <= k < 4,
        listed.len() == found.len() + absent_ports(output_ports(), found).len(),
        listed.take(found.len() as int) == found,
        forall|j: int|
            0 <= j < absent_ports(output_ports(), found).len() ==> is_empty_slot(
                #[trigger] listed[found.len() + j],
                absent_ports(output_ports(), found)[j],
            ),
    ensures
        has_port(listed, output_ports()[k]),
{
    let p = output_ports()[k];
    if has_port(found, p) {
        let i = choose|i: int| 0 <= i < found.len() && #[trigger] found[i].port@ == p;
        assert(listed.take(found.len() as int)[i] == listed[i]);
        assert(listed[i].port@ == p);
    } else {
        lemma_absent_ports_complete(output_ports(), found, k);
        let a = absent_ports(output_ports(), found);
        let j = choose|j: int| 0 <= j < a.len() && a[j] == p;
        assert(is_empty_slot(listed[found.len() + j], a[j]));
        assert(listed[found.len() + j].port@ == p);
    }
}

/// Every motor slot is either counted as connected or raises exactly one
/// alert.
pub proof fn law_alerts_count_empty_slots(motors: Seq<Motor>)
    ensures
        alerts_for(motors).len() + crate::state::connected_count(motors) == motors.len(),
    decreases motors.len(),
{
    if motors.len() > 0 {
        law_alerts_count_empty_slots(motors.drop_last());
    }
}

/// Setting a new address is taken over by the next cycle of the loop: the
/// cycle resets the session, connects to the new address and clears the
/// request.
pub proof fn law_new_ip_reaches_next_cycle(
    before: Ev3State,
    after_set: Ev3State,
    ip: String,
    p0: Poller,
    p1: Poller,
    s1: Ev3State,
    reset: bool,
)
    requires
        after_set.ip == ip,
        after_set.reconnect_requested,
        !after_set.connected,
        Poller::cycle_started(&p0, &p1, &after_set, &s1, reset),
    ensures
        reset,
        p1.current_ip@ == ip@,
        s1.ip == ip,
        !s1.reconnect_requested,
        !s1.connected,
{
}

} // verus!
