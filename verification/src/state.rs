//! The brick's state as the controller sees it: devices, alerts, the
//! desired motor speeds, the queue of pending motor commands and the
//! connection settings.

use vstd::prelude::*;
use crate::text::{owned, str_equal, trim, trim_str};

verus! {

/// The kind of a sensor, from its sysfs driver name.
#[derive(Debug, Clone)]
pub enum SensorType {
    Touch,
    Color,
    Ultrasonic,
    Gyro,
    Infrared,
    Unknown(String),
}

/// A sensor attached to an input port.
///
/// `value` is the reading of the sensor's `value0` attribute, as the brick
/// wrote it with surrounding white space removed; it is shown as a number.
#[derive(Debug, Clone)]
pub struct Sensor {
    pub port: String,
    pub sensor_type: SensorType,
    pub value: String,
}

/// A motor slot on an output port; `connected` is false for an empty port.
#[derive(Debug, Clone)]
pub struct Motor {
    pub port: String,
    pub motor_id: String,
    pub connected: bool,
    pub speed: i32,
}

/// A command for a motor, waiting to be sent to the brick.
///
/// The first three go over the SSH session to the motor's sysfs files; the
/// last two go as HTTP requests to the server running on the brick.
#[derive(Debug, Clone)]
pub enum MotorCommand {
    SetSpeed { port: String, speed: i32 },
    Run { port: String },
    Stop { port: String },
    HttpSetSpeed { port: String, speed: i32 },
    HttpStop { port: String },
}

impl MotorCommand {
    /// The port a command is for.
    pub open spec fn port_of(self) -> Seq<char> {
        match self {
            MotorCommand::SetSpeed { port, .. } => port@,
            MotorCommand::Run { port } => port@,
            MotorCommand::Stop { port } => port@,
            MotorCommand::HttpSetSpeed { port, .. } => port@,
            MotorCommand::HttpStop { port } => port@,
        }
    }
}

/// The desired speed of each motor port, keyed by port name.
pub struct SpeedTable {
    entries: Vec<(String, i32)>,
}

impl SpeedTable {
    /// No port occurs twice.
    #[verifier::type_invariant]
    closed spec fn keys_unique(self) -> bool {
        forall|i: int, j: int|
            0 <= i < self.entries@.len() && 0 <= j < self.entries@.len() && i != j
                ==> #[trigger] self.entries@[i].0@ != #[trigger] self.entries@[j].0@
    }

    closed spec fn has_key(self, k: Seq<char>) -> bool {
        exists|i: int| 0 <= i < self.entries@.len() && #[trigger] self.entries@[i].0@ == k
    }

    closed spec fn index_of(self, k: Seq<char>) -> int {
        choose|i: int| 0 <= i < self.entries@.len() && #[trigger] self.entries@[i].0@ == k
    }


    proof fn lemma_lookup(&self, i: int)
        requires
            self.keys_unique(),
            0 <= i < self.entries@.len(),
        ensures
            self@.contains_key(self.entries@[i].0@),
            self@[self.entries@[i].0@] == self.entries@[i].1,
    {
        let k = self.entries@[i].0@;
        assert(self.has_key(k));
        let j = self.index_of(k);
        assert(self.entries@[j].0@ == k);
        assert(i == j);
    }

    /// An empty table.
    pub fn new() -> (t: SpeedTable)
        ensures
            t@ == Map::<Seq<char>, i32>::empty(),
    {
        let t = SpeedTable { entries: Vec::new() };
        assert(t@ =~= Map::<Seq<char>, i32>::empty());
        t
    }

    /// The position of `port` in the table.
    fn position(&self, port: &str) -> (r: Option<usize>)
        ensures
            r matches Some(i) ==> i < self.entries@.len() && self.entries@[i as int].0@ == port@,
            r is None ==> !self.has_key(port@),
    {
        let n = self.entries.len();
        for i in 0..n
            invariant
                n == self.entries@.len(),
                forall|k: int| 0 <= k < i ==> #[trigger] self.entries@[k].0@ != port@,
        {
            if str_equal(self.entries[i].0.as_str(), port) {
                return Some(i);
            }
        }
        None
    }

    /// The speed recorded for `port`, if any.
    pub fn get(&self, port: &str) -> (r: Option<i32>)
        ensures
            r == (if self@.contains_key(port@) {
                Some(self@[port@])
            } else {
                None::<i32>
            }),
    {
        proof {
            use_type_invariant(self);
        }
        match self.position(port) {
            Some(i) => {
                proof {
                    self.lemma_lookup(i as int);
                }
                Some(self.entries[i].1)
            },
            None => None,
        }
    }

    /// Records `speed` for `port`, replacing any earlier speed.
    pub fn insert(&mut self, port: String, speed: i32)
        ensures
            final(self)@ == old(self)@.insert(port@, speed),
    {
        proof {
            use_type_invariant(&*self);
        }
        let ghost before = *self;
        let pos = self.position(port.as_str());
        let mut entries = Vec::new();
        std::mem::swap(&mut entries, &mut self.entries);
        let ghost key = port@;
        match pos {
            Some(i) => {
                entries.set(i, (port, speed));
            },
            None => {
                entries.push((port, speed));
            },
        }
        proof {
            let e = entries@;
            let b0 = before.entries@;
            assert(before.keys_unique());
            if let Some(i) = pos {
                assert(e == b0.update(i as int, e[i as int]));
                assert(e[i as int].0@ == key);
                assert(b0[i as int].0@ == key);
            } else {
                assert(e == b0.push(e[b0.len() as int]));
                assert(e[b0.len() as int].0@ == key);
                assert(forall|k: int| 0 <= k < b0.len() ==> #[trigger] b0[k].0@ != key);
            }
            assert forall|a: int, b: int|
                0 <= a < e.len() && 0 <= b < e.len() && a != b
                    implies #[trigger] e[a].0@ != #[trigger] e[b].0@ by {
                let c: int = if let Some(i) = pos {
                    i as int
                } else {
                    b0.len() as int
                };
                if a != c {
                    assert(e[a] == b0[a]);
                }
                if b != c {
                    assert(e[b] == b0[b]);
                }
                if pos is Some && a == c {
                    assert(b0[b].0@ != b0[a].0@);
                }
                if pos is Some && b == c {
                    assert(b0[b].0@ != b0[a].0@);
                }
            }
        }
        let after = SpeedTable { entries };
        proof {
            assert forall|k: Seq<char>| #[trigger]
                after@.contains_key(k) == before@.insert(key, speed).contains_key(k)
                by {
                if after.has_key(k) {
                    let j = after.index_of(k);
                    if !(pos is None && j == before.entries@.len()) && !(pos matches Some(i) && j
                        == i) {
                        assert(before.entries@[j] == after.entries@[j]);
                        assert(before.has_key(k));
                    }
                }
                if before.has_key(k) && k != key {
                    let j = before.index_of(k);
                    assert(before.entries@[j].0@ == k);
                    if let Some(i) = pos {
                        assert(j != i);
                    }
                    assert(after.entries@[j] == before.entries@[j]);
                    assert(after.has_key(k));
                }
                if k == key {
                    let j: int = if let Some(i) = pos {
                        i as int
                    } else {
                        before.entries@.len() as int
                    };
                    assert(after.entries@[j].0@ == k);
                    assert(after.has_key(k));
                }
            }
            assert forall|k: Seq<char>| after@.contains_key(k) implies #[trigger] after@[k]
                == before@.insert(key, speed)[k] by {
                let j = after.index_of(k);
                assert(after.entries@[j].0@ == k);
                after.lemma_lookup(j);
                if k != key {
                    if let Some(i) = pos {
                        assert(j != i);
                    }
                    if pos is None {
                        assert(j < before.entries@.len());
                    }
                    assert(after.entries@[j] == before.entries@[j]);
                    before.lemma_lookup(j);
                }
            }
            assert(after@ =~= before@.insert(key, speed));
        }
        *self = after;
    }
}

impl View for SpeedTable {
    type V = Map<Seq<char>, i32>;

    /// The table as a map from port name to speed.
    closed spec fn view(&self) -> Map<Seq<char>, i32> {
        Map::new(|k: Seq<char>| self.has_key(k), |k: Seq<char>| self.entries@[self.index_of(k)].1)
    }
}

/// Everything the controller knows about the brick.
pub struct Ev3State {
    pub connected: bool,
    pub motors: Vec<Motor>,
    pub sensors: Vec<Sensor>,
    /// The battery's `voltage_now` reading (microvolts), as the brick wrote
    /// it with surrounding white space removed.
    pub battery_reading: String,
    pub alerts: Vec<String>,
    pub desired_speeds: SpeedTable,
    pub pending_commands: Vec<MotorCommand>,
    pub ip: String,
    pub reconnect_requested: bool,
}

/// The four motor ports of the brick, in order.
pub open spec fn output_ports() -> Seq<Seq<char>> {
    seq!["outA"@, "outB"@, "outC"@, "outD"@]
}

/// The brick's address when nothing else was set.
pub open spec fn default_ip() -> Seq<char> {
    "192.168.10.15"@
}

impl Ev3State {
    /// The fields that only the polling loop writes are equal in `a` and `b`.
    pub open spec fn same_telemetry(a: &Ev3State, b: &Ev3State) -> bool {
        &&& a.connected == b.connected
        &&& a.motors == b.motors
        &&& a.sensors == b.sensors
        &&& a.battery_reading == b.battery_reading
        &&& a.alerts == b.alerts
    }

    /// `b` is `a` with `extra` queued after its pending commands; nothing else
    /// changed.
    pub open spec fn queued(a: &Ev3State, b: &Ev3State, extra: Seq<MotorCommand>) -> bool {
        &&& Ev3State::same_telemetry(a, b)
        &&& b.pending_commands@ == a.pending_commands@ + extra
        &&& b.ip == a.ip
        &&& b.reconnect_requested == a.reconnect_requested
    }

    /// The state before the first poll: disconnected, nothing known, nothing
    /// queued, the default address.
    pub fn new() -> (s: Ev3State)
        ensures
            !s.connected,
            s.motors@.len() == 0,
            s.sensors@.len() == 0,
            s.battery_reading@ == "0"@,
            s.alerts@.len() == 0,
            s.desired_speeds@ == Map::<Seq<char>, i32>::empty(),
            s.pending_commands@.len() == 0,
            s.ip@ == default_ip(),
            !s.reconnect_requested,
    {
        Ev3State {
            connected: false,
            motors: Vec::new(),
            sensors: Vec::new(),
            battery_reading: owned("0"),
            alerts: Vec::new(),
            desired_speeds: SpeedTable::new(),
            pending_commands: Vec::new(),
            ip: owned("192.168.10.15"),
            reconnect_requested: false,
        }
    }

    /// The desired speed of `port`, 0 where none was set.
    pub fn desired_speed(&self, port: &str) -> (r: i32)
        ensures
            r == (if self.desired_speeds@.contains_key(port@) {
                self.desired_speeds@[port@]
            } else {
                0
            }),
    {
        match self.desired_speeds.get(port) {
            Some(v) => v,
            None => 0,
        }
    }

    /// Sets the speed of `port` through the brick's HTTP server: records it
    /// as the desired speed and queues the command.
    pub fn queue_speed(&mut self, port: String, speed: i32)
        ensures
            Ev3State::queued(
                old(self),
                final(self),
                seq![MotorCommand::HttpSetSpeed { port: port, speed: speed }],
            ),
            final(self).desired_speeds@ == old(self).desired_speeds@.insert(
                port@,
                speed,
            ),
    {
        let key = owned(port.as_str());
        self.desired_speeds.insert(key, speed);
        let ghost cmd = MotorCommand::HttpSetSpeed { port: port, speed: speed };
        self.pending_commands.push(MotorCommand::HttpSetSpeed { port, speed });
        assert(self.pending_commands@ =~= old(self).pending_commands@ + seq![cmd]);
    }

    /// Sets the speed of `port` over the SSH session: records it as the
    /// desired speed and queues the command.
    pub fn queue_ssh_speed(&mut self, port: String, speed: i32)
        ensures
            Ev3State::queued(
                old(self),
                final(self),
                seq![MotorCommand::SetSpeed { port: port, speed: speed }],
            ),
            final(self).desired_speeds@ == old(self).desired_speeds@.insert(
                port@,
                speed,
            ),
    {
        let key = owned(port.as_str());
        self.desired_speeds.insert(key, speed);
        let ghost cmd = MotorCommand::SetSpeed { port: port, speed: speed };
        self.pending_commands.push(MotorCommand::SetSpeed { port, speed });
        assert(self.pending_commands@ =~= old(self).pending_commands@ + seq![cmd]);
    }

    /// Queues a run command for `port`, sent over the SSH session.
    pub fn queue_run(&mut self, port: String)
        ensures
            Ev3State::queued(old(self), final(self), seq![MotorCommand::Run { port: port }]),
            final(self).desired_speeds == old(self).desired_speeds,
    {
        let ghost cmd = MotorCommand::Run { port: port };
        self.pending_commands.push(MotorCommand::Run { port });
        assert(self.pending_commands@ =~= old(self).pending_commands@ + seq![cmd]);
    }

    /// Queues a stop command for `port`, sent over the SSH session.
    pub fn queue_ssh_stop(&mut self, port: String)
        ensures
            Ev3State::queued(old(self), final(self), seq![MotorCommand::Stop { port: port }]),
            final(self).desired_speeds == old(self).desired_speeds,
    {
        let ghost cmd = MotorCommand::Stop { port: port };
        self.pending_commands.push(MotorCommand::Stop { port });
        assert(self.pending_commands@ =~= old(self).pending_commands@ + seq![cmd]);
    }

    /// Queues a stop command for `port`, sent through the brick's HTTP server.
    pub fn queue_stop(&mut self, port: String)
        ensures
            Ev3State::queued(old(self), final(self), seq![MotorCommand::HttpStop { port: port }]),
            final(self).desired_speeds == old(self).desired_speeds,
    {
        let ghost cmd = MotorCommand::HttpStop { port: port };
        self.pending_commands.push(MotorCommand::HttpStop { port });
        assert(self.pending_commands@ =~= old(self).pending_commands@ + seq![cmd]);
    }

    /// Queues a stop command for each of the four motor ports, in port order,
    /// sent through the brick's HTTP server.
    pub fn queue_stop_all(&mut self)
        ensures
            Ev3State::same_telemetry(old(self), final(self)),
            final(self).ip == old(self).ip,
            final(self).reconnect_requested == old(self).reconnect_requested,
            final(self).desired_speeds == old(self).desired_speeds,
            final(self).pending_commands@.len() == old(self).pending_commands@.len() + 4,
            final(self).pending_commands@.take(old(self).pending_commands@.len() as int)
                == old(self).pending_commands@,
            forall|k: int|
                0 <= k < 4 ==> {
                    let c = #[trigger] final(self).pending_commands@[old(
                        self,
                    ).pending_commands@.len() + k];
                    &&& c is HttpStop
                    &&& c.port_of() == output_ports()[k]
                },
    {
        let ghost start = self.pending_commands@;
        self.pending_commands.push(MotorCommand::HttpStop { port: owned("outA") });
        self.pending_commands.push(MotorCommand::HttpStop { port: owned("outB") });
        self.pending_commands.push(MotorCommand::HttpStop { port: owned("outC") });
        self.pending_commands.push(MotorCommand::HttpStop { port: owned("outD") });
        assert(self.pending_commands@.take(start.len() as int) =~= start);
    }

    /// Points the controller at a new address and asks for a reconnection.
    pub fn set_ip(&mut self, ip: String)
        ensures
            final(self).ip == ip,
            final(self).reconnect_requested,
            !final(self).connected,
            final(self).motors == old(self).motors,
            final(self).sensors == old(self).sensors,
            final(self).battery_reading == old(self).battery_reading,
            final(self).alerts == old(self).alerts,
            final(self).desired_speeds == old(self).desired_speeds,
            final(self).pending_commands == old(self).pending_commands,
    {
        self.ip = ip;
        self.reconnect_requested = true;
        self.connected = false;
    }

    /// Asks for a reconnection to the same address.
    pub fn request_reconnect(&mut self)
        ensures
            final(self).ip == old(self).ip,
            final(self).reconnect_requested,
            !final(self).connected,
            final(self).motors == old(self).motors,
            final(self).sensors == old(self).sensors,
            final(self).battery_reading == old(self).battery_reading,
            final(self).alerts == old(self).alerts,
            final(self).desired_speeds == old(self).desired_speeds,
            final(self).pending_commands == old(self).pending_commands,
    {
        self.reconnect_requested = true;
        self.connected = false;
    }

    /// Takes the address typed by the user: ignored when it is blank, else
    /// trimmed and applied with a reconnection request.
    pub fn apply_new_ip(&mut self, ip_buffer: &str)
        ensures
            trim(ip_buffer@).len() == 0 ==> *final(self) == *old(self),
            trim(ip_buffer@).len() > 0 ==> {
                &&& final(self).ip@ == trim(ip_buffer@)
                &&& final(self).reconnect_requested
                &&& !final(self).connected
                &&& final(self).motors == old(self).motors
                &&& final(self).sensors == old(self).sensors
                &&& final(self).battery_reading == old(self).battery_reading
                &&& final(self).alerts == old(self).alerts
                &&& final(self).desired_speeds == old(self).desired_speeds
                &&& final(self).pending_commands == old(self).pending_commands
            },
    {
        let ip = trim_str(ip_buffer);
        if ip.as_str().is_empty() {
            return;
        }
        self.set_ip(ip);
    }

    /// Removes and returns every pending command, oldest first.
    pub fn take_pending_commands(&mut self) -> (r: Vec<MotorCommand>)
        ensures
            r@ == old(self).pending_commands@,
            final(self).pending_commands@.len() == 0,
            Ev3State::same_telemetry(old(self), final(self)),
            final(self).ip == old(self).ip,
            final(self).reconnect_requested == old(self).reconnect_requested,
            final(self).desired_speeds == old(self).desired_speeds,
    {
        let mut taken = Vec::new();
        std::mem::swap(&mut taken, &mut self.pending_commands);
        taken
    }

    /// The number of motors that are plugged in.
    pub fn connected_motor_count(&self) -> (n: usize)
        ensures
            n == connected_count(self.motors@),
    {
        let mut n: usize = 0;
        let len = self.motors.len();
        for i in 0..len
            invariant
                len == self.motors@.len(),
                n == connected_count(self.motors@.take(i as int)),
                n <= i,
        {
            assert(self.motors@.take(i + 1).drop_last() == self.motors@.take(i as int));
            if self.motors[i].connected {
                n = n + 1;
            }
        }
        assert(self.motors@.take(len as int) == self.motors@);
        n
    }

    /// The position of the motor on `port`, if the state lists one.
    pub fn find_motor(&self, port: &str) -> (r: Option<usize>)
        ensures
            r matches Some(i) ==> i < self.motors@.len() && self.motors@[i as int].port@ == port@
                && forall|k: int| 0 <= k < i ==> #[trigger] self.motors@[k].port@ != port@,
            r is None ==> forall|k: int|
                0 <= k < self.motors@.len() ==> #[trigger] self.motors@[k].port@ != port@,
    {
        let n = self.motors.len();
        for i in 0..n
            invariant
                n == self.motors@.len(),
                forall|k: int| 0 <= k < i ==> #[trigger] self.motors@[k].port@ != port@,
        {
            if str_equal(self.motors[i].port.as_str(), port) {
                return Some(i);
            }
        }
        None
    }

    /// The position of the sensor on `port`, if the state lists one.
    pub fn find_sensor(&self, port: &str) -> (r: Option<usize>)
        ensures
            r matches Some(i) ==> i < self.sensors@.len() && self.sensors@[i as int].port@
                == port@ && forall|k: int|
                0 <= k < i ==> #[trigger] self.sensors@[k].port@ != port@,
            r is None ==> forall|k: int|
                0 <= k < self.sensors@.len() ==> #[trigger] self.sensors@[k].port@ != port@,
    {
        let n = self.sensors.len();
        for i in 0..n
            invariant
                n == self.sensors@.len(),
                forall|k: int| 0 <= k < i ==> #[trigger] self.sensors@[k].port@ != port@,
        {
            if str_equal(self.sensors[i].port.as_str(), port) {
                return Some(i);
            }
        }
        None
    }
}

/// The number of connected motors in `motors`.
pub open spec fn connected_count(motors: Seq<Motor>) -> nat
    decreases motors.len(),
{
    if motors.len() == 0 {
        0
    } else {
        connected_count(motors.drop_last()) + if motors.last().connected {
            1nat
        } else {
            0nat
        }
    }
}

impl Default for Ev3State {
    fn default() -> (s: Ev3State)
        ensures
            !s.connected,
            s.motors@.len() == 0,
            s.sensors@.len() == 0,
            s.battery_reading@ == "0"@,
            s.alerts@.len() == 0,
            s.desired_speeds@ == Map::<Seq<char>, i32>::empty(),
            s.pending_commands@.len() == 0,
            s.ip@ == default_ip(),
            !s.reconnect_requested,
    {
        Ev3State::new()
    }
}

/// Setting a speed and reading the desired speed of the same port gives the
/// speed back; other ports keep theirs.
pub proof fn law_desired_speed_read_after_write(
    before: Ev3State,
    after: Ev3State,
    port: Seq<char>,
    speed: i32,
    other: Seq<char>,
)
    requires
        after.desired_speeds@ == before.desired_speeds@.insert(port, speed),
        other != port,
    ensures
        after.desired_speeds@.contains_key(port),
        after.desired_speeds@[port] == speed,
        after.desired_speeds@.contains_key(other) == before.desired_speeds@.contains_key(
            other,
        ),
        after.desired_speeds@[other] == before.desired_speeds@[other],
{
}

/// Queued commands leave in the order they were queued: after queueing
/// `extra` on a state and taking the pending commands, the taken commands
/// are the earlier ones followed by `extra`.
pub proof fn law_commands_leave_in_order(
    before: Ev3State,
    queued_state: Ev3State,
    extra: Seq<MotorCommand>,
    taken: Seq<MotorCommand>,
)
    requires
        Ev3State::queued(&before, &queued_state, extra),
        taken == queued_state.pending_commands@,
    ensures
        taken.take(before.pending_commands@.len() as int) == before.pending_commands@,
        taken.skip(before.pending_commands@.len() as int) == extra,
{
    assert(taken.take(before.pending_commands@.len() as int) =~= before.pending_commands@);
    assert(taken.skip(before.pending_commands@.len() as int) =~= extra);
}

} // verus!
