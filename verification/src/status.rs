//! The snapshot of the brick's state that the dashboard shows.

use vstd::prelude::*;
use crate::state::{Ev3State, Motor, Sensor, SensorType};
use crate::text::{owned, push_str, string_of, views};

verus! {

/// A motor as the dashboard shows it.
#[derive(Debug)]
pub struct MotorInfo {
    pub port: String,
    pub connected: bool,
    pub speed: i32,
}

/// A sensor as the dashboard shows it; `sensor_type` is the kind's name.
#[derive(Debug)]
pub struct SensorInfo {
    pub port: String,
    pub sensor_type: String,
    pub value: String,
}

/// Everything the dashboard shows.
#[derive(Debug)]
pub struct Ev3Status {
    pub connected: bool,
    pub ip: String,
    pub battery_reading: String,
    pub motors: Vec<MotorInfo>,
    pub sensors: Vec<SensorInfo>,
    pub alerts: Vec<String>,
}

/// The text that `{:?}` gives for a string: the string in double quotes,
/// with the characters that need it escaped.
pub uninterp spec fn debug_text(s: Seq<char>) -> Seq<char>;

/// Formats `s` with `{:?}` (std `<str as Debug>::fmt`).
/// Claims only that the result is the `{:?}` text of `s`, which depends on
/// `s` alone; the escaping rules themselves are left unstated.
#[verifier::external_body]
fn debug_quote(s: &str) -> (r: String)
    ensures
        r@ == debug_text(s@),
{
    format!("{:?}", s)
}

/// The `{:?}` name of a sensor kind.
pub open spec fn type_label(st: SensorType) -> Seq<char> {
    match st {
        SensorType::Touch => "Touch"@,
        SensorType::Color => "Color"@,
        SensorType::Ultrasonic => "Ultrasonic"@,
        SensorType::Gyro => "Gyro"@,
        SensorType::Infrared => "Infrared"@,
        SensorType::Unknown(name) => "Unknown("@ + debug_text(name@) + ")"@,
    }
}

/// The name the dashboard shows for a sensor kind, as `{:?}` writes it.
pub fn sensor_type_label(st: &SensorType) -> (r: String)
    ensures
        r@ == type_label(*st),
{
    match st {
        SensorType::Touch => owned("Touch"),
        SensorType::Color => owned("Color"),
        SensorType::Ultrasonic => owned("Ultrasonic"),
        SensorType::Gyro => owned("Gyro"),
        SensorType::Infrared => owned("Infrared"),
        SensorType::Unknown(name) => {
            let quoted = debug_quote(name.as_str());
            let mut v: Vec<char> = Vec::new();
            push_str(&mut v, "Unknown(");
            push_str(&mut v, quoted.as_str());
            push_str(&mut v, ")");
            string_of(&v)
        },
    }
}

/// `i` shows motor `m`.
pub open spec fn shows_motor(i: MotorInfo, m: Motor) -> bool {
    i.port@ == m.port@ && i.connected == m.connected && i.speed == m.speed
}

/// `i` shows sensor `s`.
pub open spec fn shows_sensor(i: SensorInfo, s: Sensor) -> bool {
    i.port@ == s.port@ && i.sensor_type@ == type_label(s.sensor_type) && i.value@ == s.value@
}

/// `st` shows the state `s`: connection, address, battery, each motor and
/// sensor in order, and the alerts.
pub open spec fn shows_state(st: Ev3Status, s: Ev3State) -> bool {
    &&& st.connected == s.connected
    &&& st.ip@ == s.ip@
    &&& st.battery_reading@ == s.battery_reading@
    &&& st.motors@.len() == s.motors@.len()
    &&& forall|i: int|
        0 <= i < st.motors@.len() ==> shows_motor(#[trigger] st.motors@[i], s.motors@[i])
    &&& st.sensors@.len() == s.sensors@.len()
    &&& forall|i: int|
        0 <= i < st.sensors@.len() ==> shows_sensor(#[trigger] st.sensors@[i], s.sensors@[i])
    &&& views(st.alerts@) == views(s.alerts@)
}

impl Ev3State {
    /// The dashboard's snapshot of the state.
    pub fn status(&self) -> (r: Ev3Status)
        ensures
            shows_state(r, *self),
    {
        let mut motors: Vec<MotorInfo> = Vec::new();
        let nm = self.motors.len();
        for i in 0..nm
            invariant
                nm == self.motors@.len(),
                motors@.len() == i,
                forall|k: int|
                    0 <= k < i ==> shows_motor(#[trigger] motors@[k], self.motors@[k]),
        {
            let m = &self.motors[i];
            motors.push(MotorInfo { port: owned(m.port.as_str()), connected: m.connected, speed: m.speed });
        }
        let mut sensors: Vec<SensorInfo> = Vec::new();
        let ns = self.sensors.len();
        for i in 0..ns
            invariant
                ns == self.sensors@.len(),
                sensors@.len() == i,
                forall|k: int|
                    0 <= k < i ==> shows_sensor(#[trigger] sensors@[k], self.sensors@[k]),
        {
            let s = &self.sensors[i];
            sensors.push(
                SensorInfo {
                    port: owned(s.port.as_str()),
                    sensor_type: sensor_type_label(&s.sensor_type),
                    value: owned(s.value.as_str()),
                },
            );
        }
        let alerts = self.alerts.clone();
        proof {
            assert(alerts@ == self.alerts@) by {
                assert forall|k: int| 0 <= k < alerts@.len() implies alerts@[k] == self.alerts@[k] by {
                    assert(cloned::<String>(self.alerts@[k], alerts@[k]));
                }
                assert(alerts@ =~= self.alerts@);
            }
        }
        Ev3Status {
            connected: self.connected,
            ip: owned(self.ip.as_str()),
            battery_reading: owned(self.battery_reading.as_str()),
            motors,
            sensors,
            alerts,
        }
    }
}

/// When the brick cannot be reached, the dashboard reports it disconnected,
/// with no motors, no sensors and no alerts.
pub proof fn law_unreachable_brick_reported_disconnected(s: Ev3State, st: Ev3Status)
    requires
        !s.connected,
        s.motors@.len() == 0,
        s.sensors@.len() == 0,
        s.alerts@.len() == 0,
        shows_state(st, s),
    ensures
        !st.connected,
        st.motors@.len() == 0,
        st.sensors@.len() == 0,
        st.alerts@.len() == 0,
{
    assert(views(st.alerts@).len() == st.alerts@.len());
}

} // verus!
