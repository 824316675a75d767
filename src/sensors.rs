//! Temperature sensors from the two sysfs layouts: the hardware-monitor tree,
//! and the thermal-zone tree that stands in when the first yields nothing.
//! The caller reads the files; this module decides what they mean.
use crate::error::Error;
use crate::text::{
    chars_of, digits_u64, find_last, find_last_char, parse_digits, range_is,
    string_of, string_with, trim_end, trim_end_bound,
};
use vstd::prelude::*;

verus! {

/// A temperature in thousandths of a degree Celsius, the unit sysfs writes.
#[derive(Clone, Copy, Debug, PartialEq, Eq, Structural)]
pub struct Temperature {
    pub millicelsius: i64,
}

impl Temperature {
    pub fn new(millicelsius: i64) -> (r: Temperature)
        ensures
            r.millicelsius == millicelsius,
    {
        Temperature { millicelsius }
    }

    /// Thousandths of a degree Celsius.
    pub fn millicelsius(&self) -> (r: i64)
        ensures
            r == self.millicelsius,
    {
        self.millicelsius
    }
}

/// One temperature sensor.
#[derive(Debug)]
pub struct TemperatureSensor {
    pub unit: String,
    pub label: Option<String>,
    pub current: Temperature,
    pub max: Option<Temperature>,
    pub crit: Option<Temperature>,
    pub min: Option<Temperature>,
    /// Name of the directory the sensor's files sit in, such as `hwmon0`.
    pub sensor_id: Option<String>,
}

/// A file the caller has read, or tried to.
pub struct FileReading {
    pub path: String,
    pub contents: Result<String, Error>,
}

/// The files of one hardware-monitor channel, found as `temp<N>_input`.
/// An optional sibling that does not exist is `None`.
pub struct HwmonReading {
    pub input: FileReading,
    pub name: FileReading,
    pub label: Option<FileReading>,
    pub max: Option<FileReading>,
    pub crit: Option<FileReading>,
    pub min: Option<FileReading>,
}

/// One `trip_point_<N>_type` file and its `trip_point_<N>_temp` sibling.
pub struct TripPointReading {
    pub kind: FileReading,
    pub temp: FileReading,
}

/// The files of one thermal zone directory.
pub struct ThermalZoneReading {
    pub temp: FileReading,
    pub kind: FileReading,
    pub trips: Vec<Result<TripPointReading, Error>>,
}

/// What a sensor holds, over plain values.
pub struct SensorView {
    pub unit: Seq<char>,
    pub label: Option<Seq<char>>,
    pub current: i64,
    pub max: Option<i64>,
    pub crit: Option<i64>,
    pub min: Option<i64>,
    pub sensor_id: Option<Seq<char>>,
}

pub open spec fn opt_chars(o: Option<String>) -> Option<Seq<char>> {
    match o {
        Some(s) => Some(s@),
        None => None,
    }
}

pub open spec fn opt_milli(o: Option<Temperature>) -> Option<i64> {
    match o {
        Some(t) => Some(t.millicelsius),
        None => None,
    }
}

pub open spec fn sensor_view(t: TemperatureSensor) -> SensorView {
    SensorView {
        unit: t.unit@,
        label: opt_chars(t.label),
        current: t.current.millicelsius,
        max: opt_milli(t.max),
        crit: opt_milli(t.crit),
        min: opt_milli(t.min),
        sensor_id: opt_chars(t.sensor_id),
    }
}

/// Why a sensor could not be built: an error met while reading, handed on as
/// it was, or a file whose text is no temperature.
pub enum Fault {
    Given(Error),
    BadTemperature(Seq<char>, Seq<char>),
}

pub open spec fn fault_is(e: Error, f: Fault) -> bool {
    match f {
        Fault::Given(g) => e == g,
        Fault::BadTemperature(p, c) => match e {
            Error::ParseFailure { path, contents } => path@ == p && contents@ == c,
            _ => false,
        },
    }
}

/// `res` is the sensor, or the error, that `s` describes.
pub open spec fn outcome_is(res: Result<TemperatureSensor, Error>, s: Result<SensorView, Fault>) -> bool {
    match (res, s) {
        (Ok(t), Ok(v)) => sensor_view(t) == v,
        (Err(e), Err(f)) => fault_is(e, f),
        _ => false,
    }
}

/// An integer, with an optional sign, once trailing white space is dropped;
/// sysfs writes temperatures so, in thousandths of a degree.
pub open spec fn millidegrees_of(s: Seq<char>) -> Option<i64> {
    let t = trim_end(s);
    if t.len() > 0 && t[0] == '-' {
        match digits_u64(t.drop_first()) {
            Some(v) => if v <= 0x8000_0000_0000_0000 {
                Some((-v) as i64)
            } else {
                None
            },
            None => None,
        }
    } else {
        let d = if t.len() > 0 && t[0] == '+' {
            t.drop_first()
        } else {
            t
        };
        match digits_u64(d) {
            Some(v) => if v <= 0x7fff_ffff_ffff_ffff {
                Some(v as i64)
            } else {
                None
            },
            None => None,
        }
    }
}

/// `s` without one trailing newline.
pub open spec fn strip_newline(s: Seq<char>) -> Seq<char> {
    if s.len() > 0 && s.last() == '\n' {
        s.drop_last()
    } else {
        s
    }
}

pub open spec fn text_of(x: FileReading) -> Result<Seq<char>, Fault> {
    match x.contents {
        Err(e) => Err(Fault::Given(e)),
        Ok(s) => Ok(strip_newline(s@)),
    }
}

pub open spec fn temp_of(x: FileReading) -> Result<i64, Fault> {
    match x.contents {
        Err(e) => Err(Fault::Given(e)),
        Ok(s) => match millidegrees_of(s@) {
            Some(t) => Ok(t),
            None => Err(Fault::BadTemperature(x.path@, s@)),
        },
    }
}

pub open spec fn opt_text_of(o: Option<FileReading>) -> Result<Option<Seq<char>>, Fault> {
    match o {
        None => Ok(None),
        Some(x) => match text_of(x) {
            Ok(t) => Ok(Some(t)),
            Err(f) => Err(f),
        },
    }
}

pub open spec fn opt_temp_of(o: Option<FileReading>) -> Result<Option<i64>, Fault> {
    match o {
        None => Ok(None),
        Some(x) => match temp_of(x) {
            Ok(t) => Ok(Some(t)),
            Err(f) => Err(f),
        },
    }
}

/// The directory of `path`, if it has one.
pub open spec fn parent_of(path: Seq<char>) -> Option<Seq<char>> {
    match find_last(path, '/') {
        Some(k) => Some(path.subrange(0, k)),
        None => None,
    }
}

/// The last component of the directory that holds `path`.
pub open spec fn sensor_id_of(path: Seq<char>) -> Option<Seq<char>> {
    match parent_of(path) {
        None => None,
        Some(d) => {
            let n = match find_last(d, '/') {
                Some(k) => d.subrange(k + 1, d.len() as int),
                None => d,
            };
            if n.len() > 0 {
                Some(n)
            } else {
                None
            }
        },
    }
}

/// The sensor a hardware-monitor channel describes. Files count in this
/// order: the unit name, then label, high, critical and low bounds where
/// present, then the current value.
pub open spec fn hwmon_spec(r: HwmonReading) -> Result<SensorView, Fault> {
    match (text_of(r.name), opt_text_of(r.label), opt_temp_of(r.max), opt_temp_of(r.crit), opt_temp_of(r.min), temp_of(r.input)) {
        (Err(f), _, _, _, _, _) => Err(f),
        (Ok(_), Err(f), _, _, _, _) => Err(f),
        (Ok(_), Ok(_), Err(f), _, _, _) => Err(f),
        (Ok(_), Ok(_), Ok(_), Err(f), _, _) => Err(f),
        (Ok(_), Ok(_), Ok(_), Ok(_), Err(f), _) => Err(f),
        (Ok(_), Ok(_), Ok(_), Ok(_), Ok(_), Err(f)) => Err(f),
        (Ok(unit), Ok(label), Ok(max), Ok(crit), Ok(min), Ok(current)) => Ok(SensorView {
            unit,
            label,
            current,
            max,
            crit,
            min,
            sensor_id: sensor_id_of(r.input.path@),
        }),
    }
}

/// One trip point read into the high and critical bounds found so far. Only
/// the first trip point of each kind counts.
pub open spec fn trip_step(st: (Option<i64>, Option<i64>), t: Result<TripPointReading, Error>) -> Result<
    (Option<i64>, Option<i64>),
    Fault,
> {
    match t {
        Err(e) => Err(Fault::Given(e)),
        Ok(tp) => match text_of(tp.kind) {
            Err(f) => Err(f),
            Ok(k) => if k == "critical"@ && st.1 is None {
                match temp_of(tp.temp) {
                    Ok(v) => Ok((st.0, Some(v))),
                    Err(f) => Err(f),
                }
            } else if k == "high"@ && st.0 is None {
                match temp_of(tp.temp) {
                    Ok(v) => Ok((Some(v), st.1)),
                    Err(f) => Err(f),
                }
            } else {
                Ok(st)
            },
        },
    }
}

/// The high and critical bounds of a zone's trip points, taken in order.
pub open spec fn trips_spec(ts: Seq<Result<TripPointReading, Error>>) -> Result<(Option<i64>, Option<i64>), Fault>
    decreases ts.len(),
{
    if ts.len() == 0 {
        Ok((None, None))
    } else {
        match trips_spec(ts.drop_last()) {
            Err(f) => Err(f),
            Ok(st) => trip_step(st, ts.last()),
        }
    }
}

/// The sensor a thermal zone describes: its temperature, its type as unit,
/// and the bounds of its trip points.
pub open spec fn zone_spec(z: ThermalZoneReading) -> Result<SensorView, Fault> {
    match (temp_of(z.temp), text_of(z.kind), trips_spec(z.trips@)) {
        (Err(f), _, _) => Err(f),
        (Ok(_), Err(f), _) => Err(f),
        (Ok(_), Ok(_), Err(f)) => Err(f),
        (Ok(current), Ok(unit), Ok((max, crit))) => Ok(SensorView {
            unit,
            label: None,
            current,
            max,
            crit,
            min: None,
            sensor_id: None,
        }),
    }
}

/// What each entry of a listing of hardware-monitor channels gives.
pub open spec fn hwmon_entry(x: Result<HwmonReading, Error>) -> Result<SensorView, Fault> {
    match x {
        Err(e) => Err(Fault::Given(e)),
        Ok(r) => hwmon_spec(r),
    }
}

/// What each entry of a listing of thermal zones gives.
pub open spec fn zone_entry(x: Result<ThermalZoneReading, Error>) -> Result<SensorView, Fault> {
    match x {
        Err(e) => Err(Fault::Given(e)),
        Ok(z) => zone_spec(z),
    }
}

/// Reads a temperature written in thousandths of a degree.
pub fn parse_millidegrees(s: &str) -> (r: Option<i64>)
    ensures
        r == millidegrees_of(s@),
{
    let v = chars_of(s);
    let e = trim_end_bound(&v, 0, v.len());
    assert(v@.subrange(0, v.len() as int) == v@);
    let ghost t = v@.subrange(0, e as int);
    if e > 0 && v[0] == '-' {
        assert(t.drop_first() == v@.subrange(1, e as int));
        match parse_digits(&v, 1, e) {
            Some(m) => if m <= 0x8000_0000_0000_0000 {
                if m == 0x8000_0000_0000_0000 {
                    Some(i64::MIN)
                } else {
                    Some(-(m as i64))
                }
            } else {
                None
            },
            None => None,
        }
    } else {
        let start: usize = if e > 0 && v[0] == '+' {
            1
        } else {
            0
        };
        assert(start == 1 ==> t.drop_first() == v@.subrange(1, e as int));
        assert(start == 0 ==> t == v@.subrange(0, e as int));
        match parse_digits(&v, start, e) {
            Some(m) => if m <= 0x7fff_ffff_ffff_ffff {
                Some(m as i64)
            } else {
                None
            },
            None => None,
        }
    }
}

/// `s` without one trailing newline, as a new string.
pub fn drop_newline(s: &String) -> (r: String)
    ensures
        r@ == strip_newline(s@),
{
    let v = chars_of(s.as_str());
    let n = v.len();
    if n > 0 && v[n - 1] == '\n' {
        let r = string_of(&v, 0, n - 1);
        assert(v@.drop_last() == v@.subrange(0, n - 1));
        r
    } else {
        let r = string_of(&v, 0, n);
        assert(v@.subrange(0, n as int) == v@);
        r
    }
}

fn read_text(x: FileReading) -> (r: Result<String, Error>)
    ensures
        match (r, text_of(x)) {
            (Ok(s), Ok(t)) => s@ == t,
            (Err(e), Err(f)) => fault_is(e, f),
            _ => false,
        },
{
    match x.contents {
        Ok(s) => Ok(drop_newline(&s)),
        Err(e) => Err(e),
    }
}

/// The temperature a file holds.
pub fn read_temperature(x: FileReading) -> (r: Result<Temperature, Error>)
    ensures
        match (r, temp_of(x)) {
            (Ok(t), Ok(v)) => t.millicelsius == v,
            (Err(e), Err(f)) => fault_is(e, f),
            _ => false,
        },
{
    match x.contents {
        Ok(s) => match parse_millidegrees(s.as_str()) {
            Some(v) => Ok(Temperature { millicelsius: v }),
            None => Err(Error::ParseFailure { path: x.path, contents: s }),
        },
        Err(e) => Err(e),
    }
}

fn read_opt_text(o: Option<FileReading>) -> (r: Result<Option<String>, Error>)
    ensures
        match (r, opt_text_of(o)) {
            (Ok(s), Ok(t)) => opt_chars(s) == t,
            (Err(e), Err(f)) => fault_is(e, f),
            _ => false,
        },
{
    match o {
        None => Ok(None),
        Some(x) => match read_text(x) {
            Ok(s) => Ok(Some(s)),
            Err(e) => Err(e),
        },
    }
}

fn read_opt_temperature(o: Option<FileReading>) -> (r: Result<Option<Temperature>, Error>)
    ensures
        match (r, opt_temp_of(o)) {
            (Ok(s), Ok(t)) => opt_milli(s) == t,
            (Err(e), Err(f)) => fault_is(e, f),
            _ => false,
        },
{
    match o {
        None => Ok(None),
        Some(x) => match read_temperature(x) {
            Ok(s) => Ok(Some(s)),
            Err(e) => Err(e),
        },
    }
}

/// The last component of the directory that holds `path`.
pub fn sensor_id(path: &str) -> (r: Option<String>)
    ensures
        opt_chars(r) == sensor_id_of(path@),
{
    let v = chars_of(path);
    let n = v.len();
    assert(v@.subrange(0, n as int) == v@);
    match find_last_char(&v, 0, n, '/') {
        None => None,
        Some(k) => {
            assert(v@.subrange(0, k as int) == v@.subrange(0, k as int));
            let start = match find_last_char(&v, 0, k, '/') {
                Some(j) => {
                    assert(v@.subrange(0, k as int).subrange(j + 1, k as int) == v@.subrange(j + 1, k as int));
                    j + 1
                },
                None => 0,
            };
            if start < k {
                Some(string_of(&v, start, k))
            } else {
                None
            }
        },
    }
}

/// Builds the sensor of one hardware-monitor channel.
pub fn hwmon_sensor(r: HwmonReading) -> (res: Result<TemperatureSensor, Error>)
    ensures
        outcome_is(res, hwmon_spec(r)),
{
    let ghost g = r;
    let HwmonReading { input, name, label, max, crit, min } = r;
    let id = sensor_id(input.path.as_str());
    let unit = match read_text(name) {
        Ok(u) => u,
        Err(e) => {
            return Err(e);
        },
    };
    let label = match read_opt_text(label) {
        Ok(l) => l,
        Err(e) => {
            return Err(e);
        },
    };
    let max = match read_opt_temperature(max) {
        Ok(t) => t,
        Err(e) => {
            return Err(e);
        },
    };
    let crit = match read_opt_temperature(crit) {
        Ok(t) => t,
        Err(e) => {
            return Err(e);
        },
    };
    let min = match read_opt_temperature(min) {
        Ok(t) => t,
        Err(e) => {
            return Err(e);
        },
    };
    let current = match read_temperature(input) {
        Ok(t) => t,
        Err(e) => {
            return Err(e);
        },
    };
    Ok(TemperatureSensor { unit, label, current, max, crit, min, sensor_id: id })
}


/// Builds the sensor of one thermal zone.
pub fn thermal_zone_sensor(z: ThermalZoneReading) -> (res: Result<TemperatureSensor, Error>)
    ensures
        outcome_is(res, zone_spec(z)),
{
    let ghost gz = z;
    let ThermalZoneReading { temp, kind, trips } = z;
    let ghost all = trips@;
    let current = match read_temperature(temp) {
        Ok(t) => t,
        Err(e) => {
            return Err(e);
        },
    };
    let unit = match read_text(kind) {
        Ok(u) => u,
        Err(e) => {
            return Err(e);
        },
    };
    let mut trips = trips;
    let total = trips.len();
    assert(all.len() == total);
    let mut max: Option<Temperature> = None;
    let mut crit: Option<Temperature> = None;
    let mut k: usize = 0;
    assert(all.subrange(0, 0) =~= Seq::<Result<TripPointReading, Error>>::empty());
    while trips.len() > 0
        invariant
            k + trips.len() == all.len(),
            gz.trips@ == all,
            gz == z,
            all.len() <= usize::MAX,
            temp_of(gz.temp) == Ok::<i64, Fault>(current.millicelsius),
            text_of(gz.kind) == Ok::<Seq<char>, Fault>(unit@),
            trips@ == all.subrange(k as int, all.len() as int),
            trips_spec(all.subrange(0, k as int)) == Ok::<(Option<i64>, Option<i64>), Fault>((opt_milli(max), opt_milli(crit))),
        decreases trips.len(),
    {
        let t = trips.remove(0);
        assert(t == all[k as int]);
        assert(all.subrange(0, k + 1).drop_last() == all.subrange(0, k as int));
        match t {
            Err(e) => {
                proof {
                    lemma_trips_fail(all, k as int);
                }
                return Err(e);
            },
            Ok(tp) => {
                let TripPointReading { kind, temp } = tp;
                let k_text = match read_text(kind) {
                    Ok(x) => x,
                    Err(e) => {
                        proof {
                            lemma_trips_fail(all, k as int);
                        }
                        return Err(e);
                    },
                };
                let is_crit = range_str(&k_text, "critical");
                let is_high = range_str(&k_text, "high");
                if is_crit && crit.is_none() {
                    match read_temperature(temp) {
                        Ok(v) => {
                            crit = Some(v);
                        },
                        Err(e) => {
                            proof {
                                lemma_trips_fail(all, k as int);
                            }
                            return Err(e);
                        },
                    }
                } else if is_high && max.is_none() {
                    match read_temperature(temp) {
                        Ok(v) => {
                            max = Some(v);
                        },
                        Err(e) => {
                            proof {
                                lemma_trips_fail(all, k as int);
                            }
                            return Err(e);
                        },
                    }
                }
            },
        }
        k = k + 1;
    }
    assert(all.subrange(0, k as int) == all);
    Ok(TemperatureSensor { unit, label: None, current, max, crit, min: None, sensor_id: None })
}

/// Whether `s` holds exactly the characters of `t`.
fn range_str(s: &String, t: &str) -> (r: bool)
    ensures
        r == (s@ == t@),
{
    crate::text::same_text(s.as_str(), t)
}

/// A trip point that fails spoils the zone, whatever follows it.
proof fn lemma_trips_fail(all: Seq<Result<TripPointReading, Error>>, k: int)
    requires
        0 <= k < all.len(),
        trips_spec(all.subrange(0, k + 1)) is Err,
    ensures
        trips_spec(all) == trips_spec(all.subrange(0, k + 1)),
    decreases all.len(),
{
    if k + 1 < all.len() {
        assert(all.drop_last().subrange(0, k + 1) == all.subrange(0, k + 1));
        lemma_trips_fail(all.drop_last(), k);
    } else {
        assert(all.subrange(0, k + 1) == all);
    }
}

/// Builds a sensor from each entry of a listing of hardware-monitor channels.
pub fn hwmon(listing: Vec<Result<HwmonReading, Error>>) -> (r: Vec<Result<TemperatureSensor, Error>>)
    ensures
        r.len() == listing.len(),
        forall|i: int| 0 <= i < r.len() ==> outcome_is(#[trigger] r@[i], hwmon_entry(listing@[i])),
{
    let ghost all = listing@;
    let mut listing = listing;
    let mut out: Vec<Result<TemperatureSensor, Error>> = Vec::new();
    while listing.len() > 0
        invariant
            out.len() + listing.len() == all.len(),
            listing@ == all.subrange(out.len() as int, all.len() as int),
            forall|i: int| 0 <= i < out.len() ==> outcome_is(#[trigger] out@[i], hwmon_entry(all[i])),
        decreases listing.len(),
    {
        let x = listing.remove(0);
        assert(x == all[out.len() as int]);
        let s = match x {
            Err(e) => Err(e),
            Ok(h) => hwmon_sensor(h),
        };
        out.push(s);
    }
    out
}

/// Builds a sensor from each entry of a listing of thermal zones.
pub fn thermal_zone(listing: Vec<Result<ThermalZoneReading, Error>>) -> (r: Vec<Result<TemperatureSensor, Error>>)
    ensures
        r.len() == listing.len(),
        forall|i: int| 0 <= i < r.len() ==> outcome_is(#[trigger] r@[i], zone_entry(listing@[i])),
{
    let ghost all = listing@;
    let mut listing = listing;
    let mut out: Vec<Result<TemperatureSensor, Error>> = Vec::new();
    while listing.len() > 0
        invariant
            out.len() + listing.len() == all.len(),
            listing@ == all.subrange(out.len() as int, all.len() as int),
            forall|i: int| 0 <= i < out.len() ==> outcome_is(#[trigger] out@[i], zone_entry(all[i])),
        decreases listing.len(),
    {
        let x = listing.remove(0);
        assert(x == all[out.len() as int]);
        let s = match x {
            Err(e) => Err(e),
            Ok(z) => thermal_zone_sensor(z),
        };
        out.push(s);
    }
    out
}

/// Sensor discovery. The channels matched by the usual hardware-monitor
/// pattern are used; if that pattern matched nothing, those matched by the
/// pattern with the extra `device` directory. If neither matched anything,
/// the thermal zones are used. Each entry succeeds or fails on its own.
pub fn temperatures(
    hwmon_channels: Vec<Result<HwmonReading, Error>>,
    hwmon_device_channels: Vec<Result<HwmonReading, Error>>,
    zones: Vec<Result<ThermalZoneReading, Error>>,
) -> (r: Vec<Result<TemperatureSensor, Error>>)
    ensures
        ({
            let hw = if hwmon_channels.len() > 0 { hwmon_channels@ } else { hwmon_device_channels@ };
            if hw.len() > 0 {
                &&& r.len() == hw.len()
                &&& forall|i: int| 0 <= i < r.len() ==> outcome_is(#[trigger] r@[i], hwmon_entry(hw[i]))
            } else {
                &&& r.len() == zones.len()
                &&& forall|i: int| 0 <= i < r.len() ==> outcome_is(#[trigger] r@[i], zone_entry(zones@[i]))
            }
        }),
{
    let hw = if hwmon_channels.len() > 0 {
        hwmon_channels
    } else {
        hwmon_device_channels
    };
    if hw.len() > 0 {
        hwmon(hw)
    } else {
        thermal_zone(zones)
    }
}

/// The path of a sibling of a `temp<N>_input` file: `temp<N>_` followed by `suffix`.
pub fn hwmon_sibling_path(input_path: &str, suffix: &str) -> (r: Option<String>)
    ensures
        match r {
            Some(p) => input_path@.len() >= 5 && input_path@.subrange(input_path@.len() - 5, input_path@.len() as int) == "input"@
                && p@ == input_path@.subrange(0, input_path@.len() - 5) + suffix@,
            None => !(input_path@.len() >= 5 && input_path@.subrange(input_path@.len() - 5, input_path@.len() as int) == "input"@),
        },
{
    let v = chars_of(input_path);
    let n = v.len();
    if n < 5 {
        return None;
    }
    if range_is(&v, n - 5, n, "input") {
        Some(string_with(&v, 0, n - 5, suffix))
    } else {
        None
    }
}

/// The path of the `name` file beside `path`.
pub fn hwmon_name_path(path: &str) -> (r: String)
    ensures
        r@ == match parent_of(path@) {
            Some(d) => d + "/name"@,
            None => "name"@,
        },
{
    let v = chars_of(path);
    let n = v.len();
    assert(v@.subrange(0, n as int) == v@);
    match find_last_char(&v, 0, n, '/') {
        Some(k) => string_with(&v, 0, k, "/name"),
        None => {
            let r = string_with(&v, 0, 0, "name");
            assert(v@.subrange(0, 0) + "name"@ =~= "name"@);
            r
        },
    }
}

/// The path of the `trip_point_<N>_temp` file beside a `trip_point_<N>_type` file.
pub fn trip_temp_path(type_path: &str) -> (r: Option<String>)
    ensures
        match r {
            Some(p) => type_path@.len() >= 4 && type_path@.subrange(type_path@.len() - 4, type_path@.len() as int) == "type"@
                && p@ == type_path@.subrange(0, type_path@.len() - 4) + "temp"@,
            None => !(type_path@.len() >= 4 && type_path@.subrange(type_path@.len() - 4, type_path@.len() as int) == "type"@),
        },
{
    let v = chars_of(type_path);
    let n = v.len();
    if n < 4 {
        return None;
    }
    if range_is(&v, n - 4, n, "type") {
        Some(string_with(&v, 0, n - 4, "temp"))
    } else {
        None
    }
}


impl TemperatureSensor {
    /// Unit or category name of the sensor.
    pub fn unit(&self) -> (r: &str)
        ensures
            r@ == self.unit@,
    {
        self.unit.as_str()
    }

    /// Human label, where the hardware gives one.
    pub fn label(&self) -> (r: Option<&str>)
        ensures
            match (r, self.label) {
                (Some(a), Some(b)) => a@ == b@,
                (None, None) => true,
                _ => false,
            },
    {
        match &self.label {
            Some(l) => Some(l.as_str()),
            None => None,
        }
    }

    /// Current temperature.
    pub fn current(&self) -> (r: &Temperature)
        ensures
            *r == self.current,
    {
        &self.current
    }

    /// High trip point, if there is one.
    pub fn high(&self) -> (r: Option<&Temperature>)
        ensures
            match (r, self.max) {
                (Some(a), Some(b)) => *a == b,
                (None, None) => true,
                _ => false,
            },
    {
        match &self.max {
            Some(t) => Some(t),
            None => None,
        }
    }

    /// Low bound, if there is one.
    pub fn min(&self) -> (r: Option<&Temperature>)
        ensures
            match (r, self.min) {
                (Some(a), Some(b)) => *a == b,
                (None, None) => true,
                _ => false,
            },
    {
        match &self.min {
            Some(t) => Some(t),
            None => None,
        }
    }

    /// Critical trip point, if there is one.
    pub fn critical(&self) -> (r: Option<&Temperature>)
        ensures
            match (r, self.crit) {
                (Some(a), Some(b)) => *a == b,
                (None, None) => true,
                _ => false,
            },
    {
        match &self.crit {
            Some(t) => Some(t),
            None => None,
        }
    }

    /// Name of the directory that holds the sensor's files, such as `hwmon0`.
    pub fn sensor_id(&self) -> (r: Option<&str>)
        ensures
            match (r, self.sensor_id) {
                (Some(a), Some(b)) => a@ == b@,
                (None, None) => true,
                _ => false,
            },
    {
        match &self.sensor_id {
            Some(s) => Some(s.as_str()),
            None => None,
        }
    }
}

/// A channel without a label file still makes a sensor when its other files
/// read, and that sensor has no label.
pub proof fn lemma_absent_label(r: HwmonReading)
    requires
        r.label is None,
    ensures
        hwmon_spec(r) is Ok <==> (text_of(r.name) is Ok && opt_temp_of(r.max) is Ok && opt_temp_of(r.crit) is Ok
            && opt_temp_of(r.min) is Ok && temp_of(r.input) is Ok),
        hwmon_spec(r) is Ok ==> (hwmon_spec(r)->Ok_0).label is None,
{
}

/// When no hardware-monitor channel is listed under either pattern, every
/// sensor comes from a thermal zone, one for each zone listed.
pub proof fn lemma_falls_back_to_zones(
    zones: Seq<Result<ThermalZoneReading, Error>>,
    r: Seq<Result<TemperatureSensor, Error>>,
)
    requires
        r.len() == zones.len(),
        forall|i: int| 0 <= i < r.len() ==> outcome_is(#[trigger] r[i], zone_entry(zones[i])),
    ensures
        forall|i: int| 0 <= i < r.len() ==> (#[trigger] r[i]) is Ok ==> r[i].unwrap().sensor_id is None
            && r[i].unwrap().label is None && r[i].unwrap().min is None,
{
    assert forall|i: int| 0 <= i < r.len() && (#[trigger] r[i]) is Ok implies r[i].unwrap().sensor_id is None
        && r[i].unwrap().label is None && r[i].unwrap().min is None by {
        assert(outcome_is(r[i], zone_entry(zones[i])));
    }
}

} // verus!
