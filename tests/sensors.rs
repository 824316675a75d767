use psutil::sensors::{
    hwmon_name_path, hwmon_sensor, hwmon_sibling_path, parse_millidegrees, sensor_id, temperatures, thermal_zone_sensor,
    trip_temp_path, FileReading, HwmonReading, ThermalZoneReading, TripPointReading,
};
use psutil::{Error, Temperature};

fn file(path: &str, contents: &str) -> FileReading {
    FileReading { path: path.to_string(), contents: Ok(contents.to_string()) }
}

fn unreadable(path: &str) -> FileReading {
    FileReading {
        path: path.to_string(),
        contents: Err(Error::IoFailure { path: path.to_string(), message: "No such file or directory".to_string() }),
    }
}

fn channel(dir: &str, label: Option<&str>) -> HwmonReading {
    HwmonReading {
        input: file(&format!("{dir}/temp1_input"), "45000\n"),
        name: file(&format!("{dir}/name"), "coretemp\n"),
        label: label.map(|l| file(&format!("{dir}/temp1_label"), l)),
        max: Some(file(&format!("{dir}/temp1_max"), "80000\n")),
        crit: Some(file(&format!("{dir}/temp1_crit"), "100000\n")),
        min: None,
    }
}

fn zone(dir: &str, trips: Vec<(&str, &str)>) -> ThermalZoneReading {
    let mut ts = Vec::new();
    for (i, (kind, temp)) in trips.into_iter().enumerate() {
        ts.push(Ok(TripPointReading {
            kind: file(&format!("{dir}/trip_point_{i}_type"), kind),
            temp: file(&format!("{dir}/trip_point_{i}_temp"), temp),
        }));
    }
    ThermalZoneReading { temp: file(&format!("{dir}/temp"), "52000\n"), kind: file(&format!("{dir}/type"), "acpitz\n"), trips: ts }
}

#[test]
fn falls_back_to_thermal_zones() {
    let zones = vec![Ok(zone("/sys/class/thermal/thermal_zone0", vec![("critical\n", "105000\n"), ("high\n", "90000\n")]))];
    let r = temperatures(Vec::new(), Vec::new(), zones);
    assert_eq!(r.len(), 1);
    let s = r[0].as_ref().unwrap();
    assert_eq!(s.unit(), "acpitz");
    assert_eq!(s.label(), None);
    assert_eq!(s.sensor_id(), None);
    assert_eq!(s.current(), &Temperature::new(52000));
    assert_eq!(s.critical(), Some(&Temperature::new(105000)));
    assert_eq!(s.high(), Some(&Temperature::new(90000)));
    assert_eq!(s.min(), None);
}

#[test]
fn hwmon_is_preferred_over_zones() {
    let zones = vec![Ok(zone("/sys/class/thermal/thermal_zone0", vec![]))];
    let r = temperatures(vec![Ok(channel("/sys/class/hwmon/hwmon0", Some("Core 0\n")))], Vec::new(), zones);
    assert_eq!(r.len(), 1);
    let s = r[0].as_ref().unwrap();
    assert_eq!(s.unit(), "coretemp");
    assert_eq!(s.label(), Some("Core 0"));
    assert_eq!(s.sensor_id(), Some("hwmon0"));
    assert_eq!(s.current().millicelsius(), 45000);
    assert_eq!(s.high(), Some(&Temperature::new(80000)));
    assert_eq!(s.critical(), Some(&Temperature::new(100000)));
}

#[test]
fn device_pattern_used_when_usual_one_matches_nothing() {
    let r = temperatures(Vec::new(), vec![Ok(channel("/sys/class/hwmon/hwmon1/device", None))], Vec::new());
    assert_eq!(r.len(), 1);
    assert_eq!(r[0].as_ref().unwrap().sensor_id(), Some("device"));
}

#[test]
fn absent_label_still_makes_a_sensor() {
    let s = hwmon_sensor(channel("/sys/class/hwmon/hwmon2", None)).unwrap();
    assert_eq!(s.label(), None);
    assert_eq!(s.unit(), "coretemp");
}

#[test]
fn one_bad_sensor_does_not_drop_the_rest() {
    let mut bad = channel("/sys/class/hwmon/hwmon0", None);
    bad.input = file("/sys/class/hwmon/hwmon0/temp2_input", "hot\n");
    let mut gone = channel("/sys/class/hwmon/hwmon0", None);
    gone.name = unreadable("/sys/class/hwmon/hwmon0/name");
    let listing = vec![
        Ok(channel("/sys/class/hwmon/hwmon0", None)),
        Ok(bad),
        Err(Error::IoFailure { path: "/sys/class/hwmon".to_string(), message: "denied".to_string() }),
        Ok(gone),
    ];
    let r = temperatures(listing, Vec::new(), Vec::new());
    assert_eq!(r.len(), 4);
    assert!(r[0].is_ok());
    assert_eq!(
        r[1].as_ref().unwrap_err(),
        &Error::ParseFailure { path: "/sys/class/hwmon/hwmon0/temp2_input".to_string(), contents: "hot\n".to_string() }
    );
    assert!(matches!(&r[2], Err(Error::IoFailure { message, .. }) if message == "denied"));
    assert!(matches!(&r[3], Err(Error::IoFailure { path, .. }) if path == "/sys/class/hwmon/hwmon0/name"));
}

#[test]
fn first_trip_point_of_each_kind_wins() {
    let z = zone(
        "/sys/class/thermal/thermal_zone1",
        vec![("passive\n", "60000\n"), ("high\n", "70000\n"), ("high\n", "75000\n"), ("critical\n", "99000\n"), ("critical\n", "bad")],
    );
    let s = thermal_zone_sensor(z).unwrap();
    assert_eq!(s.high(), Some(&Temperature::new(70000)));
    assert_eq!(s.critical(), Some(&Temperature::new(99000)));
}

#[test]
fn unreadable_trip_point_fails_the_zone() {
    let mut z = zone("/sys/class/thermal/thermal_zone1", vec![("critical\n", "99000\n")]);
    z.trips.push(Err(Error::IoFailure { path: "x".to_string(), message: "gone".to_string() }));
    assert!(thermal_zone_sensor(z).is_err());
}

#[test]
fn temperature_text() {
    assert_eq!(parse_millidegrees("45000\n"), Some(45000));
    assert_eq!(parse_millidegrees("-5000"), Some(-5000));
    assert_eq!(parse_millidegrees("+7"), Some(7));
    assert_eq!(parse_millidegrees("-9223372036854775808"), Some(i64::MIN));
    assert_eq!(parse_millidegrees("9223372036854775808"), None);
    assert_eq!(parse_millidegrees(""), None);
    assert_eq!(parse_millidegrees(" 5"), None);
    assert_eq!(parse_millidegrees("4.5"), None);
}

#[test]
fn sibling_paths() {
    assert_eq!(
        hwmon_sibling_path("/sys/class/hwmon/hwmon0/temp1_input", "label"),
        Some("/sys/class/hwmon/hwmon0/temp1_label".to_string())
    );
    assert_eq!(hwmon_sibling_path("/sys/class/hwmon/hwmon0/temp1_max", "label"), None);
    assert_eq!(hwmon_name_path("/sys/class/hwmon/hwmon0/temp1_input"), "/sys/class/hwmon/hwmon0/name");
    assert_eq!(hwmon_name_path("temp1_input"), "name");
    assert_eq!(
        trip_temp_path("/sys/class/thermal/thermal_zone0/trip_point_0_type"),
        Some("/sys/class/thermal/thermal_zone0/trip_point_0_temp".to_string())
    );
    assert_eq!(trip_temp_path("/x/temp"), None);
    assert_eq!(sensor_id("/sys/class/hwmon/hwmon3/temp1_input"), Some("hwmon3".to_string()));
    assert_eq!(sensor_id("temp1_input"), None);
    assert_eq!(sensor_id("/temp1_input"), None);
}
