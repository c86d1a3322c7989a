use xdrk::datetime::Date;
use xdrk::datetime::DateTime;
use xdrk::datetime::Time;
use xdrk::datetime::Tm;
use xdrk::decoder::checked_index;
use xdrk::decoder::lap_reply;
use xdrk::decoder::plain_count;
use xdrk::decoder::positive_count;
use xdrk::decoder::routed;
use xdrk::decoder::samples_reply;
use xdrk::decoder::text_reply;
use xdrk::decoder::ChannelKind;
use xdrk::decoder::Request;
use xdrk::error::XdrkError;
use xdrk::run::RunLoader;
use xdrk::run::Stage;
use xdrk::run_data::RunData;
use xdrk::storage;
use xdrk::Channel;
use xdrk::ChannelData;
use xdrk::Lap;
use xdrk::LapInfo;
use xdrk::Run;
use xdrk::XdrkFile;

/// What a decoder holds about one file.
struct File {
    laps: Vec<(i64, i64)>,
    channels: Vec<(&'static str, &'static str)>,
    gps: Vec<(&'static str, &'static str)>,
    gps_raw: Vec<(&'static str, &'static str)>,
    /// The question at which the decoder fails, if it is to fail.
    fails_at: Option<Request>,
    asked: Vec<Request>,
}

impl File {
    fn of_kind(&self, kind: ChannelKind) -> &Vec<(&'static str, &'static str)> {
        match kind {
            ChannelKind::Regular => &self.channels,
            ChannelKind::Gps => &self.gps,
            ChannelKind::GpsRaw => &self.gps_raw,
        }
    }

    fn count(&mut self, request: Request) -> i32 {
        self.asked.push(request);
        if self.fails_at == Some(request) {
            return -1;
        }
        match request {
            Request::LapCount => self.laps.len() as i32,
            Request::ChannelCount { kind } => self.of_kind(kind).len() as i32,
            _ => panic!("no question for a number: {:?}", request),
        }
    }

    fn lap(&mut self, request: Request) -> (i32, i64, i64) {
        self.asked.push(request);
        if self.fails_at == Some(request) {
            return (0, 0, 0);
        }
        match request {
            Request::LapInfo { lap } => (1, self.laps[lap].0, self.laps[lap].1),
            _ => panic!("no question for a lap: {:?}", request),
        }
    }

    fn text(&mut self, request: Request) -> Option<String> {
        self.asked.push(request);
        if self.fails_at == Some(request) {
            return None;
        }
        match request {
            Request::ChannelName { kind, channel } => {
                Some(self.of_kind(kind)[channel].0.to_string())
            }
            Request::ChannelUnit { kind, channel } => {
                Some(self.of_kind(kind)[channel].1.to_string())
            }
            _ => panic!("no question for a text: {:?}", request),
        }
    }
}

/// Reads a run as whoever holds the decoder does: asks what the loader says
/// and hands the answer back.
fn load(file: &mut File, path: &str, idx: usize) -> Result<Run, XdrkError> {
    let mut loader = RunLoader::new(path.to_string(), idx);
    while let Some(request) = loader.request() {
        match request {
            Request::LapCount | Request::ChannelCount { .. } => {
                let reply = file.count(request);
                loader.count_reply(reply)?;
            }
            Request::LapInfo { .. } => {
                let (code, start, time) = file.lap(request);
                loader.lap_reply(code, start, time)?;
            }
            Request::ChannelName { .. } | Request::ChannelUnit { .. } => {
                let reply = file.text(request);
                loader.text_reply(reply)?;
            }
            _ => unreachable!(),
        }
    }
    assert_eq!(Stage::Done, loader.stage());
    Ok(loader.finish().unwrap())
}

const CHANNELS: [(&str, &str); 39] = [
    ("Logger Temperature", "C"),
    ("External Voltage", "V"),
    ("pManifoldScrut", "bar"),
    ("tManifoldScrut", "C"),
    ("aLon", "g"),
    ("aLat", "g"),
    ("aVer", "g"),
    ("wRoll", "deg/s"),
    ("wPitch", "deg/s"),
    ("wYaw", "deg/s"),
    ("bAdvance", "deg"),
    ("bSteering", "deg"),
    ("bVvtIn", "deg"),
    ("bVvtOut", "deg"),
    ("dInjection", "ms"),
    ("fEngRpm", "rpm"),
    ("pBrakeF", "bar"),
    ("pBrakeR", "bar"),
    ("pManifold", "bar"),
    ("posGear", "#"),
    ("pRail", "bar"),
    ("rLambda", "#"),
    ("rPedal", "%"),
    ("rThrottle", "%"),
    ("swGearDown", "#"),
    ("swGearUp", "#"),
    ("swLaunchState", "#"),
    ("swRotFcy", "#"),
    ("swRotPit", "#"),
    ("tAmbient", "C"),
    ("tManifold", "C"),
    ("tWater", "C"),
    ("uBarrel", "V"),
    ("vWheelFL", "km/h"),
    ("vWheelFR", "km/h"),
    ("vWheelRL", "km/h"),
    ("vWheelRR", "km/h"),
    ("momEngTorq", "Nm"),
    ("momEngTorqTarget", "Nm"),
];

const GPS: [(&str, &str); 11] = [
    ("GPS Speed", "m/s"),
    ("GPS Nsat", "#"),
    ("GPS LatAcc", "g"),
    ("GPS LonAcc", "g"),
    ("GPS Slope", "deg"),
    ("GPS Heading", "deg"),
    ("GPS Gyro", "deg/s"),
    ("GPS Altitude", "m"),
    ("GPS PosAccuracy", "#"),
    ("GPS SpdAccuracy", "#"),
    ("GPS Radius", "m"),
];

const GPS_RAW: [(&str, &str); 9] = [
    ("ECEF position_X", "m"),
    ("ECEF position_Y", "m"),
    ("ECEF position_Z", "m"),
    ("ECEF velocity_X", "m/s"),
    ("ECEF velocity_Y", "m/s"),
    ("ECEF velocity_Z", "m/s"),
    ("N Satellites", "#"),
    ("Time of Week", "ms"),
    ("Week N", "#"),
];

fn xrk() -> File {
    File {
        laps: vec![
            (0, 201_243_000),
            (201_243_000, 134_936_000),
            (336_179_000, 134_718_000),
            (470_897_000, 159_905_000),
            (630_802_000, 75_418_000),
        ],
        channels: CHANNELS.to_vec(),
        gps: GPS.to_vec(),
        gps_raw: GPS_RAW.to_vec(),
        fails_at: None,
        asked: Vec::new(),
    }
}

fn names(of: &[(&str, &str)]) -> Vec<String> {
    of.iter().map(|(name, _)| name.to_string()).collect()
}

fn sample_count(kind: ChannelKind, channel: usize, lap: Option<usize>) -> Request {
    Request::SampleCount { kind, channel, lap }
}

#[test]
fn xrkfile_test() {
    let mut file = xrk();
    let xdrk_file = load(&mut file, "./testdata/032/run.xrk", 1).unwrap();

    assert_eq!(
        "TCR_EU-21_E02-LCA",
        &text_reply(Some("TCR_EU-21_E02-LCA".to_string())).unwrap()
    );
    assert_eq!(
        DateTime {
            date: Date { year: 2021, month: 5, day: 29 },
            time: Time { hour: 9, minute: 59, second: 44, nanosecond: 0 }
        },
        xdrk_file
            .datetime(Some(Tm {
                tm_sec: 44,
                tm_min: 59,
                tm_hour: 9,
                tm_mday: 29,
                tm_mon: 4,
                tm_year: 121,
                tm_wday: 6,
                tm_yday: 148,
                tm_isdst: 0
            }))
            .unwrap()
    );

    assert_eq!(5, xdrk_file.number_of_laps());
    assert_eq!(LapInfo::new(2, 336_179_000, 134_718_000), xdrk_file.lap_info(2).unwrap());

    assert_eq!(50, xdrk_file.number_of_channels());

    let mut channel_names = names(&CHANNELS);
    channel_names.extend(names(&GPS));
    assert_eq!(&channel_names, xdrk_file.channel_names());

    assert_eq!("Logger Temperature", &xdrk_file.channel_name(0).unwrap());
    assert_eq!("pManifoldScrut", &xdrk_file.channel_name(2).unwrap());
    assert_eq!("fEngRpm", &xdrk_file.channel_name(15).unwrap());
    assert_eq!("GPS Speed", &xdrk_file.channel_name(39).unwrap());
    assert_eq!("GPS Nsat", &xdrk_file.channel_name(40).unwrap());

    assert_eq!("C", &xdrk_file.channel_unit(0).unwrap());
    assert_eq!("bar", &xdrk_file.channel_unit(2).unwrap());
    assert_eq!("rpm", &xdrk_file.channel_unit(15).unwrap());
    assert_eq!("m/s", &xdrk_file.channel_unit(39).unwrap());
    assert_eq!("#", &xdrk_file.channel_unit(40).unwrap());

    assert_eq!(
        Ok(sample_count(ChannelKind::Regular, 0, None)),
        xdrk_file.channel_samples_count(0)
    );
    assert_eq!(672, positive_count(672).unwrap());
    assert_eq!(
        Ok(sample_count(ChannelKind::Regular, 15, None)),
        xdrk_file.channel_samples_count(15)
    );
    assert_eq!(70547, positive_count(70547).unwrap());
    assert_eq!(
        Ok(sample_count(ChannelKind::Gps, 1, None)),
        xdrk_file.gps_channel_samples_count(1)
    );
    assert_eq!(70620, positive_count(70620).unwrap());

    assert_eq!(
        Ok(Request::Samples { kind: ChannelKind::Regular, channel: 0, lap: None, count: 672 }),
        xdrk_file.channel_samples(0, 672)
    );
    assert_eq!(
        false,
        samples_reply(672, 672, vec![0; 672], vec![0; 672]).unwrap().is_empty()
    );
    assert_eq!(
        Ok(sample_count(ChannelKind::Regular, 0, Some(2))),
        xdrk_file.lap_channel_samples_count(2, 0)
    );
    assert_eq!(128, positive_count(128).unwrap());
    assert_eq!(
        Ok(Request::Samples { kind: ChannelKind::Regular, channel: 0, lap: Some(2), count: 128 }),
        xdrk_file.lap_channel_samples(2, 0, 128)
    );

    let correct_channel = "GPS Radius";
    assert_eq!(49, xdrk_file.channel_idx(&correct_channel).unwrap());

    let wrong_channel = "wrong channel";
    assert_eq!(true, xdrk_file.channel_idx(&wrong_channel).is_err());

    for (channel, name) in [(0, "GPS Speed"), (2, "GPS LatAcc"), (6, "GPS Gyro"), (10, "GPS Radius")]
    {
        let request = xdrk_file.gps_channel_name(channel).unwrap();
        assert_eq!(name, &text_reply(file.text(request)).unwrap());
    }
    for (channel, name) in
        [(0, "ECEF position_X"), (4, "ECEF velocity_Y"), (6, "N Satellites"), (8, "Week N")]
    {
        let request = xdrk_file.gps_raw_channel_name(channel).unwrap();
        assert_eq!(name, &text_reply(file.text(request)).unwrap());
    }
    for (channel, unit) in [(0, "m"), (1, "m"), (3, "m/s"), (7, "ms"), (8, "#")] {
        let request = xdrk_file.gps_raw_channel_unit(channel).unwrap();
        assert_eq!(unit, &text_reply(file.text(request)).unwrap());
    }
    for (channel, unit) in [(0, "m/s"), (2, "g"), (5, "deg"), (8, "#"), (10, "m")] {
        let request = xdrk_file.gps_channel_unit(channel).unwrap();
        assert_eq!(unit, &text_reply(file.text(request)).unwrap());
    }

    assert_eq!(
        Ok(sample_count(ChannelKind::GpsRaw, 0, None)),
        xdrk_file.gps_raw_channel_samples_count(0)
    );
    assert_eq!(7061, positive_count(7061).unwrap());
    assert_eq!(
        Ok(sample_count(ChannelKind::GpsRaw, 2, Some(2))),
        xdrk_file.lap_gps_raw_channel_samples_count(2, 2)
    );
    assert_eq!(1346, positive_count(1346).unwrap());
    assert_eq!(
        Ok(Request::Samples { kind: ChannelKind::GpsRaw, channel: 0, lap: Some(2), count: 1346 }),
        xdrk_file.lap_gps_raw_channel_samples(2, 0, 1346)
    );
    assert_eq!(
        Ok(Request::Samples { kind: ChannelKind::Gps, channel: 0, lap: Some(0), count: 2010 }),
        xdrk_file.lap_gps_channel_samples(0, 0, 2010)
    );
    assert_eq!(
        Ok(Request::Samples { kind: ChannelKind::GpsRaw, channel: 0, lap: None, count: 7061 }),
        xdrk_file.gps_raw_channel_samples(0, 7061)
    );
    assert_eq!(
        Ok(Request::Samples { kind: ChannelKind::Gps, channel: 0, lap: None, count: 70620 }),
        xdrk_file.gps_channel_samples(0, 70620)
    );
    assert_eq!(
        Ok(sample_count(ChannelKind::Gps, 3, Some(4))),
        xdrk_file.lap_gps_channel_samples_count(4, 3)
    );
}

#[test]
fn drkfile_test() {
    let gps: Vec<(&'static str, &'static str)> = vec![
        ("GPS_Speed", "km/h"),
        ("GPS_Nsat", "#"),
        ("GPS_LatAcc", "g"),
        ("GPS_LonAcc", "g"),
        ("GPS_Slope", "deg"),
        ("GPS_Heading", "deg"),
        ("GPS_Gyro", "deg/s"),
        ("GPS_Altitude", "m"),
        ("GPS_PosAccuracy", "#"),
        ("GPS_SpdAccuracy", "#"),
    ];
    let mut channels = CHANNELS.to_vec();
    channels[2].1 = "mbar";
    let mut laps: Vec<(i64, i64)> = (0..11).map(|i| (i * 100_000_000, 100_000_000)).collect();
    laps[2] = (336_179_000, 134_718_000);
    let mut file = File {
        laps,
        channels,
        gps: gps.clone(),
        gps_raw: GPS_RAW.to_vec(),
        fails_at: None,
        asked: Vec::new(),
    };
    let xdrk_file = load(&mut file, "./testdata/032/run.drk", 1).unwrap();

    assert_eq!(11, xdrk_file.number_of_laps());
    assert_eq!(LapInfo::new(2, 336_179_000, 134_718_000), xdrk_file.lap_info(2).unwrap());
    assert_eq!(49, xdrk_file.number_of_channels());

    let mut channel_names = names(&CHANNELS);
    channel_names.extend(names(&gps));
    assert_eq!(&channel_names, xdrk_file.channel_names());

    assert_eq!("Logger Temperature", &xdrk_file.channel_name(0).unwrap());
    assert_eq!("pManifoldScrut", &xdrk_file.channel_name(2).unwrap());
    assert_eq!("fEngRpm", &xdrk_file.channel_name(15).unwrap());
    assert_eq!("GPS_Speed", &xdrk_file.channel_name(39).unwrap());
    assert_eq!("GPS_Nsat", &xdrk_file.channel_name(40).unwrap());

    assert_eq!("mbar", &xdrk_file.channel_unit(2).unwrap());
    assert_eq!("rpm", &xdrk_file.channel_unit(15).unwrap());
    assert_eq!("km/h", &xdrk_file.channel_unit(39).unwrap());
    assert_eq!("#", &xdrk_file.channel_unit(40).unwrap());

    assert_eq!(1554, positive_count(1554).unwrap());
    assert_eq!(155400, positive_count(155400).unwrap());
    assert_eq!(
        Ok(sample_count(ChannelKind::Regular, 0, Some(2))),
        xdrk_file.lap_channel_samples_count(2, 0)
    );
    assert_eq!(134, positive_count(134).unwrap());
    assert_eq!(
        false,
        samples_reply(134, 134, vec![0; 134], vec![0; 134]).unwrap().is_empty()
    );
}

#[test]
fn xdrkfile_test() {
    let mut registry = xdrk::registry::Registry::new();
    let xrk_file = XdrkFile::opened(&mut registry, "./testdata/run.xrk", 1).unwrap();
    assert!(xrk_file.idx() > 0);

    assert_eq!(4, xrk_file.number_of_laps(4).unwrap());
    assert_eq!(LapInfo::new(2, 383_258_000, 170_488_000), lap_reply(2, 1, 383_258_000, 170_488_000).unwrap());
    assert_eq!(51, xrk_file.number_of_channels(40, 11).unwrap());

    let some = |names: &[(&str, &str)]| -> Vec<Option<String>> {
        names.iter().map(|(name, _)| Some(name.to_string())).collect()
    };
    let channel_names = xrk_file.channel_names(some(&CHANNELS), some(&GPS)).unwrap();
    assert_eq!(50, channel_names.len());
    assert_eq!("Logger Temperature", &channel_names[0]);
    assert_eq!("pManifoldScrut", &channel_names[2]);
    assert_eq!("fEngRpm", &channel_names[15]);
    assert_eq!("GPS Speed", &channel_names[39]);
    assert_eq!("GPS Nsat", &channel_names[40]);
    assert_eq!(49, xrk_file.channel_idx(&channel_names, "GPS Radius").unwrap());
    assert_eq!(true, xrk_file.channel_idx(&channel_names, "wrong channel").is_err());

    assert_eq!(553, positive_count(553).unwrap());
    assert_eq!(57980, positive_count(57980).unwrap());
    assert_eq!(
        false,
        samples_reply(553, 553, vec![0; 553], vec![0; 553]).unwrap().is_empty()
    );
    assert_eq!(162, positive_count(162).unwrap());
}

#[test]
fn xdrkrs_test() {
    let mut registry = xdrk::registry::Registry::new();
    let xrk_file = XdrkFile::opened(&mut registry, "./testdata/run.xrk", 1).unwrap();
    assert!(xrk_file.idx() > 0);
    assert_eq!(Some(1), registry.release(xrk_file.path()));
    assert_eq!(0, registry.len());

    let xrk_file = XdrkFile::opened(&mut registry, "./testdata/run.xrk", 2).unwrap();
    assert_eq!(
        DateTime {
            date: Date { year: 2020, month: 11, day: 14 },
            time: Time { hour: 16, minute: 49, second: 39, nanosecond: 0 }
        },
        xdrk::datetime::datetime_of_tm(&Tm {
            tm_sec: 39,
            tm_min: 49,
            tm_hour: 16,
            tm_mday: 14,
            tm_mon: 10,
            tm_year: 120,
            tm_wday: 6,
            tm_yday: 318,
            tm_isdst: 0
        })
        .unwrap()
    );
    assert_eq!(4, xrk_file.number_of_laps(4).unwrap());
    assert_eq!(40, positive_count(40).unwrap());
    assert_eq!(553, positive_count(553).unwrap());
    assert_eq!(57980, positive_count(57980).unwrap());
    assert_eq!(57952, positive_count(57952).unwrap());
    assert_eq!(162, positive_count(162).unwrap());
    assert_eq!(
        false,
        samples_reply(162, 162, vec![0; 162], vec![0; 162]).unwrap().is_empty()
    );
}

fn lap_of(idx: usize, names: &[&str], period: i64) -> Lap {
    let channels = names
        .iter()
        .map(|name| {
            let timestamps: Vec<i64> = (0..20).map(|i| 1_000_000 + i * period).collect();
            Channel::new(
                name.to_string(),
                "unit".to_string(),
                ChannelData::from_tsc(timestamps, vec![0; 20], 20),
            )
        })
        .collect();
    Lap::new(LapInfo::new(idx, 0, 0), channels)
}

fn run_data(laps: Vec<Lap>, channel_names: Vec<String>) -> RunData {
    RunData::new(
        "WT-20".to_string(),
        "ARA_1-0-0".to_string(),
        "Q3".to_string(),
        "AU-RS3-R5-S-S".to_string(),
        "017".to_string(),
        DateTime {
            date: Date { year: 2020, month: 11, day: 14 },
            time: Time { hour: 16, minute: 49, second: 39, nanosecond: 0 },
        },
        channel_names,
        laps,
    )
}

#[test]
fn run_data_rundata_test() {
    let names: Vec<&str> = CHANNELS.iter().map(|(name, _)| *name).chain(["posGearDSG"]).collect();
    let channel_names: Vec<String> = names.iter().map(|n| n.to_string()).collect();
    let laps = (0..4).map(|i| lap_of(i, &names, 10_000)).collect();
    let run_data = run_data(laps, channel_names.clone());

    assert_eq!("WT-20", run_data.championship());
    assert_eq!("ARA_1-0-0", run_data.track());
    assert_eq!("Q3", run_data.venue_type());
    assert_eq!("AU-RS3-R5-S-S", run_data.vehicle());
    assert_eq!("017", run_data.racer());
    assert_eq!(Date { year: 2020, month: 11, day: 14 }, run_data.datetime().date);
    assert_eq!(
        Time { hour: 16, minute: 49, second: 39, nanosecond: 0 },
        run_data.datetime().time
    );

    assert_eq!(&channel_names, run_data.channel_names());
    for lap in run_data.laps() {
        assert_eq!(channel_names, lap.channel_names());
    }

    assert_eq!(40, run_data.number_of_channels());
    assert_eq!(4, run_data.number_of_laps());
}

#[test]
fn rundata_rundata_test() {
    let _run_data = run_data(Vec::new(), Vec::new());
}

#[test]
fn run_data_has_the_rate_of_its_laps() {
    let none = run_data(Vec::new(), Vec::new());
    assert!(none.is_uniform());
    assert_eq!(0, none.frequency());

    let same =
        run_data(vec![lap_of(0, &["a", "b"], 10_000), lap_of(1, &["a"], 10_000)], Vec::new());
    assert!(same.is_uniform());
    assert_eq!(100, same.frequency());

    let mixed =
        run_data(vec![lap_of(0, &["a"], 10_000), lap_of(1, &["a"], 20_000)], Vec::new());
    assert!(!mixed.is_uniform());
}

#[test]
fn loader_asks_for_everything_in_order() {
    let mut file = File {
        laps: vec![(0, 10), (10, 20)],
        channels: vec![("a", "V"), ("b", "A"), ("c", "C")],
        gps: vec![("g0", "m"), ("g1", "s")],
        gps_raw: vec![("r0", "#")],
        fails_at: None,
        asked: Vec::new(),
    };
    let run = load(&mut file, "run.xrk", 3).unwrap();
    let name = |kind, channel| Request::ChannelName { kind, channel };
    let unit = |kind, channel| Request::ChannelUnit { kind, channel };
    assert_eq!(
        vec![
            Request::LapCount,
            Request::LapInfo { lap: 0 },
            Request::LapInfo { lap: 1 },
            Request::ChannelCount { kind: ChannelKind::Regular },
            Request::ChannelCount { kind: ChannelKind::Gps },
            Request::ChannelCount { kind: ChannelKind::GpsRaw },
            name(ChannelKind::Regular, 0),
            name(ChannelKind::Regular, 1),
            name(ChannelKind::Regular, 2),
            name(ChannelKind::Gps, 0),
            name(ChannelKind::Gps, 1),
            unit(ChannelKind::Regular, 0),
            unit(ChannelKind::Regular, 1),
            unit(ChannelKind::Regular, 2),
            unit(ChannelKind::Gps, 0),
            unit(ChannelKind::Gps, 1),
        ],
        file.asked
    );
    assert_eq!("run.xrk", run.path());
    assert_eq!(3, run.idx());
    assert_eq!(2, run.number_of_laps());
    assert_eq!(&vec![LapInfo::new(0, 0, 10), LapInfo::new(1, 10, 20)], run.info_of_laps());
    assert_eq!(5, run.number_of_channels());
    assert_eq!(3, run.channels_count());
    assert_eq!(2, run.gps_channels_count());
    assert_eq!(1, run.gps_raw_channels_count());
    assert_eq!(&vec!["a", "b", "c", "g0", "g1"], run.channel_names());
    assert_eq!(&vec!["V", "A", "C", "m", "s"], run.channel_units());
}

#[test]
fn loader_takes_a_file_without_position_channels() {
    let mut file = File {
        laps: vec![(0, 10)],
        channels: vec![("a", "V")],
        gps: vec![],
        gps_raw: vec![],
        fails_at: None,
        asked: Vec::new(),
    };
    let run = load(&mut file, "run.xrk", 1).unwrap();
    assert_eq!(1, run.number_of_channels());
    assert_eq!(0, run.gps_channels_count());
    assert_eq!(0, run.gps_raw_channels_count());
    assert_eq!(&vec!["a"], run.channel_names());
}

#[test]
fn loader_wraps_the_index_of_position_channels() {
    // more position channels than recorded ones: the index starts over
    let mut file = File {
        laps: vec![(0, 10)],
        channels: vec![("a", "V"), ("b", "A")],
        gps: vec![("g0", "m"), ("g1", "s"), ("g2", "t")],
        gps_raw: vec![],
        fails_at: None,
        asked: Vec::new(),
    };
    let run = load(&mut file, "run.xrk", 1).unwrap();
    assert_eq!(5, run.number_of_channels());
    assert_eq!(&vec!["a", "b", "g0", "g1", "g0"], run.channel_names());
    assert_eq!(&vec!["V", "A", "m", "s", "m"], run.channel_units());
}

#[test]
fn loader_stops_where_the_decoder_fails() {
    let failing = [
        Request::LapCount,
        Request::LapInfo { lap: 1 },
        Request::ChannelCount { kind: ChannelKind::Regular },
        Request::ChannelCount { kind: ChannelKind::Gps },
        Request::ChannelCount { kind: ChannelKind::GpsRaw },
        Request::ChannelName { kind: ChannelKind::Regular, channel: 1 },
        Request::ChannelName { kind: ChannelKind::Gps, channel: 0 },
        Request::ChannelUnit { kind: ChannelKind::Regular, channel: 0 },
        Request::ChannelUnit { kind: ChannelKind::Gps, channel: 1 },
    ];
    for request in failing {
        let mut file = File {
            laps: vec![(0, 10), (10, 20)],
            channels: vec![("a", "V"), ("b", "A")],
            gps: vec![("g0", "m"), ("g1", "s")],
            gps_raw: vec![("r0", "#")],
            fails_at: Some(request),
            asked: Vec::new(),
        };
        assert_eq!(Err(XdrkError::DecoderFailed), load(&mut file, "run.xrk", 1));
        assert_eq!(Some(&request), file.asked.last());
    }
}

#[test]
fn loader_needs_a_lap_and_a_channel() {
    let file = |laps: Vec<(i64, i64)>, channels: Vec<(&'static str, &'static str)>| File {
        laps,
        channels,
        gps: vec![("g0", "m")],
        gps_raw: vec![],
        fails_at: None,
        asked: Vec::new(),
    };
    assert_eq!(Err(XdrkError::NoData), load(&mut file(vec![], vec![("a", "V")]), "run.xrk", 1));
    assert_eq!(Err(XdrkError::NoData), load(&mut file(vec![(0, 1)], vec![]), "run.xrk", 1));
}

#[test]
fn loader_that_failed_has_no_run() {
    let mut loader = RunLoader::new("run.xrk".to_string(), 1);
    assert_eq!(Stage::LapCount, loader.stage());
    assert_eq!(Some(Request::LapCount), loader.request());
    assert_eq!(Ok(()), loader.count_reply(1));
    assert_eq!(Stage::LapInfo, loader.stage());
    assert_eq!(Err(XdrkError::DecoderFailed), loader.lap_reply(0, 5, 6));
    assert_eq!(Stage::Failed, loader.stage());
    assert_eq!(None, loader.request());
    assert_eq!(None, loader.finish());

    let unfinished = RunLoader::new("run.xrk".to_string(), 1);
    assert_eq!(None, unfinished.finish());
}

#[test]
fn run_checks_indices_before_the_decoder_is_asked() {
    let run = load(&mut xrk(), "run.xrk", 1).unwrap();
    let bad = Err(XdrkError::InvalidInput);
    assert_eq!(Err(XdrkError::InvalidInput), run.lap_info(5));
    assert_eq!(Err(XdrkError::InvalidInput), run.channel_name(50));
    assert_eq!(Err(XdrkError::InvalidInput), run.channel_unit(50));
    assert_eq!(bad, run.channel_samples_count(39));
    assert_eq!(bad, run.channel_samples(39, 10));
    assert_eq!(bad, run.lap_channel_samples_count(5, 0));
    assert_eq!(bad, run.lap_channel_samples_count(0, 39));
    assert_eq!(bad, run.lap_channel_samples(5, 0, 10));
    assert_eq!(bad, run.gps_channel_name(11));
    assert_eq!(bad, run.gps_channel_unit(11));
    assert_eq!(bad, run.gps_channel_samples_count(11));
    assert_eq!(bad, run.gps_channel_samples(11, 10));
    assert_eq!(bad, run.lap_gps_channel_samples_count(5, 0));
    assert_eq!(bad, run.lap_gps_channel_samples(0, 11, 10));
    assert_eq!(bad, run.gps_raw_channel_name(9));
    assert_eq!(bad, run.gps_raw_channel_unit(9));
    assert_eq!(bad, run.gps_raw_channel_samples_count(9));
    assert_eq!(bad, run.gps_raw_channel_samples(9, 10));
    assert_eq!(bad, run.lap_gps_raw_channel_samples_count(5, 8));
    assert_eq!(bad, run.lap_gps_raw_channel_samples(4, 9, 10));
    assert!(run.has(ChannelKind::GpsRaw, 8, Some(4)));
    assert!(!run.has(ChannelKind::GpsRaw, 8, Some(5)));
    assert!(!run.has(ChannelKind::Gps, 11, None));
}

#[test]
fn channel_data_goes_to_the_kind_of_the_channel() {
    let run = load(&mut xrk(), "run.xrk", 1).unwrap();
    assert_eq!(Ok(sample_count(ChannelKind::Regular, 0, None)), run.channel_data(0, None));
    assert_eq!(Ok(sample_count(ChannelKind::Regular, 38, Some(4))), run.channel_data(38, Some(4)));
    assert_eq!(Ok(sample_count(ChannelKind::Gps, 0, None)), run.channel_data(39, None));
    assert_eq!(Ok(sample_count(ChannelKind::Gps, 10, Some(2))), run.channel_data(49, Some(2)));
    // beyond the channels of the run the index is taken modulo the number
    // of recorded channels
    assert_eq!(Err(XdrkError::InvalidInput), run.channel_data(50, None));
    assert_eq!(Ok(sample_count(ChannelKind::Gps, 0, None)), run.channel_data(78, None));
    assert_eq!(Err(XdrkError::InvalidInput), run.channel_data(0, Some(5)));
    assert_eq!(Err(XdrkError::InvalidInput), run.channel_data(39, Some(5)));
}

#[test]
fn run_puts_channels_and_laps_together() {
    let run = load(&mut xrk(), "run.xrk", 1).unwrap();
    let data = ChannelData::from_tsc(vec![1, 2, 3], vec![4, 5, 6], 3);
    let channel = run.channel(16, data.clone()).unwrap();
    assert_eq!("pBrakeF", channel.name());
    assert_eq!("bar", channel.unit());
    assert_eq!(&data, channel.data());
    assert_eq!(Err(XdrkError::InvalidInput), run.channel(50, data.clone()));

    let lap = run.lap(2, vec![channel.clone()]).unwrap();
    assert_eq!(2, lap.idx());
    assert_eq!(336_179_000, lap.start());
    assert_eq!(134_718_000, lap.time());
    assert_eq!(vec!["pBrakeF".to_string()], lap.channel_names());
    assert_eq!(Err(XdrkError::InvalidInput), run.lap(5, vec![channel]));
}

#[test]
fn run_reads_when_it_was_recorded() {
    let run = load(&mut xrk(), "run.xrk", 1).unwrap();
    assert_eq!(Err(XdrkError::DecoderFailed), run.datetime(None));
    let tm = Tm {
        tm_sec: 0,
        tm_min: 0,
        tm_hour: 0,
        tm_mday: 31,
        tm_mon: 1,
        tm_year: 121,
        tm_wday: 0,
        tm_yday: 0,
        tm_isdst: 0,
    };
    assert_eq!(Err(XdrkError::InvalidDate), run.datetime(Some(tm)));
}

#[test]
fn replies_of_the_decoder_are_read() {
    assert_eq!(Ok(1), positive_count(1));
    assert_eq!(Ok(i32::MAX as usize), positive_count(i32::MAX));
    assert_eq!(Err(XdrkError::NoData), positive_count(0));
    assert_eq!(Err(XdrkError::DecoderFailed), positive_count(-1));
    assert_eq!(Err(XdrkError::DecoderFailed), positive_count(i32::MIN));
    assert_eq!(Ok(0), plain_count(0));
    assert_eq!(Ok(11), plain_count(11));
    assert_eq!(Err(XdrkError::DecoderFailed), plain_count(-1));
    assert_eq!(Ok(LapInfo::new(3, 10, 20)), lap_reply(3, 1, 10, 20));
    assert_eq!(Err(XdrkError::DecoderFailed), lap_reply(3, 0, 10, 20));
    assert_eq!(Err(XdrkError::DecoderFailed), lap_reply(3, -1, 10, 20));
    assert_eq!(Err(XdrkError::DecoderFailed), lap_reply(3, 2, 10, 20));
    assert_eq!(Ok("rpm".to_string()), text_reply(Some("rpm".to_string())));
    assert_eq!(Ok("".to_string()), text_reply(Some("".to_string())));
    assert_eq!(Err(XdrkError::DecoderFailed), text_reply(None));
}

#[test]
fn samples_are_taken_only_if_all_of_them_came() {
    let data = samples_reply(3, 3, vec![1, 2, 3], vec![4, 5, 6]).unwrap();
    assert_eq!(&vec![1i64, 2, 3], data.timestamps());
    assert_eq!(&vec![4i64, 5, 6], data.samples());
    let bad = Err(XdrkError::DecoderFailed);
    assert_eq!(bad, samples_reply(2, 3, vec![1, 2, 3], vec![4, 5, 6]));
    assert_eq!(bad, samples_reply(0, 3, vec![1, 2, 3], vec![4, 5, 6]));
    assert_eq!(bad, samples_reply(-3, 3, vec![1, 2, 3], vec![4, 5, 6]));
    assert_eq!(bad, samples_reply(3, 3, vec![1, 2], vec![4, 5, 6]));
    assert_eq!(bad, samples_reply(3, 3, vec![1, 2, 3], vec![4, 5, 6, 7]));
    assert_eq!(bad, samples_reply(2, 2, vec![1, 2, 3], vec![4, 5, 6]));
    assert!(samples_reply(0, 0, vec![], vec![]).unwrap().is_empty());
}

#[test]
fn samples_of_a_channel_are_fetched_once() {
    let mut registry = xdrk::registry::Registry::new();
    let file = XdrkFile::opened(&mut registry, "run.xrk", 1).unwrap();
    let mut channel = storage::Channel::new("fEngRpm".to_string(), 15, "rpm".to_string(), &file);
    assert_eq!("fEngRpm", channel.name());
    assert_eq!(15, channel.idx());
    assert_eq!("rpm", channel.unit());
    assert_eq!(&file, channel.file());
    assert_eq!(Some(sample_count(ChannelKind::Regular, 15, None)), channel.request());

    let first = ChannelData::from_tsc(vec![1, 2], vec![3, 4], 2);
    let second = ChannelData::from_tsc(vec![5], vec![6], 1);
    assert_eq!(&first, channel.data(first.clone()));
    assert_eq!(None, channel.request());
    assert_eq!(&first, channel.data(second));
}

#[test]
fn an_index_is_checked_against_the_count_of_the_decoder() {
    assert_eq!(Ok(0), checked_index(0, 1));
    assert_eq!(Ok(4), checked_index(4, 5));
    assert_eq!(Err(XdrkError::InvalidInput), checked_index(5, 5));
    assert_eq!(Err(XdrkError::InvalidInput), checked_index(usize::MAX, i32::MAX));
    assert_eq!(Err(XdrkError::NoData), checked_index(0, 0));
    assert_eq!(Err(XdrkError::DecoderFailed), checked_index(0, -1));
}

#[test]
fn a_channel_is_routed_to_its_kind() {
    assert_eq!((ChannelKind::Regular, 0), routed(0, 39));
    assert_eq!((ChannelKind::Regular, 38), routed(38, 39));
    assert_eq!((ChannelKind::Gps, 0), routed(39, 39));
    assert_eq!((ChannelKind::Gps, 10), routed(49, 39));
    assert_eq!((ChannelKind::Gps, 0), routed(78, 39));
    assert_eq!((ChannelKind::Gps, 0), routed(5, 1));
}
