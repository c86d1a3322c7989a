use xdrk::Channel;
use xdrk::ChannelData;
use xdrk::Lap;
use xdrk::LapInfo;

fn channel(name: &str, period: i64, count: usize) -> Channel {
    let timestamps: Vec<i64> = (0..count as i64).map(|i| 201_243_000 + i * period).collect();
    Channel::new(
        name.to_string(),
        "unit".to_string(),
        ChannelData::from_tsc(timestamps, vec![0; count], count),
    )
}

#[test]
fn lap_info_test() {
    let lap_info = LapInfo::new(2, 145_156_000, 133_135_000);
    assert_eq!(2, lap_info.idx());
    assert_eq!(3, lap_info.number());
    assert_eq!(145_156_000, lap_info.start());
    assert_eq!(133_135_000, lap_info.time());
    assert_eq!(145.156, lap_info.start() as f64 / 1e6);
    assert_eq!(133.135, lap_info.time() as f64 / 1e6);
}

#[test]
fn lap_test() {
    let names = ["Logger Temperature", "External Voltage", "pManifoldScrut", "tManifoldScrut"];
    let channels = vec![
        channel(names[0], 1_000_000, 134),
        channel(names[1], 1_000_000, 134),
        channel(names[2], 10_000, 13_493),
        channel(names[3], 100_000, 1_349),
    ];
    let lap = Lap::new(LapInfo::new(1, 201_243_000, 134_936_000), channels);
    assert_eq!(1, lap.idx());
    assert_eq!(2, lap.number());
    assert_eq!(201_243_000, lap.start());
    assert_eq!(134_936_000, lap.time());

    let channel_names: Vec<String> = names.iter().map(|n| n.to_string()).collect();
    assert_eq!(channel_names, lap.channel_names());

    let p_manifold_scrut = lap.channel("pManifoldScrut").unwrap();
    assert_eq!("pManifoldScrut", p_manifold_scrut.name());
    assert_eq!(100, p_manifold_scrut.frequency());

    assert_eq!(100, lap.max_frequency());
    let other = Lap::new(LapInfo::new(2, 336_179_000, 134_718_000), Vec::new());
    assert_ne!(lap, other);

    let lap = Lap::new(LapInfo::new(0, 0, 0), Vec::new());
    assert_eq!(0, lap.max_frequency());
}

#[test]
fn lap_gives_what_it_was_made_of() {
    let info = LapInfo::new(3, 10, 20);
    let lap = Lap::new(info, vec![channel("a", 1_000, 5)]);
    assert_eq!(&info, lap.info());
    assert_eq!(1, lap.data().len());
    assert_eq!("a", lap.data()[0].name());
}

#[test]
fn channel_of_a_lap_is_found_by_its_name() {
    let lap = Lap::new(
        LapInfo::new(0, 0, 0),
        vec![channel("a", 1_000, 5), channel("b", 10_000, 5), channel("a", 100_000, 5)],
    );
    assert_eq!(1000, lap.channel("a").unwrap().frequency());
    assert_eq!(100, lap.channel("b").unwrap().frequency());
    assert!(lap.channel("c").is_none());
    assert!(lap.channel("").is_none());
    assert!(lap.channel("A").is_none());
    assert!(Lap::new(LapInfo::new(0, 0, 0), Vec::new()).channel("a").is_none());
}

#[test]
fn max_frequency_is_the_highest_rate_of_any_channel() {
    let lap = |periods: &[i64]| {
        Lap::new(
            LapInfo::new(0, 0, 0),
            periods.iter().map(|p| channel("c", *p, 5)).collect(),
        )
    };
    assert_eq!(1000, lap(&[1_000, 10_000, 100_000]).max_frequency());
    assert_eq!(1000, lap(&[100_000, 10_000, 1_000]).max_frequency());
    assert_eq!(50, lap(&[200_000, 20_000, 1_000_000]).max_frequency());
    assert_eq!(5, lap(&[200_000]).max_frequency());
    // channels without a rate
    let empty = Lap::new(LapInfo::new(0, 0, 0), vec![Channel::default(), Channel::default()]);
    assert_eq!(0, empty.max_frequency());
}
