use pms7003::aqi::{calculate_aqi, Aqi, BreakpointTable};
use pms7003::frame::PmsData;
use pms7003::metrics::{update_metrics, GaugeUpdate, Metric, ParticleSize, Reading};

fn sample() -> PmsData {
    PmsData {
        frame_length: 28,
        pm1_cf1: 3,
        pm2_5_cf1: 37,
        pm10_cf1: 100,
        pm1_atmo: 5,
        pm2_5_atmo: 6,
        pm10_atmo: 7,
        pm0_3_count: 720,
        pm0_5_count: 184,
        pm1_0_count: 25,
        pm2_5_count: 8,
        pm5_0_count: 4,
        pm10_0_count: 2,
        reserved: 38656,
        checksum: 783,
    }
}

fn measured(metric: Metric, particle_size: ParticleSize, value: u16) -> GaugeUpdate {
    GaugeUpdate { metric, particle_size, value: Reading::Measured(value) }
}

#[test]
fn a_frame_sets_fourteen_gauges_in_order() {
    let standard = Metric::ParticleConcentrationStandard;
    let environment = Metric::ParticleConcentrationEnvironment;
    let count = Metric::ParticleCount;
    let expected = vec![
        measured(standard, ParticleSize::Pm1_0, 3),
        measured(standard, ParticleSize::Pm2_5, 37),
        measured(standard, ParticleSize::Pm10_0, 100),
        measured(environment, ParticleSize::Pm1_0, 5),
        measured(environment, ParticleSize::Pm2_5, 6),
        measured(environment, ParticleSize::Pm10_0, 7),
        measured(count, ParticleSize::Pm0_3, 720),
        measured(count, ParticleSize::Pm0_5, 184),
        measured(count, ParticleSize::Pm1_0, 25),
        measured(count, ParticleSize::Pm2_5, 8),
        measured(count, ParticleSize::Pm5_0, 4),
        measured(count, ParticleSize::Pm10_0, 2),
        GaugeUpdate {
            metric: Metric::AirQualityIndex,
            particle_size: ParticleSize::Pm2_5,
            value: Reading::Index(Aqi { numer: 49 * 15 + 101 * 199, denom: 199 }),
        },
        GaugeUpdate {
            metric: Metric::AirQualityIndex,
            particle_size: ParticleSize::Pm10_0,
            value: Reading::Index(Aqi { numer: 49 * 450 + 51 * 990, denom: 990 }),
        },
    ];
    assert_eq!(update_metrics(&sample()), expected);
}

#[test]
fn index_gauges_come_from_the_standard_concentrations() {
    let data = sample();
    let updates = update_metrics(&data);
    assert_eq!(
        updates[12].value,
        Reading::Index(calculate_aqi(&BreakpointTable::pm2_5(), data.pm2_5_cf1 as i64 * 1000))
    );
    assert_eq!(
        updates[13].value,
        Reading::Index(calculate_aqi(&BreakpointTable::pm10_0(), data.pm10_cf1 as i64 * 1000))
    );
}

#[test]
fn largest_readings_saturate_the_index() {
    let mut data = sample();
    data.pm2_5_cf1 = u16::MAX;
    data.pm10_cf1 = u16::MAX;
    let updates = update_metrics(&data);
    assert_eq!(updates[1].value, Reading::Measured(u16::MAX));
    assert_eq!(updates[12].value, Reading::Index(Aqi { numer: 500, denom: 1 }));
    assert_eq!(updates[13].value, Reading::Index(Aqi { numer: 500, denom: 1 }));
}

#[test]
fn zero_readings_have_index_zero() {
    let mut data = sample();
    data.pm2_5_cf1 = 0;
    data.pm10_cf1 = 0;
    let updates = update_metrics(&data);
    assert_eq!(updates[12].value, Reading::Index(Aqi { numer: 0, denom: 1 }));
    assert_eq!(updates[13].value, Reading::Index(Aqi { numer: 0, denom: 1 }));
}

#[test]
fn gauge_families_have_their_names() {
    assert_eq!(Metric::ParticleConcentrationStandard.name(), "particle_concentration_standard");
    assert_eq!(
        Metric::ParticleConcentrationEnvironment.name(),
        "particle_concentration_environment"
    );
    assert_eq!(Metric::ParticleCount.name(), "particle_count");
    assert_eq!(Metric::AirQualityIndex.name(), "air_quality_index");
}

#[test]
fn particle_sizes_have_their_labels() {
    assert_eq!(ParticleSize::Pm0_3.label(), "0.3");
    assert_eq!(ParticleSize::Pm0_5.label(), "0.5");
    assert_eq!(ParticleSize::Pm1_0.label(), "1.0");
    assert_eq!(ParticleSize::Pm2_5.label(), "2.5");
    assert_eq!(ParticleSize::Pm5_0.label(), "5.0");
    assert_eq!(ParticleSize::Pm10_0.label(), "10.0");
}
