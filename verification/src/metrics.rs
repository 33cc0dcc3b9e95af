//! The gauge values that one frame stands for.
//!
//! The library works out which gauges a frame sets and to what; handing the
//! values to a metrics store is left to the caller.

use crate::aqi::{
    aqi_of, calculate_aqi, Aqi, BreakpointTable, AQI_PM10_0_BREAKPOINTS, AQI_PM2_5_BREAKPOINTS,
};
use crate::frame::PmsData;
use vstd::prelude::*;

verus! {

/// The families of gauges. Each family has one gauge for each particle size
/// that it is set for, told apart by the label `particle_size`.
#[derive(Clone, Copy, Debug, PartialEq, Eq, Structural)]
pub enum Metric {
    /// Mass concentration under the standard calibration factor.
    ParticleConcentrationStandard,
    /// Mass concentration under atmospheric conditions.
    ParticleConcentrationEnvironment,
    /// Number of particles with a diameter beyond the particle size.
    ParticleCount,
    /// Air quality index.
    AirQualityIndex,
}

/// The particle sizes that label the gauges.
#[derive(Clone, Copy, Debug, PartialEq, Eq, Structural)]
pub enum ParticleSize {
    Pm0_3,
    Pm0_5,
    Pm1_0,
    Pm2_5,
    Pm5_0,
    Pm10_0,
}

/// The value that a gauge is set to.
#[derive(Clone, Copy, Debug, PartialEq, Eq, Structural)]
pub enum Reading {
    /// A field of the frame as it is.
    Measured(u16),
    /// An air quality index worked out from a field of the frame.
    Index(Aqi),
}

/// One gauge and the value that it is set to.
#[derive(Clone, Copy, Debug, PartialEq, Eq, Structural)]
pub struct GaugeUpdate {
    pub metric: Metric,
    pub particle_size: ParticleSize,
    pub value: Reading,
}

impl Metric {
    /// The name of the gauge family.
    pub fn name(&self) -> (name: &'static str)
        ensures
            name@ == match *self {
                Metric::ParticleConcentrationStandard => "particle_concentration_standard"@,
                Metric::ParticleConcentrationEnvironment => "particle_concentration_environment"@,
                Metric::ParticleCount => "particle_count"@,
                Metric::AirQualityIndex => "air_quality_index"@,
            },
    {
        match self {
            Metric::ParticleConcentrationStandard => "particle_concentration_standard",
            Metric::ParticleConcentrationEnvironment => "particle_concentration_environment",
            Metric::ParticleCount => "particle_count",
            Metric::AirQualityIndex => "air_quality_index",
        }
    }
}

impl ParticleSize {
    /// The value of the label `particle_size`: the size in micrometres.
    pub fn label(&self) -> (label: &'static str)
        ensures
            label@ == match *self {
                ParticleSize::Pm0_3 => "0.3"@,
                ParticleSize::Pm0_5 => "0.5"@,
                ParticleSize::Pm1_0 => "1.0"@,
                ParticleSize::Pm2_5 => "2.5"@,
                ParticleSize::Pm5_0 => "5.0"@,
                ParticleSize::Pm10_0 => "10.0"@,
            },
    {
        match self {
            ParticleSize::Pm0_3 => "0.3",
            ParticleSize::Pm0_5 => "0.5",
            ParticleSize::Pm1_0 => "1.0",
            ParticleSize::Pm2_5 => "2.5",
            ParticleSize::Pm5_0 => "5.0",
            ParticleSize::Pm10_0 => "10.0",
        }
    }
}

/// The air quality index of a concentration that the sensor gives in whole
/// micrograms per cubic metre.
pub open spec fn sensor_aqi(rows: Seq<(u32, u32)>, micrograms: u16) -> Aqi {
    let index = aqi_of(rows, micrograms as int * 1000);
    Aqi { numer: index.numer as i64, denom: index.denom as i64 }
}

/// A gauge set to a field of the frame.
pub open spec fn measured(metric: Metric, particle_size: ParticleSize, value: u16) -> GaugeUpdate {
    GaugeUpdate { metric, particle_size, value: Reading::Measured(value) }
}

/// The gauges that a frame sets, in the order in which they are set: the
/// three standard concentrations, the three environmental concentrations, the
/// six particle counts, and the air quality index of the standard PM2.5 and
/// PM10 concentrations.
pub open spec fn gauge_updates(data: PmsData) -> Seq<GaugeUpdate> {
    seq![
        measured(Metric::ParticleConcentrationStandard, ParticleSize::Pm1_0, data.pm1_cf1),
        measured(Metric::ParticleConcentrationStandard, ParticleSize::Pm2_5, data.pm2_5_cf1),
        measured(Metric::ParticleConcentrationStandard, ParticleSize::Pm10_0, data.pm10_cf1),
        measured(Metric::ParticleConcentrationEnvironment, ParticleSize::Pm1_0, data.pm1_atmo),
        measured(Metric::ParticleConcentrationEnvironment, ParticleSize::Pm2_5, data.pm2_5_atmo),
        measured(Metric::ParticleConcentrationEnvironment, ParticleSize::Pm10_0, data.pm10_atmo),
        measured(Metric::ParticleCount, ParticleSize::Pm0_3, data.pm0_3_count),
        measured(Metric::ParticleCount, ParticleSize::Pm0_5, data.pm0_5_count),
        measured(Metric::ParticleCount, ParticleSize::Pm1_0, data.pm1_0_count),
        measured(Metric::ParticleCount, ParticleSize::Pm2_5, data.pm2_5_count),
        measured(Metric::ParticleCount, ParticleSize::Pm5_0, data.pm5_0_count),
        measured(Metric::ParticleCount, ParticleSize::Pm10_0, data.pm10_0_count),
        GaugeUpdate {
            metric: Metric::AirQualityIndex,
            particle_size: ParticleSize::Pm2_5,
            value: Reading::Index(sensor_aqi(AQI_PM2_5_BREAKPOINTS@, data.pm2_5_cf1)),
        },
        GaugeUpdate {
            metric: Metric::AirQualityIndex,
            particle_size: ParticleSize::Pm10_0,
            value: Reading::Index(sensor_aqi(AQI_PM10_0_BREAKPOINTS@, data.pm10_cf1)),
        },
    ]
}

fn set_measured(metric: Metric, particle_size: ParticleSize, value: u16) -> (update: GaugeUpdate)
    ensures
        update == measured(metric, particle_size, value),
{
    GaugeUpdate { metric, particle_size, value: Reading::Measured(value) }
}

fn set_index(particle_size: ParticleSize, table: &BreakpointTable, micrograms: u16) -> (update:
    GaugeUpdate)
    ensures
        update == (GaugeUpdate {
            metric: Metric::AirQualityIndex,
            particle_size,
            value: Reading::Index(sensor_aqi(table@, micrograms)),
        }),
{
    let index = calculate_aqi(table, micrograms as i64 * 1000);
    GaugeUpdate { metric: Metric::AirQualityIndex, particle_size, value: Reading::Index(index) }
}

/// Works out the gauges that a frame sets.
///
/// Every frame sets all fourteen gauges anew: each value takes the place of
/// the gauge's earlier one.
pub fn update_metrics(data: &PmsData) -> (updates: Vec<GaugeUpdate>)
    ensures
        updates@ == gauge_updates(*data),
{
    let mut updates: Vec<GaugeUpdate> = Vec::new();
    let standard = Metric::ParticleConcentrationStandard;
    updates.push(set_measured(standard, ParticleSize::Pm1_0, data.pm1_cf1));
    updates.push(set_measured(standard, ParticleSize::Pm2_5, data.pm2_5_cf1));
    updates.push(set_measured(standard, ParticleSize::Pm10_0, data.pm10_cf1));
    let environment = Metric::ParticleConcentrationEnvironment;
    updates.push(set_measured(environment, ParticleSize::Pm1_0, data.pm1_atmo));
    updates.push(set_measured(environment, ParticleSize::Pm2_5, data.pm2_5_atmo));
    updates.push(set_measured(environment, ParticleSize::Pm10_0, data.pm10_atmo));
    let count = Metric::ParticleCount;
    updates.push(set_measured(count, ParticleSize::Pm0_3, data.pm0_3_count));
    updates.push(set_measured(count, ParticleSize::Pm0_5, data.pm0_5_count));
    updates.push(set_measured(count, ParticleSize::Pm1_0, data.pm1_0_count));
    updates.push(set_measured(count, ParticleSize::Pm2_5, data.pm2_5_count));
    updates.push(set_measured(count, ParticleSize::Pm5_0, data.pm5_0_count));
    updates.push(set_measured(count, ParticleSize::Pm10_0, data.pm10_0_count));
    updates.push(set_index(ParticleSize::Pm2_5, &BreakpointTable::pm2_5(), data.pm2_5_cf1));
    updates.push(set_index(ParticleSize::Pm10_0, &BreakpointTable::pm10_0(), data.pm10_cf1));
    assert(updates@ =~= gauge_updates(*data));
    updates
}

} // verus!
