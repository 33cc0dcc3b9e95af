//! The air quality index of a particle concentration.
//!
//! The index is found by linear interpolation in a table of concentration
//! breakpoints. All arithmetic is exact: concentrations are whole numbers of
//! nanograms per cubic metre, table bounds are whole tenths of a microgram per
//! cubic metre, and the index is handed back as a fraction.

use vstd::prelude::*;

verus! {

/// Number of rows of a breakpoint table, and of the table of index ranges.
pub const TABLE_LEN: usize = 7;

/// The largest index value: the upper end of the last index range.
pub const AQI_MAX: i64 = 500;

/// The index ranges `(low, high)`, one for each row of a breakpoint table.
pub const AQI_RANGES: [(u32, u32); 7] = [
    (0, 50),
    (51, 100),
    (101, 150),
    (151, 200),
    (201, 300),
    (301, 400),
    (401, 500),
];

/// Breakpoints `(low, high)` of the PM2.5 mass concentration, in tenths of a
/// microgram per cubic metre.
pub const AQI_PM2_5_BREAKPOINTS: [(u32, u32); 7] = [
    (0, 120),
    (121, 354),
    (355, 554),
    (555, 1504),
    (1505, 2504),
    (2505, 3504),
    (3505, 5004),
];

/// Breakpoints `(low, high)` of the PM10 mass concentration, in tenths of a
/// microgram per cubic metre.
pub const AQI_PM10_0_BREAKPOINTS: [(u32, u32); 7] = [
    (0, 540),
    (550, 1540),
    (1550, 2540),
    (2550, 3540),
    (3550, 4240),
    (4250, 5040),
    (5050, 6040),
];

/// A fraction of two integers with a positive denominator.
pub struct Ratio {
    pub numer: int,
    pub denom: int,
}

/// An air quality index: the exact value `numer / denom`, with `denom`
/// positive. The fraction is not reduced.
#[derive(Clone, Copy, Debug, PartialEq, Eq, Structural)]
pub struct Aqi {
    pub numer: i64,
    pub denom: i64,
}

impl View for Aqi {
    type V = Ratio;

    open spec fn view(&self) -> Ratio {
        Ratio { numer: self.numer as int, denom: self.denom as int }
    }
}

/// The rows are those of a breakpoint table: seven ranges, each with its low
/// bound under its high bound, each wholly under the next.
pub open spec fn valid_breakpoints(rows: Seq<(u32, u32)>) -> bool {
    &&& rows.len() == TABLE_LEN
    &&& forall|i: int| 0 <= i < TABLE_LEN ==> (#[trigger] rows[i]).0 < rows[i].1
    &&& forall|i: int| 0 <= i < TABLE_LEN - 1 ==> (#[trigger] rows[i]).1 < rows[i + 1].0
}

/// A concentration in thousandths, rounded to tenths, halves away from zero.
pub open spec fn round_to_tenths(thousandths: int) -> int {
    if thousandths >= 0 {
        (thousandths + 50) / 100
    } else {
        -((50 - thousandths) / 100)
    }
}

/// The highest row at or under `top` whose low bound is under `tenths`; row 0
/// where there is none.
pub open spec fn bucket_under(rows: Seq<(u32, u32)>, tenths: int, top: int) -> int
    decreases top,
{
    if top <= 0 {
        0
    } else if rows[top].0 < tenths {
        top
    } else {
        bucket_under(rows, tenths, top - 1)
    }
}

/// The row in which a rounded concentration is interpolated: the highest row
/// whose low bound is under it, row 0 for a value at or under every low bound.
pub open spec fn bucket_of(rows: Seq<(u32, u32)>, tenths: int) -> int {
    bucket_under(rows, tenths, TABLE_LEN - 1)
}

/// The line through `(low, index low)` and `(high, index high)` of row
/// `index`, taken at `tenths`:
/// `(index high - index low) / (high - low) * (tenths - low) + index low`.
pub open spec fn interpolate(rows: Seq<(u32, u32)>, index: int, tenths: int) -> Ratio {
    let (low, high) = rows[index];
    let (index_low, index_high) = AQI_RANGES[index];
    Ratio {
        numer: (index_high - index_low) * (tenths - low) + index_low * (high - low),
        denom: high - low,
    }
}

/// The air quality index of a concentration given in thousandths of a
/// microgram per cubic metre: 0 for a concentration that is not positive;
/// else the interpolation at the concentration rounded to tenths, and 500
/// where that would be 500 or more.
pub open spec fn aqi_of(rows: Seq<(u32, u32)>, thousandths: int) -> Ratio {
    if thousandths <= 0 {
        Ratio { numer: 0, denom: 1 }
    } else {
        let tenths = round_to_tenths(thousandths);
        let line = interpolate(rows, bucket_of(rows, tenths), tenths);
        if line.numer >= AQI_MAX * line.denom {
            Ratio { numer: AQI_MAX as int, denom: 1 }
        } else {
            line
        }
    }
}

/// A table of concentration breakpoints: seven ascending ranges that do not
/// overlap, in tenths of a microgram per cubic metre, row by row beside
/// [`AQI_RANGES`].
#[derive(Clone, Copy, Debug)]
pub struct BreakpointTable {
    rows: [(u32, u32); 7],
}

impl BreakpointTable {
    /// The rows of the table.
    pub closed spec fn view(&self) -> Seq<(u32, u32)> {
        self.rows@
    }

    #[verifier::type_invariant]
    spec fn well_formed(&self) -> bool {
        valid_breakpoints(self.rows@)
    }

    /// Makes a table of `rows`, if they are ascending ranges that do not
    /// overlap.
    pub fn new(rows: [(u32, u32); 7]) -> (table: Option<Self>)
        ensures
            table is Some <==> valid_breakpoints(rows@),
            table matches Some(t) ==> t@ == rows@,
    {
        let mut row: usize = 0;
        while row < TABLE_LEN
            invariant
                row <= TABLE_LEN,
                forall|i: int| 0 <= i < row ==> (#[trigger] rows@[i]).0 < rows@[i].1,
                forall|i: int| 0 <= i < row - 1 ==> (#[trigger] rows@[i]).1 < rows@[i + 1].0,
            decreases TABLE_LEN - row,
        {
            if rows[row].0 >= rows[row].1 {
                return None;
            }
            if row > 0 && rows[row - 1].1 >= rows[row].0 {
                return None;
            }
            row = row + 1;
        }
        Some(BreakpointTable { rows })
    }

    /// The breakpoints of the PM2.5 mass concentration.
    pub fn pm2_5() -> (table: Self)
        ensures
            table@ == AQI_PM2_5_BREAKPOINTS@,
    {
        BreakpointTable { rows: AQI_PM2_5_BREAKPOINTS }
    }

    /// The breakpoints of the PM10 mass concentration.
    pub fn pm10_0() -> (table: Self)
        ensures
            table@ == AQI_PM10_0_BREAKPOINTS@,
    {
        BreakpointTable { rows: AQI_PM10_0_BREAKPOINTS }
    }

    /// The rows of the table, which are ascending and do not overlap.
    pub fn rows(&self) -> (rows: &[(u32, u32); 7])
        ensures
            rows@ == self@,
            valid_breakpoints(self@),
    {
        proof {
            use_type_invariant(self);
        }
        &self.rows
    }
}

/// Rounds a positive concentration in thousandths to tenths, halves upwards.
fn rounded_tenths(thousandths: i64) -> (tenths: i64)
    requires
        thousandths > 0,
    ensures
        tenths == round_to_tenths(thousandths as int),
        0 <= tenths <= thousandths,
{
    let whole: i64 = thousandths / 100;
    if thousandths % 100 >= 50 {
        whole + 1
    } else {
        whole
    }
}

/// Finds the row in which a rounded concentration is interpolated.
fn find_bucket(rows: &[(u32, u32); 7], tenths: i64) -> (index: usize)
    ensures
        index == bucket_of(rows@, tenths as int),
        index < TABLE_LEN,
{
    let mut index: usize = TABLE_LEN - 1;
    while index > 0 && rows[index].0 as i64 >= tenths
        invariant
            index < TABLE_LEN,
            bucket_of(rows@, tenths as int) == bucket_under(rows@, tenths as int, index as int),
        decreases index,
    {
        index = index - 1;
    }
    index
}

/// The air quality index of a concentration.
///
/// `thousandths` is the concentration in thousandths of a microgram per cubic
/// metre, that is in nanograms per cubic metre. A concentration that is not
/// positive has the index 0. Any other is rounded to tenths of a microgram,
/// halves upwards, and interpolated in the highest row of `breakpoints` whose
/// low bound is under the rounded value (in the first row, if there is none).
/// The index is at most 500: where the line gives more, 500 is returned.
pub fn calculate_aqi(breakpoints: &BreakpointTable, thousandths: i64) -> (aqi: Aqi)
    ensures
        aqi@ == aqi_of(breakpoints@, thousandths as int),
        aqi.denom > 0,
        aqi.numer <= AQI_MAX * aqi.denom,
        thousandths <= 0 ==> aqi.numer == 0,
{
    if thousandths <= 0 {
        return Aqi { numer: 0, denom: 1 };
    }
    let rows = breakpoints.rows();
    let tenths: i64 = rounded_tenths(thousandths);
    let index: usize = find_bucket(rows, tenths);
    let (low, high) = rows[index];
    let (index_low, index_high) = AQI_RANGES[index];
    let width: i64 = high as i64 - low as i64;
    let rise: i64 = index_high as i64 - index_low as i64;
    let run: i64 = tenths - low as i64;
    assert(0 <= rise <= 100);
    assert(0 <= index_low <= 500);
    assert(-0x1_0000_0000 <= run <= 0x7fff_ffff_ffff_ffff);
    assert(0 < width <= 0xffff_ffff);
    assert(-0x100_0000_0000 <= rise * run <= 0x80_0000_0000_0000_0000) by (nonlinear_arith)
        requires
            0 <= rise <= 100,
            -0x1_0000_0000 <= run <= 0x7fff_ffff_ffff_ffff,
    ;
    assert(0 <= index_low * width <= 0x200_0000_0000) by (nonlinear_arith)
        requires
            0 <= index_low <= 500,
            0 < width <= 0xffff_ffff,
    ;
    assert(AQI_MAX * width == 500 * width);
    let numer: i128 = rise as i128 * run as i128 + index_low as i128 * width as i128;
    if numer >= AQI_MAX as i128 * width as i128 {
        Aqi { numer: AQI_MAX, denom: 1 }
    } else {
        Aqi { numer: numer as i64, denom: width }
    }
}

/// The row in which a value is interpolated is a row of the table, its low
/// bound is under the value unless it is the first row, and no higher row has
/// its low bound under the value.
pub proof fn lemma_bucket_is_highest(rows: Seq<(u32, u32)>, tenths: int)
    requires
        valid_breakpoints(rows),
    ensures
        0 <= bucket_of(rows, tenths) < TABLE_LEN,
        bucket_of(rows, tenths) > 0 ==> rows[bucket_of(rows, tenths)].0 < tenths,
        forall|higher: int|
            bucket_of(rows, tenths) < higher < TABLE_LEN ==> (#[trigger] rows[higher]).0 >= tenths,
{
    reveal_with_fuel(bucket_under, 8);
}

/// The index is a fraction with a positive denominator and is never over
/// 500. With a table that starts at concentration 0 it is never negative.
pub proof fn lemma_aqi_in_range(rows: Seq<(u32, u32)>, thousandths: int)
    requires
        valid_breakpoints(rows),
    ensures
        aqi_of(rows, thousandths).denom > 0,
        aqi_of(rows, thousandths).numer <= AQI_MAX * aqi_of(rows, thousandths).denom,
        rows[0].0 == 0 ==> aqi_of(rows, thousandths).numer >= 0,
{
    if thousandths > 0 {
        let tenths = round_to_tenths(thousandths);
        let index = bucket_of(rows, tenths);
        lemma_bucket_is_highest(rows, tenths);
        let (low, high) = rows[index];
        let (index_low, index_high) = AQI_RANGES[index];
        if rows[0].0 == 0 {
            assert(tenths - low >= 0);
            assert((index_high - index_low) * (tenths - low) >= 0) by (nonlinear_arith)
                requires
                    index_high - index_low >= 0,
                    tenths - low >= 0,
            ;
            assert(index_low * (high - low) >= 0) by (nonlinear_arith)
                requires
                    index_low >= 0,
                    high - low > 0,
            ;
        }
    }
}

/// A concentration that is not positive has the index 0.
pub proof fn lemma_aqi_of_nothing(rows: Seq<(u32, u32)>, thousandths: int)
    requires
        thousandths <= 0,
    ensures
        aqi_of(rows, thousandths) == (Ratio { numer: 0, denom: 1 }),
{
}

/// A concentration that rounds to more than the first low bound of the table
/// has a positive index.
pub proof fn lemma_aqi_is_positive(rows: Seq<(u32, u32)>, thousandths: int)
    requires
        valid_breakpoints(rows),
        thousandths > 0,
        round_to_tenths(thousandths) > rows[0].0,
    ensures
        aqi_of(rows, thousandths).numer > 0,
        aqi_of(rows, thousandths).denom > 0,
{
    let tenths = round_to_tenths(thousandths);
    let index = bucket_of(rows, tenths);
    lemma_bucket_is_highest(rows, tenths);
    let (low, high) = rows[index];
    let (index_low, index_high) = AQI_RANGES[index];
    assert(tenths - low > 0);
    assert((index_high - index_low) * (tenths - low) > 0) by (nonlinear_arith)
        requires
            index_high - index_low > 0,
            tenths - low > 0,
    ;
    assert(index_low * (high - low) >= 0) by (nonlinear_arith)
        requires
            index_low >= 0,
            high - low > 0,
    ;
}

/// Saturation: a concentration that rounds to the high bound of the last row
/// or beyond has the index 500.
pub proof fn lemma_aqi_saturates(rows: Seq<(u32, u32)>, thousandths: int)
    requires
        valid_breakpoints(rows),
        thousandths > 0,
        round_to_tenths(thousandths) >= rows[TABLE_LEN - 1].1,
    ensures
        aqi_of(rows, thousandths) == (Ratio { numer: AQI_MAX as int, denom: 1 }),
{
    let tenths = round_to_tenths(thousandths);
    let (low, high) = rows[TABLE_LEN - 1];
    assert(bucket_of(rows, tenths) == TABLE_LEN - 1);
    assert(99 * (tenths - low) >= 99 * (high - low));
}

/// Two concentrations that round to the same tenth have the same index. So a
/// concentration at a breakpoint and one just beside it, within the same
/// tenth, are not told apart.
pub proof fn lemma_aqi_goes_by_tenths(rows: Seq<(u32, u32)>, one: int, other: int)
    requires
        one > 0,
        other > 0,
        round_to_tenths(one) == round_to_tenths(other),
    ensures
        aqi_of(rows, one) == aqi_of(rows, other),
{
}

/// At the high bound of a row the index is the high end of that row's index
/// range.
pub proof fn lemma_aqi_at_high_bound(rows: Seq<(u32, u32)>, row: int, thousandths: int)
    requires
        valid_breakpoints(rows),
        0 <= row < TABLE_LEN,
        thousandths > 0,
        round_to_tenths(thousandths) == rows[row].1,
    ensures
        aqi_of(rows, thousandths).numer == AQI_RANGES[row].1 * aqi_of(rows, thousandths).denom,
        aqi_of(rows, thousandths).denom > 0,
{
    let tenths = round_to_tenths(thousandths);
    lemma_rows_ascend(rows, row);
    assert(bucket_of(rows, tenths) == row) by {
        reveal_with_fuel(bucket_under, 8);
    }
    let (low, high) = rows[row];
    let (index_low, index_high) = AQI_RANGES[row];
    assert((index_high - index_low) * (high - low) + index_low * (high - low) == index_high * (high
        - low)) by (nonlinear_arith);
}

/// The low bounds of the rows above `row` are over its high bound, and those
/// of the rows at or under it are under its high bound.
proof fn lemma_rows_ascend(rows: Seq<(u32, u32)>, row: int)
    requires
        valid_breakpoints(rows),
        0 <= row < TABLE_LEN,
    ensures
        forall|i: int| row < i < TABLE_LEN ==> (#[trigger] rows[i]).0 > rows[row].1,
        forall|i: int| 0 <= i <= row ==> (#[trigger] rows[i]).0 < rows[row].1,
{
    assert(rows[0].0 < rows[0].1 < rows[1].0 < rows[1].1 < rows[2].0 < rows[2].1 < rows[3].0);
    assert(rows[3].0 < rows[3].1 < rows[4].0 < rows[4].1 < rows[5].0 < rows[5].1 < rows[6].0);
    assert(rows[6].0 < rows[6].1);
}

} // verus!
