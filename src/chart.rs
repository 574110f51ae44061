//! What a chart of one metric shows: per file the (elapsed time, value)
//! points, the shared time axis, the image width and a color per file.
use vstd::prelude::*;
use crate::index::LoadedData;
use crate::series::{FileData, Timestamp};
use crate::text::same_text;

verus! {

/// The unit of the time axis.
#[derive(Clone, Copy, Debug, PartialEq, Eq, Structural)]
pub enum TimeFormat {
    Seconds,
    Minutes,
}

/// A color of the palette.
#[derive(Clone, Copy, Debug, PartialEq, Eq, Structural)]
pub struct RGB(pub u8, pub u8, pub u8);

pub open spec fn unit_nanos(unit: TimeFormat) -> int {
    match unit {
        TimeFormat::Seconds => 1_000_000_000,
        TimeFormat::Minutes => 60_000_000_000,
    }
}

/// `a / d` rounded toward zero.
pub open spec fn div_toward_zero(a: int, d: int) -> int {
    if a >= 0 {
        a / d
    } else {
        -((-a) / d)
    }
}

/// Whole units (truncated toward zero) from `first` to `t`.
pub open spec fn elapsed_units(first: Timestamp, t: Timestamp, unit: TimeFormat) -> int {
    div_toward_zero(t.total_nanos() - first.total_nanos(), unit_nanos(unit))
}

/// The whole seconds or minutes from `first` to `t`, truncated toward zero.
pub fn elapsed(first: Timestamp, t: Timestamp, unit: TimeFormat) -> (r: i128)
    ensures
        r == elapsed_units(first, t, unit),
{
    let d: i128 = (t.secs as i128 - first.secs as i128) * 1_000_000_000 + (t.nanos as i128
        - first.nanos as i128);
    let u: u128 = match unit {
        TimeFormat::Seconds => 1_000_000_000,
        TimeFormat::Minutes => 60_000_000_000,
    };
    if d >= 0 {
        ((d as u128) / u) as i128
    } else {
        let m: u128 = (-d) as u128;
        -((m / u) as i128)
    }
}

impl<V> FileData<V> {
    /// The position of the metric called `name` (names are unique in a well-formed file).
    pub open spec fn metric_pos(&self, name: Seq<char>) -> int {
        choose|m: int| 0 <= m < self.metrics@.len() && (#[trigger] self.metrics@[m]).name@ == name
    }

    /// The samples of the metric called `name`.
    pub open spec fn samples_of(&self, name: Seq<char>) -> Seq<V> {
        self.metrics@[self.metric_pos(name)].data@
    }

    /// Finds the metric called `name`.
    pub fn metric_index(&self, name: &str) -> (r: Option<usize>)
        requires
            self.wf(),
        ensures
            r is None <==> !self.has_metric(name@),
            r matches Some(m) ==> m == self.metric_pos(name@),
    {
        let mut m: usize = 0;
        while m < self.metrics.len()
            invariant
                self.wf(),
                m <= self.metrics@.len(),
                forall|k: int| 0 <= k < m ==> (#[trigger] self.metrics@[k]).name@ != name@,
            decreases self.metrics@.len() - m,
        {
            if same_text(self.metrics[m].name.as_str(), name) {
                assert(self.has_metric(name@));
                proof {
                    let p = self.metric_pos(name@);
                    if p > m {
                        assert(self.metrics@[m as int].name@ != self.metrics@[p].name@);
                    }
                }
                return Some(m);
            }
            m = m + 1;
        }
        None
    }
}

/// The line of one file in a chart.
pub struct Series<V> {
    pub file_name: String,
    pub color: RGB,
    /// `(elapsed time since the file's first sample, value)` per sample.
    pub points: Vec<(i128, V)>,
}

/// Everything needed to draw the chart of one metric.
pub struct ChartLayout<V> {
    /// The largest elapsed time of a last sample, and at least 0.
    pub time_max: i128,
    /// The image width in pixels.
    pub width: u128,
    /// One line per file that has the metric, in batch order.
    pub series: Vec<Series<V>>,
}

/// Why a chart cannot be laid out.
#[derive(Debug, Clone, PartialEq, Eq)]
pub enum ChartError {
    /// The file has the metric but no samples.
    EmptySeries { file: String },
    /// More files share the metric than the palette has colors.
    NotEnoughColors { needed: usize, available: usize },
}

/// The elapsed time of the last sample of `f`.
pub open spec fn last_elapsed<V>(f: FileData<V>, unit: TimeFormat) -> int {
    elapsed_units(f.timestamps.data@[0], f.timestamps.data@.last(), unit)
}

/// The time axis over the first `n` files: the largest last elapsed time, and at least 0.
pub open spec fn time_axis<V>(files: Seq<FileData<V>>, unit: TimeFormat, n: int) -> int
    decreases n,
{
    if n <= 0 {
        0
    } else {
        let prev = time_axis(files, unit, n - 1);
        let here = last_elapsed(files[n - 1], unit);
        if here > prev {
            here
        } else {
            prev
        }
    }
}

/// The largest sample count of metric `name` over the first `n` files.
pub open spec fn most_samples<V>(files: Seq<FileData<V>>, name: Seq<char>, n: int) -> int
    decreases n,
{
    if n <= 0 {
        0
    } else {
        let prev = most_samples(files, name, n - 1);
        let here = files[n - 1].samples_of(name).len() as int;
        if here > prev {
            here
        } else {
            prev
        }
    }
}

/// The chart width: the sample count times the width per point, but at least `min_width`.
pub open spec fn chart_width(samples: int, width_per_point: int, min_width: int) -> int {
    if samples * width_per_point > min_width {
        samples * width_per_point
    } else {
        min_width
    }
}

/// Lays out the chart of `metric`: for each file that has it, in batch order,
/// the points `(elapsed time, value)` with elapsed times measured from the
/// file's own first timestamp in whole `unit`s, and the color at the file's
/// position in `palette`; the time axis spans the largest last elapsed time;
/// the width is the largest sample count times `width_per_point`, but at
/// least `min_width`. Fails on a file without samples, then on a palette with
/// fewer colors than files.
pub fn prepare_chart<V: Copy>(
    data: &LoadedData<V>,
    metric: &str,
    unit: TimeFormat,
    width_per_point: u32,
    min_width: u32,
    palette: &Vec<RGB>,
) -> (r: Result<ChartLayout<V>, ChartError>)
    requires
        data.wf(),
    ensures
        ({
            let files = data.holders(metric@);
            let all_sampled = forall|k: int|
                0 <= k < files.len() ==> (#[trigger] files[k]).timestamps.data@.len() > 0;
            &&& r is Ok <==> all_sampled && palette@.len() >= files.len()
            &&& r matches Err(ChartError::EmptySeries { file }) ==> exists|k: int|
                0 <= k < files.len() && (#[trigger] files[k]).timestamps.data@.len() == 0
                    && file@ == files[k].file_name@ && forall|j: int|
                    0 <= j < k ==> (#[trigger] files[j]).timestamps.data@.len() > 0
            &&& r matches Err(ChartError::NotEnoughColors { needed, available }) ==> all_sampled
                && needed == files.len() && available == palette@.len() && available < needed
            &&& r matches Ok(c) ==> {
                &&& c.time_max == time_axis(files, unit, files.len() as int)
                &&& c.width == chart_width(
                    most_samples(files, metric@, files.len() as int),
                    width_per_point as int,
                    min_width as int,
                )
                &&& c.series@.len() == files.len()
                &&& forall|k: int|
                    0 <= k < files.len() ==> {
                        let s = #[trigger] c.series@[k];
                        let f = files[k];
                        &&& s.file_name@ == f.file_name@
                        &&& s.color == palette@[k]
                        &&& s.points@.len() == f.timestamps.data@.len()
                        &&& forall|i: int|
                            0 <= i < s.points@.len() ==> #[trigger] s.points@[i] == (
                                elapsed_units(f.timestamps.data@[0], f.timestamps.data@[i], unit)
                                    as i128,
                                f.samples_of(metric@)[i],
                            )
                    }
            }
        }),
{
    let files = data.get_files_that_contain_metric(metric);
    let ghost fs = data.holders(metric@);
    proof {
        assert(files@.len() == fs.len()) by {
            assert(files@.map_values(|f: &FileData<V>| *f).len() == files@.len());
        }
        fs.filter_lemma(|f: FileData<V>| f.has_metric(metric@));
        assert forall|k: int| 0 <= k < fs.len() implies (#[trigger] fs[k]).wf() && fs[k].has_metric(metric@) && *files@[k] == fs[k] by {
            data@.lemma_filter_contains_rev(|f: FileData<V>| f.has_metric(metric@), fs[k]);
            assert(fs.contains(fs[k]));
            assert(files@.map_values(|f: &FileData<V>| *f)[k] == fs[k]);
        }
    }
    let n = files.len();
    let mut k: usize = 0;
    while k < n
        invariant
            n == files@.len() == fs.len(),
            fs == data.holders(metric@),
            k <= n,
            forall|j: int| 0 <= j < fs.len() ==> *files@[j] == #[trigger] fs[j],
            forall|j: int| 0 <= j < k ==> (#[trigger] fs[j]).timestamps.data@.len() > 0,
        decreases n - k,
    {
        if files[k].timestamps.data.len() == 0 {
            assert(fs[k as int].timestamps.data@.len() == 0);
            assert(files[k as int].file_name == fs[k as int].file_name);
            return Err(ChartError::EmptySeries { file: files[k].file_name.clone() });
        }
        k = k + 1;
    }
    if palette.len() < n {
        return Err(ChartError::NotEnoughColors { needed: n, available: palette.len() });
    }
    let mut series: Vec<Series<V>> = Vec::new();
    let mut time_max: i128 = 0;
    let mut most: usize = 0;
    let mut k: usize = 0;
    while k < n
        invariant
            n == files@.len() == fs.len(),
            n <= palette@.len(),
            k <= n,
            forall|j: int| 0 <= j < fs.len() ==> *files@[j] == #[trigger] fs[j],
            forall|j: int| 0 <= j < fs.len() ==> (#[trigger] fs[j]).timestamps.data@.len() > 0,
            forall|j: int| 0 <= j < fs.len() ==> (#[trigger] fs[j]).wf() && fs[j].has_metric(metric@),
            time_max == time_axis(fs, unit, k as int),
            most == most_samples(fs, metric@, k as int),
            series@.len() == k,
            forall|j: int|
                0 <= j < k ==> {
                    let s = #[trigger] series@[j];
                    let f = fs[j];
                    &&& s.file_name@ == f.file_name@
                    &&& s.color == palette@[j]
                    &&& s.points@.len() == f.timestamps.data@.len()
                    &&& forall|i: int|
                        0 <= i < s.points@.len() ==> #[trigger] s.points@[i] == (
                            elapsed_units(f.timestamps.data@[0], f.timestamps.data@[i], unit)
                                as i128,
                            f.samples_of(metric@)[i],
                        )
                },
        decreases n - k,
    {
        let file = files[k];
        let ghost f = fs[k as int];
        assert(*file == f);
        let pos = match file.metric_index(metric) {
            Some(p) => p,
            None => {
                assert(false);
                0
            },
        };
        let values = &file.metrics[pos].data;
        let times = &file.timestamps.data;
        let first = times[0];
        let count = times.len();
        assert(f.metrics@[pos as int].data@.len() == f.timestamps.data@.len());
        let mut points: Vec<(i128, V)> = Vec::new();
        let mut i: usize = 0;
        while i < count
            invariant
                f.wf(),
                times@ == f.timestamps.data@,
                values@ == f.samples_of(metric@),
                values@.len() == times@.len(),
                count == times@.len() > 0,
                first == times@[0],
                i <= count,
                points@.len() == i,
                forall|q: int|
                    0 <= q < i ==> #[trigger] points@[q] == (
                        elapsed_units(first, times@[q], unit) as i128,
                        values@[q],
                    ),
            decreases count - i,
        {
            let e = elapsed(first, times[i], unit);
            points.push((e, values[i]));
            i = i + 1;
        }
        let last = elapsed(first, times[count - 1], unit);
        if last > time_max {
            time_max = last;
        }
        if values.len() > most {
            most = values.len();
        }
        series.push(Series { file_name: file.file_name.clone(), color: palette[k], points });
        k = k + 1;
    }
    assert((most as u128) * (width_per_point as u128) <= 0x1_0000_0000_0000_0000_0000_0000u128) by (nonlinear_arith)
        requires
            most <= 0xffff_ffff_ffff_ffffu128,
            width_per_point <= 0xffff_ffffu128,
    ;
    let product: u128 = most as u128 * width_per_point as u128;
    let width: u128 = if product > min_width as u128 {
        product
    } else {
        min_width as u128
    };
    Ok(ChartLayout { time_max, width, series })
}

} // verus!
