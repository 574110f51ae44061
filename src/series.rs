//! Per-file time series: timestamps and one value sequence per metric column.
use vstd::prelude::*;
use crate::text::same_text;
use vstd::string::StringExecFns;

verus! {

/// An instant as whole seconds since 1970-01-01 00:00:00 (no time zone) and
/// the nanoseconds past that second (up to 1_999_999_999 inside a leap second).
#[derive(Clone, Copy, Debug, PartialEq, Eq, Structural)]
pub struct Timestamp {
    pub secs: i64,
    pub nanos: u32,
}

impl Timestamp {
    /// The instant in nanoseconds since the epoch.
    pub open spec fn total_nanos(self) -> int {
        self.secs * 1_000_000_000 + self.nanos
    }
}

/// What `NaiveDateTime::parse_from_str(entry, format)` yields, as seconds and
/// nanoseconds since the epoch; `None` where it fails.
pub uninterp spec fn parsed_instant(entry: Seq<char>, format: Seq<char>) -> Option<(i64, u32)>;

/// Relies on chrono's `NaiveDateTime::parse_from_str`, read back through
/// `and_utc().timestamp()` and `and_utc().timestamp_subsec_nanos()`; the latter
/// is the time's nanosecond field, which `NaiveTime` keeps below 2_000_000_000
/// (a leap second reaches 1_999_999_999).
#[verifier::external_body]
fn parse_instant(entry: &str, format: &str) -> (r: Option<(i64, u32)>)
    ensures
        r == parsed_instant(entry@, format@),
        r matches Some(p) ==> p.1 < 2_000_000_000,
{
    match chrono::NaiveDateTime::parse_from_str(entry, format) {
        Ok(t) => Some((t.and_utc().timestamp(), t.and_utc().timestamp_subsec_nanos())),
        Err(_) => None,
    }
}

pub open spec fn parsed_timestamp(entry: Seq<char>, format: Seq<char>) -> Option<Timestamp> {
    match parsed_instant(entry, format) {
        Some(p) => Some(Timestamp { secs: p.0, nanos: p.1 }),
        None => None,
    }
}

/// Parses the text of a timestamp cell with a strftime-style format.
pub fn parse_timestamp(entry: &str, format: &str) -> (r: Option<Timestamp>)
    ensures
        r == parsed_timestamp(entry@, format@),
{
    match parse_instant(entry, format) {
        Some(p) => Some(Timestamp { secs: p.0, nanos: p.1 }),
        None => None,
    }
}

/// A named sequence of samples.
#[derive(Debug, Clone)]
pub struct Metric<T> {
    pub data: Vec<T>,
    pub name: String,
}

impl<T> Metric<T> {
    pub fn add(&mut self, data: T)
        ensures
            final(self).data@ == old(self).data@.push(data),
            final(self).name == old(self).name,
    {
        self.data.push(data)
    }
}

/// The samples of one input file: a timestamp per row and, per metric column,
/// one value per row.
pub struct FileData<V> {
    pub metrics: Vec<Metric<V>>,
    pub timestamps: Metric<Timestamp>,
    pub file_name: String,
}

impl<V> FileData<V> {
    /// Every value sequence has one entry per timestamp and metric names are unique.
    pub open spec fn wf(&self) -> bool {
        &&& forall|m: int|
            0 <= m < self.metrics@.len() ==> (#[trigger] self.metrics@[m]).data@.len()
                == self.timestamps.data@.len()
        &&& forall|a: int, b: int|
            0 <= a < b < self.metrics@.len() ==> (#[trigger] self.metrics@[a]).name@
                != (#[trigger] self.metrics@[b]).name@
    }

    pub open spec fn has_metric(&self, name: Seq<char>) -> bool {
        exists|m: int| 0 <= m < self.metrics@.len() && (#[trigger] self.metrics@[m]).name@ == name
    }

    /// Whether some metric of this file is called `name`.
    pub fn contains_metric(&self, name: &str) -> (r: bool)
        ensures
            r == self.has_metric(name@),
    {
        let mut m: usize = 0;
        while m < self.metrics.len()
            invariant
                m <= self.metrics@.len(),
                forall|k: int| 0 <= k < m ==> (#[trigger] self.metrics@[k]).name@ != name@,
            decreases self.metrics@.len() - m,
        {
            if same_text(self.metrics[m].name.as_str(), name) {
                return true;
            }
            m = m + 1;
        }
        false
    }
}

/// One table as read from a file: its display name, the header row and the
/// data rows, each a sequence of cell texts. Column 0 holds the timestamp.
pub struct Table {
    pub file_name: String,
    pub headers: Vec<String>,
    pub rows: Vec<Vec<String>>,
}

/// Why a table could not be loaded; each variant names the file.
#[derive(Debug, Clone, PartialEq, Eq)]
pub enum LoadError {
    /// The header row has no column at all.
    NoColumns { file: String },
    /// Data row `row` (0-based) does not have one cell per header.
    RaggedRow { file: String, row: usize },
    /// The timestamp cell of data row `row` does not match the time format.
    BadTimestamp { file: String, row: usize, entry: String },
}

/// Column `j` is a metric column: not the timestamp column, and no earlier
/// column has the same header.
pub open spec fn is_metric_column(headers: Seq<String>, j: int) -> bool {
    &&& 1 <= j < headers.len()
    &&& forall|k: int| 0 <= k < j ==> #[trigger] headers[k]@ != headers[j]@
}

/// The metric columns among the first `n` headers, in order.
pub open spec fn metric_columns(headers: Seq<String>, n: int) -> Seq<usize>
    decreases n,
{
    if n <= 1 {
        seq![]
    } else if is_metric_column(headers, n - 1) {
        metric_columns(headers, n - 1).push((n - 1) as usize)
    } else {
        metric_columns(headers, n - 1)
    }
}

/// A data row has one cell per header and a timestamp `t` that parsed.
pub open spec fn row_ok(row: Seq<String>, width: int, t: Option<Timestamp>) -> bool {
    row.len() == width && t is Some
}

impl Table {
    /// Per data row, its first cell parsed as a timestamp with `format`
    /// (`None` for a row without cells).
    pub open spec fn parsed_times(&self, format: Seq<char>) -> Seq<Option<Timestamp>> {
        self.rows@.map_values(
            |r: Vec<String>|
                if r@.len() > 0 {
                    parsed_timestamp(r@[0]@, format)
                } else {
                    None
                },
        )
    }

    /// Every row has one cell per header and its timestamp in `times` parsed.
    pub open spec fn loads_with(&self, times: Seq<Option<Timestamp>>) -> bool {
        &&& self.headers@.len() >= 1
        &&& forall|i: int|
            0 <= i < self.rows@.len() ==> row_ok(
                #[trigger] self.rows@[i]@,
                self.headers@.len() as int,
                times[i],
            )
    }

    pub open spec fn loads(&self, format: Seq<char>) -> bool {
        self.loads_with(self.parsed_times(format))
    }

    /// `e` is the error for the first offending row, given the parsed `times`.
    pub open spec fn fails_with(&self, times: Seq<Option<Timestamp>>, e: LoadError) -> bool {
        let w = self.headers@.len() as int;
        match e {
            LoadError::NoColumns { file } => file@ == self.file_name@ && w == 0,
            LoadError::RaggedRow { file, row } => {
                &&& file@ == self.file_name@
                &&& w >= 1
                &&& row < self.rows@.len()
                &&& self.rows@[row as int]@.len() != w
                &&& forall|k: int| 0 <= k < row ==> row_ok(#[trigger] self.rows@[k]@, w, times[k])
            },
            LoadError::BadTimestamp { file, row, entry } => {
                &&& file@ == self.file_name@
                &&& w >= 1
                &&& row < self.rows@.len()
                &&& self.rows@[row as int]@.len() == w
                &&& entry@ == self.rows@[row as int]@[0]@
                &&& times[row as int] is None
                &&& forall|k: int| 0 <= k < row ==> row_ok(#[trigger] self.rows@[k]@, w, times[k])
            },
        }
    }

    pub open spec fn fails_at(&self, format: Seq<char>, e: LoadError) -> bool {
        self.fails_with(self.parsed_times(format), e)
    }
}

/// A loaded file has one timestamp per data row and, for every metric, one
/// value per timestamp.
pub proof fn lemma_loaded_lengths<V, F: Fn(&String) -> V>(
    f: FileData<V>,
    table: Table,
    format: Seq<char>,
    parse_value: F,
)
    requires
        f.loaded_from(&table, format, &parse_value),
    ensures
        f.timestamps.data@.len() == table.rows@.len(),
        forall|m: int|
            0 <= m < f.metrics@.len() ==> (#[trigger] f.metrics@[m]).data@.len()
                == f.timestamps.data@.len(),
{
}

proof fn lemma_metric_columns(headers: Seq<String>, n: int)
    requires
        n <= headers.len(),
        headers.len() <= usize::MAX,
    ensures
        forall|a: int|
            0 <= a < metric_columns(headers, n).len() ==> is_metric_column(
                headers,
                #[trigger] metric_columns(headers, n)[a] as int,
            ) && metric_columns(headers, n)[a] < n,
        forall|a: int, b: int|
            0 <= a < b < metric_columns(headers, n).len() ==> #[trigger] metric_columns(
                headers,
                n,
            )[a] < #[trigger] metric_columns(headers, n)[b],
    decreases n,
{
    if n > 1 {
        lemma_metric_columns(headers, n - 1);
        let prev = metric_columns(headers, n - 1);
        let cur = metric_columns(headers, n);
        assert(is_metric_column(headers, n - 1) ==> cur == prev.push((n - 1) as usize));
        assert(!is_metric_column(headers, n - 1) ==> cur == prev);
        assert forall|a: int| 0 <= a < cur.len() implies is_metric_column(headers, #[trigger] cur[a] as int)
            && cur[a] < n by {
            if a < prev.len() {
                assert(cur[a] == prev[a]);
            }
        }
        assert forall|a: int, b: int| 0 <= a < b < cur.len() implies #[trigger] cur[a] < #[trigger] cur[b] by {
            assert(cur[a] == prev[a]);
            if b < prev.len() {
                assert(cur[b] == prev[b]);
            }
        }
    }
}

impl<V> FileData<V> {
    /// This file is what loading `table` gives: its name, a timestamp per
    /// row, and per metric column the values `parse_value` gives for its cells.
    pub open spec fn loaded_from<F: Fn(&String) -> V>(
        &self,
        table: &Table,
        format: Seq<char>,
        parse_value: &F,
    ) -> bool {
        self.loaded_with(table, table.parsed_times(format), parse_value)
    }

    /// This file is what the rows of `table` give with the parsed `times`.
    pub open spec fn loaded_with<F: Fn(&String) -> V>(
        &self,
        table: &Table,
        times: Seq<Option<Timestamp>>,
        parse_value: &F,
    ) -> bool {
        let cols = metric_columns(table.headers@, table.headers@.len() as int);
        &&& self.wf()
        &&& self.file_name@ == table.file_name@
        &&& self.timestamps.data@.len() == table.rows@.len()
        &&& forall|i: int|
            0 <= i < table.rows@.len() ==> Some(#[trigger] self.timestamps.data@[i]) == times[i]
        &&& self.metrics@.len() == cols.len()
        &&& forall|m: int|
            0 <= m < cols.len() ==> (#[trigger] self.metrics@[m]).name@
                == table.headers@[cols[m] as int]@
        &&& forall|m: int, i: int|
            0 <= m < cols.len() && 0 <= i < table.rows@.len() ==> parse_value.ensures(
                (&table.rows@[i]@[cols[m] as int],),
                #[trigger] self.metrics@[m].data@[i],
            )
    }

    /// Builds a file from the rows of `table`, given for each row its
    /// timestamp as parsed (`None` where it did not parse): a timestamp per
    /// data row and, for each metric column, the values `parse_value` gives
    /// for its cells. Fails on the first row with the wrong number of cells
    /// or without a timestamp.
    pub fn from_rows<F: Fn(&String) -> V>(
        table: &Table,
        times: &Vec<Option<Timestamp>>,
        parse_value: F,
    ) -> (r: Result<FileData<V>, LoadError>)
        requires
            times@.len() == table.rows@.len(),
            forall|s: &String| parse_value.requires((s,)),
        ensures
            r is Ok <==> table.loads_with(times@),
            r matches Err(e) ==> table.fails_with(times@, e),
            r matches Ok(f) ==> f.loaded_with(table, times@, &parse_value),
    {
        let headers = &table.headers;
        let rows = &table.rows;
        let width = headers.len();
        if width == 0 {
            return Err(LoadError::NoColumns { file: table.file_name.clone() });
        }
        let mut stamps: Vec<Timestamp> = Vec::new();
        let mut i: usize = 0;
        while i < rows.len()
            invariant
                rows == &table.rows,
                headers == &table.headers,
                times@.len() == rows@.len(),
                width == headers@.len() >= 1,
                i <= rows@.len(),
                stamps@.len() == i,
                forall|k: int| 0 <= k < i ==> row_ok(#[trigger] rows@[k]@, width as int, times@[k]),
                forall|k: int| 0 <= k < i ==> Some(#[trigger] stamps@[k]) == times@[k],
            decreases rows@.len() - i,
        {
            let row = &rows[i];
            if row.len() != width {
                assert(!row_ok(rows@[i as int]@, width as int, times@[i as int]));
                return Err(LoadError::RaggedRow { file: table.file_name.clone(), row: i });
            }
            match times[i] {
                Some(t) => stamps.push(t),
                None => {
                    return Err(
                        LoadError::BadTimestamp {
                            file: table.file_name.clone(),
                            row: i,
                            entry: row[0].clone(),
                        },
                    );
                },
            }
            i = i + 1;
        }
        let ghost cols = metric_columns(headers@, width as int);
        proof {
            lemma_metric_columns(headers@, width as int);
        }
        let mut metrics: Vec<Metric<V>> = Vec::new();
        let mut j: usize = 1;
        while j < width
            invariant
                rows == &table.rows,
                headers == &table.headers,
                width == headers@.len() >= 1,
                1 <= j <= width,
                times@.len() == rows@.len(),
                forall|k: int| 0 <= k < rows@.len() ==> (#[trigger] rows@[k]@).len() == width,
                forall|s: &String| parse_value.requires((s,)),
                metrics@.len() == metric_columns(headers@, j as int).len(),
                forall|m: int|
                    0 <= m < metrics@.len() ==> (#[trigger] metrics@[m]).name@
                        == headers@[metric_columns(headers@, j as int)[m] as int]@
                        && metrics@[m].data@.len() == rows@.len(),
                forall|m: int, k: int|
                    0 <= m < metrics@.len() && 0 <= k < rows@.len() ==> parse_value.ensures(
                        (&rows@[k]@[metric_columns(headers@, j as int)[m] as int],),
                        #[trigger] metrics@[m].data@[k],
                    ),
            decreases width - j,
        {
            let mut first = true;
            let mut k: usize = 0;
            while k < j
                invariant
                    rows == &table.rows,
                    headers == &table.headers,
                rows == &table.rows,
                headers == &table.headers,
                    j < width == headers@.len(),
                    k <= j,
                    first == forall|q: int| 0 <= q < k ==> #[trigger] headers@[q]@ != headers@[j as int]@,
                decreases j - k,
            {
                if same_text(headers[k].as_str(), headers[j].as_str()) {
                    first = false;
                }
                k = k + 1;
            }
            assert(first == is_metric_column(headers@, j as int));
            if first {
                let mut data: Vec<V> = Vec::new();
                let mut k: usize = 0;
                while k < rows.len()
                    invariant
                    rows == &table.rows,
                    headers == &table.headers,
                rows == &table.rows,
                headers == &table.headers,
                        j < width == headers@.len(),
                        k <= rows@.len(),
                        forall|q: int| 0 <= q < rows@.len() ==> (#[trigger] rows@[q]@).len() == width,
                        forall|s: &String| parse_value.requires((s,)),
                        data@.len() == k,
                        forall|q: int|
                            0 <= q < k ==> parse_value.ensures(
                                (&rows@[q]@[j as int],),
                                #[trigger] data@[q],
                            ),
                    decreases rows@.len() - k,
                {
                    assert(rows@[k as int]@.len() == width);
                    let v = parse_value(&rows[k][j]);
                    data.push(v);
                    k = k + 1;
                }
                metrics.push(Metric { data, name: headers[j].clone() });
            }
            j = j + 1;
        }
        let f = FileData {
            metrics,
            timestamps: Metric { data: stamps, name: String::from_str("date") },
            file_name: table.file_name.clone(),
        };
        assert forall|a: int, b: int|
            0 <= a < b < f.metrics@.len() implies (#[trigger] f.metrics@[a]).name@
                != (#[trigger] f.metrics@[b]).name@ by {
            assert(cols[a] < cols[b]);
            assert(is_metric_column(headers@, cols[b] as int));
            assert(headers@[cols[a] as int]@ != headers@[cols[b] as int]@);
        }
        assert(f.loaded_with(table, times@, &parse_value));
        Ok(f)
    }

    /// Loads one table: a timestamp per data row, parsed with `time_format`,
    /// and for each metric column the values that `parse_value` gives for its
    /// cells. Fails on the first row with the wrong number of cells or an
    /// unparsable timestamp.
    pub fn load<F: Fn(&String) -> V>(table: &Table, time_format: &str, parse_value: F) -> (r: Result<
        FileData<V>,
        LoadError,
    >)
        requires
            forall|s: &String| parse_value.requires((s,)),
        ensures
            r is Ok <==> table.loads(time_format@),
            r matches Err(e) ==> table.fails_at(time_format@, e),
            r matches Ok(f) ==> f.loaded_from(table, time_format@, &parse_value),
    {
        let rows = &table.rows;
        let mut times: Vec<Option<Timestamp>> = Vec::new();
        let mut i: usize = 0;
        while i < rows.len()
            invariant
                rows == &table.rows,
                i <= rows@.len(),
                times@.len() == i,
                forall|k: int| 0 <= k < i ==> #[trigger] times@[k] == table.parsed_times(time_format@)[k],
            decreases rows@.len() - i,
        {
            let row = &rows[i];
            let t = if row.len() > 0 {
                parse_timestamp(row[0].as_str(), time_format)
            } else {
                None
            };
            times.push(t);
            i = i + 1;
        }
        assert(times@ =~= table.parsed_times(time_format@));
        FileData::from_rows(table, &times, parse_value)
    }
}

} // verus!
