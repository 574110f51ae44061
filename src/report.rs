//! The statistics report: for each metric, under a file-safe key, one
//! summary per file that has the metric.
use vstd::prelude::*;
use crate::index::{LoadedData, in_batch};
use crate::series::FileData;
use vstd::string::StringExecFns;

verus! {

/// `s` with each `c` replaced by `t`.
pub open spec fn replaced(s: Seq<char>, c: char, t: Seq<char>) -> Seq<char>
    decreases s.len(),
{
    if s.len() == 0 {
        seq![]
    } else {
        replaced(s.drop_last(), c, t) + if s.last() == c {
            t
        } else {
            seq![s.last()]
        }
    }
}

/// Relies on `str::replace` with a `char` pattern: every `from` becomes `to`.
#[verifier::external_body]
fn replace_char(s: &str, from: char, to: &str) -> (r: String)
    ensures
        r@ == replaced(s@, from, to@),
{
    s.replace(from, to)
}

/// A metric name made safe for a file name: `\` becomes `-`; space, `/` and
/// `#` become `_`.
pub open spec fn sanitized(name: Seq<char>) -> Seq<char> {
    replaced(
        replaced(replaced(replaced(name, '\\', "-"@), ' ', "_"@), '/', "_"@),
        '#',
        "_"@,
    )
}

/// The file name of a metric's chart: the sanitized name followed by `extension`.
pub fn get_file_name(name: &str, extension: &str) -> (r: String)
    ensures
        r@ == sanitized(name@) + extension@,
{
    let a = replace_char(name, '\\', "-");
    let b = replace_char(a.as_str(), ' ', "_");
    let c = replace_char(b.as_str(), '/', "_");
    let mut d = replace_char(c.as_str(), '#', "_");
    d.append(extension);
    d
}

/// The summaries of one metric.
pub struct MetricStats<S> {
    /// The metric's name.
    pub metric: String,
    /// The key under which it is reported: its chart's file name.
    pub key: String,
    /// `(file name, summary)` for each file that has the metric, in batch order.
    pub files: Vec<(String, S)>,
}

/// Summaries of every metric of a batch.
pub struct Statistics<S> {
    pub stats: Vec<MetricStats<S>>,
}

/// A metric has no samples in some file that has it.
#[derive(Debug, Clone, PartialEq, Eq)]
pub struct DataError {
    pub metric: String,
    pub file: String,
}

/// Every file that has a metric has samples of it.
pub open spec fn all_sampled<V>(files: Seq<FileData<V>>) -> bool {
    forall|f: int, m: int|
        0 <= f < files.len() && 0 <= m < files[f].metrics@.len() ==> (#[trigger] files[f].metrics@[m]).data@.len()
            > 0
}

/// The summaries `e` reports for its metric are those of `summarize`, one per
/// file that has the metric, in batch order, and `e` is keyed by its chart's
/// file name.
pub open spec fn reports<V, S, F: Fn(&Vec<V>) -> S>(
    data: &LoadedData<V>,
    summarize: &F,
    e: MetricStats<S>,
) -> bool {
    let files = data.holders(e.metric@);
    &&& e.key@ == sanitized(e.metric@) + ".png"@
    &&& e.files@.len() == files.len()
    &&& forall|j: int|
        0 <= j < files.len() ==> {
            let (file, s) = #[trigger] e.files@[j];
            &&& file@ == files[j].file_name@
            &&& summarize.ensures((&files[j].metrics@[files[j].metric_pos(e.metric@)].data,), s)
        }
}

impl<S> Statistics<S> {
    /// Every metric of the batch has exactly one entry, and each entry reports
    /// its metric as `reports` says.
    pub open spec fn covers<V, F: Fn(&Vec<V>) -> S>(self, data: &LoadedData<V>, summarize: &F) -> bool {
        &&& forall|name: Seq<char>|
            #[trigger] in_batch(data@, name) ==> exists|k: int|
                0 <= k < self.stats@.len() && (#[trigger] self.stats@[k]).metric@ == name
        &&& forall|a: int, b: int|
            0 <= a < b < self.stats@.len() ==> (#[trigger] self.stats@[a]).metric@
                != (#[trigger] self.stats@[b]).metric@
        &&& forall|k: int|
            0 <= k < self.stats@.len() ==> in_batch(data@, (#[trigger] self.stats@[k]).metric@)
                && reports(data, summarize, self.stats@[k])
    }

    /// Summarizes, for each metric of the batch and each file that has it, the
    /// samples of that metric with `summarize`. Fails where such a sample
    /// sequence is empty.
    pub fn calculate_statistics<V, F: Fn(&Vec<V>) -> S>(data: &LoadedData<V>, summarize: &F) -> (r:
        Result<Statistics<S>, DataError>)
        requires
            data.wf(),
            forall|v: &Vec<V>| summarize.requires((v,)),
        ensures
            r is Ok <==> all_sampled(data@),
            r matches Err(e) ==> exists|f: int, m: int|
                0 <= f < data@.len() && 0 <= m < data@[f].metrics@.len()
                    && (#[trigger] data@[f].metrics@[m]).data@.len() == 0
                    && e.metric@ == data@[f].metrics@[m].name@ && e.file@ == data@[f].file_name@,
            r matches Ok(st) ==> st.covers(data, summarize),
    {
        let metrics = data.get_distinct_metrics();
        let ghost ms = metrics@;
        let mut stats: Vec<MetricStats<S>> = Vec::new();
        let mut k: usize = 0;
        while k < metrics.len()
            invariant
                data.wf(),
                ms == metrics@,
                forall|name: Seq<char>|
                    #[trigger] in_batch(data@, name) ==> exists|q: int|
                        0 <= q < ms.len() && (#[trigger] ms[q])@ == name,
                forall|a: int, b: int| 0 <= a < b < ms.len() ==> (#[trigger] ms[a])@ != (#[trigger] ms[b])@,
                forall|v: &Vec<V>| summarize.requires((v,)),
                k <= metrics@.len(),
                forall|q: int| 0 <= q < metrics@.len() ==> in_batch(data@, (#[trigger] metrics@[q])@),
                stats@.len() == k,
                forall|q: int| 0 <= q < k ==> (#[trigger] stats@[q]).metric == metrics@[q],
                forall|q: int|
                    0 <= q < k ==> {
                        let e = #[trigger] stats@[q];
                        let files = data.holders(e.metric@);
                        &&& e.key@ == sanitized(e.metric@) + ".png"@
                        &&& e.files@.len() == files.len()
                        &&& forall|j: int|
                            0 <= j < files.len() ==> {
                                let (file, s) = #[trigger] e.files@[j];
                                &&& file@ == files[j].file_name@
                                &&& summarize.ensures(
                                    (&files[j].metrics@[files[j].metric_pos(e.metric@)].data,),
                                    s,
                                )
                                &&& files[j].samples_of(e.metric@).len() > 0
                            }
                    },
            decreases metrics@.len() - k,
        {
            let name = &metrics[k];
            let holders = data.get_files_that_contain_metric(name.as_str());
            let ghost fs = data.holders(name@);
            proof {
                assert(holders@.map_values(|f: &FileData<V>| *f).len() == holders@.len());
                fs.filter_lemma(|f: FileData<V>| f.has_metric(name@));
                assert forall|j: int| 0 <= j < fs.len() implies (#[trigger] fs[j]).wf()
                    && fs[j].has_metric(name@) && *holders@[j] == fs[j] by {
                    data@.lemma_filter_contains_rev(|f: FileData<V>| f.has_metric(name@), fs[j]);
                    assert(fs.contains(fs[j]));
                    assert(holders@.map_values(|f: &FileData<V>| *f)[j] == fs[j]);
                }
            }
            let mut files: Vec<(String, S)> = Vec::new();
            let mut j: usize = 0;
            while j < holders.len()
                invariant
                    fs == data.holders(name@),
                    data.wf(),
                    forall|v: &Vec<V>| summarize.requires((v,)),
                    holders@.len() == fs.len(),
                    forall|q: int|
                        0 <= q < fs.len() ==> (#[trigger] fs[q]).wf() && fs[q].has_metric(name@)
                            && *holders@[q] == fs[q],
                    j <= fs.len(),
                    files@.len() == j,
                    forall|q: int|
                        0 <= q < j ==> {
                            let (file, s) = #[trigger] files@[q];
                            &&& file@ == fs[q].file_name@
                            &&& summarize.ensures(
                                (&fs[q].metrics@[fs[q].metric_pos(name@)].data,),
                                s,
                            )
                            &&& fs[q].samples_of(name@).len() > 0
                        },
                decreases fs.len() - j,
            {
                let file = holders[j];
                assert(*file == fs[j as int]);
                let pos = match file.metric_index(name.as_str()) {
                    Some(p) => p,
                    None => {
                        assert(false);
                        0
                    },
                };
                let values = &file.metrics[pos].data;
                if values.len() == 0 {
                    proof {
                        data@.lemma_filter_contains_rev(|f: FileData<V>| f.has_metric(name@), fs[j as int]);
                        assert(fs.contains(fs[j as int]));
                        let g = choose|g: int| 0 <= g < data@.len() && data@[g] == fs[j as int];
                        assert(data@[g].metrics@[pos as int].data@.len() == 0);
                        assert(!all_sampled(data@));
                    }
                    return Err(DataError { metric: name.clone(), file: file.file_name.clone() });
                }
                let s = summarize(values);
                files.push((file.file_name.clone(), s));
                j = j + 1;
            }
            let key = get_file_name(name.as_str(), ".png");
            assert(j == fs.len());
            assert(forall|q: int| 0 <= q < fs.len() ==> (#[trigger] files@[q]).0@ == fs[q].file_name@ && fs[q].samples_of(name@).len() > 0);
            let ghost fv = files@;
            let entry = MetricStats { metric: name.clone(), key, files };
            assert(entry.files@ == fv);
            assert(entry.metric@ == name@);
            assert(data.holders(entry.metric@) == fs);
            let ghost before = stats@;
            stats.push(entry);
            assert forall|q: int| 0 <= q < k + 1 implies {
                let e = #[trigger] stats@[q];
                let files = data.holders(e.metric@);
                &&& e.key@ == sanitized(e.metric@) + ".png"@
                &&& e.files@.len() == files.len()
                &&& forall|j: int|
                    0 <= j < files.len() ==> {
                        let (file, s) = #[trigger] e.files@[j];
                        &&& file@ == files[j].file_name@
                        &&& summarize.ensures(
                            (&files[j].metrics@[files[j].metric_pos(e.metric@)].data,),
                            s,
                        )
                        &&& files[j].samples_of(e.metric@).len() > 0
                    }
            } by {
                if q < k {
                    assert(stats@[q] == before[q]);
                } else {
                    assert(stats@[q] == entry);
                }
            }
            k = k + 1;
        }
        let st = Statistics { stats };
        proof {
            assert forall|f: int, m: int|
                0 <= f < data@.len() && 0 <= m < data@[f].metrics@.len() implies (
                #[trigger] data@[f].metrics@[m]).data@.len() > 0 by {
                let nm = data@[f].metrics@[m].name@;
                assert(data@[f].has_metric(nm));
                assert(in_batch(data@, nm));
                let q = choose|q: int| 0 <= q < ms.len() && (#[trigger] ms[q])@ == nm;
                let e = st.stats@[q];
                let files = data.holders(nm);
                data@.filter_lemma(|x: FileData<V>| x.has_metric(nm));
                assert(files.contains(data@[f]));
                let j = choose|j: int| 0 <= j < files.len() && files[j] == data@[f];
                assert(e.files@[j].0@ == files[j].file_name@);
                let p = data@[f].metric_pos(nm);
                assert(data@[f].wf());
                if p != m {
                    if p < m {
                        assert(data@[f].metrics@[p].name@ != data@[f].metrics@[m].name@);
                    } else {
                        assert(data@[f].metrics@[m].name@ != data@[f].metrics@[p].name@);
                    }
                }
            }
            assert forall|k: int| 0 <= k < st.stats@.len() implies in_batch(data@, (#[trigger] st.stats@[k]).metric@)
                && reports(data, summarize, st.stats@[k]) by {
                let e = st.stats@[k];
                assert(forall|j: int| 0 <= j < data.holders(e.metric@).len() ==> #[trigger] e.files@[j] == e.files@[j]);
                assert(in_batch(data@, ms[k]@));
                assert(st.stats@[k].metric == ms[k]);
            }
            assert forall|name: Seq<char>| #[trigger] in_batch(data@, name) implies exists|k: int|
                0 <= k < st.stats@.len() && (#[trigger] st.stats@[k]).metric@ == name by {
                let q = choose|q: int| 0 <= q < ms.len() && (#[trigger] ms[q])@ == name;
                assert(st.stats@[q].metric@ == name);
            }
            assert forall|a: int, b: int| 0 <= a < b < st.stats@.len() implies (#[trigger] st.stats@[a]).metric@
                != (#[trigger] st.stats@[b]).metric@ by {
                assert(ms[a]@ != ms[b]@);
            }
        }
        assert(st.covers(data, summarize));
        Ok(st)
    }
}

} // verus!
