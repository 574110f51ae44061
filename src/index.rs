//! A batch of loaded files and the metric index derived from it.
use vstd::prelude::*;
use crate::series::{FileData, LoadError, Table};
use crate::text::same_text;

verus! {

/// The files of one run, in input order.
pub struct LoadedData<V> {
    file_data: Vec<FileData<V>>,
}

impl<V> View for LoadedData<V> {
    type V = Seq<FileData<V>>;

    closed spec fn view(&self) -> Seq<FileData<V>> {
        self.file_data@
    }
}

/// Some file of `files` has a metric called `name`.
pub open spec fn in_batch<V>(files: Seq<FileData<V>>, name: Seq<char>) -> bool {
    exists|f: int| 0 <= f < files.len() && (#[trigger] files[f]).has_metric(name)
}

/// Some entry of `names` reads `name`.
pub open spec fn names_hold(names: Seq<String>, name: Seq<char>) -> bool {
    exists|k: int| 0 <= k < names.len() && (#[trigger] names[k])@ == name
}

/// Whether some entry of `names` reads `name`.
fn listed(names: &Vec<String>, name: &str) -> (r: bool)
    ensures
        r == exists|k: int| 0 <= k < names@.len() && (#[trigger] names@[k])@ == name@,
{
    let mut k: usize = 0;
    while k < names.len()
        invariant
            k <= names@.len(),
            forall|q: int| 0 <= q < k ==> (#[trigger] names@[q])@ != name@,
        decreases names@.len() - k,
    {
        if same_text(names[k].as_str(), name) {
            return true;
        }
        k = k + 1;
    }
    false
}

impl<V> LoadedData<V> {
    /// Every file is well formed.
    pub open spec fn wf(&self) -> bool {
        forall|f: int| 0 <= f < self@.len() ==> (#[trigger] self@[f]).wf()
    }

    /// The files that have metric `name`, in batch order.
    pub open spec fn holders(&self, name: Seq<char>) -> Seq<FileData<V>> {
        self@.filter(|f: FileData<V>| f.has_metric(name))
    }

    pub fn new(file_data: Vec<FileData<V>>) -> (r: LoadedData<V>)
        ensures
            r@ == file_data@,
    {
        LoadedData { file_data }
    }

    pub fn get_all_data(&self) -> (r: &Vec<FileData<V>>)
        ensures
            r@ == self@,
    {
        &self.file_data
    }

    /// Every metric name that occurs in some file, each once.
    pub fn get_distinct_metrics(&self) -> (r: Vec<String>)
        ensures
            forall|k: int| 0 <= k < r@.len() ==> in_batch(self@, (#[trigger] r@[k])@),
            forall|name: Seq<char>|
                #[trigger] in_batch(self@, name) ==> exists|k: int|
                    0 <= k < r@.len() && (#[trigger] r@[k])@ == name,
            forall|a: int, b: int| 0 <= a < b < r@.len() ==> (#[trigger] r@[a])@ != (#[trigger] r@[b])@,
    {
        let files = &self.file_data;
        let mut r: Vec<String> = Vec::new();
        let mut f: usize = 0;
        while f < files.len()
            invariant
                files@ == self@,
                f <= files@.len(),
                forall|k: int| 0 <= k < r@.len() ==> in_batch(self@, (#[trigger] r@[k])@),
                forall|g: int, q: int|
                    0 <= g < f && 0 <= q < files@[g].metrics@.len() ==> names_hold(
                        r@,
                        (#[trigger] files@[g].metrics@[q]).name@,
                    ),
                forall|a: int, b: int| 0 <= a < b < r@.len() ==> (#[trigger] r@[a])@ != (#[trigger] r@[b])@,
            decreases files@.len() - f,
        {
            let metrics = &files[f].metrics;
            let mut m: usize = 0;
            while m < metrics.len()
                invariant
                    files@ == self@,
                    f < files@.len(),
                    metrics == &files@[f as int].metrics,
                    m <= metrics@.len(),
                    forall|k: int| 0 <= k < r@.len() ==> in_batch(self@, (#[trigger] r@[k])@),
                    forall|g: int, q: int|
                        0 <= g < f && 0 <= q < files@[g].metrics@.len() ==> names_hold(
                            r@,
                            (#[trigger] files@[g].metrics@[q]).name@,
                        ),
                    forall|q: int|
                        0 <= q < m ==> names_hold(r@, (#[trigger] metrics@[q]).name@),
                    forall|a: int, b: int|
                        0 <= a < b < r@.len() ==> (#[trigger] r@[a])@ != (#[trigger] r@[b])@,
                decreases metrics@.len() - m,
            {
                let name = &metrics[m].name;
                assert(files@[f as int].has_metric(name@));
                let ghost before = r@;
                if !listed(&r, name.as_str()) {
                    r.push(name.clone());
                    assert(r@[r@.len() - 1] == *name);
                    assert forall|x: Seq<char>| names_hold(before, x) implies #[trigger] names_hold(r@, x) by {
                        let k = choose|k: int| 0 <= k < before.len() && before[k]@ == x;
                        assert(r@[k] == before[k]);
                    }
                }
                m = m + 1;
            }
            assert forall|g: int, q: int|
                0 <= g <= f && 0 <= q < files@[g].metrics@.len() implies names_hold(
                    r@,
                    (#[trigger] files@[g].metrics@[q]).name@,
                ) by {
                if g == f {
                    assert(metrics@[q] == files@[g].metrics@[q]);
                }
            }
            f = f + 1;
        }
        assert forall|name: Seq<char>| #[trigger] in_batch(self@, name) implies exists|k: int|
            0 <= k < r@.len() && (#[trigger] r@[k])@ == name by {
            let g = choose|g: int| 0 <= g < self@.len() && (#[trigger] self@[g]).has_metric(name);
            let q = choose|q: int|
                0 <= q < self@[g].metrics@.len() && (#[trigger] self@[g].metrics@[q]).name@ == name;
            assert(names_hold(r@, files@[g].metrics@[q].name@));
        }
        r
    }

    /// The files that have a metric called `metric`, in batch order.
    pub fn get_files_that_contain_metric(&self, metric: &str) -> (r: Vec<&FileData<V>>)
        ensures
            r@.map_values(|f: &FileData<V>| *f) == self@.filter(|f: FileData<V>| f.has_metric(metric@)),
    {
        let files = &self.file_data;
        let mut r: Vec<&FileData<V>> = Vec::new();
        let mut i: usize = 0;
        while i < files.len()
            invariant
                files@ == self@,
                i <= files@.len(),
                r@.map_values(|f: &FileData<V>| *f) == files@.subrange(0, i as int).filter(
                    |f: FileData<V>| f.has_metric(metric@),
                ),
            decreases files@.len() - i,
        {
            proof {
                let next = files@.subrange(0, i + 1);
                assert(next.drop_last() =~= files@.subrange(0, i as int));
                reveal_with_fuel(Seq::filter, 1);
            }
            let ghost before = r@;
            if files[i].contains_metric(metric) {
                r.push(&files[i]);
                assert(r@.map_values(|f: &FileData<V>| *f) =~= before.map_values(|f: &FileData<V>| *f).push(files@[i as int]));
            }
            i = i + 1;
        }
        assert(files@.subrange(0, files@.len() as int) =~= files@);
        r
    }

    /// Loads every table in order; fails with the error of the first table
    /// that does not load.
    pub fn load_file_data<F: Fn(&String) -> V>(tables: &Vec<Table>, time_format: &str, parse_value: &F) -> (r: Result<
        LoadedData<V>,
        LoadError,
    >)
        requires
            forall|s: &String| parse_value.requires((s,)),
        ensures
            r is Ok <==> forall|t: int| 0 <= t < tables@.len() ==> (#[trigger] tables@[t]).loads(time_format@),
            r matches Err(e) ==> exists|t: int|
                0 <= t < tables@.len() && (#[trigger] tables@[t]).fails_at(time_format@, e)
                && forall|u: int| 0 <= u < t ==> (#[trigger] tables@[u]).loads(time_format@),
            r matches Ok(d) ==> d@.len() == tables@.len() && forall|t: int|
                0 <= t < tables@.len() ==> (#[trigger] d@[t]).loaded_from(
                    &tables@[t],
                    time_format@,
                    parse_value,
                ),
    {
        let mut data: Vec<FileData<V>> = Vec::new();
        let mut t: usize = 0;
        while t < tables.len()
            invariant
                t <= tables@.len(),
                data@.len() == t,
                forall|s: &String| parse_value.requires((s,)),
                forall|u: int| 0 <= u < t ==> (#[trigger] tables@[u]).loads(time_format@),
                forall|u: int|
                    0 <= u < t ==> (#[trigger] data@[u]).loaded_from(&tables@[u], time_format@, parse_value),
            decreases tables@.len() - t,
        {
            match FileData::load(&tables[t], time_format, parse_value) {
                Ok(f) => data.push(f),
                Err(e) => {
                    return Err(e);
                },
            }
            t = t + 1;
        }
        Ok(LoadedData { file_data: data })
    }
}

/// The index is a view of the files: a metric is in the batch exactly when
/// some file holds it, and every file listed for it holds it.
pub proof fn lemma_index_is_a_view<V>(data: LoadedData<V>, name: Seq<char>)
    ensures
        in_batch(data@, name) <==> data.holders(name).len() > 0,
        forall|k: int|
            0 <= k < data.holders(name).len() ==> (#[trigger] data.holders(name)[k]).has_metric(name)
                && data@.contains(data.holders(name)[k]),
{
    let pred = |f: FileData<V>| f.has_metric(name);
    data@.filter_lemma(pred);
    let hs = data.holders(name);
    assert forall|k: int| 0 <= k < hs.len() implies (#[trigger] hs[k]).has_metric(name) && data@.contains(hs[k]) by {
        data@.lemma_filter_contains_rev(pred, hs[k]);
        assert(hs.contains(hs[k]));
    }
    if in_batch(data@, name) {
        let f = choose|f: int| 0 <= f < data@.len() && (#[trigger] data@[f]).has_metric(name);
        assert(hs.contains(data@[f]));
    }
    if hs.len() > 0 {
        let g = choose|g: int| 0 <= g < data@.len() && data@[g] == hs[0];
        assert(data@[g].has_metric(name));
    }
}

} // verus!
