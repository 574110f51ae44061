//! The metric rule set: which header texts are wanted, which are ignored,
//! and the selection of columns that follows from them.
use vstd::prelude::*;
use crate::text::{has_substring, contains_text, same_text};

verus! {

/// The line of a rules file that ends the wanted entries and starts the ignored ones.
pub const SEPARATOR: &'static str = "#$%#$%THIS_IS_THE_SEPARATOR. UP ARE WANTED METRICS, BELOW ARE IGNORED METRICS.";

pub open spec fn separator() -> Seq<char> {
    SEPARATOR@
}

/// Substrings that select metric columns (`metrics`) and substrings that veto
/// them (`ignore`).
pub struct MetricRules {
    pub metrics: Vec<String>,
    pub ignore: Vec<String>,
}

/// Some line among `lines` is the separator.
pub open spec fn seen_separator(lines: Seq<String>) -> bool {
    exists|i: int| 0 <= i < lines.len() && #[trigger] lines[i]@ == separator()
}

/// The non-blank lines before the first separator.
pub open spec fn wanted_of(lines: Seq<String>) -> Seq<Seq<char>>
    decreases lines.len(),
{
    if lines.len() == 0 {
        seq![]
    } else {
        let init = lines.drop_last();
        let l = lines.last()@;
        if seen_separator(init) || l.len() == 0 || l == separator() {
            wanted_of(init)
        } else {
            wanted_of(init).push(l)
        }
    }
}

/// The non-blank lines after the first separator (further separators are skipped).
pub open spec fn ignored_of(lines: Seq<String>) -> Seq<Seq<char>>
    decreases lines.len(),
{
    if lines.len() == 0 {
        seq![]
    } else {
        let init = lines.drop_last();
        let l = lines.last()@;
        if !seen_separator(init) || l.len() == 0 || l == separator() {
            ignored_of(init)
        } else {
            ignored_of(init).push(l)
        }
    }
}

pub open spec fn texts(v: Seq<String>) -> Seq<Seq<char>> {
    v.map_values(|s: String| s@)
}

/// Some entry of `entries` occurs in `h`.
pub open spec fn matches_any(h: Seq<char>, entries: Seq<String>) -> bool {
    exists|k: int| 0 <= k < entries.len() && has_substring(h, #[trigger] entries[k]@)
}

impl MetricRules {
    pub open spec fn wanted(&self) -> Seq<Seq<char>> {
        texts(self.metrics@)
    }

    pub open spec fn ignored(&self) -> Seq<Seq<char>> {
        texts(self.ignore@)
    }

    /// A metric column with header `h` is kept: it holds a wanted entry and no ignored one.
    pub open spec fn keeps(&self, h: Seq<char>) -> bool {
        matches_any(h, self.metrics@) && !matches_any(h, self.ignore@)
    }

    /// The columns that are kept out of the first `n` headers, in order; column 0 first.
    pub open spec fn selected(&self, headers: Seq<String>, n: int) -> Seq<usize>
        decreases n,
    {
        if n <= 1 {
            seq![0usize]
        } else if self.keeps(headers[n - 1]@) {
            self.selected(headers, n - 1).push((n - 1) as usize)
        } else {
            self.selected(headers, n - 1)
        }
    }

    /// Builds the rule set from the lines of a rules source: blank lines are
    /// skipped; lines before the separator are wanted, lines after it ignored.
    pub fn from_lines(lines: &Vec<String>) -> (r: MetricRules)
        ensures
            r.wanted() == wanted_of(lines@),
            r.ignored() == ignored_of(lines@),
    {
        let mut metrics: Vec<String> = Vec::new();
        let mut ignore: Vec<String> = Vec::new();
        let mut past_separator = false;
        let mut i: usize = 0;
        while i < lines.len()
            invariant
                i <= lines.len(),
                past_separator == seen_separator(lines@.subrange(0, i as int)),
                texts(metrics@) == wanted_of(lines@.subrange(0, i as int)),
                texts(ignore@) == ignored_of(lines@.subrange(0, i as int)),
            decreases lines.len() - i,
        {
            let line = &lines[i];
            let ghost prefix = lines@.subrange(0, i as int);
            let ghost next = lines@.subrange(0, i + 1);
            assert(next.drop_last() =~= prefix);
            assert(next.last() == lines@[i as int]);
            let is_sep = same_text(line.as_str(), SEPARATOR);
            if line.as_str().unicode_len() == 0 {
            } else if is_sep {
            } else if past_separator {
                ignore.push(line.clone());
                assert(texts(ignore@) =~= ignored_of(prefix).push(line@));
            } else {
                metrics.push(line.clone());
                assert(texts(metrics@) =~= wanted_of(prefix).push(line@));
            }
            if is_sep && !past_separator {
                assert(next[i as int]@ == separator());
                past_separator = true;
            }
            assert(past_separator == seen_separator(next)) by {
                if seen_separator(prefix) {
                    let j = choose|j: int| 0 <= j < prefix.len() && #[trigger] prefix[j]@ == separator();
                    assert(next[j] == prefix[j]);
                }
                if seen_separator(next) && !is_sep {
                    let j = choose|j: int| 0 <= j < next.len() && #[trigger] next[j]@ == separator();
                    assert(j < i);
                    assert(prefix[j] == next[j]);
                }
            }
            i = i + 1;
        }
        assert(lines@.subrange(0, lines.len() as int) =~= lines@);
        MetricRules { metrics, ignore }
    }

    /// Whether some entry of `entries` occurs in `h`.
    fn any_in(h: &str, entries: &Vec<String>) -> (r: bool)
        ensures
            r == matches_any(h@, entries@),
    {
        let mut k: usize = 0;
        while k < entries.len()
            invariant
                k <= entries.len(),
                forall|j: int| 0 <= j < k ==> !has_substring(h@, #[trigger] entries@[j]@),
            decreases entries.len() - k,
        {
            if contains_text(h, entries[k].as_str()) {
                return true;
            }
            k = k + 1;
        }
        false
    }

    /// Whether a metric column with header `header` is kept.
    pub fn keeps_header(&self, header: &str) -> (r: bool)
        ensures
            r == self.keeps(header@),
    {
        MetricRules::any_in(header, &self.metrics) && !MetricRules::any_in(header, &self.ignore)
    }

    /// The indexes of the columns to keep: column 0 (the timestamp) and each
    /// later column whose header the rules keep, in header order.
    pub fn relevant_indices(&self, headers: &Vec<String>) -> (r: Vec<usize>)
        ensures
            r@ == self.selected(headers@, headers@.len() as int),
    {
        let mut r: Vec<usize> = vec![0usize];
        let mut j: usize = 1;
        while j < headers.len()
            invariant
                1 <= j,
                j <= headers.len() || headers.len() == 0,
                headers.len() == 0 ==> j == 1,
                r@ == self.selected(headers@, j as int),
            decreases headers.len() - j,
        {
            if self.keeps_header(headers[j].as_str()) {
                r.push(j);
            }
            j = j + 1;
        }
        proof {
            if headers.len() == 0 {
                assert(self.selected(headers@, 0) == self.selected(headers@, 1));
            } else {
                assert(j == headers.len());
            }
        }
        r
    }
}

/// The cells of `row` at `indices`, in that order; `None` where an index is
/// past the end of the row (such a row is malformed and dropped).
pub fn project_row(row: &Vec<String>, indices: &Vec<usize>) -> (r: Option<Vec<String>>)
    ensures
        r is Some <==> forall|k: int| 0 <= k < indices@.len() ==> #[trigger] indices@[k] < row@.len(),
        r matches Some(out) ==> out@.len() == indices@.len() && forall|k: int|
            0 <= k < indices@.len() ==> #[trigger] out@[k] == row@[indices@[k] as int],
{
    let mut out: Vec<String> = Vec::new();
    let mut k: usize = 0;
    while k < indices.len()
        invariant
            k <= indices@.len(),
            out@.len() == k,
            forall|q: int| 0 <= q < k ==> #[trigger] indices@[q] < row@.len(),
            forall|q: int| 0 <= q < k ==> #[trigger] out@[q] == row@[indices@[q] as int],
        decreases indices@.len() - k,
    {
        let i = indices[k];
        if i >= row.len() {
            return None;
        }
        out.push(row[i].clone());
        k = k + 1;
    }
    Some(out)
}

/// Column 0 always comes first among the selected columns, whatever the rules.
pub proof fn lemma_timestamp_column_first(rules: MetricRules, headers: Seq<String>)
    requires
        headers.len() <= usize::MAX,
    ensures
        rules.selected(headers, headers.len() as int).len() >= 1,
        rules.selected(headers, headers.len() as int)[0] == 0,
{
    lemma_selected_shape(rules, headers, headers.len() as int);
}

/// A column other than column 0 is selected exactly when its header holds a
/// wanted entry and no ignored entry; nothing past the last header is selected.
pub proof fn lemma_selection_exact(rules: MetricRules, headers: Seq<String>, j: usize)
    requires
        headers.len() <= usize::MAX,
        1 <= j,
    ensures
        rules.selected(headers, headers.len() as int).contains(j) <==> (j
            < headers.len() && rules.keeps(headers[j as int]@)),
{
    lemma_selected_shape(rules, headers, headers.len() as int);
}

proof fn lemma_selected_shape(rules: MetricRules, headers: Seq<String>, n: int)
    requires
        n <= usize::MAX,
    ensures
        rules.selected(headers, n).len() >= 1,
        rules.selected(headers, n)[0] == 0,
        forall|k: int|
            0 <= k < rules.selected(headers, n).len() ==> (#[trigger] rules.selected(headers, n)[k]
                as int) < (if n > 1 { n } else { 1 }),
        forall|j: usize|
            1 <= j ==> (rules.selected(headers, n).contains(j) <==> (j < n
                && rules.keeps(headers[j as int]@))),
    decreases n,
{
    if n > 1 {
        lemma_selected_shape(rules, headers, n - 1);
        let prev = rules.selected(headers, n - 1);
        let cur = rules.selected(headers, n);
        let last = (n - 1) as usize;
        assert(rules.keeps(headers[n - 1]@) ==> cur == prev.push(last));
        assert(!rules.keeps(headers[n - 1]@) ==> cur == prev);
        assert forall|j: usize| 1 <= j implies (#[trigger] cur.contains(j) <==> (j < n
            && rules.keeps(headers[j as int]@))) by {
            assert(prev.contains(j) <==> (j < n - 1 && rules.keeps(headers[j as int]@)));
            if prev.contains(j) {
                let k = choose|k: int| 0 <= k < prev.len() && prev[k] == j;
                assert(cur[k] == prev[k]);
            }
            if j == last && rules.keeps(headers[j as int]@) {
                assert(cur[cur.len() - 1] == j);
            }
            if cur.contains(j) {
                let k = choose|k: int| 0 <= k < cur.len() && cur[k] == j;
                if k < prev.len() {
                    assert(prev[k] == cur[k]);
                } else {
                    assert(j == last);
                }
            }
        }
    } else {
        let cur = rules.selected(headers, n);
        assert(cur == seq![0usize]);
        assert forall|j: usize| 1 <= j implies !#[trigger] cur.contains(j) by {
            if cur.contains(j) {
                let k = choose|k: int| 0 <= k < cur.len() && cur[k] == j;
            }
        }
    }
}

} // verus!
