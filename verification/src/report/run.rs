//! The report of a timed run: one row for each command under each toolchain
//! and profile, with the percentiles of its durations.

use itertools::Itertools;
use vstd::prelude::*;
use vstd::seq_lib::lemma_flatten_concat;
use vstd::string::*;
use crate::error::Error;
use crate::run::{OneRunResult, RunResult};
use crate::stats::{summarize, summary_of};
use crate::text::{lemma_text_le_antisymmetric, lemma_text_le_reflexive, text_le};

verus! {

/// What a row stands for: a command under a toolchain and a profile.
pub struct RowKey {
    pub cmd: Seq<char>,
    pub toolchain: Seq<char>,
    pub profile: Seq<char>,
}

/// The key of the row that a result goes into.
pub open spec fn key_of(result: OneRunResult) -> RowKey {
    RowKey { cmd: result.cmd@, toolchain: result.toolchain@, profile: result.profile@ }
}

/// `a` comes no later than `b`: by command, then toolchain, then profile.
pub open spec fn key_le(a: RowKey, b: RowKey) -> bool {
    if a.cmd != b.cmd {
        text_le(a.cmd, b.cmd)
    } else if a.toolchain != b.toolchain {
        text_le(a.toolchain, b.toolchain)
    } else {
        text_le(a.profile, b.profile)
    }
}

/// Two keys of which each comes no later than the other are the same.
pub proof fn lemma_key_le_antisymmetric(a: RowKey, b: RowKey)
    requires
        key_le(a, b),
        key_le(b, a),
    ensures
        a == b,
{
    if a.cmd != b.cmd {
        lemma_text_le_antisymmetric(a.cmd, b.cmd);
    } else if a.toolchain != b.toolchain {
        lemma_text_le_antisymmetric(a.toolchain, b.toolchain);
    } else {
        lemma_text_le_antisymmetric(a.profile, b.profile);
    }
}

/// The test whether a result has the key `key`.
pub open spec fn has_key(key: RowKey) -> spec_fn(OneRunResult) -> bool {
    |result: OneRunResult| key_of(result) == key
}

/// The results of key `key` among `results`, in their order.
pub open spec fn with_key(results: Seq<OneRunResult>, key: RowKey) -> Seq<OneRunResult> {
    results.filter(has_key(key))
}

/// The durations of `results`, in their order.
pub open spec fn durations(results: Seq<OneRunResult>) -> Seq<u64> {
    results.map_values(|result: OneRunResult| result.duration_ms)
}

/// One command under one toolchain and profile: the size of the binary and
/// the smallest, the 50th and 90th percentile and the largest of its
/// durations in milliseconds.
#[derive(Debug, Clone, PartialEq, Eq)]
pub struct RunReportRow {
    pub toolchain: String,
    pub profile: String,
    pub krate: String,
    pub cmd: String,
    pub binary_size: u64,
    pub duration_ms_hist_min: u64,
    pub duration_ms_hist_p50: u64,
    pub duration_ms_hist_p90: u64,
    pub duration_ms_hist_max: u64,
}

/// The mathematical value of a [`RunReportRow`].
pub struct RunReportRowView {
    pub toolchain: Seq<char>,
    pub profile: Seq<char>,
    pub krate: Seq<char>,
    pub cmd: Seq<char>,
    pub binary_size: u64,
    pub duration_ms_hist_min: u64,
    pub duration_ms_hist_p50: u64,
    pub duration_ms_hist_p90: u64,
    pub duration_ms_hist_max: u64,
}

impl DeepView for RunReportRow {
    type V = RunReportRowView;

    open spec fn deep_view(&self) -> RunReportRowView {
        RunReportRowView {
            toolchain: self.toolchain@,
            profile: self.profile@,
            krate: self.krate@,
            cmd: self.cmd@,
            binary_size: self.binary_size,
            duration_ms_hist_min: self.duration_ms_hist_min,
            duration_ms_hist_p50: self.duration_ms_hist_p50,
            duration_ms_hist_p90: self.duration_ms_hist_p90,
            duration_ms_hist_max: self.duration_ms_hist_max,
        }
    }
}

impl RunReportRowView {
    /// What the row stands for.
    pub open spec fn key(self) -> RowKey {
        RowKey { cmd: self.cmd, toolchain: self.toolchain, profile: self.profile }
    }
}

/// The row for the results `samples`, which share a key: the names and the
/// size are those of the last sample, the figures are those of all
/// durations. Meaningful only if there is a sample.
pub open spec fn row_of(samples: Seq<OneRunResult>) -> RunReportRowView {
    let last = samples.last();
    let summary = summary_of(durations(samples));
    RunReportRowView {
        toolchain: last.toolchain@,
        profile: last.profile@,
        krate: last.krate@,
        cmd: last.cmd@,
        binary_size: last.binary_size,
        duration_ms_hist_min: summary.min,
        duration_ms_hist_p50: summary.p50,
        duration_ms_hist_p90: summary.p90,
        duration_ms_hist_max: summary.max,
    }
}

/// `rows` is the report of `results`: the rows stand in strictly ascending
/// order of their keys, so no key has two rows; every row is the row of all
/// results of its key, of which there is at least one; and every result has
/// a row of its key.
pub open spec fn is_report(results: Seq<OneRunResult>, rows: Seq<RunReportRowView>) -> bool {
    &&& forall|i: int, j: int|
        0 <= i < j < rows.len() ==> key_le(#[trigger] rows[i].key(), #[trigger] rows[j].key())
            && rows[i].key() != rows[j].key()
    &&& forall|i: int|
        0 <= i < rows.len() ==> with_key(results, (#[trigger] rows[i]).key()).len() > 0 && rows[i]
            == row_of(with_key(results, rows[i].key()))
    &&& forall|j: int| 0 <= j < results.len() ==> has_row(rows, key_of(#[trigger] results[j]))
}

/// One of `rows` stands for `key`.
pub open spec fn has_row(rows: Seq<RunReportRowView>, key: RowKey) -> bool {
    exists|i: int| 0 <= i < rows.len() && (#[trigger] rows[i]).key() == key
}

/// Every key comes no later than itself.
pub proof fn lemma_key_le_reflexive(a: RowKey)
    ensures
        key_le(a, a),
{
    lemma_text_le_reflexive(a.profile);
}

/// Every row of a report stands for a key that some result has.
pub proof fn lemma_row_key_occurs(
    results: Seq<OneRunResult>,
    rows: Seq<RunReportRowView>,
    i: int,
) -> (j: int)
    requires
        is_report(results, rows),
        0 <= i < rows.len(),
    ensures
        0 <= j < results.len(),
        key_of(results[j]) == rows[i].key(),
{
    let key = rows[i].key();
    let sample = with_key(results, key)[0];
    results.lemma_filter_pred(has_key(key), 0);
    assert(with_key(results, key).contains(sample));
    results.lemma_filter_contains_rev(has_key(key), sample);
    choose|j: int| 0 <= j < results.len() && results[j] == sample
}

/// A report has one row for each command under each toolchain and profile:
/// two rows of one key are the same row.
pub proof fn lemma_one_row_for_each_key(
    results: Seq<OneRunResult>,
    rows: Seq<RunReportRowView>,
    i: int,
    j: int,
)
    requires
        is_report(results, rows),
        0 <= i < rows.len(),
        0 <= j < rows.len(),
        rows[i].key() == rows[j].key(),
    ensures
        i == j,
{
    if i < j {
        assert(rows[i].key() != rows[j].key());
    }
    if j < i {
        assert(rows[j].key() != rows[i].key());
    }
}

/// A report keeps apart what differs in command, toolchain or profile: two
/// results of different keys are reported in two different rows, each in the
/// row of its own key. So two commands never share a row, whatever their
/// toolchain and profile.
pub proof fn lemma_rows_keep_apart(
    results: Seq<OneRunResult>,
    rows: Seq<RunReportRowView>,
    a: int,
    b: int,
) -> (at: (int, int))
    requires
        is_report(results, rows),
        0 <= a < results.len(),
        0 <= b < results.len(),
        key_of(results[a]) != key_of(results[b]),
    ensures
        0 <= at.0 < rows.len(),
        0 <= at.1 < rows.len(),
        at.0 != at.1,
        rows[at.0].key() == key_of(results[a]),
        rows[at.1].key() == key_of(results[b]),
        rows[at.0] == row_of(with_key(results, key_of(results[a]))),
        rows[at.1] == row_of(with_key(results, key_of(results[b]))),
{
    assert(has_row(rows, key_of(results[a])));
    assert(has_row(rows, key_of(results[b])));
    let i = choose|i: int| 0 <= i < rows.len() && (#[trigger] rows[i]).key() == key_of(results[a]);
    let j = choose|j: int| 0 <= j < rows.len() && (#[trigger] rows[j]).key() == key_of(results[b]);
    (i, j)
}

/// Both reports have `i` rows or more, and the same keys in the first `i`
/// places.
pub open spec fn keys_agree_before(
    first: Seq<RunReportRowView>,
    second: Seq<RunReportRowView>,
    i: int,
) -> bool {
    &&& i <= first.len()
    &&& i <= second.len()
    &&& forall|m: int| 0 <= m < i ==> (#[trigger] first[m]).key() == second[m].key()
}

/// Results that all share one key are reported in one row: the row of all
/// of them.
pub proof fn lemma_report_of_one_key(results: Seq<OneRunResult>, rows: Seq<RunReportRowView>)
    requires
        is_report(results, rows),
        results.len() > 0,
        forall|j: int| 0 <= j < results.len() ==> key_of(#[trigger] results[j]) == key_of(results[0]),
    ensures
        rows == seq![row_of(results)],
{
    let key = key_of(results[0]);
    lemma_with_key_uniform(results, key, key);
    assert(has_row(rows, key_of(results[0])));
    assert forall|i: int| 0 <= i < rows.len() implies (#[trigger] rows[i]).key() == key by {
        let j = lemma_row_key_occurs(results, rows, i);
    }
    if rows.len() > 1 {
        lemma_one_row_for_each_key(results, rows, 0, 1);
    }
    assert(rows[0] == row_of(with_key(results, rows[0].key())));
    assert(rows =~= seq![row_of(results)]);
}

/// Two reports of the same results that agree on the keys of the rows before
/// `i` agree on whether there is a row `i`, and the key of the second comes
/// no later than that of the first.
proof fn lemma_next_key(
    results: Seq<OneRunResult>,
    first: Seq<RunReportRowView>,
    second: Seq<RunReportRowView>,
    i: int,
)
    requires
        is_report(results, first),
        is_report(results, second),
        0 <= i < first.len(),
        keys_agree_before(first, second, i),
    ensures
        i < second.len(),
        key_le(second[i].key(), first[i].key()),
{
    let key = first[i].key();
    let j = lemma_row_key_occurs(results, first, i);
    assert(has_row(second, key_of(results[j])));
    let n = choose|n: int| 0 <= n < second.len() && (#[trigger] second[n]).key() == key;
    if n < i {
        assert(first[n].key() == second[n].key());
        lemma_one_row_for_each_key(results, first, n, i);
    }
    if n == i {
        lemma_key_le_reflexive(key);
    }
}

/// Two reports of the same results have the same keys in the same places.
proof fn lemma_report_keys_agree(
    results: Seq<OneRunResult>,
    first: Seq<RunReportRowView>,
    second: Seq<RunReportRowView>,
    i: int,
)
    requires
        is_report(results, first),
        is_report(results, second),
        0 <= i,
    ensures
        i < first.len() <==> i < second.len(),
        i < first.len() ==> first[i].key() == second[i].key(),
    decreases i,
{
    if i < first.len() || i < second.len() {
        if i > 0 {
            lemma_report_keys_agree(results, first, second, i - 1);
        }
        assert forall|m: int| 0 <= m < i implies (#[trigger] first[m]).key() == second[m].key() by {
            lemma_report_keys_agree(results, first, second, m);
        }
        assert forall|m: int| 0 <= m < i implies (#[trigger] second[m]).key() == first[m].key() by {
            lemma_report_keys_agree(results, first, second, m);
        }
        assert(keys_agree_before(first, second, i));
        assert(keys_agree_before(second, first, i));
    }
    if i < first.len() {
        lemma_next_key(results, first, second, i);
        lemma_next_key(results, second, first, i);
        lemma_key_le_antisymmetric(first[i].key(), second[i].key());
    } else if i < second.len() {
        lemma_next_key(results, second, first, i);
    }
}

/// The results decide their report: there is one report of them and no
/// other.
pub proof fn lemma_report_unique(
    results: Seq<OneRunResult>,
    first: Seq<RunReportRowView>,
    second: Seq<RunReportRowView>,
)
    requires
        is_report(results, first),
        is_report(results, second),
    ensures
        first == second,
{
    lemma_report_keys_agree(results, first, second, first.len() as int);
    lemma_report_keys_agree(results, first, second, second.len() as int);
    assert forall|i: int| 0 <= i < first.len() implies first[i] == second[i] by {
        lemma_report_keys_agree(results, first, second, i);
    }
    assert(first =~= second);
}

/// `sorted` holds the results `results` in ascending order of their keys,
/// those of one key in the order that they had.
pub open spec fn is_sorted_by_key(sorted: Seq<OneRunResult>, results: Seq<OneRunResult>) -> bool {
    &&& forall|i: int, j: int|
        0 <= i < j < sorted.len() ==> key_le(key_of(#[trigger] sorted[i]), key_of(#[trigger] sorted[j]))
    &&& forall|key: RowKey| #[trigger] with_key(sorted, key) == with_key(results, key)
}

/// `groups` cuts `results` into its runs of one key: put end to end the
/// groups are `results`, no group is empty, the results of a group share the
/// key of its first, and a group and the next differ in it.
pub open spec fn is_grouped_by_key(
    groups: Seq<Seq<OneRunResult>>,
    results: Seq<OneRunResult>,
) -> bool {
    &&& groups.flatten() == results
    &&& forall|g: int| 0 <= g < groups.len() ==> (#[trigger] groups[g]).len() > 0
    &&& forall|g: int, i: int|
        0 <= g < groups.len() && 0 <= i < groups[g].len() ==> key_of(#[trigger] groups[g][i])
            == key_of(groups[g][0])
    &&& forall|g: int|
        0 < g < groups.len() ==> key_of(groups[g - 1][0]) != key_of((#[trigger] groups[g])[0])
}

/// The groups of results as sequences.
pub open spec fn group_views(groups: Seq<Vec<OneRunResult>>) -> Seq<Seq<OneRunResult>> {
    groups.map_values(|group: Vec<OneRunResult>| group@)
}

/// The key by which results are sorted and grouped: command, toolchain and
/// profile, in this order.
pub fn row_key(result: &OneRunResult) -> (key: (String, String, String))
    ensures
        key.0@ == result.cmd@,
        key.1@ == result.toolchain@,
        key.2@ == result.profile@,
{
    (result.cmd.clone(), result.toolchain.clone(), result.profile.clone())
}

/// `Itertools::sorted_by_key` of itertools, with [`row_key`] as the key.
///
/// It sorts with the stable `slice::sort_by_key` of std. So the results come
/// out in ascending order of their keys, where tuples are ordered entry by
/// entry and strings character by character, and the results of one key keep
/// their order.
#[verifier::external_body]
fn sort_by_key(results: Vec<OneRunResult>) -> (sorted: Vec<OneRunResult>)
    ensures
        is_sorted_by_key(sorted@, results@),
{
    results.into_iter().sorted_by_key(|result| row_key(result)).collect()
}

/// `Itertools::group_by` of itertools, with [`row_key`] as the key.
///
/// It puts consecutive results of one key into one group, so each group is a
/// run of one key that is as long as can be.
#[verifier::external_body]
fn group_by_key(results: Vec<OneRunResult>) -> (groups: Vec<Vec<OneRunResult>>)
    ensures
        is_grouped_by_key(group_views(groups@), results@),
{
    let grouped = results.into_iter().group_by(|result| row_key(result));
    let groups = grouped.into_iter().map(|(_key, group)| group.collect()).collect();
    groups
}

/// Of results that share the key `key`, all have it and none has another.
pub proof fn lemma_with_key_uniform(samples: Seq<OneRunResult>, key: RowKey, other: RowKey)
    requires
        forall|i: int| 0 <= i < samples.len() ==> key_of(#[trigger] samples[i]) == key,
    ensures
        with_key(samples, key) == samples,
        other != key ==> with_key(samples, other) == Seq::<OneRunResult>::empty(),
    decreases samples.len(),
{
    if samples.len() == 0 {
        reveal(Seq::filter);
        assert(samples =~= Seq::<OneRunResult>::empty());
    } else {
        let rest = samples.drop_last();
        lemma_with_key_uniform(rest, key, other);
        assert(samples =~= rest.push(samples.last()));
        rest.lemma_filter_push(samples.last(), has_key(key));
        rest.lemma_filter_push(samples.last(), has_key(other));
    }
}

/// Groups of which none has the key `key` hold no result of that key.
proof fn lemma_with_key_absent(groups: Seq<Seq<OneRunResult>>, key: RowKey)
    requires
        forall|g: int, i: int|
            0 <= g < groups.len() && 0 <= i < groups[g].len() ==> key_of(#[trigger] groups[g][i])
                != key,
    ensures
        with_key(groups.flatten(), key) == Seq::<OneRunResult>::empty(),
    decreases groups.len(),
{
    if groups.len() == 0 {
        reveal(Seq::filter);
        assert(groups.flatten() =~= Seq::<OneRunResult>::empty());
    } else {
        let rest = groups.drop_last();
        let last = groups.last();
        lemma_with_key_absent(rest, key);
        assert(groups =~= rest.push(last));
        rest.lemma_flatten_push(last);
        Seq::filter_distributes_over_add(rest.flatten(), last, has_key(key));
        lemma_with_key_none(last, key);
    }
}

/// Results of which none has the key `key` hold no result of that key.
proof fn lemma_with_key_none(samples: Seq<OneRunResult>, key: RowKey)
    requires
        forall|i: int| 0 <= i < samples.len() ==> key_of(#[trigger] samples[i]) != key,
    ensures
        with_key(samples, key) == Seq::<OneRunResult>::empty(),
    decreases samples.len(),
{
    if samples.len() == 0 {
        reveal(Seq::filter);
        assert(samples =~= Seq::<OneRunResult>::empty());
    } else {
        let rest = samples.drop_last();
        lemma_with_key_none(rest, key);
        assert(samples =~= rest.push(samples.last()));
        rest.lemma_filter_push(samples.last(), has_key(key));
    }
}

/// Where groups are put end to end, result `i` of group `g` stands behind
/// all results of the groups before `g` and the `i` results before it.
proof fn lemma_flatten_index(groups: Seq<Seq<OneRunResult>>, g: int, i: int)
    requires
        0 <= g < groups.len(),
        0 <= i < groups[g].len(),
    ensures
        groups.take(g).flatten().len() + groups[g].len() <= groups.flatten().len(),
        groups.flatten()[groups.take(g).flatten().len() + i] == groups[g][i],
{
    let before = groups.take(g);
    let after = groups.skip(g + 1);
    assert(groups =~= before.push(groups[g]) + after);
    lemma_flatten_concat(before.push(groups[g]), after);
    before.lemma_flatten_push(groups[g]);
}

/// In results that are sorted and cut into their runs, the keys of the
/// groups ascend strictly.
proof fn lemma_group_keys_ascend(
    groups: Seq<Seq<OneRunResult>>,
    sorted: Seq<OneRunResult>,
    g: int,
    h: int,
)
    requires
        is_grouped_by_key(groups, sorted),
        forall|i: int, j: int|
            0 <= i < j < sorted.len() ==> key_le(
                key_of(#[trigger] sorted[i]),
                key_of(#[trigger] sorted[j]),
            ),
        0 <= g < h < groups.len(),
    ensures
        key_le(key_of(groups[g][0]), key_of(groups[h][0])),
        key_of(groups[g][0]) != key_of(groups[h][0]),
    decreases h - g,
{
    lemma_first_before(groups, sorted, g, h);
    if h == g + 1 {
        assert(key_of(groups[h - 1][0]) != key_of(groups[h][0]));
    } else {
        lemma_first_before(groups, sorted, g, g + 1);
        lemma_first_before(groups, sorted, g + 1, h);
        assert(key_of(groups[g + 1 - 1][0]) != key_of(groups[g + 1][0]));
        if key_of(groups[g][0]) == key_of(groups[h][0]) {
            lemma_key_le_antisymmetric(key_of(groups[g][0]), key_of(groups[g + 1][0]));
        }
    }
}

/// In results that are sorted and cut into groups, the key of an earlier
/// group comes no later than that of a later one.
proof fn lemma_first_before(
    groups: Seq<Seq<OneRunResult>>,
    sorted: Seq<OneRunResult>,
    g: int,
    h: int,
)
    requires
        is_grouped_by_key(groups, sorted),
        forall|i: int, j: int|
            0 <= i < j < sorted.len() ==> key_le(
                key_of(#[trigger] sorted[i]),
                key_of(#[trigger] sorted[j]),
            ),
        0 <= g < h < groups.len(),
    ensures
        key_le(key_of(groups[g][0]), key_of(groups[h][0])),
{
    let at_g = groups.take(g).flatten().len() as int;
    let at_h = groups.take(h).flatten().len() as int;
    lemma_flatten_index(groups, g, 0);
    lemma_flatten_index(groups, h, 0);
    assert(groups.take(h).take(g) =~= groups.take(g));
    lemma_flatten_index(groups.take(h), g, 0);
    assert(at_g < at_h);
    assert(sorted[at_g] == groups[g][0]);
    assert(sorted[at_h] == groups[h][0]);
}

/// In results that are sorted and cut into their runs, a group holds all
/// results of its key.
proof fn lemma_group_is_with_key(
    groups: Seq<Seq<OneRunResult>>,
    sorted: Seq<OneRunResult>,
    g: int,
)
    requires
        is_grouped_by_key(groups, sorted),
        forall|i: int, j: int|
            0 <= i < j < sorted.len() ==> key_le(
                key_of(#[trigger] sorted[i]),
                key_of(#[trigger] sorted[j]),
            ),
        0 <= g < groups.len(),
    ensures
        with_key(sorted, key_of(groups[g][0])) == groups[g],
{
    let key = key_of(groups[g][0]);
    let before = groups.take(g);
    let after = groups.skip(g + 1);
    assert forall|a: int, i: int| 0 <= a < before.len() && 0 <= i < before[a].len() implies key_of(
        #[trigger] before[a][i],
    ) != key by {
        lemma_group_keys_ascend(groups, sorted, a, g);
        assert(key_of(groups[a][i]) == key_of(groups[a][0]));
    }
    assert forall|b: int, i: int| 0 <= b < after.len() && 0 <= i < after[b].len() implies key_of(
        #[trigger] after[b][i],
    ) != key by {
        lemma_group_keys_ascend(groups, sorted, g, g + 1 + b);
        assert(key_of(groups[g + 1 + b][i]) == key_of(groups[g + 1 + b][0]));
    }
    lemma_with_key_absent(before, key);
    lemma_with_key_absent(after, key);
    lemma_with_key_uniform(groups[g], key, key);
    assert(groups =~= before.push(groups[g]) + after);
    lemma_flatten_concat(before.push(groups[g]), after);
    before.lemma_flatten_push(groups[g]);
    Seq::filter_distributes_over_add(before.push(groups[g]).flatten(), after.flatten(), has_key(key));
    Seq::filter_distributes_over_add(before.flatten(), groups[g], has_key(key));
    assert(with_key(sorted, key) =~= groups[g]);
}

/// The rows of the groups of the sorted results are the report.
proof fn lemma_rows_are_report(
    results: Seq<OneRunResult>,
    sorted: Seq<OneRunResult>,
    groups: Seq<Seq<OneRunResult>>,
    rows: Seq<RunReportRowView>,
)
    requires
        is_sorted_by_key(sorted, results),
        is_grouped_by_key(groups, sorted),
        rows.len() == groups.len(),
        forall|g: int| 0 <= g < rows.len() ==> #[trigger] rows[g] == row_of(groups[g]),
    ensures
        is_report(results, rows),
{
    assert forall|g: int| 0 <= g < rows.len() implies (#[trigger] rows[g]).key() == key_of(
        groups[g][0],
    ) && with_key(results, rows[g].key()) == groups[g] by {
        assert(key_of(groups[g][groups[g].len() - 1]) == key_of(groups[g][0]));
        lemma_group_is_with_key(groups, sorted, g);
        assert(with_key(sorted, key_of(groups[g][0])) == with_key(results, key_of(groups[g][0])));
    }
    assert forall|i: int, j: int| 0 <= i < j < rows.len() implies key_le(
        #[trigger] rows[i].key(),
        #[trigger] rows[j].key(),
    ) && rows[i].key() != rows[j].key() by {
        lemma_group_keys_ascend(groups, sorted, i, j);
    }
    assert forall|j: int| 0 <= j < results.len() implies has_row(
        rows,
        key_of(#[trigger] results[j]),
    ) by {
        let key = key_of(results[j]);
        results.lemma_filter_contains(has_key(key), j);
        assert(with_key(sorted, key) == with_key(results, key));
        assert(with_key(sorted, key).len() > 0);
        if forall|g: int, i: int|
            0 <= g < groups.len() && 0 <= i < groups[g].len() ==> key_of(#[trigger] groups[g][i])
                != key {
            lemma_with_key_absent(groups, key);
        } else {
            let (g, i) = choose|g: int, i: int|
                0 <= g < groups.len() && 0 <= i < groups[g].len() && key_of(
                    #[trigger] groups[g][i],
                ) == key;
            assert(key_of(groups[g][i]) == key_of(groups[g][0]));
            assert(rows[g].key() == key);
        }
    }
}

/// Folds the results of one key into their row. Of no results there is no
/// row.
pub fn aggregate(samples: &Vec<OneRunResult>) -> (folded: Result<RunReportRow, Error>)
    ensures
        folded is Err <==> samples@.len() == 0,
        folded matches Err(e) ==> e == Error::Aggregation,
        folded matches Ok(row) ==> row.deep_view() == row_of(samples@),
{
    let mut times: Vec<u64> = Vec::new();
    let mut i: usize = 0;
    while i < samples.len()
        invariant
            i <= samples@.len(),
            times@ == durations(samples@.take(i as int)),
        decreases samples@.len() - i,
    {
        times.push(samples[i].duration_ms);
        assert(times@ =~= durations(samples@.take(i + 1)));
        i += 1;
    }
    assert(samples@.take(samples@.len() as int) =~= samples@);
    let summary = match summarize(&times) {
        Ok(summary) => summary,
        Err(error) => {
            return Err(error);
        },
    };
    let last = &samples[samples.len() - 1];
    Ok(
        RunReportRow {
            toolchain: last.toolchain.clone(),
            profile: last.profile.clone(),
            krate: last.krate.clone(),
            cmd: last.cmd.clone(),
            binary_size: last.binary_size,
            duration_ms_hist_min: summary.min,
            duration_ms_hist_p50: summary.p50,
            duration_ms_hist_p90: summary.p90,
            duration_ms_hist_max: summary.max,
        },
    )
}

/// Turns the results of a run into report rows, one for each command under
/// each toolchain and profile, in ascending order of command, toolchain and
/// profile.
pub fn report_run_results(result: RunResult) -> (rows: Vec<RunReportRow>)
    ensures
        is_report(result.results@, rows.deep_view()),
{
    let ghost results = result.results@;
    let sorted = sort_by_key(result.results);
    let ghost sorted_view = sorted@;
    let groups = group_by_key(sorted);
    let mut rows: Vec<RunReportRow> = Vec::new();
    let mut g: usize = 0;
    while g < groups.len()
        invariant
            g <= groups@.len(),
            is_grouped_by_key(group_views(groups@), sorted_view),
            rows@.len() == g,
            forall|k: int| 0 <= k < g ==> (#[trigger] rows@[k]).deep_view() == row_of(groups@[k]@),
        decreases groups@.len() - g,
    {
        assert(group_views(groups@)[g as int] == groups@[g as int]@);
        let row = aggregate(&groups[g]).unwrap();
        rows.push(row);
        g += 1;
    }
    proof {
        assert forall|k: int| 0 <= k < rows.deep_view().len() implies #[trigger] rows.deep_view()[k]
            == row_of(group_views(groups@)[k]) by {
            assert(rows@[k].deep_view() == row_of(groups@[k]@));
        }
        lemma_rows_are_report(results, sorted_view, group_views(groups@), rows.deep_view());
    }
    rows
}

} // verus!
