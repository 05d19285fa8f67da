//! The retrieval engine: what one poll of the remote query returns, how log
//! lines are extracted from result rows, and the state machine that drives a
//! submit-then-poll query to a terminal status. Lines are ordered oldest
//! first by their reported timestamps, with ties kept in arrival order, so
//! the order the collaborator happens to return rows in never leaks into the
//! result.

use vstd::prelude::*;

verus! {

broadcast use vstd::seq_lib::group_to_multiset_ensures;

/// One column of one result row, as the remote service returns it: a field
/// name and its text.
pub struct ResultField {
    pub field: Option<String>,
    pub value: Option<String>,
}

/// One extracted log line, keyed by the timestamp its row reported (0 when
/// the row carried none).
pub struct LogEntry {
    pub timestamp_ms: i64,
    pub message: String,
}

impl LogEntry {
    /// A structurally equal copy.
    pub fn duplicate(&self) -> (r: LogEntry)
        ensures
            r == *self,
    {
        LogEntry { timestamp_ms: self.timestamp_ms, message: self.message.clone() }
    }
}

/// What chrono makes of a timestamp text under a given format: the
/// millisecond value, or nothing when the text does not parse. The value
/// depends on the two texts alone; it is only named here.
pub uninterp spec fn parse_ts_of(text: Seq<char>, format: Seq<char>) -> Option<i64>;

/// Relies on chrono's `NaiveDateTime::parse_from_str` and
/// `timestamp_millis`: parsing is a function of the text and the format
/// alone.
#[verifier::external_body]
fn parse_timestamp_millis(text: &str, format: &str) -> (r: Option<i64>)
    ensures
        r == parse_ts_of(text@, format@),
{
    chrono::NaiveDateTime::parse_from_str(text, format).ok().map(
        |t| t.and_utc().timestamp_millis(),
    )
}

/// Whether a field is the message column.
pub open spec fn is_message_field(f: ResultField) -> bool {
    match f.field {
        Some(s) => s@ == "@message"@,
        None => false,
    }
}

/// Whether a field is the timestamp column.
pub open spec fn is_timestamp_field(f: ResultField) -> bool {
    match f.field {
        Some(s) => s@ == "@timestamp"@,
        None => false,
    }
}

/// The line a message field contributes: its text, or empty when the
/// service sent no value.
pub open spec fn field_line(f: ResultField) -> Seq<char> {
    match f.value {
        Some(v) => v@,
        None => Seq::empty(),
    }
}

/// The timestamp a row reports: the parsed value of its first timestamp
/// field, or nothing when there is no such field or it does not parse.
pub open spec fn row_timestamp(row: Seq<ResultField>) -> Option<i64>
    decreases row.len(),
{
    if row.len() == 0 {
        None
    } else if is_timestamp_field(row[0]) {
        match row[0].value {
            Some(v) => parse_ts_of(v@, "%Y-%m-%d %H:%M:%S%.f"@),
            None => None,
        }
    } else {
        row_timestamp(row.drop_first())
    }
}

/// The sort key of a row: its timestamp, or 0 when it reports none, so that
/// rows without timestamps keep their arrival order among themselves.
pub open spec fn row_key(row: Seq<ResultField>) -> i64 {
    match row_timestamp(row) {
        Some(t) => t,
        None => 0,
    }
}

/// The entries one row contributes: one per message field, in field order,
/// each keyed by the row's timestamp.
pub open spec fn row_entries(row: Seq<ResultField>, key: i64) -> Seq<(i64, Seq<char>)>
    decreases row.len(),
{
    if row.len() == 0 {
        Seq::empty()
    } else {
        let init = row_entries(row.drop_last(), key);
        if is_message_field(row.last()) {
            init.push((key, field_line(row.last())))
        } else {
            init
        }
    }
}

/// All entries of a result set, row by row in arrival order.
pub open spec fn entries_of(rows: Seq<Seq<ResultField>>) -> Seq<(i64, Seq<char>)>
    decreases rows.len(),
{
    if rows.len() == 0 {
        Seq::empty()
    } else {
        entries_of(rows.drop_last()) + row_entries(rows.last(), row_key(rows.last()))
    }
}

/// The mathematical value of a row list.
pub open spec fn rows_views(rows: Seq<Vec<ResultField>>) -> Seq<Seq<ResultField>> {
    rows.map_values(|r: Vec<ResultField>| r@)
}

/// The mathematical value of an entry list.
pub open spec fn entry_views(entries: Seq<LogEntry>) -> Seq<(i64, Seq<char>)> {
    entries.map_values(|e: LogEntry| (e.timestamp_ms, e.message@))
}

/// The mathematical value of a line list.
pub open spec fn line_views(lines: Seq<String>) -> Seq<Seq<char>> {
    lines.map_values(|l: String| l@)
}

/// Extract every message of the result set, each keyed by its row's
/// timestamp, in arrival order.
pub fn entries_from_rows(rows: &Vec<Vec<ResultField>>) -> (r: Vec<LogEntry>)
    ensures
        entry_views(r@) == entries_of(rows_views(rows@)),
{
    let mut out: Vec<LogEntry> = Vec::new();
    let n = rows.len();
    let mut i: usize = 0;
    while i < n
        invariant
            i <= n,
            n == rows@.len(),
            entry_views(out@) =~~= entries_of(rows_views(rows@.take(i as int))),
        decreases n - i,
    {
        let row = &rows[i];
        let m = row.len();

        // Find the row's timestamp: the first timestamp field decides.
        let mut key: i64 = 0;
        let mut found_ts = false;
        let mut j: usize = 0;
        proof {
            assert(row@.skip(0) =~~= row@);
        }
        while j < m && !found_ts
            invariant
                j <= m,
                m == row@.len(),
                !found_ts ==> row_timestamp(row@) == row_timestamp(row@.skip(j as int)) && key
                    == 0,
                found_ts ==> key == row_key(row@),
            decreases 2 * (m - j) + (if found_ts {
                0int
            } else {
                1int
            }),
        {
            let is_ts = match &row[j].field {
                Some(name) => *name == "@timestamp".to_owned(),
                None => false,
            };
            proof {
                assert(row@.skip(j as int)[0] == row@[j as int]);
                assert(is_ts == is_timestamp_field(row@[j as int]));
            }
            if is_ts {
                key = match &row[j].value {
                    Some(v) => {
                        match parse_timestamp_millis(v.as_str(), "%Y-%m-%d %H:%M:%S%.f") {
                            Some(t) => t,
                            None => 0,
                        }
                    },
                    None => 0,
                };
                found_ts = true;
            } else {
                proof {
                    assert(row@.skip(j as int).drop_first() =~~= row@.skip(j + 1));
                }
                j = j + 1;
            }
        }
        proof {
            if !found_ts {
                assert(row@.skip(m as int) =~~= Seq::<ResultField>::empty());
                assert(row_timestamp(row@) is None);
            }
            assert(key == row_key(row@));
        }

        // Collect the row's messages under that key.
        let ghost before_row = out@;
        let mut k: usize = 0;
        while k < m
            invariant
                k <= m,
                m == row@.len(),
                key == row_key(row@),
                entry_views(out@) =~~= entry_views(before_row) + row_entries(
                    row@.take(k as int),
                    key,
                ),
            decreases m - k,
        {
            let ghost prev = out@;
            let is_msg = match &row[k].field {
                Some(name) => *name == "@message".to_owned(),
                None => false,
            };
            if is_msg {
                let line = match &row[k].value {
                    Some(v) => v.clone(),
                    None => String::new(),
                };
                proof {
                    assert(line@ == field_line(row@[k as int]));
                }
                out.push(LogEntry { timestamp_ms: key, message: line });
            }
            proof {
                assert(is_msg == is_message_field(row@[k as int]));
                assert(row@.take(k + 1).drop_last() =~~= row@.take(k as int));
                assert(row@.take(k + 1).last() == row@[k as int]);
                let target = entry_views(before_row) + row_entries(row@.take(k + 1), key);
                let old_target = entry_views(before_row) + row_entries(row@.take(k as int), key);
                assert(entry_views(prev).len() == old_target.len());
                assert(entry_views(out@).len() == target.len());
                assert forall|q: int| 0 <= q < target.len() implies entry_views(out@)[q]
                    == target[q] by {
                    if q < prev.len() {
                        assert(out@[q] == prev[q]);
                        assert(entry_views(prev)[q] == old_target[q]);
                    } else {
                        assert(out@[q].timestamp_ms == key);
                        assert(out@[q].message@ == field_line(row@[k as int]));
                    }
                }
                assert(entry_views(out@) =~~= target);
            }
            k = k + 1;
        }
        proof {
            assert(row@.take(m as int) =~~= row@);
            assert(rows_views(rows@.take(i + 1)).drop_last() =~~= rows_views(
                rows@.take(i as int),
            ));
            assert(rows_views(rows@.take(i + 1)).last() == rows@[i as int]@);
            assert(entry_views(out@) =~~= entries_of(rows_views(rows@.take(i + 1))));
        }
        i = i + 1;
    }
    proof {
        assert(rows@.take(n as int) =~~= rows@);
    }
    out
}

/// Pairwise sortedness by timestamp, oldest first.
pub open spec fn sorted_by_time(s: Seq<(i64, Seq<char>)>) -> bool {
    forall|a: int, b: int| 0 <= a <= b < s.len() ==> s[a].0 <= s[b].0
}

/// Insertion of one entry into a time-sorted list, behind every entry whose
/// key is not larger: the step of a stable sort.
pub open spec fn insert_sorted(s: Seq<(i64, Seq<char>)>, e: (i64, Seq<char>)) -> Seq<
    (i64, Seq<char>),
>
    decreases s.len(),
{
    if s.len() == 0 {
        seq![e]
    } else if s.last().0 > e.0 {
        insert_sorted(s.drop_last(), e).push(s.last())
    } else {
        s.push(e)
    }
}

/// The stable sort of an entry list by timestamp.
pub open spec fn stable_sorted(s: Seq<(i64, Seq<char>)>) -> Seq<(i64, Seq<char>)>
    decreases s.len(),
{
    if s.len() == 0 {
        Seq::empty()
    } else {
        insert_sorted(stable_sorted(s.drop_last()), s.last())
    }
}

/// The entries carrying one given key, in order: the witness that sorting
/// never reorders entries of equal timestamps.
pub open spec fn entries_with_key(s: Seq<(i64, Seq<char>)>, key: i64) -> Seq<(i64, Seq<char>)>
    decreases s.len(),
{
    if s.len() == 0 {
        Seq::empty()
    } else {
        let init = entries_with_key(s.drop_last(), key);
        if s.last().0 == key {
            init.push(s.last())
        } else {
            init
        }
    }
}

proof fn lemma_insert_sorted_members(s: Seq<(i64, Seq<char>)>, e: (i64, Seq<char>))
    ensures
        insert_sorted(s, e).len() == s.len() + 1,
        forall|q: int|
            0 <= q < insert_sorted(s, e).len() ==> insert_sorted(s, e)[q] == e || s.contains(
                insert_sorted(s, e)[q],
            ),
    decreases s.len(),
{
    let r = insert_sorted(s, e);
    if s.len() == 0 {
    } else if s.last().0 > e.0 {
        lemma_insert_sorted_members(s.drop_last(), e);
        let y = insert_sorted(s.drop_last(), e);
        assert forall|q: int| 0 <= q < r.len() implies r[q] == e || s.contains(r[q]) by {
            if q < r.len() - 1 {
                assert(r[q] == y[q]);
                if y[q] != e {
                    let w = choose|w: int|
                        0 <= w < s.drop_last().len() && s.drop_last()[w] == y[q];
                    assert(s[w] == r[q]);
                }
            } else {
                assert(r[q] == s.last());
                assert(s[s.len() - 1] == r[q]);
            }
        }
    } else {
        assert forall|q: int| 0 <= q < r.len() implies r[q] == e || s.contains(r[q]) by {
            if q < s.len() {
                assert(s[q] == r[q]);
            }
        }
    }
}

proof fn lemma_insert_sorted_sorted(s: Seq<(i64, Seq<char>)>, e: (i64, Seq<char>))
    requires
        sorted_by_time(s),
    ensures
        sorted_by_time(insert_sorted(s, e)),
    decreases s.len(),
{
    let r = insert_sorted(s, e);
    if s.len() == 0 {
    } else if s.last().0 > e.0 {
        lemma_insert_sorted_sorted(s.drop_last(), e);
        lemma_insert_sorted_members(s.drop_last(), e);
        let y = insert_sorted(s.drop_last(), e);
        assert forall|a: int, b: int| 0 <= a <= b < r.len() implies r[a].0 <= r[b].0 by {
            if b < r.len() - 1 {
                assert(r[a] == y[a] && r[b] == y[b]);
            } else if a < b {
                assert(r[b] == s.last());
                assert(y[a] == e || s.drop_last().contains(y[a]));
                if y[a] != e {
                    let w = choose|w: int|
                        0 <= w < s.drop_last().len() && s.drop_last()[w] == y[a];
                    assert(s[w].0 <= s.last().0);
                }
            }
        }
    } else {
        assert forall|a: int, b: int| 0 <= a <= b < r.len() implies r[a].0 <= r[b].0 by {
            if b < s.len() {
                assert(r[a] == s[a] && r[b] == s[b]);
            } else if a < s.len() {
                assert(r[a] == s[a]);
                assert(s[a].0 <= s.last().0);
            }
        }
    }
}

proof fn lemma_insert_sorted_multiset(s: Seq<(i64, Seq<char>)>, e: (i64, Seq<char>))
    ensures
        insert_sorted(s, e).to_multiset() == s.to_multiset().insert(e),
    decreases s.len(),
{
    if s.len() == 0 {
        assert(seq![e] =~~= Seq::<(i64, Seq<char>)>::empty().push(e));
        assert(Seq::<(i64, Seq<char>)>::empty().push(e).to_multiset() =~= Seq::<
            (i64, Seq<char>),
        >::empty().to_multiset().insert(e));
        assert(Seq::<(i64, Seq<char>)>::empty().to_multiset() =~= s.to_multiset());
    } else if s.last().0 > e.0 {
        lemma_insert_sorted_multiset(s.drop_last(), e);
        let y = insert_sorted(s.drop_last(), e);
        assert(y.push(s.last()).to_multiset() =~= y.to_multiset().insert(s.last()));
        assert(s =~~= s.drop_last().push(s.last()));
        assert(s.to_multiset() == s.drop_last().push(s.last()).to_multiset());
        assert(s.drop_last().push(s.last()).to_multiset() =~= s.drop_last().to_multiset().insert(
            s.last(),
        ));
        assert(s.drop_last().to_multiset().insert(e).insert(s.last())
            =~= s.drop_last().to_multiset().insert(s.last()).insert(e));
    } else {
        assert(s.push(e).to_multiset() =~= s.to_multiset().insert(e));
    }
}

/// The sort is a permutation: no line is lost, none is invented.
pub proof fn lemma_stable_sorted_permutes(s: Seq<(i64, Seq<char>)>)
    ensures
        stable_sorted(s).to_multiset() == s.to_multiset(),
    decreases s.len(),
{
    if s.len() == 0 {
    } else {
        lemma_stable_sorted_permutes(s.drop_last());
        lemma_insert_sorted_multiset(stable_sorted(s.drop_last()), s.last());
        assert(s =~~= s.drop_last().push(s.last()));
        assert(s.to_multiset() == s.drop_last().push(s.last()).to_multiset());
        assert(s.drop_last().push(s.last()).to_multiset() =~= s.drop_last().to_multiset().insert(
            s.last(),
        ));
    }
}

/// The sort orders entries oldest first.
pub proof fn lemma_stable_sorted_sorted(s: Seq<(i64, Seq<char>)>)
    ensures
        sorted_by_time(stable_sorted(s)),
    decreases s.len(),
{
    if s.len() == 0 {
    } else {
        lemma_stable_sorted_sorted(s.drop_last());
        lemma_insert_sorted_sorted(stable_sorted(s.drop_last()), s.last());
    }
}

proof fn lemma_insert_sorted_with_key(s: Seq<(i64, Seq<char>)>, e: (i64, Seq<char>), key: i64)
    ensures
        entries_with_key(insert_sorted(s, e), key) == if e.0 == key {
            entries_with_key(s, key).push(e)
        } else {
            entries_with_key(s, key)
        },
    decreases s.len(),
{
    let r = insert_sorted(s, e);
    if s.len() == 0 {
        assert(seq![e].drop_last() =~~= Seq::<(i64, Seq<char>)>::empty());
        assert(entries_with_key(Seq::<(i64, Seq<char>)>::empty(), key) =~~= Seq::<
            (i64, Seq<char>),
        >::empty());
    } else if s.last().0 > e.0 {
        lemma_insert_sorted_with_key(s.drop_last(), e, key);
        let y = insert_sorted(s.drop_last(), e);
        assert(y.push(s.last()).drop_last() =~~= y);
        assert(y.push(s.last()).last() == s.last());
    } else {
        assert(s.push(e).drop_last() =~~= s);
        assert(s.push(e).last() == e);
    }
}

/// The sort is stable: for every timestamp, the entries carrying it come
/// out in exactly the order they arrived in.
pub proof fn lemma_stable_sorted_stable(s: Seq<(i64, Seq<char>)>, key: i64)
    ensures
        entries_with_key(stable_sorted(s), key) == entries_with_key(s, key),
    decreases s.len(),
{
    if s.len() == 0 {
    } else {
        lemma_stable_sorted_stable(s.drop_last(), key);
        lemma_insert_sorted_with_key(stable_sorted(s.drop_last()), s.last(), key);
    }
}

proof fn lemma_insert_sorted_at(s: Seq<(i64, Seq<char>)>, e: (i64, Seq<char>), p: int)
    requires
        0 <= p <= s.len(),
        forall|k: int| p <= k < s.len() ==> s[k].0 > e.0,
        p > 0 ==> s[p - 1].0 <= e.0,
    ensures
        insert_sorted(s, e) == s.insert(p, e),
    decreases s.len(),
{
    if s.len() == 0 {
        assert(insert_sorted(s, e) =~~= s.insert(0, e));
    } else if s.last().0 > e.0 {
        assert(p < s.len());
        lemma_insert_sorted_at(s.drop_last(), e, p);
        assert(s.drop_last().insert(p, e).push(s.last()) =~~= s.insert(p, e));
    } else {
        assert(s[s.len() - 1].0 <= e.0);
        assert(p == s.len());
        assert(s.push(e) =~~= s.insert(p, e));
    }
}

/// Stable-sort an entry list by timestamp, oldest first.
pub fn sort_entries(entries: &Vec<LogEntry>) -> (r: Vec<LogEntry>)
    ensures
        entry_views(r@) == stable_sorted(entry_views(entries@)),
{
    let mut out: Vec<LogEntry> = Vec::new();
    let n = entries.len();
    let mut i: usize = 0;
    while i < n
        invariant
            i <= n,
            n == entries@.len(),
            entry_views(out@) =~~= stable_sorted(entry_views(entries@.take(i as int))),
            sorted_by_time(entry_views(out@)),
        decreases n - i,
    {
        let e = entries[i].duplicate();
        let ghost ev = (e.timestamp_ms, e.message@);
        let ghost prev = out@;
        let mut p: usize = out.len();
        while p > 0 && out[p - 1].timestamp_ms > e.timestamp_ms
            invariant
                p <= out@.len(),
                out@ == prev,
                forall|k: int| p <= k < out@.len() ==> out@[k].timestamp_ms > e.timestamp_ms,
            decreases p,
        {
            p = p - 1;
        }
        out.insert(p, e);
        proof {
            assert forall|k: int| p <= k < prev.len() implies entry_views(prev)[k].0 > ev.0 by {
                assert(prev[k].timestamp_ms > e.timestamp_ms);
            }
            if p > 0 {
                assert(entry_views(prev)[p - 1].0 <= ev.0);
            }
            lemma_insert_sorted_at(entry_views(prev), ev, p as int);
            assert(entry_views(out@).len() == entry_views(prev).insert(p as int, ev).len());
            assert forall|q: int| 0 <= q < entry_views(out@).len() implies entry_views(out@)[q]
                == entry_views(prev).insert(p as int, ev)[q] by {
                if q < p {
                    assert(out@[q] == prev[q]);
                    assert(entry_views(prev).insert(p as int, ev)[q] == entry_views(prev)[q]);
                } else if q == p {
                    assert(out@[q] == e);
                } else {
                    assert(out@[q] == prev[q - 1]);
                    assert(entry_views(prev).insert(p as int, ev)[q] == entry_views(prev)[q - 1]);
                }
            }
            assert(entry_views(out@) =~~= entry_views(prev).insert(p as int, ev));
            lemma_insert_sorted_sorted(entry_views(prev), ev);
            assert(entry_views(entries@.take(i + 1)).drop_last() =~~= entry_views(
                entries@.take(i as int),
            ));
            assert(entry_views(entries@.take(i + 1)).last() == ev);
        }
        i = i + 1;
    }
    proof {
        assert(entries@.take(n as int) =~~= entries@);
    }
    out
}

/// The message texts of an entry list, in order.
pub open spec fn message_texts(s: Seq<(i64, Seq<char>)>) -> Seq<Seq<char>> {
    s.map_values(|p: (i64, Seq<char>)| p.1)
}

/// The final line extraction of a result set: every message, ordered oldest
/// first by its row's timestamp, ties kept in arrival order.
pub open spec fn chronological_of(rows: Seq<Seq<ResultField>>) -> Seq<Seq<char>> {
    message_texts(stable_sorted(entries_of(rows)))
}

/// Extract the log lines of a result set in chronological order, whatever
/// order the collaborator returned the rows in.
pub fn chronological_messages(rows: &Vec<Vec<ResultField>>) -> (r: Vec<String>)
    ensures
        line_views(r@) == chronological_of(rows_views(rows@)),
{
    let entries = entries_from_rows(rows);
    let sorted = sort_entries(&entries);
    let mut out: Vec<String> = Vec::new();
    let n = sorted.len();
    let mut i: usize = 0;
    while i < n
        invariant
            i <= n,
            n == sorted@.len(),
            line_views(out@) =~~= message_texts(entry_views(sorted@).take(i as int)),
        decreases n - i,
    {
        let ghost prev = out@;
        out.push(sorted[i].message.clone());
        proof {
            assert(entry_views(sorted@).len() == sorted@.len());
            assert(line_views(prev).len() == prev.len());
            assert(message_texts(entry_views(sorted@).take(i as int)).len() == i as int);
            assert(prev.len() == i as int);
            assert(line_views(out@).len() == message_texts(
                entry_views(sorted@).take(i + 1),
            ).len());
            assert forall|q: int| 0 <= q < i + 1 implies line_views(out@)[q] == message_texts(
                entry_views(sorted@).take(i + 1),
            )[q] by {
                if q < i {
                    assert(out@[q] == prev[q]);
                    assert(line_views(prev)[q] == message_texts(
                        entry_views(sorted@).take(i as int),
                    )[q]);
                }
            }
            assert(line_views(out@) =~~= message_texts(entry_views(sorted@).take(i + 1)));
        }
        i = i + 1;
    }
    proof {
        assert(entry_views(sorted@).take(n as int) =~~= entry_views(sorted@));
    }
    out
}

/// Status the remote service reports for a polled query. Anything that is
/// neither progress nor a terminal verdict (a queued query, an unknown
/// status) is `Other` and keeps the poll loop going.
pub enum QueryPollStatus {
    Running,
    Complete,
    Failed,
    TimedOut,
    Other,
}

/// One poll response, decoded to plain values.
pub struct PollReply {
    pub status: QueryPollStatus,
    pub rows: Vec<Vec<ResultField>>,
}

/// The states of one retrieval. Monotonic: a terminal state is left only
/// through an explicit restart (`Retrieval::submit`).
pub enum RetrievalStatus {
    Idle,
    Submitted,
    Running,
    Loaded,
    Failed(String),
    TimedOut,
}

/// The mathematical value of a retrieval status.
pub enum StatusView {
    Idle,
    Submitted,
    Running,
    Loaded,
    Failed(Seq<char>),
    TimedOut,
}

impl View for RetrievalStatus {
    type V = StatusView;

    open spec fn view(&self) -> StatusView {
        match self {
            RetrievalStatus::Idle => StatusView::Idle,
            RetrievalStatus::Submitted => StatusView::Submitted,
            RetrievalStatus::Running => StatusView::Running,
            RetrievalStatus::Loaded => StatusView::Loaded,
            RetrievalStatus::Failed(e) => StatusView::Failed(e@),
            RetrievalStatus::TimedOut => StatusView::TimedOut,
        }
    }
}

/// A state the machine never leaves by polling.
pub open spec fn is_terminal(st: StatusView) -> bool {
    ||| st is Loaded
    ||| st is Failed
    ||| st is TimedOut
}

/// Where the answer to the submission request takes the machine: a handle
/// starts the poll loop; no handle, or a transport error, is fatal.
pub open spec fn start_next(st: StatusView, started: Result<Option<String>, String>) -> StatusView {
    if st is Submitted {
        match started {
            Ok(Some(_)) => StatusView::Running,
            Ok(None) => StatusView::Failed("no query handle returned"@),
            Err(e) => StatusView::Failed(e@),
        }
    } else {
        st
    }
}

/// Where one poll result takes the machine. Only a running retrieval
/// moves: remote progress keeps it running, a remote verdict or a transport
/// error ends it.
pub open spec fn poll_next(st: StatusView, result: Result<PollReply, String>) -> StatusView {
    if st is Running {
        match result {
            Err(e) => StatusView::Failed(e@),
            Ok(reply) => match reply.status {
                QueryPollStatus::Running => StatusView::Running,
                QueryPollStatus::Complete => StatusView::Loaded,
                QueryPollStatus::Failed => StatusView::Failed("Failed"@),
                QueryPollStatus::TimedOut => StatusView::TimedOut,
                QueryPollStatus::Other => StatusView::Running,
            },
        }
    } else {
        st
    }
}

/// One retrieval of a group's recent log lines: the machine driving the
/// submit-then-poll protocol, and the lines it has extracted so far.
pub struct Retrieval {
    pub status: RetrievalStatus,
    pub lines: Vec<String>,
}

impl Retrieval {
    pub fn new() -> (r: Retrieval)
        ensures
            r.status@ is Idle,
            r.lines@ =~= Seq::<String>::empty(),
    {
        Retrieval { status: RetrievalStatus::Idle, lines: Vec::new() }
    }

    /// Enter the machine, or restart it: the one transition that may leave
    /// a terminal state, and it begins a logically fresh instance.
    pub fn submit(&mut self)
        ensures
            final(self).status@ is Submitted,
            final(self).lines@ =~= Seq::<String>::empty(),
    {
        self.status = RetrievalStatus::Submitted;
        self.lines = Vec::new();
    }

    /// Record the answer to the submission request and hand back the query
    /// handle, if one was obtained.
    pub fn on_start(&mut self, started: Result<Option<String>, String>) -> (handle: Option<
        String,
    >)
        requires
            old(self).status@ is Submitted,
        ensures
            final(self).status@ == start_next(old(self).status@, started),
            final(self).lines == old(self).lines,
            match started {
                Ok(Some(h)) => handle == Some(h),
                Ok(None) => handle is None,
                Err(_) => handle is None,
            },
    {
        match started {
            Ok(Some(h)) => {
                self.status = RetrievalStatus::Running;
                Some(h)
            },
            Ok(None) => {
                self.status = RetrievalStatus::Failed("no query handle returned".to_owned());
                None
            },
            Err(e) => {
                self.status = RetrievalStatus::Failed(e);
                None
            },
        }
    }

    /// Consume one poll result: update the lines with whatever the service
    /// returned so far (in chronological order), move the machine, and say
    /// whether polling is over.
    pub fn on_poll(&mut self, result: Result<PollReply, String>) -> (done: bool)
        requires
            old(self).status@ is Running,
        ensures
            final(self).status@ == poll_next(old(self).status@, result),
            done == is_terminal(final(self).status@),
            match result {
                Ok(reply) => if reply.status is Running || reply.status is Complete {
                    line_views(final(self).lines@) == chronological_of(rows_views(reply.rows@))
                } else {
                    final(self).lines == old(self).lines
                },
                Err(_) => final(self).lines == old(self).lines,
            },
    {
        match result {
            Err(e) => {
                self.status = RetrievalStatus::Failed(e);
                true
            },
            Ok(reply) => {
                match reply.status {
                    QueryPollStatus::Running => {
                        self.lines = chronological_messages(&reply.rows);
                        self.status = RetrievalStatus::Running;
                        false
                    },
                    QueryPollStatus::Complete => {
                        self.lines = chronological_messages(&reply.rows);
                        self.status = RetrievalStatus::Loaded;
                        true
                    },
                    QueryPollStatus::Failed => {
                        self.status = RetrievalStatus::Failed("Failed".to_owned());
                        true
                    },
                    QueryPollStatus::TimedOut => {
                        self.status = RetrievalStatus::TimedOut;
                        true
                    },
                    QueryPollStatus::Other => {
                        false
                    },
                }
            },
        }
    }

    /// The outcome of a finished retrieval: the lines on success, the
    /// reason on failure, nothing while still in flight.
    pub fn outcome(&self) -> (r: Option<Result<Vec<String>, String>>)
        ensures
            match self.status {
                RetrievalStatus::Loaded => r matches Some(Ok(lines)) && lines@ == self.lines@,
                RetrievalStatus::Failed(e) => r matches Some(Err(reason)) && reason@ == e@,
                RetrievalStatus::TimedOut => (r matches Some(Err(reason)) && reason@
                    == "Timeout"@),
                _ => r is None,
            },
    {
        match &self.status {
            RetrievalStatus::Loaded => {
                let mut lines: Vec<String> = Vec::new();
                let n = self.lines.len();
                let mut i: usize = 0;
                while i < n
                    invariant
                        i <= n,
                        n == self.lines@.len(),
                        lines@ =~= self.lines@.take(i as int),
                    decreases n - i,
                {
                    lines.push(self.lines[i].clone());
                    i = i + 1;
                }
                proof {
                    assert(lines@ =~= self.lines@);
                }
                Some(Ok(lines))
            },
            RetrievalStatus::Failed(e) => Some(Err(e.clone())),
            RetrievalStatus::TimedOut => Some(Err("Timeout".to_owned())),
            _ => None,
        }
    }
}

/// A terminal state is a sink under polling: once the machine has shown
/// `Loaded`, `Failed` or `TimedOut`, no poll result moves it — in
/// particular it never shows `Running` again short of an explicit restart.
pub proof fn lemma_terminal_poll_sink(st: StatusView, result: Result<PollReply, String>)
    requires
        is_terminal(st),
    ensures
        poll_next(st, result) == st,
{
}

/// From `Running`, a poll leads only to `Running` again or to a terminal
/// state: never back to `Idle` or `Submitted`.
pub proof fn lemma_running_poll_successors(st: StatusView, result: Result<PollReply, String>)
    requires
        st is Running,
    ensures
        poll_next(st, result) is Running || is_terminal(poll_next(st, result)),
{
}

/// From `Submitted`, the submission answer leads only to `Running` or to
/// `Failed`.
pub proof fn lemma_submitted_start_successors(
    st: StatusView,
    started: Result<Option<String>, String>,
)
    requires
        st is Submitted,
    ensures
        start_next(st, started) is Running || start_next(st, started) is Failed,
{
}

/// A terminal state is also a sink under the submission answer: only
/// `Retrieval::submit` restarts the machine.
pub proof fn lemma_terminal_start_sink(st: StatusView, started: Result<Option<String>, String>)
    requires
        is_terminal(st),
    ensures
        start_next(st, started) == st,
{
}

/// Relies on `std::time::SystemTime::now`, chrono's `From<SystemTime>` for
/// a UTC date-time, and its `timestamp_millis`. Nothing is assumed of the
/// clock's reading: a clock set before 1970 simply gives a negative value
/// (chrono's conversion handles that case without panicking).
#[verifier::external_body]
fn now_millis() -> (r: i64) {
    chrono::DateTime::<chrono::Utc>::from(std::time::SystemTime::now()).timestamp_millis()
}

/// The start of the default lookback window ending at `now`: one day
/// earlier, held at the smallest representable instant.
pub open spec fn lookback_start(now: i64) -> int {
    if now - crate::shared::ONE_DAY_MS >= i64::MIN {
        now - crate::shared::ONE_DAY_MS
    } else {
        i64::MIN as int
    }
}

/// The default query window for a given current time: the day up to it.
pub fn default_query_range(now: i64) -> (r: (i64, i64))
    ensures
        r.0 == lookback_start(now),
        r.1 == now,
        r.0 <= r.1,
{
    let start = match now.checked_sub(crate::shared::ONE_DAY_MS) {
        Some(s) => s,
        None => i64::MIN,
    };
    (start, now)
}

/// The default query window ending now, read from the clock. Whatever the
/// clock says, the window ends at that reading and reaches exactly one day
/// back (held at the smallest representable instant).
pub fn current_query_range() -> (r: (i64, i64))
    ensures
        r.0 == lookback_start(r.1),
        r.0 <= r.1,
{
    let now = now_millis();
    default_query_range(now)
}

/// The fixed query expression submitted for every retrieval: the timestamp
/// keys the chronological order, the message is the line shown.
pub fn query_expression() -> (r: &'static str)
    ensures
        r@ == "fields @timestamp, @message"@,
{
    "fields @timestamp, @message"
}

} // verus!
