use vstd::prelude::*;

use crate::error::AppError;
use crate::time::{minute_label_millis, parse_minute_date, UtcTime, MINUTE_MS};

verus! {

/// Total payload size, in bytes, recorded during one minute.
#[derive(Clone, Copy, Debug, PartialEq, Eq, Structural)]
pub struct MinuteBucket {
    /// Start of the minute.
    pub minute: UtcTime,
    pub byte_length: i64,
}

/// A session: the buckets at positions `start..end` of the bucket sequence
/// it was cut from.
#[derive(Clone, Copy, Debug, PartialEq, Eq, Structural)]
pub struct Session {
    pub start: usize,
    pub end: usize,
}

/// Default gap that ends a session: ten minutes, in milliseconds.
pub const GAP_THRESHOLD_MS: i64 = 600000;

/// Time from the bucket before position `j` to the bucket at `j`.
pub open spec fn gap_before(b: Seq<MinuteBucket>, j: int) -> int {
    b[j].minute.millis - b[j - 1].minute.millis
}

/// Whether the bucket at `j` opens a session: it is the first one, or the
/// gap before it reaches the threshold.
pub open spec fn opens_session(b: Seq<MinuteBucket>, j: int, gap: int) -> bool {
    j == 0 || gap_before(b, j) >= gap
}

/// `ss` cuts the first `n` buckets of `b` into maximal runs, in order: the
/// runs are non-empty and adjacent, each begins where a session opens, and no
/// session opens inside one.
pub open spec fn segments_prefix(b: Seq<MinuteBucket>, ss: Seq<Session>, gap: int, n: int) -> bool {
    &&& 0 <= n <= b.len()
    &&& (ss.len() == 0 <==> n == 0)
    &&& ss.len() > 0 ==> ss[0].start == 0 && ss.last().end == n
    &&& forall|k: int| 0 <= k < ss.len() ==> #[trigger] ss[k].start < ss[k].end
    &&& forall|k: int| 0 <= k < ss.len() - 1 ==> #[trigger] ss[k].end == ss[k + 1].start
    &&& forall|k: int| 0 <= k < ss.len() ==> opens_session(b, #[trigger] ss[k].start as int, gap)
    &&& forall|k: int, j: int|
        #![trigger ss[k], opens_session(b, j, gap)]
        0 <= k < ss.len() && ss[k].start < j < ss[k].end ==> !opens_session(b, j, gap)
}

/// `ss` is the segmentation of all of `b` with gap threshold `gap`.
pub open spec fn is_segmentation(b: Seq<MinuteBucket>, ss: Seq<Session>, gap: int) -> bool {
    segments_prefix(b, ss, gap, b.len() as int)
}

/// The buckets of the sessions `ss`, one session after the other.
pub open spec fn joined(b: Seq<MinuteBucket>, ss: Seq<Session>) -> Seq<MinuteBucket>
    decreases ss.len(),
{
    if ss.len() == 0 {
        Seq::empty()
    } else {
        joined(b, ss.drop_last()) + b.subrange(ss.last().start as int, ss.last().end as int)
    }
}

proof fn lemma_joined_prefix(b: Seq<MinuteBucket>, ss: Seq<Session>)
    requires
        ss.len() > 0,
        ss[0].start == 0,
        ss.last().end <= b.len(),
        forall|k: int| 0 <= k < ss.len() ==> #[trigger] ss[k].start < ss[k].end,
        forall|k: int| 0 <= k < ss.len() - 1 ==> #[trigger] ss[k].end == ss[k + 1].start,
    ensures
        joined(b, ss) == b.subrange(0, ss.last().end as int),
    decreases ss.len(),
{
    let p = ss.drop_last();
    if p.len() == 0 {
        assert(joined(b, p) + b.subrange(0, ss.last().end as int) =~= b.subrange(
            0,
            ss.last().end as int,
        ));
    } else {
        assert(p[p.len() - 1] == ss[ss.len() - 2]);
        assert(forall|k: int| 0 <= k < p.len() ==> #[trigger] p[k] == ss[k]);
        lemma_joined_prefix(b, p);
        assert(ss[ss.len() - 2].end == ss.last().start);
        assert(b.subrange(0, p.last().end as int) + b.subrange(
            ss.last().start as int,
            ss.last().end as int,
        ) =~= b.subrange(0, ss.last().end as int));
    }
}

/// Cuts the ascending bucket sequence into sessions, oldest first: a bucket
/// whose distance to the one before reaches `gap_ms` opens a new session.
pub fn segment_sessions(buckets: &Vec<MinuteBucket>, gap_ms: i64) -> (r: Vec<Session>)
    ensures
        is_segmentation(buckets@, r@, gap_ms as int),
        joined(buckets@, r@) == buckets@,
        buckets@.len() == 0 ==> r@.len() == 0,
{
    let n = buckets.len();
    let mut sessions: Vec<Session> = Vec::new();
    if n == 0 {
        return sessions;
    }
    let mut start: usize = 0;
    let mut i: usize = 1;
    while i < n
        invariant
            n == buckets@.len(),
            0 <= start < i <= n,
            segments_prefix(buckets@, sessions@, gap_ms as int, start as int),
            opens_session(buckets@, start as int, gap_ms as int),
            forall|j: int| start < j < i ==> !opens_session(buckets@, j, gap_ms as int),
        decreases n - i,
    {
        let prev = buckets[i - 1].minute.millis as i128;
        let cur = buckets[i].minute.millis as i128;
        if cur - prev >= gap_ms as i128 {
            let ghost old_sessions = sessions@;
            sessions.push(Session { start, end: i });
            assert(forall|k: int| 0 <= k < old_sessions.len() ==> #[trigger] sessions@[k] == old_sessions[k]);
            start = i;
        }
        i = i + 1;
    }
    let ghost old_sessions = sessions@;
    sessions.push(Session { start, end: n });
    assert(forall|k: int| 0 <= k < old_sessions.len() ==> #[trigger] sessions@[k] == old_sessions[k]);
    proof {
        lemma_joined_prefix(buckets@, sessions@);
        assert(buckets@.subrange(0, n as int) =~= buckets@);
    }
    sessions
}

/// Inside a session every gap between neighbouring buckets is below the
/// threshold, and the gap just before a session's first bucket, where there
/// is a bucket before it, reaches the threshold.
pub proof fn lemma_session_gaps(b: Seq<MinuteBucket>, ss: Seq<Session>, gap: int, k: int)
    requires
        is_segmentation(b, ss, gap),
        0 <= k < ss.len(),
    ensures
        forall|j: int| ss[k].start < j < ss[k].end ==> #[trigger] gap_before(b, j) < gap,
        ss[k].start > 0 ==> gap_before(b, ss[k].start as int) >= gap,
{
    assert(opens_session(b, ss[k].start as int, gap));
    assert forall|j: int| ss[k].start < j < ss[k].end implies #[trigger] gap_before(b, j) < gap by {
        assert(!opens_session(b, j, gap));
    }
}

/// The most recently active session: the last of the oldest-first list.
pub fn latest_session(sessions: &Vec<Session>) -> (r: Result<Session, AppError>)
    ensures
        sessions@.len() == 0 ==> r matches Err(AppError::NoData { .. }),
        sessions@.len() > 0 ==> r == Ok::<Session, AppError>(sessions@.last()),
{
    if sessions.len() == 0 {
        return Err(AppError::NoData { msg: "No groups found".to_owned() });
    }
    Ok(sessions[sessions.len() - 1])
}

/// Time span `[begin, end)` of a session: from the start of its first minute
/// to the end of its last.
pub fn group_begin_end(buckets: &Vec<MinuteBucket>, session: Session) -> (r: Result<
    (UtcTime, UtcTime),
    AppError,
>)
    requires
        session.start < session.end <= buckets@.len() ==> buckets@[session.end - 1].minute.millis
            + MINUTE_MS <= i64::MAX,
    ensures
        session.start < session.end <= buckets@.len() ==> r == Ok::<(UtcTime, UtcTime), AppError>(
            (
                buckets@[session.start as int].minute,
                UtcTime { millis: (buckets@[session.end - 1].minute.millis + MINUTE_MS) as i64 },
            ),
        ),
        !(session.start < session.end <= buckets@.len()) ==> r matches Err(AppError::NoData { .. }),
{
    if session.start >= session.end || session.end > buckets.len() {
        return Err(AppError::NoData { msg: "Group with no first".to_owned() });
    }
    let first = buckets[session.start].minute;
    let last = buckets[session.end - 1].minute;
    Ok((first, UtcTime { millis: last.millis + MINUTE_MS }))
}

/// The bucket that a row `(minute label, byte total)` of the per-minute
/// aggregate stands for.
pub open spec fn bucket_of_row(row: (String, i64)) -> MinuteBucket {
    MinuteBucket { minute: UtcTime { millis: minute_label_millis(row.0@).unwrap() }, byte_length: row.1 }
}

/// Whether every minute label among the rows can be read.
pub open spec fn all_labels_parse(rows: Seq<(String, i64)>) -> bool {
    forall|i: int| 0 <= i < rows.len() ==> (#[trigger] minute_label_millis(rows[i].0@)).is_some()
}

/// Turns the per-minute aggregate rows, newest minute first, into the
/// ascending bucket sequence. Fails where a minute label cannot be read.
pub fn read_minute_buckets(rows: &Vec<(String, i64)>) -> (r: Result<Vec<MinuteBucket>, AppError>)
    ensures
        all_labels_parse(rows@) ==> r is Ok,
        !all_labels_parse(rows@) ==> r matches Err(AppError::Chrono { .. }),
        r matches Ok(v) ==> v@.len() == rows@.len() && forall|j: int|
            0 <= j < v@.len() ==> #[trigger] v@[j] == bucket_of_row(rows@[rows@.len() - 1 - j]),
{
    let n = rows.len();
    let mut buckets: Vec<MinuteBucket> = Vec::new();
    let mut i: usize = n;
    while i > 0
        invariant
            n == rows@.len(),
            i <= n,
            buckets@.len() == n - i,
            forall|j: int| 0 <= j < buckets@.len() ==> #[trigger] buckets@[j] == bucket_of_row(rows@[n - 1 - j]),
            forall|j: int| i <= j < n ==> (#[trigger] minute_label_millis(rows@[j].0@)).is_some(),
        decreases i,
    {
        let row = &rows[i - 1];
        match parse_minute_date(row.0.as_str()) {
            Ok(minute) => {
                buckets.push(MinuteBucket { minute, byte_length: row.1 });
            },
            Err(e) => {
                return Err(e);
            },
        }
        i = i - 1;
    }
    Ok(buckets)
}

} // verus!
