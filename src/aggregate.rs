//! Aggregation of the raw events of one pull request into one update.
use vstd::prelude::*;
use crate::pr_model::{
    texts, update_view, PullRequestEvent, PullRequestEventType, PullRequestUpdate, PullRequestUpdateType,
};
use crate::text::{
    decimal_text, lemma_text_lt_asymmetric, lemma_text_lt_total, lemma_text_lt_transitive,
    render_decimal, text_equals, text_less, text_lt,
};

verus! {

/// Why events could not be aggregated.
#[derive(Clone, Copy, Debug, PartialEq, Eq, Structural)]
pub enum AggregationError {
    /// The group of events to aggregate was empty.
    NoEvents,
}

/// How many events of `s` have type `t`.
pub open spec fn count_type(s: Seq<PullRequestEvent>, t: PullRequestEventType) -> nat
    decreases s.len(),
{
    if s.len() == 0 {
        0
    } else {
        count_type(s.drop_last(), t) + if s.last().event_type == t {
            1nat
        } else {
            0nat
        }
    }
}

/// The detail line for `n` events of type `t`.
pub open spec fn detail_text(t: PullRequestEventType, n: nat) -> Seq<char> {
    match t {
        PullRequestEventType::Opened => "PR opened"@,
        PullRequestEventType::Approved => if n == 1 {
            "PR approved"@
        } else {
            decimal_text(n) + " approvals on PR"@
        },
        PullRequestEventType::Merged => "PR merged"@,
        PullRequestEventType::CommentAdded => if n == 1 {
            "New comment on PR"@
        } else {
            decimal_text(n) + " new comments on PR"@
        },
        PullRequestEventType::SourceBranchUpdated => if n == 1 {
            "New update on PR"@
        } else {
            decimal_text(n) + " new updates on PR"@
        },
    }
}

/// The detail line of type `t` for the events `s`, if any event has that type.
pub open spec fn detail_part(s: Seq<PullRequestEvent>, t: PullRequestEventType) -> Seq<Seq<char>> {
    if count_type(s, t) > 0 {
        seq![detail_text(t, count_type(s, t))]
    } else {
        seq![]
    }
}

/// The detail lines for the events `s`: one per event type present, in the
/// declaration order of the event types.
pub open spec fn details_spec(s: Seq<PullRequestEvent>) -> Seq<Seq<char>> {
    detail_part(s, PullRequestEventType::Opened) + detail_part(s, PullRequestEventType::Approved)
        + detail_part(s, PullRequestEventType::Merged) + detail_part(
        s,
        PullRequestEventType::CommentAdded,
    ) + detail_part(s, PullRequestEventType::SourceBranchUpdated)
}

/// Row id `a` comes before row id `b`: unset ids first, then by value.
pub open spec fn id_lt(a: Option<i32>, b: Option<i32>) -> bool {
    match (a, b) {
        (None, Some(_)) => true,
        (Some(x), Some(y)) => x < y,
        _ => false,
    }
}

/// Event `a` comes strictly before event `b`: by timestamp, then by row id,
/// then by author, title, repository and link in text order.
pub open spec fn event_before(a: PullRequestEvent, b: PullRequestEvent) -> bool {
    a.timestamp < b.timestamp || (a.timestamp == b.timestamp && (id_lt(a.id, b.id) || (a.id
        == b.id && (text_lt(a.author@, b.author@) || (a.author@ == b.author@ && (text_lt(
        a.title@,
        b.title@,
    ) || (a.title@ == b.title@ && (text_lt(a.repository@, b.repository@) || (a.repository@
        == b.repository@ && text_lt(a.pr_link@, b.pr_link@))))))))))
}

/// Events `a` and `b` agree on everything that orders them.
pub open spec fn same_rank(a: PullRequestEvent, b: PullRequestEvent) -> bool {
    &&& a.timestamp == b.timestamp
    &&& a.id == b.id
    &&& a.author@ == b.author@
    &&& a.title@ == b.title@
    &&& a.repository@ == b.repository@
    &&& a.pr_link@ == b.pr_link@
}

/// The position of the chronologically last event of `s`: the greatest in the
/// order `event_before` (the latest timestamp, then the greatest row id, then
/// the greatest texts). Events that rank the same are alike in every field
/// that an update copies, so which of them is taken does not matter.
pub open spec fn last_event_index(s: Seq<PullRequestEvent>) -> int
    decreases s.len(),
{
    if s.len() <= 1 {
        0
    } else {
        let j = last_event_index(s.drop_last());
        if !event_before(s.last(), s[j]) {
            s.len() - 1
        } else {
            j
        }
    }
}

/// No event comes before itself, and of two events at most one comes first.
pub proof fn lemma_event_before_asymmetric(a: PullRequestEvent, b: PullRequestEvent)
    ensures
        !(event_before(a, b) && event_before(b, a)),
        !event_before(a, a),
{
    lemma_text_lt_asymmetric(a.author@, b.author@);
    lemma_text_lt_asymmetric(a.title@, b.title@);
    lemma_text_lt_asymmetric(a.repository@, b.repository@);
    lemma_text_lt_asymmetric(a.pr_link@, b.pr_link@);
    lemma_text_lt_asymmetric(a.author@, a.author@);
    lemma_text_lt_asymmetric(a.title@, a.title@);
    lemma_text_lt_asymmetric(a.repository@, a.repository@);
    lemma_text_lt_asymmetric(a.pr_link@, a.pr_link@);
}

/// Of two events that do not rank the same, one comes first.
pub proof fn lemma_event_before_total(a: PullRequestEvent, b: PullRequestEvent)
    ensures
        same_rank(a, b) || event_before(a, b) || event_before(b, a),
{
    if a.author@ != b.author@ {
        lemma_text_lt_total(a.author@, b.author@);
    }
    if a.title@ != b.title@ {
        lemma_text_lt_total(a.title@, b.title@);
    }
    if a.repository@ != b.repository@ {
        lemma_text_lt_total(a.repository@, b.repository@);
    }
    if a.pr_link@ != b.pr_link@ {
        lemma_text_lt_total(a.pr_link@, b.pr_link@);
    }
}

/// The order of events is transitive.
pub proof fn lemma_event_before_transitive(a: PullRequestEvent, b: PullRequestEvent, c: PullRequestEvent)
    requires
        event_before(a, b),
        event_before(b, c),
    ensures
        event_before(a, c),
{
    if text_lt(a.author@, b.author@) && text_lt(b.author@, c.author@) {
        lemma_text_lt_transitive(a.author@, b.author@, c.author@);
    }
    if text_lt(a.title@, b.title@) && text_lt(b.title@, c.title@) {
        lemma_text_lt_transitive(a.title@, b.title@, c.title@);
    }
    if text_lt(a.repository@, b.repository@) && text_lt(b.repository@, c.repository@) {
        lemma_text_lt_transitive(a.repository@, b.repository@, c.repository@);
    }
    if text_lt(a.pr_link@, b.pr_link@) && text_lt(b.pr_link@, c.pr_link@) {
        lemma_text_lt_transitive(a.pr_link@, b.pr_link@, c.pr_link@);
    }
}

/// No event of `s` comes after its event at `i`.
pub open spec fn is_greatest(s: Seq<PullRequestEvent>, i: int) -> bool {
    forall|k: int| 0 <= k < s.len() ==> !event_before(s[i], #[trigger] s[k])
}

/// The update type that corresponds to an event type.
pub open spec fn update_type_of(t: PullRequestEventType) -> PullRequestUpdateType {
    match t {
        PullRequestEventType::Opened => PullRequestUpdateType::Opened,
        PullRequestEventType::Approved => PullRequestUpdateType::Approved,
        PullRequestEventType::Merged => PullRequestUpdateType::Merged,
        PullRequestEventType::CommentAdded => PullRequestUpdateType::CommentAdded,
        PullRequestEventType::SourceBranchUpdated => PullRequestUpdateType::SourceBranchUpdated,
    }
}

/// The update type of a group: the type of its only event, or `Aggregated`.
pub open spec fn group_update_type(s: Seq<PullRequestEvent>) -> PullRequestUpdateType {
    if s.len() == 1 {
        update_type_of(s[0].event_type)
    } else {
        PullRequestUpdateType::Aggregated
    }
}

/// `u` is the update that aggregates the events `s` of pull request `pr_id`.
pub open spec fn is_update_of(u: PullRequestUpdate, pr_id: Seq<char>, s: Seq<PullRequestEvent>) -> bool {
    let last = s[last_event_index(s)];
    &&& u.pr_id@ == pr_id
    &&& u.update_type == group_update_type(s)
    &&& u.author@ == last.author@
    &&& u.title@ == last.title@
    &&& u.repository@ == last.repository@
    &&& u.pr_link@ == last.pr_link@
    &&& u.timestamp == last.timestamp
    &&& texts(u.details@) == details_spec(s)
}

/// The update type for a single event of type `event_type`.
pub fn map_event_type(event_type: PullRequestEventType) -> (r: PullRequestUpdateType)
    ensures
        r == update_type_of(event_type),
{
    match event_type {
        PullRequestEventType::Opened => PullRequestUpdateType::Opened,
        PullRequestEventType::Approved => PullRequestUpdateType::Approved,
        PullRequestEventType::Merged => PullRequestUpdateType::Merged,
        PullRequestEventType::CommentAdded => PullRequestUpdateType::CommentAdded,
        PullRequestEventType::SourceBranchUpdated => PullRequestUpdateType::SourceBranchUpdated,
    }
}

/// The detail line for `count` events of type `event_type`.
pub fn get_update_detail_for_event_type(event_type: PullRequestEventType, count: u64) -> (r:
    String)
    ensures
        r@ == detail_text(event_type, count as nat),
{
    match event_type {
        PullRequestEventType::Opened => String::from_str("PR opened"),
        PullRequestEventType::Approved => if count == 1 {
            String::from_str("PR approved")
        } else {
            let mut s = render_decimal(count);
            s.append(" approvals on PR");
            s
        },
        PullRequestEventType::Merged => String::from_str("PR merged"),
        PullRequestEventType::CommentAdded => if count == 1 {
            String::from_str("New comment on PR")
        } else {
            let mut s = render_decimal(count);
            s.append(" new comments on PR");
            s
        },
        PullRequestEventType::SourceBranchUpdated => if count == 1 {
            String::from_str("New update on PR")
        } else {
            let mut s = render_decimal(count);
            s.append(" new updates on PR");
            s
        },
    }
}

fn push_detail(details: &mut Vec<String>, event_type: PullRequestEventType, count: u64)
    ensures
        count > 0 ==> final(details)@.len() == old(details)@.len() + 1 && final(details)@
            == old(details)@.push(final(details)@.last()) && final(details)@.last()@ == detail_text(
            event_type,
            count as nat,
        ),
        count == 0 ==> final(details)@ == old(details)@,
{
    if count > 0 {
        details.push(get_update_detail_for_event_type(event_type, count));
    }
}

/// The detail lines for `events`: one per event type present, ordered by event type.
pub fn get_update_details(events: &[PullRequestEvent]) -> (r: Vec<String>)
    ensures
        texts(r@) == details_spec(events@),
{
    let mut opened: u64 = 0;
    let mut approved: u64 = 0;
    let mut merged: u64 = 0;
    let mut commented: u64 = 0;
    let mut updated: u64 = 0;
    let mut i: usize = 0;
    while i < events.len()
        invariant
            i <= events@.len(),
            opened == count_type(events@.subrange(0, i as int), PullRequestEventType::Opened),
            approved == count_type(events@.subrange(0, i as int), PullRequestEventType::Approved),
            merged == count_type(events@.subrange(0, i as int), PullRequestEventType::Merged),
            commented == count_type(
                events@.subrange(0, i as int),
                PullRequestEventType::CommentAdded,
            ),
            updated == count_type(
                events@.subrange(0, i as int),
                PullRequestEventType::SourceBranchUpdated,
            ),
            opened <= i && approved <= i && merged <= i && commented <= i && updated <= i,
        decreases events@.len() - i,
    {
        assert(events@.subrange(0, i + 1).drop_last() =~= events@.subrange(0, i as int));
        match events[i].event_type {
            PullRequestEventType::Opened => opened = opened + 1,
            PullRequestEventType::Approved => approved = approved + 1,
            PullRequestEventType::Merged => merged = merged + 1,
            PullRequestEventType::CommentAdded => commented = commented + 1,
            PullRequestEventType::SourceBranchUpdated => updated = updated + 1,
        }
        i = i + 1;
    }
    assert(events@.subrange(0, events@.len() as int) =~= events@);
    let mut details: Vec<String> = Vec::new();
    push_detail(&mut details, PullRequestEventType::Opened, opened);
    let ghost d1 = details@;
    push_detail(&mut details, PullRequestEventType::Approved, approved);
    let ghost d2 = details@;
    push_detail(&mut details, PullRequestEventType::Merged, merged);
    let ghost d3 = details@;
    push_detail(&mut details, PullRequestEventType::CommentAdded, commented);
    let ghost d4 = details@;
    push_detail(&mut details, PullRequestEventType::SourceBranchUpdated, updated);
    let ghost s = events@;
    assert(texts(d1) =~= detail_part(s, PullRequestEventType::Opened));
    assert(texts(d2) =~= texts(d1) + detail_part(s, PullRequestEventType::Approved));
    assert(texts(d3) =~= texts(d2) + detail_part(s, PullRequestEventType::Merged));
    assert(texts(d4) =~= texts(d3) + detail_part(s, PullRequestEventType::CommentAdded));
    assert(texts(details@) =~= texts(d4) + detail_part(
        s,
        PullRequestEventType::SourceBranchUpdated,
    ));
    details
}

/// Whether event `a` comes strictly before event `b`.
pub fn event_precedes(a: &PullRequestEvent, b: &PullRequestEvent) -> (r: bool)
    ensures
        r == event_before(*a, *b),
{
    proof {
        lemma_event_before_asymmetric(*a, *b);
    }
    if a.timestamp != b.timestamp {
        return a.timestamp < b.timestamp;
    }
    match (a.id, b.id) {
        (None, Some(_)) => {
            return true;
        },
        (Some(_), None) => {
            return false;
        },
        (Some(x), Some(y)) => {
            if x != y {
                return x < y;
            }
        },
        (None, None) => {},
    }
    if !text_equals(a.author.as_str(), b.author.as_str()) {
        return text_less(a.author.as_str(), b.author.as_str());
    }
    if !text_equals(a.title.as_str(), b.title.as_str()) {
        return text_less(a.title.as_str(), b.title.as_str());
    }
    if !text_equals(a.repository.as_str(), b.repository.as_str()) {
        return text_less(a.repository.as_str(), b.repository.as_str());
    }
    text_less(a.pr_link.as_str(), b.pr_link.as_str())
}

/// The position of the chronologically last event.
fn last_event_position(events: &[PullRequestEvent]) -> (j: usize)
    requires
        events@.len() > 0,
    ensures
        j == last_event_index(events@),
        j < events@.len(),
{
    let mut j: usize = 0;
    let mut i: usize = 1;
    while i < events.len()
        invariant
            1 <= i <= events@.len(),
            j < i,
            j == last_event_index(events@.subrange(0, i as int)),
        decreases events@.len() - i,
    {
        let ghost prefix = events@.subrange(0, i + 1);
        assert(prefix.drop_last() =~= events@.subrange(0, i as int));
        if !event_precedes(&events[i], &events[j]) {
            j = i;
        }
        i = i + 1;
    }
    assert(events@.subrange(0, events@.len() as int) =~= events@);
    j
}

/// Aggregates the events of pull request `pr_id` into one update. The author,
/// title, repository, link and timestamp come from the chronologically last
/// event: the latest, with ties broken by row id and then by text, so that the
/// order in which the events are listed does not matter.
pub fn aggregate_events(pr_id: String, events: Vec<PullRequestEvent>) -> (r: Result<
    PullRequestUpdate,
    AggregationError,
>)
    ensures
        r is Err <==> events@.len() == 0,
        r matches Ok(u) ==> is_update_of(u, pr_id@, events@),
        r is Ok ==> is_latest(events@, last_event_index(events@)) && is_greatest(
            events@,
            last_event_index(events@),
        ),
{
    if events.len() == 0 {
        return Err(AggregationError::NoEvents);
    }
    let details = get_update_details(events.as_slice());
    let j = last_event_position(events.as_slice());
    proof {
        lemma_last_event_is_latest(events@);
    }
    let last = &events[j];
    let update_type = if events.len() == 1 {
        map_event_type(last.event_type)
    } else {
        PullRequestUpdateType::Aggregated
    };
    Ok(
        PullRequestUpdate {
            pr_id,
            update_type,
            author: last.author.clone(),
            title: last.title.clone(),
            repository: last.repository.clone(),
            details,
            timestamp: last.timestamp,
            pr_link: last.pr_link.clone(),
        },
    )
}

/// No event of `s` is later than its event at `i`.
pub open spec fn is_latest(s: Seq<PullRequestEvent>, i: int) -> bool {
    forall|k: int| 0 <= k < s.len() ==> #[trigger] s[k].timestamp <= s[i].timestamp
}

/// The chronologically last event is the greatest in the order of events,
/// so it has the greatest timestamp.
pub proof fn lemma_last_event_is_latest(s: Seq<PullRequestEvent>)
    requires
        s.len() > 0,
    ensures
        0 <= last_event_index(s) < s.len(),
        is_greatest(s, last_event_index(s)),
        is_latest(s, last_event_index(s)),
    decreases s.len(),
{
    if s.len() > 1 {
        let t = s.drop_last();
        lemma_last_event_is_latest(t);
        let j = last_event_index(t);
        let i = last_event_index(s);
        assert(t[j] == s[j]);
        assert forall|k: int| 0 <= k < s.len() implies !event_before(s[i], #[trigger] s[k]) by {
            if k < s.len() - 1 {
                assert(s[k] == t[k]);
                assert(!event_before(t[j], t[k]));
                if i == s.len() - 1 {
                    lemma_event_before_total(s.last(), s[j]);
                    if event_before(s.last(), s[k]) && event_before(s[j], s.last()) {
                        lemma_event_before_transitive(s[j], s.last(), s[k]);
                    }
                }
            } else if i != s.len() - 1 {
                lemma_event_before_asymmetric(s[j], s.last());
            } else {
                lemma_event_before_asymmetric(s.last(), s.last());
            }
        }
    } else {
        lemma_event_before_asymmetric(s[0], s[0]);
    }
    let i = last_event_index(s);
    assert forall|k: int| 0 <= k < s.len() implies #[trigger] s[k].timestamp <= s[i].timestamp by {
        assert(!event_before(s[i], s[k]));
    }
}

proof fn lemma_count_type_remove(s: Seq<PullRequestEvent>, k: int, t: PullRequestEventType)
    requires
        0 <= k < s.len(),
    ensures
        count_type(s, t) == count_type(s.remove(k), t) + if s[k].event_type == t {
            1nat
        } else {
            0nat
        },
    decreases s.len(),
{
    if k == s.len() - 1 {
        assert(s.remove(k) =~= s.drop_last());
    } else {
        lemma_count_type_remove(s.drop_last(), k, t);
        assert(s.remove(k).drop_last() =~= s.drop_last().remove(k));
        assert(s.remove(k).last() == s.last());
    }
}

proof fn lemma_count_type_permutation(s1: Seq<PullRequestEvent>, s2: Seq<PullRequestEvent>, t: PullRequestEventType)
    requires
        s1.to_multiset() == s2.to_multiset(),
    ensures
        count_type(s1, t) == count_type(s2, t),
    decreases s1.len(),
{
    broadcast use vstd::seq_lib::group_to_multiset_ensures;

    if s1.len() == 0 {
        assert(s2.to_multiset().len() == 0);
    } else {
        let x = s1.last();
        let rest = s1.drop_last();
        assert(s1 =~= rest.push(x));
        assert(s2.to_multiset().count(x) > 0);
        assert(s2.contains(x));
        let k = choose|k: int| 0 <= k < s2.len() && s2[k] == x;
        assert(s2.remove(k).to_multiset() =~= rest.to_multiset());
        lemma_count_type_permutation(rest, s2.remove(k), t);
        lemma_count_type_remove(s2, k, t);
    }
}

/// Aggregation does not depend on the order in which the events are listed:
/// the same events in another order give the same update.
pub proof fn lemma_aggregate_order_independent(
    pr_id: Seq<char>,
    s1: Seq<PullRequestEvent>,
    s2: Seq<PullRequestEvent>,
    u1: PullRequestUpdate,
    u2: PullRequestUpdate,
)
    requires
        s1.to_multiset() == s2.to_multiset(),
        s1.len() > 0,
        is_update_of(u1, pr_id, s1),
        is_update_of(u2, pr_id, s2),
    ensures
        update_view(u1) == update_view(u2),
{
    s1.to_multiset_ensures();
    s2.to_multiset_ensures();
    assert(s1.len() == s2.len());
    lemma_last_event_is_latest(s1);
    lemma_last_event_is_latest(s2);
    let i1 = last_event_index(s1);
    let i2 = last_event_index(s2);
    assert(s2.contains(s2[i2]));
    assert(s2.to_multiset().count(s2[i2]) > 0);
    assert(s1.to_multiset().count(s2[i2]) > 0);
    assert(s1.contains(s2[i2]));
    assert(s1.contains(s1[i1]));
    assert(s1.to_multiset().count(s1[i1]) > 0);
    assert(s2.to_multiset().count(s1[i1]) > 0);
    assert(s2.contains(s1[i1]));
    let j1 = choose|j: int| 0 <= j < s1.len() && s1[j] == s2[i2];
    let j2 = choose|j: int| 0 <= j < s2.len() && s2[j] == s1[i1];
    assert(!event_before(s1[i1], s1[j1]));
    assert(!event_before(s2[i2], s2[j2]));
    lemma_event_before_total(s1[i1], s2[i2]);
    assert(same_rank(s1[i1], s2[i2]));
    if s1.len() == 1 {
        assert(s1[0] == s1[i1]);
        assert(s2[0] == s2[i2]);
    }
    assert forall|t: PullRequestEventType| count_type(s1, t) == count_type(s2, t) by {
        lemma_count_type_permutation(s1, s2, t);
    }
    assert(details_spec(s1) == details_spec(s2));
}

proof fn lemma_counts_sum(s: Seq<PullRequestEvent>)
    ensures
        count_type(s, PullRequestEventType::Opened) + count_type(s, PullRequestEventType::Approved)
            + count_type(s, PullRequestEventType::Merged) + count_type(
            s,
            PullRequestEventType::CommentAdded,
        ) + count_type(s, PullRequestEventType::SourceBranchUpdated) == s.len(),
    decreases s.len(),
{
    if s.len() > 0 {
        lemma_counts_sum(s.drop_last());
    }
}

/// The details of an update hold at least one line, and at most one line per
/// event type: never more lines than there are event types or events.
pub proof fn lemma_details_one_per_type(s: Seq<PullRequestEvent>)
    requires
        s.len() > 0,
    ensures
        1 <= details_spec(s).len() <= 5,
        details_spec(s).len() <= s.len(),
{
    lemma_counts_sum(s);
}

} // verus!
