//! Selection, grouping and ordering of the stored events a client has not seen
//! yet, and the choice of the events that retention removes.
use vstd::prelude::*;
use crate::aggregate::{aggregate_events, is_update_of, last_event_index};
use crate::pr_model::{update_view, PullRequestEvent, PullRequestTimestamp, PullRequestUpdate};

verus! {

/// A client's watermark: the last event timestamp it has seen for one pull request.
#[derive(Debug)]
pub struct PullRequestLastSeen {
    pub pr_id: String,
    pub last_seen_timestamp: PullRequestTimestamp,
}

/// The watermark for `id`; where `ls` names `id` more than once, the last entry counts.
pub open spec fn watermark(ls: Seq<PullRequestLastSeen>, id: Seq<char>) -> Option<i64>
    decreases ls.len(),
{
    if ls.len() == 0 {
        None
    } else if ls.last().pr_id@ == id {
        Some(ls.last().last_seen_timestamp)
    } else {
        watermark(ls.drop_last(), id)
    }
}

/// An event is unseen unless the client's watermark for its pull request is at
/// or after the event's timestamp.
pub open spec fn is_unseen(e: PullRequestEvent, ls: Seq<PullRequestLastSeen>) -> bool {
    match watermark(ls, e.pr_id@) {
        Some(t) => e.timestamp > t,
        None => true,
    }
}

/// The test of `is_unseen` as a predicate.
pub open spec fn unseen_pred(ls: Seq<PullRequestLastSeen>) -> spec_fn(PullRequestEvent) -> bool {
    |e: PullRequestEvent| is_unseen(e, ls)
}

/// The events of `events` that the client has not seen, in their order.
pub open spec fn unseen_events(events: Seq<PullRequestEvent>, ls: Seq<PullRequestLastSeen>) -> Seq<
    PullRequestEvent,
> {
    events.filter(unseen_pred(ls))
}

/// The pull-request ids of `s`, each once, in the order of their first event.
pub open spec fn distinct_ids(s: Seq<PullRequestEvent>) -> Seq<Seq<char>>
    decreases s.len(),
{
    if s.len() == 0 {
        seq![]
    } else {
        let ids = distinct_ids(s.drop_last());
        if ids.contains(s.last().pr_id@) {
            ids
        } else {
            ids.push(s.last().pr_id@)
        }
    }
}

/// The test that an event belongs to pull request `id`.
pub open spec fn id_pred(id: Seq<char>) -> spec_fn(PullRequestEvent) -> bool {
    |e: PullRequestEvent| e.pr_id@ == id
}

/// The events of `s` that belong to pull request `id`, in their order.
pub open spec fn pr_group(s: Seq<PullRequestEvent>, id: Seq<char>) -> Seq<PullRequestEvent> {
    s.filter(id_pred(id))
}

/// The time of the latest event of group `k`.
pub open spec fn group_time(s: Seq<PullRequestEvent>, ids: Seq<Seq<char>>, k: int) -> int {
    let g = pr_group(s, ids[k]);
    g[last_event_index(g)].timestamp as int
}

/// Some position of `o` holds `m`.
pub open spec fn lists(o: Seq<int>, m: int) -> bool {
    exists|j: int| 0 <= j < o.len() && o[j] == m
}

/// `o` lists the groups of `s` in the order of `r`: each group once, the most
/// recently active first, and among groups equally recent the one whose first
/// event comes first in `s`.
pub open spec fn is_listing_order(
    r: Seq<PullRequestUpdate>,
    o: Seq<int>,
    s: Seq<PullRequestEvent>,
    ids: Seq<Seq<char>>,
) -> bool {
    &&& o.len() == r.len()
    &&& r.len() == ids.len()
    &&& forall|j: int| 0 <= j < o.len() ==> 0 <= #[trigger] o[j] < ids.len()
    &&& forall|j1: int, j2: int| 0 <= j1 < j2 < o.len() ==> o[j1] != o[j2]
    &&& forall|m: int| 0 <= m < ids.len() ==> #[trigger] lists(o, m)
    &&& forall|j: int|
        0 <= j < r.len() ==> is_update_of(#[trigger] r[j], ids[o[j]], pr_group(s, ids[o[j]]))
    &&& forall|j1: int, j2: int|
        0 <= j1 < j2 < r.len() ==> group_time(s, ids, o[j1]) > group_time(s, ids, o[j2]) || (
        group_time(s, ids, o[j1]) == group_time(s, ids, o[j2]) && o[j1] < o[j2])
}

/// `r` holds one update for each pull request with unseen events in `events`,
/// aggregating exactly those events, in the listing order above.
pub open spec fn is_pr_update_list(
    r: Seq<PullRequestUpdate>,
    events: Seq<PullRequestEvent>,
    ls: Seq<PullRequestLastSeen>,
) -> bool {
    let s = unseen_events(events, ls);
    exists|o: Seq<int>| is_listing_order(r, o, s, distinct_ids(s))
}

/// Every id that `distinct_ids` lists is the id of some event.
pub proof fn lemma_distinct_ids_from_events(s: Seq<PullRequestEvent>, k: int)
    requires
        0 <= k < distinct_ids(s).len(),
    ensures
        exists|i: int| 0 <= i < s.len() && #[trigger] s[i].pr_id@ == distinct_ids(s)[k],
    decreases s.len(),
{
    let ids = distinct_ids(s.drop_last());
    if k < ids.len() {
        lemma_distinct_ids_from_events(s.drop_last(), k);
        let i = choose|i: int| 0 <= i < s.drop_last().len() && #[trigger] s.drop_last()[i].pr_id@ == ids[k];
        assert(s[i].pr_id@ == distinct_ids(s)[k]);
    } else {
        assert(s[s.len() - 1].pr_id@ == distinct_ids(s)[k]);
    }
}

/// The group of a listed id is not empty.
proof fn lemma_group_not_empty(s: Seq<PullRequestEvent>, k: int)
    requires
        0 <= k < distinct_ids(s).len(),
    ensures
        pr_group(s, distinct_ids(s)[k]).len() > 0,
{
    lemma_distinct_ids_from_events(s, k);
    let id = distinct_ids(s)[k];
    let i = choose|i: int| 0 <= i < s.len() && #[trigger] s[i].pr_id@ == id;
    s.lemma_filter_contains(id_pred(id), i);
    assert(pr_group(s, id).contains(s[i]));
}

/// The watermark of `ls` for `id`.
fn find_watermark(ls: &[PullRequestLastSeen], id: &String) -> (r: Option<i64>)
    ensures
        r == watermark(ls@, id@),
{
    let mut j: usize = ls.len();
    assert(ls@.subrange(0, j as int) =~= ls@);
    while j > 0
        invariant
            j <= ls@.len(),
            watermark(ls@, id@) == watermark(ls@.subrange(0, j as int), id@),
        decreases j,
    {
        let ghost prefix = ls@.subrange(0, j as int);
        assert(prefix.drop_last() =~= ls@.subrange(0, j - 1));
        if ls[j - 1].pr_id == *id {
            return Some(ls[j - 1].last_seen_timestamp);
        }
        j = j - 1;
    }
    None
}

/// Whether the client described by `ls` has not seen `event` yet.
pub fn is_event_unseen(event: &PullRequestEvent, ls: &[PullRequestLastSeen]) -> (r: bool)
    ensures
        r == is_unseen(*event, ls@),
{
    match find_watermark(ls, &event.pr_id) {
        Some(t) => event.timestamp > t,
        None => true,
    }
}

/// The events that the client described by `ls` has not seen, in their order.
pub fn filter_unseen_events(events: &[PullRequestEvent], ls: &[PullRequestLastSeen]) -> (r: Vec<
    PullRequestEvent,
>)
    ensures
        r@ == unseen_events(events@, ls@),
{
    let ghost pred = unseen_pred(ls@);
    let mut r: Vec<PullRequestEvent> = Vec::new();
    let mut i: usize = 0;
    while i < events.len()
        invariant
            i <= events@.len(),
            pred == unseen_pred(ls@),
            r@ == events@.subrange(0, i as int).filter(pred),
        decreases events@.len() - i,
    {
        assert(events@.subrange(0, i + 1).drop_last() =~= events@.subrange(0, i as int));
        proof {
            reveal(Seq::filter);
        }
        assert(pred(events@[i as int]) == is_unseen(events@[i as int], ls@));
        if is_event_unseen(&events[i], ls) {
            r.push(events[i].duplicate());
        }
        assert(r@ == events@.subrange(0, i + 1).filter(pred));
        i = i + 1;
    }
    assert(events@.subrange(0, events@.len() as int) =~= events@);
    r
}

/// Whether `id` is among `ids`.
fn contains_id(ids: &Vec<String>, id: &String) -> (r: bool)
    ensures
        r == ids@.map_values(|x: String| x@).contains(id@),
{
    let ghost views = ids@.map_values(|x: String| x@);
    let mut k: usize = 0;
    while k < ids.len()
        invariant
            k <= ids@.len(),
            views == ids@.map_values(|x: String| x@),
            forall|m: int| 0 <= m < k ==> views[m] != id@,
        decreases ids@.len() - k,
    {
        if ids[k] == *id {
            assert(views[k as int] == id@);
            return true;
        }
        k = k + 1;
    }
    false
}

/// The pull-request ids of `s`, each once, in the order of their first event.
pub fn collect_distinct_ids(s: &[PullRequestEvent]) -> (r: Vec<String>)
    ensures
        r@.map_values(|x: String| x@) == distinct_ids(s@),
{
    let mut r: Vec<String> = Vec::new();
    let mut i: usize = 0;
    while i < s.len()
        invariant
            i <= s@.len(),
            r@.map_values(|x: String| x@) == distinct_ids(s@.subrange(0, i as int)),
        decreases s@.len() - i,
    {
        let ghost prefix = s@.subrange(0, i + 1);
        assert(prefix.drop_last() =~= s@.subrange(0, i as int));
        if !contains_id(&r, &s[i].pr_id) {
            r.push(s[i].pr_id.clone());
            assert(r@.map_values(|x: String| x@) =~= distinct_ids(prefix));
        }
        i = i + 1;
    }
    assert(s@.subrange(0, s@.len() as int) =~= s@);
    r
}

/// The events of `s` that belong to pull request `id`, in their order.
pub fn collect_group(s: &[PullRequestEvent], id: &String) -> (r: Vec<PullRequestEvent>)
    ensures
        r@ == pr_group(s@, id@),
{
    let ghost pred = id_pred(id@);
    let mut r: Vec<PullRequestEvent> = Vec::new();
    let mut i: usize = 0;
    while i < s.len()
        invariant
            i <= s@.len(),
            pred == id_pred(id@),
            r@ == s@.subrange(0, i as int).filter(pred),
        decreases s@.len() - i,
    {
        assert(s@.subrange(0, i + 1).drop_last() =~= s@.subrange(0, i as int));
        proof {
            reveal(Seq::filter);
        }
        assert(pred(s@[i as int]) == (s@[i as int].pr_id@ == id@));
        if s[i].pr_id == *id {
            r.push(s[i].duplicate());
        }
        assert(r@ == s@.subrange(0, i + 1).filter(pred));
        i = i + 1;
    }
    assert(s@.subrange(0, s@.len() as int) =~= s@);
    r
}

/// The first position whose update is not more recent than `t`.
fn insertion_point(r: &Vec<PullRequestUpdate>, t: i64) -> (pos: usize)
    ensures
        pos <= r@.len(),
        forall|j: int| 0 <= j < pos ==> #[trigger] r@[j].timestamp > t,
        pos < r@.len() ==> r@[pos as int].timestamp <= t,
{
    let mut pos: usize = 0;
    while pos < r.len() && r[pos].timestamp > t
        invariant
            pos <= r@.len(),
            forall|j: int| 0 <= j < pos ==> #[trigger] r@[j].timestamp > t,
        decreases r@.len() - pos,
    {
        pos = pos + 1;
    }
    pos
}

/// The updates for the client described by `last_seen`: the events it has not
/// seen, grouped by pull request, each group aggregated, the most recently
/// active pull request first. Among pull requests equally recent, the one whose
/// first unseen event comes first in `events` is listed first.
#[verifier::rlimit(60)]
pub fn collect_pr_updates(events: &[PullRequestEvent], last_seen: &[PullRequestLastSeen]) -> (r:
    Vec<PullRequestUpdate>)
    ensures
        is_pr_update_list(r@, events@, last_seen@),
{
    let unseen = filter_unseen_events(events, last_seen);
    let ids = collect_distinct_ids(unseen.as_slice());
    let ghost s = unseen@;
    let ghost idv = distinct_ids(s);
    let n = ids.len();
    let mut r: Vec<PullRequestUpdate> = Vec::new();
    let ghost mut o: Seq<int> = seq![];
    let mut k: usize = n;
    while k > 0
        invariant
            k <= n,
            s == unseen@,
            idv == distinct_ids(s),
            ids@.map_values(|x: String| x@) == idv,
            n == idv.len(),
            r@.len() == n - k,
            o.len() == n - k,
            forall|j: int| 0 <= j < o.len() ==> k <= #[trigger] o[j] < n,
            forall|j1: int, j2: int| 0 <= j1 < j2 < o.len() ==> o[j1] != o[j2],
            forall|m: int| k <= m < n ==> #[trigger] lists(o, m),
            forall|j: int|
                0 <= j < r@.len() ==> is_update_of(
                    #[trigger] r@[j],
                    idv[o[j]],
                    pr_group(s, idv[o[j]]),
                ),
            forall|j: int|
                0 <= j < r@.len() ==> #[trigger] r@[j].timestamp as int == group_time(s, idv, o[j]),
            forall|j1: int, j2: int|
                0 <= j1 < j2 < r@.len() ==> r@[j1].timestamp > r@[j2].timestamp || (
                r@[j1].timestamp == r@[j2].timestamp && o[j1] < o[j2]),
        decreases k,
    {
        k = k - 1;
        assert(ids@.map_values(|x: String| x@)[k as int] == ids@[k as int]@);
        let group = collect_group(unseen.as_slice(), &ids[k]);
        proof {
            lemma_group_not_empty(s, k as int);
        }
        match aggregate_events(ids[k].clone(), group) {
            Ok(u) => {
                let ghost old_r = r@;
                let ghost old_o = o;
                let pos = insertion_point(&r, u.timestamp);
                r.insert(pos, u);
                proof {
                    o = o.insert(pos as int, k as int);
                    old_r.insert_ensures(pos as int, u);
                    old_o.insert_ensures(pos as int, k as int);
                    assert forall|j: int| 0 <= j < o.len() implies k <= #[trigger] o[j] < n by {
                        if j > pos {
                            assert(o[j] == old_o[j - 1]);
                        }
                    }
                    assert forall|j1: int, j2: int| 0 <= j1 < j2 < o.len() implies o[j1] != o[j2] by {
                        if j1 > pos {
                            assert(o[j1] == old_o[j1 - 1]);
                        }
                        if j2 > pos {
                            assert(o[j2] == old_o[j2 - 1]);
                        }
                    }
                    assert forall|m: int| k <= m < n implies #[trigger] lists(o, m) by {
                        if m == k {
                            assert(o[pos as int] == m);
                        } else {
                            assert(lists(old_o, m));
                            let j = choose|j: int| 0 <= j < old_o.len() && old_o[j] == m;
                            if j < pos {
                                assert(o[j] == m);
                            } else {
                                assert(o[j + 1] == m);
                            }
                        }
                    }
                    assert forall|j: int| 0 <= j < r@.len() implies is_update_of(
                        #[trigger] r@[j],
                        idv[o[j]],
                        pr_group(s, idv[o[j]]),
                    ) && r@[j].timestamp as int == group_time(s, idv, o[j]) by {
                        if j > pos {
                            assert(r@[j] == old_r[j - 1]);
                            assert(o[j] == old_o[j - 1]);
                        }
                    }
                    assert forall|j1: int, j2: int| 0 <= j1 < j2 < r@.len() implies r@[j1].timestamp
                        > r@[j2].timestamp || (r@[j1].timestamp == r@[j2].timestamp && o[j1]
                        < o[j2]) by {
                        if j2 > pos {
                            assert(r@[j2] == old_r[j2 - 1]);
                            assert(o[j2] == old_o[j2 - 1]);
                            if j1 > pos {
                                assert(r@[j1] == old_r[j1 - 1]);
                                assert(o[j1] == old_o[j1 - 1]);
                            } else if j1 == pos {
                                if j2 - 1 > pos {
                                    assert(old_r[pos as int].timestamp >= old_r[j2 - 1].timestamp);
                                }
                            }
                        }
                    }
                }
            },
            Err(_) => {},
        }
    }
    proof {
        assert forall|m: int| 0 <= m < idv.len() implies #[trigger] lists(o, m) by {}
        assert(is_listing_order(r@, o, s, idv));
    }
    r
}

/// Two listings of the same groups in the listing order agree up to position `j`.
proof fn lemma_listing_orders_agree(
    r1: Seq<PullRequestUpdate>,
    o1: Seq<int>,
    r2: Seq<PullRequestUpdate>,
    o2: Seq<int>,
    s: Seq<PullRequestEvent>,
    ids: Seq<Seq<char>>,
    j: int,
)
    requires
        is_listing_order(r1, o1, s, ids),
        is_listing_order(r2, o2, s, ids),
        0 <= j <= ids.len(),
    ensures
        forall|i: int| 0 <= i < j ==> o1[i] == o2[i],
    decreases j,
{
    if j > 0 {
        lemma_listing_orders_agree(r1, o1, r2, o2, s, ids, j - 1);
        let i = j - 1;
        let a = o1[i];
        let b = o2[i];
        assert(lists(o1, b));
        assert(lists(o2, a));
        let m1 = choose|m: int| 0 <= m < o1.len() && o1[m] == b;
        let m2 = choose|m: int| 0 <= m < o2.len() && o2[m] == a;
        if m1 < i {
            assert(o2[m1] == b);
        }
        if m2 < i {
            assert(o1[m2] == a);
        }
    }
}

/// Asking twice for the updates of the same stored events with the same
/// watermarks gives the same updates, in the same order.
pub proof fn lemma_pr_updates_idempotent(
    events: Seq<PullRequestEvent>,
    ls: Seq<PullRequestLastSeen>,
    r1: Seq<PullRequestUpdate>,
    r2: Seq<PullRequestUpdate>,
)
    requires
        is_pr_update_list(r1, events, ls),
        is_pr_update_list(r2, events, ls),
    ensures
        r1.len() == r2.len(),
        forall|j: int| 0 <= j < r1.len() ==> update_view(#[trigger] r1[j]) == update_view(r2[j]),
{
    let s = unseen_events(events, ls);
    let ids = distinct_ids(s);
    let o1 = choose|o: Seq<int>| is_listing_order(r1, o, s, ids);
    let o2 = choose|o: Seq<int>| is_listing_order(r2, o, s, ids);
    lemma_listing_orders_agree(r1, o1, r2, o2, s, ids, ids.len() as int);
    assert forall|j: int| 0 <= j < r1.len() implies update_view(#[trigger] r1[j]) == update_view(
        r2[j],
    ) by {
        assert(o1[j] == o2[j]);
        assert(is_update_of(r1[j], ids[o1[j]], pr_group(s, ids[o1[j]])));
        assert(is_update_of(r2[j], ids[o2[j]], pr_group(s, ids[o2[j]])));
    }
}

/// How long events are kept, in days.
pub const EVENT_MAX_AGE_DAYS: i64 = 7;

/// How long events are kept, in milliseconds.
pub const EVENT_MAX_AGE_MILLIS: i64 = 604800000;

/// The oldest timestamp retention keeps at time `now`: seven days earlier, or
/// the earliest representable time where that would underflow.
pub open spec fn retention_cutoff_spec(now: int) -> int {
    if now - EVENT_MAX_AGE_MILLIS >= i64::MIN {
        now - EVENT_MAX_AGE_MILLIS
    } else {
        i64::MIN as int
    }
}

/// The id of an event older than `cutoff`, if it has one.
pub open spec fn expired_id(cutoff: int) -> spec_fn(PullRequestEvent) -> Option<i32> {
    |e: PullRequestEvent|
        if (e.timestamp as int) < cutoff {
            e.id
        } else {
            None
        }
}

/// The ids of the events of `events` strictly older than `cutoff`, in their order.
pub open spec fn expired_ids(events: Seq<PullRequestEvent>, cutoff: int) -> Seq<i32> {
    events.filter_map(expired_id(cutoff))
}

/// The oldest timestamp that retention keeps at time `now`.
pub fn retention_cutoff(now: PullRequestTimestamp) -> (r: PullRequestTimestamp)
    ensures
        r == retention_cutoff_spec(now as int),
{
    if now >= i64::MIN + EVENT_MAX_AGE_MILLIS {
        now - EVENT_MAX_AGE_MILLIS
    } else {
        i64::MIN
    }
}

/// The ids of the stored events strictly older than `cutoff`: those that
/// retention deletes. An event exactly at `cutoff` is kept.
pub fn select_expired_event_ids(events: &[PullRequestEvent], cutoff: PullRequestTimestamp) -> (r:
    Vec<i32>)
    ensures
        r@ == expired_ids(events@, cutoff as int),
{
    let mut r: Vec<i32> = Vec::new();
    let mut i: usize = 0;
    while i < events.len()
        invariant
            i <= events@.len(),
            r@ == expired_ids(events@.subrange(0, i as int), cutoff as int),
        decreases events@.len() - i,
    {
        let ghost prefix = events@.subrange(0, i + 1);
        assert(prefix.drop_last() =~= events@.subrange(0, i as int));
        if events[i].timestamp < cutoff {
            match events[i].id {
                Some(id) => {
                    r.push(id);
                },
                None => {},
            }
        }
        assert(r@ =~= expired_ids(prefix, cutoff as int));
        i = i + 1;
    }
    assert(events@.subrange(0, events@.len() as int) =~= events@);
    r
}

/// The ids of the stored events that retention deletes now: those older than
/// seven days before the current wall-clock time.
pub fn expired_event_ids_now(events: &[PullRequestEvent]) -> (r: Vec<i32>)
    ensures
        exists|now: i64|
            now >= 0 && r@ == expired_ids(events@, #[trigger] retention_cutoff_spec(now as int)),
{
    let now = crate::clock::utc_now_millis();
    select_expired_event_ids(events, retention_cutoff(now))
}

proof fn lemma_distinct_ids_complete(s: Seq<PullRequestEvent>, i: int)
    requires
        0 <= i < s.len(),
    ensures
        distinct_ids(s).contains(s[i].pr_id@),
    decreases s.len(),
{
    let ids = distinct_ids(s.drop_last());
    if i < s.len() - 1 {
        lemma_distinct_ids_complete(s.drop_last(), i);
        assert(s.drop_last()[i] == s[i]);
        if !ids.contains(s.last().pr_id@) {
            let k = choose|k: int| 0 <= k < ids.len() && ids[k] == s[i].pr_id@;
            assert(distinct_ids(s)[k] == s[i].pr_id@);
        }
    } else if !ids.contains(s.last().pr_id@) {
        assert(distinct_ids(s)[ids.len() as int] == s[i].pr_id@);
    }
}

proof fn lemma_distinct_ids_unique(s: Seq<PullRequestEvent>)
    ensures
        forall|a: int, b: int|
            0 <= a < b < distinct_ids(s).len() ==> distinct_ids(s)[a] != distinct_ids(s)[b],
    decreases s.len(),
{
    if s.len() > 0 {
        let ids = distinct_ids(s.drop_last());
        lemma_distinct_ids_unique(s.drop_last());
        if !ids.contains(s.last().pr_id@) {
            let all = distinct_ids(s);
            assert forall|a: int, b: int| 0 <= a < b < all.len() implies all[a] != all[b] by {
                if b == ids.len() {
                    assert(all[a] == ids[a]);
                    if all[a] == all[b] {
                        assert(ids.contains(s.last().pr_id@));
                    }
                } else {
                    assert(all[a] == ids[a]);
                    assert(all[b] == ids[b]);
                }
            }
        }
    }
}

/// Every pull request with an unseen event gets an update, and no pull request
/// gets two.
pub proof fn lemma_pr_updates_cover_unseen(
    events: Seq<PullRequestEvent>,
    ls: Seq<PullRequestLastSeen>,
    r: Seq<PullRequestUpdate>,
)
    requires
        is_pr_update_list(r, events, ls),
    ensures
        forall|i: int|
            0 <= i < unseen_events(events, ls).len() ==> exists|j: int|
                0 <= j < r.len() && #[trigger] r[j].pr_id@ == (
                #[trigger] unseen_events(events, ls)[i]).pr_id@,
        forall|a: int, b: int| 0 <= a < b < r.len() ==> r[a].pr_id@ != r[b].pr_id@,
{
    let s = unseen_events(events, ls);
    let ids = distinct_ids(s);
    let o = choose|o: Seq<int>| is_listing_order(r, o, s, ids);
    lemma_distinct_ids_unique(s);
    assert forall|i: int| 0 <= i < s.len() implies exists|j: int|
        0 <= j < r.len() && #[trigger] r[j].pr_id@ == (#[trigger] s[i]).pr_id@ by {
        lemma_distinct_ids_complete(s, i);
        let m = choose|m: int| 0 <= m < ids.len() && ids[m] == s[i].pr_id@;
        assert(lists(o, m));
        let j = choose|j: int| 0 <= j < o.len() && o[j] == m;
        assert(is_update_of(r[j], ids[o[j]], pr_group(s, ids[o[j]])));
        assert(r[j].pr_id@ == s[i].pr_id@);
    }
    assert forall|a: int, b: int| 0 <= a < b < r.len() implies r[a].pr_id@ != r[b].pr_id@ by {
        assert(is_update_of(r[a], ids[o[a]], pr_group(s, ids[o[a]])));
        assert(is_update_of(r[b], ids[o[b]], pr_group(s, ids[o[b]])));
        if o[a] < o[b] {
            assert(ids[o[a]] != ids[o[b]]);
        } else {
            assert(ids[o[b]] != ids[o[a]]);
        }
    }
}

} // verus!
