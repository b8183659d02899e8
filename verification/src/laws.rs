//! What holds of the oracle over any run of posts.

use vstd::prelude::*;
use crate::error::ErrorView;
use crate::execute::{parsed_attributes, post_refusal, post_state, price_of};
use crate::history::{
    has_time, lemma_add_wf, lemma_older_count_at_split, lemma_older_count_bounds, lemma_older_count_splits,
    older_count, HistoryView,
};
use crate::state::{redemption_rate_name, MetricView, PriceView};
use crate::store::OracleState;

verus! {

/// One accepted post: the metric and the price derived from it, if any.
pub struct Accepted {
    pub metric: MetricView,
    pub price: Option<PriceView>,
}

/// The state after a run of accepted posts, taken in one after the other.
pub open spec fn ingest_all(state: OracleState, posts: Seq<Accepted>) -> OracleState
    decreases posts.len(),
{
    if posts.len() == 0 {
        state
    } else {
        ingest_all(state, posts.drop_last()).ingest(posts.last().metric, posts.last().price)
    }
}

/// After any run of accepted metrics of one key, the latest metric of that
/// key is as recent as every metric of the run and as the one stored before,
/// and it is one of these.
pub proof fn law_latest_is_most_recent(state: OracleState, posts: Seq<Accepted>, key: Seq<char>)
    requires
        posts.len() > 0,
        forall|i: int| 0 <= i < posts.len() ==> (#[trigger] posts[i]).metric.key == key,
    ensures
        ingest_all(state, posts).latest.contains_key(key),
        forall|i: int|
            0 <= i < posts.len() ==> (#[trigger] posts[i]).metric.time() <= ingest_all(state, posts).latest[key].time(),
        state.latest.contains_key(key) ==> state.latest[key].time() <= ingest_all(state, posts).latest[key].time(),
        (state.latest.contains_key(key) && ingest_all(state, posts).latest[key] == state.latest[key]) || exists|
            i: int,
        |
            0 <= i < posts.len() && ingest_all(state, posts).latest[key] == (#[trigger] posts[i]).metric,
    decreases posts.len(),
{
    let rest = posts.drop_last();
    let last = posts.last();
    let before = ingest_all(state, rest);
    let end = ingest_all(state, posts);
    assert(last.metric.key == key);
    assert(end.latest == before.promote(last.metric).latest);
    if rest.len() > 0 {
        assert forall|i: int| 0 <= i < rest.len() implies (#[trigger] rest[i]).metric.key == key by {
            assert(rest[i] == posts[i]);
        }
        law_latest_is_most_recent(state, rest, key);
        assert forall|i: int| 0 <= i < posts.len() implies (#[trigger] posts[i]).metric.time() <= end.latest[key].time() by {
            if i < rest.len() {
                assert(rest[i] == posts[i]);
            }
        }
        if !(state.latest.contains_key(key) && end.latest[key] == state.latest[key]) {
            if end.latest[key] == last.metric {
                assert(posts[posts.len() - 1].metric == end.latest[key]);
            } else {
                let i = choose|i: int| 0 <= i < rest.len() && before.latest[key] == (#[trigger] rest[i]).metric;
                assert(posts[i] == rest[i]);
            }
        }
    } else {
        assert(before == state);
        if end.latest[key] == last.metric {
            assert(posts[posts.len() - 1].metric == end.latest[key]);
        }
    }
}

/// A run of accepted posts keeps the state well formed: every history stays
/// within its capacity and strictly ascending in update time.
pub proof fn law_histories_stay_bounded_and_ascending(state: OracleState, posts: Seq<Accepted>)
    requires
        state.wf(),
    ensures
        ingest_all(state, posts).wf(),
    decreases posts.len(),
{
    if posts.len() > 0 {
        law_histories_stay_bounded_and_ascending(state, posts.drop_last());
        let before = ingest_all(state, posts.drop_last());
        lemma_add_wf(before.history_of(posts.last().metric.key), posts.last().metric);
    }
}

/// A well-formed history holds no update time twice.
pub proof fn law_history_times_are_distinct(history: HistoryView, i: int, j: int)
    requires
        history.wf(),
        0 <= i < history.entries.len(),
        0 <= j < history.entries.len(),
        i != j,
    ensures
        history.entries[i].time() != history.entries[j].time(),
{
    if i < j {
        assert(history.entries[i].time() < history.entries[j].time());
    } else {
        assert(history.entries[j].time() < history.entries[i].time());
    }
}

/// Offering a second metric of an update time that was offered just before
/// does not change the history, whatever the second metric holds.
pub proof fn law_history_add_is_idempotent(history: HistoryView, first: MetricView, second: MetricView)
    requires
        first.time() == second.time(),
    ensures
        history.add(first).add(second) == history.add(first),
{
    let time = first.time();
    if !has_time(history.entries, time) {
        lemma_older_count_bounds(history.entries, time);
        let at = older_count(history.entries, time);
        let grown = history.entries.insert(at, first);
        if grown.len() > history.capacity {
            let kept = grown.drop_first();
            if at == 0 {
                assert(kept =~= history.entries);
                assert(history.entries.insert(0, second).drop_first() =~= history.entries);
            } else {
                assert(kept[at - 1] == first);
                assert(has_time(kept, time));
            }
        } else {
            assert(grown[at] == first);
            assert(has_time(grown, time));
        }
    }
}

/// Taking in a metric of a key and update time that was taken in just before
/// changes neither the latest metrics nor the histories.
pub proof fn law_same_time_changes_no_metric(
    state: OracleState,
    first: Accepted,
    second: Accepted,
)
    requires
        first.metric.key == second.metric.key,
        first.metric.time() == second.metric.time(),
    ensures
        state.ingest(first.metric, first.price).ingest(second.metric, second.price).latest == state.ingest(
            first.metric,
            first.price,
        ).latest,
        state.ingest(first.metric, first.price).ingest(second.metric, second.price).history == state.ingest(
            first.metric,
            first.price,
        ).history,
{
    let once = state.ingest(first.metric, first.price);
    let twice = once.ingest(second.metric, second.price);
    let key = first.metric.key;
    law_history_add_is_idempotent(state.history_of(key), first.metric, second.metric);
    assert(once.history == state.record(first.metric).history);
    assert(once.history_of(key) == state.history_of(key).add(first.metric));
    assert(twice.history =~= once.history);
}

/// Taking in the same metric with the same price twice is the same as taking
/// it in once.
pub proof fn law_ingest_is_idempotent(state: OracleState, post: Accepted)
    ensures
        state.ingest(post.metric, post.price).ingest(post.metric, post.price) == state.ingest(
            post.metric,
            post.price,
        ),
{
    let once = state.ingest(post.metric, post.price);
    let twice = once.ingest(post.metric, post.price);
    law_same_time_changes_no_metric(state, post, post);
    assert(twice.admin == once.admin);
    assert(twice.prices == once.prices);
}

/// Posting again what was posted just before, by the same sender and under
/// the same validator, changes nothing: not the latest metrics, not the
/// histories, not the prices.
pub proof fn law_repost_changes_nothing<F: Fn(&str) -> bool>(
    state: OracleState,
    validator: F,
    sender: Seq<char>,
    metric: MetricView,
)
    ensures
        post_state(
            post_state(state, sender, metric, price_of(validator, metric)),
            sender,
            metric,
            price_of(validator, metric),
        ) == post_state(state, sender, metric, price_of(validator, metric)),
{
    let derivation = price_of(validator, metric);
    if post_refusal(state, sender, derivation) is None {
        law_ingest_is_idempotent(state, Accepted { metric, price: derivation->Ok_0 });
    }
}

/// The state has taken in a metric of this key and update time: the latest
/// metric of the key is at least as recent, and the history of the key holds
/// an entry of that time or is full of more recent ones.
pub open spec fn metric_seen(state: OracleState, key: Seq<char>, time: u64) -> bool {
    &&& state.latest.contains_key(key)
    &&& state.latest[key].time() >= time
    &&& state.history.contains_key(key)
    &&& has_time(state.history[key].entries, time) || {
        &&& state.history[key].entries.len() == state.history[key].capacity
        &&& forall|i: int|
            0 <= i < state.history[key].entries.len() ==> (#[trigger] state.history[key].entries[i]).time() > time
    }
}

/// The state has taken in a price of this price key and time: the price
/// filed under the key is at least as recent.
pub open spec fn price_seen(state: OracleState, key: Seq<char>, time: u64) -> bool {
    state.prices.contains_key(key) && state.prices[key].last_updated >= time
}

/// The state has taken in a post of the metric's key and update time, and of
/// the price's denom pair and time if the post gives a price.
pub open spec fn seen(state: OracleState, post: Accepted) -> bool {
    &&& metric_seen(state, post.metric.key, post.metric.time())
    &&& post.price matches Some(p) ==> price_seen(state, p.key(), p.last_updated)
}

/// A history to which a metric was offered holds an entry of its update time,
/// or is full of more recent entries.
pub proof fn lemma_offered_time_is_kept_or_outdated(history: HistoryView, metric: MetricView)
    requires
        history.wf(),
    ensures
        has_time(history.add(metric).entries, metric.time()) || {
            &&& history.add(metric).entries.len() == history.capacity
            &&& forall|i: int|
                0 <= i < history.add(metric).entries.len() ==> (#[trigger] history.add(metric).entries[i]).time()
                    > metric.time()
        },
{
    let time = metric.time();
    if !has_time(history.entries, time) {
        lemma_older_count_splits(history.entries, time);
        let at = older_count(history.entries, time);
        let grown = history.entries.insert(at, metric);
        assert(grown[at] == metric);
        if grown.len() > history.capacity {
            let kept = grown.drop_first();
            if at == 0 {
                assert(kept =~= history.entries);
                assert forall|i: int| 0 <= i < kept.len() implies (#[trigger] kept[i]).time() > time by {
                    assert(history.entries[i].time() >= time);
                }
            } else {
                assert(kept[at - 1] == metric);
            }
        }
    }
}

/// What a history holds of an update time, or is full of more recent entries
/// than, it still does after another metric was offered to it.
pub proof fn lemma_kept_or_outdated_lasts(history: HistoryView, time: u64, metric: MetricView)
    requires
        history.wf(),
        has_time(history.entries, time) || {
            &&& history.entries.len() == history.capacity
            &&& forall|i: int| 0 <= i < history.entries.len() ==> (#[trigger] history.entries[i]).time() > time
        },
    ensures
        has_time(history.add(metric).entries, time) || {
            &&& history.add(metric).entries.len() == history.capacity
            &&& forall|i: int|
                0 <= i < history.add(metric).entries.len() ==> (#[trigger] history.add(metric).entries[i]).time()
                    > time
        },
{
    let new_time = metric.time();
    if !has_time(history.entries, new_time) {
        lemma_older_count_splits(history.entries, new_time);
        let at = older_count(history.entries, new_time);
        let grown = history.entries.insert(at, metric);
        let kept = history.add(metric).entries;
        if has_time(history.entries, time) {
            let i = choose|i: int| 0 <= i < history.entries.len() && (#[trigger] history.entries[i]).time() == time;
            let now = if i < at { i } else { i + 1 };
            assert(grown[now] == history.entries[i]);
            if grown.len() > history.capacity {
                if now == 0 {
                    assert forall|j: int| 0 <= j < kept.len() implies (#[trigger] kept[j]).time() > time by {
                        assert(kept[j] == grown[j + 1]);
                        if j + 1 < at {
                            assert(grown[j + 1] == history.entries[j + 1]);
                            assert(history.entries[0].time() < history.entries[j + 1].time());
                        } else if j + 1 == at {
                            assert(history.entries[0].time() < new_time);
                        } else {
                            assert(grown[j + 1] == history.entries[j]);
                            assert(history.entries[0].time() < history.entries[j].time());
                        }
                    }
                } else {
                    assert(kept[now - 1] == grown[now]);
                }
            }
        } else {
            assert forall|j: int| 0 <= j < kept.len() implies (#[trigger] kept[j]).time() > time by {
                assert(kept[j] == grown[j + 1]);
                if j + 1 < at {
                    assert(grown[j + 1] == history.entries[j + 1]);
                } else if j + 1 == at {
                    assert(at > 0);
                    assert(history.entries[0].time() < new_time);
                } else {
                    assert(grown[j + 1] == history.entries[j]);
                }
            }
        }
    }
}

/// A post that was taken in is seen.
pub proof fn lemma_ingest_marks_seen(state: OracleState, post: Accepted)
    requires
        state.wf(),
    ensures
        seen(state.ingest(post.metric, post.price), post),
{
    lemma_offered_time_is_kept_or_outdated(state.history_of(post.metric.key), post.metric);
}

/// A post that is seen stays seen whatever is taken in after it.
pub proof fn lemma_ingest_keeps_seen(state: OracleState, post: Accepted, next: Accepted)
    requires
        state.wf(),
        seen(state, post),
    ensures
        seen(state.ingest(next.metric, next.price), post),
{
    if next.metric.key == post.metric.key {
        lemma_kept_or_outdated_lasts(state.history[post.metric.key], post.metric.time(), next.metric);
    }
}

/// Taking in a post that is seen changes nothing.
pub proof fn lemma_seen_changes_nothing(state: OracleState, post: Accepted)
    requires
        seen(state, post),
    ensures
        state.ingest(post.metric, post.price) == state,
{
    let key = post.metric.key;
    let time = post.metric.time();
    let history = state.history[key];
    if !has_time(history.entries, time) {
        lemma_older_count_at_split(history.entries, time, 0);
        assert(history.entries.insert(0, post.metric).drop_first() =~= history.entries);
    }
    assert(history.add(post.metric) == history);
    let after = state.ingest(post.metric, post.price);
    assert(after.history =~= state.history);
    assert(after.latest == state.latest);
    assert(after.prices == state.prices);
}

/// After any run of accepted posts, one more post of a key and update time
/// that the run held changes nothing, whatever else the metric holds: not the
/// latest metrics, not the histories, not the prices. A post that gives a
/// price counts only if the post of the run gave a price of that denom pair
/// and time.
pub proof fn law_seen_post_changes_nothing(state: OracleState, posts: Seq<Accepted>, i: int, again: Accepted)
    requires
        state.wf(),
        0 <= i < posts.len(),
        again.metric.key == posts[i].metric.key,
        again.metric.time() == posts[i].metric.time(),
        again.price matches Some(p) ==> posts[i].price matches Some(q) && q.key() == p.key() && q.last_updated
            == p.last_updated,
    ensures
        ingest_all(state, posts).ingest(again.metric, again.price) == ingest_all(state, posts),
{
    law_posts_of_a_run_are_seen(state, posts, i, again);
    lemma_seen_changes_nothing(ingest_all(state, posts), again);
}

/// After a run of accepted posts, every post of the run is seen, and so is
/// any post of the same key and update time: the latest metric of its key is
/// at least as recent, and the history of its key holds an entry of its time
/// or is full of more recent entries. So a history retains the most recent
/// of what was offered to it.
pub proof fn law_posts_of_a_run_are_seen(state: OracleState, posts: Seq<Accepted>, i: int, again: Accepted)
    requires
        state.wf(),
        0 <= i < posts.len(),
        again.metric.key == posts[i].metric.key,
        again.metric.time() == posts[i].metric.time(),
        again.price matches Some(p) ==> posts[i].price matches Some(q) && q.key() == p.key() && q.last_updated
            == p.last_updated,
    ensures
        seen(ingest_all(state, posts), again),
    decreases posts.len(),
{
    let rest = posts.drop_last();
    let before = ingest_all(state, rest);
    law_histories_stay_bounded_and_ascending(state, rest);
    if i == posts.len() - 1 {
        lemma_ingest_marks_seen(before, posts.last());
    } else {
        assert(rest[i] == posts[i]);
        law_posts_of_a_run_are_seen(state, rest, i, again);
        lemma_ingest_keeps_seen(before, again, posts.last());
    }
}

/// No entry of the history of `key` is more recent than the latest metric of
/// `key`.
pub open spec fn latest_leads_history(state: OracleState, key: Seq<char>) -> bool {
    &&& state.history_of(key).entries.len() > 0 ==> state.latest.contains_key(key)
    &&& forall|i: int|
        0 <= i < state.history_of(key).entries.len() ==> (#[trigger] state.history_of(key).entries[i]).time()
            <= state.latest[key].time()
}

/// Where the latest metric leads the history of a key, it still does after
/// any metric was taken in.
pub proof fn law_latest_keeps_leading_history(
    state: OracleState,
    metric: MetricView,
    price: Option<PriceView>,
    key: Seq<char>,
)
    requires
        state.wf(),
        latest_leads_history(state, key),
    ensures
        latest_leads_history(state.ingest(metric, price), key),
{
    let after = state.ingest(metric, price);
    let old_entries = state.history_of(key).entries;
    let kept = after.history_of(key).entries;
    if metric.key == key {
        let history = state.history_of(key);
        let time = metric.time();
        assert(after.history_of(key) == history.add(metric));
        assert(time <= after.latest[key].time());
        assert(old_entries.len() > 0 ==> state.latest[key].time() <= after.latest[key].time());
        if !has_time(history.entries, time) {
            lemma_older_count_bounds(history.entries, time);
            let at = older_count(history.entries, time);
            let grown = history.entries.insert(at, metric);
            assert forall|i: int| 0 <= i < grown.len() implies (#[trigger] grown[i]).time() <= after.latest[key].time() by {
                if i < at {
                    assert(grown[i] == old_entries[i]);
                } else if i > at {
                    assert(grown[i] == old_entries[i - 1]);
                }
            }
            assert forall|i: int| 0 <= i < kept.len() implies (#[trigger] kept[i]).time() <= after.latest[key].time() by {
                if grown.len() > history.capacity {
                    assert(kept[i] == grown[i + 1]);
                } else {
                    assert(kept[i] == grown[i]);
                }
            }
        }
    } else {
        assert(after.history_of(key) == state.history_of(key));
        assert(old_entries.len() > 0 ==> after.latest[key] == state.latest[key]);
    }
}

/// Where the latest metric leads the history of a key, a metric that becomes
/// the latest of that key also enters its history, as the last entry.
pub proof fn law_promoted_metric_enters_history(state: OracleState, metric: MetricView, price: Option<PriceView>)
    requires
        state.wf(),
        latest_leads_history(state, metric.key),
        crate::store::fresher(state.latest_time(metric.key), metric.time()),
    ensures
        state.ingest(metric, price).latest[metric.key] == metric,
        state.ingest(metric, price).history[metric.key].entries.len() > 0,
        state.ingest(metric, price).history[metric.key].entries.last() == metric,
{
    let key = metric.key;
    let time = metric.time();
    let history = state.history_of(key);
    assert forall|j: int| 0 <= j < history.entries.len() implies (#[trigger] history.entries[j]).time() < time by {
        assert(history.entries[j].time() <= state.latest[key].time());
    }
    lemma_older_count_at_split(history.entries, time, history.entries.len() as int);
    let grown = history.entries.insert(history.entries.len() as int, metric);
    assert(grown.last() == metric);
    if grown.len() > history.capacity {
        assert(grown.drop_first().last() == grown.last());
    }
}

/// A post by anyone but the admin is refused as unauthorized and changes
/// nothing, whatever it holds.
pub proof fn law_unauthorized_changes_nothing(
    state: OracleState,
    sender: Seq<char>,
    metric: MetricView,
    derivation: Result<Option<PriceView>, ErrorView>,
)
    requires
        sender != state.admin,
    ensures
        post_refusal(state, sender, derivation) == Some(ErrorView::Unauthorized),
        post_state(state, sender, metric, derivation) == state,
{
}

/// A post whose price cannot be derived changes nothing.
pub proof fn law_refused_post_changes_nothing(
    state: OracleState,
    sender: Seq<char>,
    metric: MetricView,
    derivation: Result<Option<PriceView>, ErrorView>,
)
    requires
        post_refusal(state, sender, derivation) is Some,
    ensures
        post_state(state, sender, metric, derivation) == state,
{
}

/// A redemption rate without attributes, or with attributes that do not
/// parse, is refused for its attributes, whatever its denoms and its value.
pub proof fn law_redemption_rate_needs_attributes<F: Fn(&str) -> bool>(validator: F, metric: MetricView)
    requires
        metric.metric_type == redemption_rate_name(),
        metric.metadata.attributes is None || parsed_attributes(metric.metadata.attributes->0) is None,
    ensures
        price_of(validator, metric) == Err::<Option<PriceView>, ErrorView>(
            ErrorView::InvalidMetricMetadataAttributes { metric_type: metric.metric_type },
        ),
{
}

/// A metric of a new update time offered to a history that has room makes
/// it longer by one entry, and none is given up.
pub proof fn law_history_with_room_grows(history: HistoryView, metric: MetricView)
    requires
        history.wf(),
        history.entries.len() < history.capacity,
        !has_time(history.entries, metric.time()),
    ensures
        history.add(metric).entries.len() == history.entries.len() + 1,
        history.add(metric).entries == history.entries.insert(older_count(history.entries, metric.time()), metric),
{
    lemma_older_count_bounds(history.entries, metric.time());
}

/// A metric of a new update time offered to a full history leaves it full,
/// and the one entry that is given up is the oldest of the old entries and
/// the new metric: every retained entry is more recent than it.
pub proof fn law_full_history_gives_up_oldest(history: HistoryView, metric: MetricView)
    requires
        history.wf(),
        history.entries.len() == history.capacity,
        !has_time(history.entries, metric.time()),
    ensures
        history.add(metric).entries.len() == history.capacity,
        metric.time() < history.entries[0].time() ==> history.add(metric) == history,
        metric.time() > history.entries[0].time() ==> {
            &&& history.add(metric).entries == history.entries.drop_first().insert(
                older_count(history.entries, metric.time()) - 1,
                metric,
            )
            &&& forall|i: int|
                0 <= i < history.add(metric).entries.len() ==> history.entries[0].time() < (
                #[trigger] history.add(metric).entries[i]).time()
        },
{
    let time = metric.time();
    lemma_older_count_splits(history.entries, time);
    lemma_add_wf(history, metric);
    let at = older_count(history.entries, time);
    let grown = history.entries.insert(at, metric);
    let kept = history.add(metric).entries;
    assert(kept == grown.drop_first());
    assert(history.entries[0].time() != time);
    if time < history.entries[0].time() {
        if at > 0 {
            assert(history.entries[0].time() < time);
        }
        assert(kept =~= history.entries);
    } else {
        if at == 0 {
            assert(history.entries[0].time() >= time);
        }
        assert(kept =~= history.entries.drop_first().insert(at - 1, metric));
        assert forall|i: int| 0 <= i < kept.len() implies history.entries[0].time() < (#[trigger] kept[i]).time() by {
            assert(kept[i] == grown[i + 1]);
            if i + 1 < at {
                assert(grown[i + 1] == history.entries[i + 1]);
            } else if i + 1 > at {
                assert(grown[i + 1] == history.entries[i]);
            }
        }
    }
}

} // verus!
