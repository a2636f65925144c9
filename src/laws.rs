//! What holds of the relay across operations, proved over the record views
//! that the operations' contracts speak of.
use vstd::prelude::*;
use crate::registry::{
    RecordView, unique_tokens, has_token, is_pending, is_active, activated, retopiced, without,
    targets, delivers, lemma_targets_member,
};

verus! {

proof fn lemma_without_drops(v: Seq<RecordView>, t: Seq<char>)
    ensures
        !has_token(without(v, t), t),
    decreases v.len(),
{
    if v.len() > 0 {
        let d = v.drop_last();
        lemma_without_drops(d, t);
        let w = without(v, t);
        let wd = without(d, t);
        if has_token(w, t) {
            let i = choose|i: int| 0 <= i < w.len() && w[i].0 == t;
            if i < wd.len() {
                assert(w[i] == wd[i]);
            }
        }
    }
}

/// Once a connection has claimed a token, the record is active and no
/// second connection can claim it.
pub proof fn law_claimed_once(v: Seq<RecordView>, t: Seq<char>)
    requires
        unique_tokens(v),
        is_pending(v, t),
    ensures
        is_active(activated(v, t), t),
        !is_pending(activated(v, t), t),
{
    let i = choose|i: int| 0 <= i < v.len() && v[i].0 == t && !v[i].1.active;
    assert(activated(v, t)[i].1.active);
    if is_pending(activated(v, t), t) {
        let j = choose|j: int| 0 <= j < v.len() && activated(v, t)[j].0 == t && !activated(v, t)[j].1.active;
        assert(v[j].0 == t);
    }
}

/// A topics update replaces the topics of an active client: afterwards a
/// publish to `topic` reaches it exactly when the new topics hold `topic`,
/// whatever it had before.
pub proof fn law_topics_replaced(v: Seq<RecordView>, t: Seq<char>, ts: Seq<Seq<char>>, topic: Seq<char>)
    requires
        unique_tokens(v),
        is_active(v, t),
    ensures
        targets(retopiced(v, t, ts), topic, None).contains(t) <==> ts.contains(topic),
{
    let w = retopiced(v, t, ts);
    lemma_targets_member(w, topic, None, t);
    let i = choose|i: int| 0 <= i < v.len() && v[i].0 == t && v[i].1.active;
    if ts.contains(topic) {
        assert(delivers(w[i].1, topic, None));
    }
    if targets(w, topic, None).contains(t) {
        let j = choose|j: int| 0 <= j < w.len() && w[j].0 == t && delivers(w[j].1, topic, None);
        assert(w[j].1.topics == ts);
    }
}

/// A publish for subscriber `id` reaches a token exactly when its record is
/// active, of subscriber `id`, and holds the topic; one without a subscriber
/// reaches every active record that holds the topic.
pub proof fn law_publish_filter(v: Seq<RecordView>, topic: Seq<char>, id: usize, t: Seq<char>)
    ensures
        targets(v, topic, Some(id)).contains(t) <==> exists|i: int|
            0 <= i < v.len() && v[i].0 == t && v[i].1.active && v[i].1.user_id == id
                && v[i].1.topics.contains(topic),
        targets(v, topic, None).contains(t) <==> exists|i: int|
            0 <= i < v.len() && v[i].0 == t && v[i].1.active && v[i].1.topics.contains(topic),
{
    lemma_targets_member(v, topic, Some(id), t);
    lemma_targets_member(v, topic, None, t);
}

/// A pending record is reached by no publish, whatever its topics.
pub proof fn law_pending_unreached(v: Seq<RecordView>, t: Seq<char>, topic: Seq<char>, filter: Option<usize>)
    requires
        unique_tokens(v),
        is_pending(v, t),
    ensures
        !targets(v, topic, filter).contains(t),
{
    lemma_targets_member(v, topic, filter, t);
    if targets(v, topic, filter).contains(t) {
        let i = choose|i: int| 0 <= i < v.len() && v[i].0 == t && delivers(v[i].1, topic, filter);
        let j = choose|j: int| 0 <= j < v.len() && v[j].0 == t && !v[j].1.active;
        assert(i == j);
    }
}

/// After the record of a token is removed, no publish reaches that token.
pub proof fn law_removed_unreached(v: Seq<RecordView>, t: Seq<char>, topic: Seq<char>, filter: Option<usize>)
    ensures
        !targets(without(v, t), topic, filter).contains(t),
{
    lemma_without_drops(v, t);
    lemma_targets_member(without(v, t), topic, filter, t);
}

} // verus!
