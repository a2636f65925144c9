//! The registry of clients, keyed by connection token.
//!
//! A record is *pending* from registration until a connection attaches an
//! outbound sender to it, and *active* from then on until it is removed.
use vstd::prelude::*;
use crate::token::{token_text, make_token, random_part, lemma_token_serial_injective};

verus! {

/// What a client record holds, as values.
pub struct ClientView {
    pub user_id: usize,
    pub topics: Seq<Seq<char>>,
    pub active: bool,
}

/// A record of the registry: its token and its client.
pub type RecordView = (Seq<char>, ClientView);

/// A registered client: its subscriber identity, the topics it wants, and
/// the sender of its live connection once one is attached.
pub struct Client<S> {
    pub user_id: usize,
    pub topics: Vec<String>,
    pub sender: Option<S>,
}

pub open spec fn topics_view(v: Seq<String>) -> Seq<Seq<char>> {
    v.map_values(|t: String| t@)
}

impl<S> View for Client<S> {
    type V = ClientView;

    open spec fn view(&self) -> ClientView {
        ClientView {
            user_id: self.user_id,
            topics: topics_view(self.topics@),
            active: self.sender.is_some(),
        }
    }
}

/// The topics of a freshly registered client.
pub open spec fn default_topics() -> Seq<Seq<char>> {
    seq![seq!['c', 'a', 't', 's']]
}

/// The record of a freshly registered client.
pub open spec fn pending_client(user_id: usize) -> ClientView {
    ClientView { user_id, topics: default_topics(), active: false }
}

/// No two records share a token.
pub open spec fn unique_tokens(v: Seq<RecordView>) -> bool {
    forall|i: int, j: int| 0 <= i < v.len() && 0 <= j < v.len() && i != j ==> v[i].0 != v[j].0
}

pub open spec fn has_token(v: Seq<RecordView>, t: Seq<char>) -> bool {
    exists|i: int| 0 <= i < v.len() && v[i].0 == t
}

/// `t` names a record that no connection has claimed yet.
pub open spec fn is_pending(v: Seq<RecordView>, t: Seq<char>) -> bool {
    exists|i: int| 0 <= i < v.len() && v[i].0 == t && !v[i].1.active
}

/// `t` names a record with a live connection.
pub open spec fn is_active(v: Seq<RecordView>, t: Seq<char>) -> bool {
    exists|i: int| 0 <= i < v.len() && v[i].0 == t && v[i].1.active
}

/// The records after the one of `t` was promoted to active.
pub open spec fn activated(v: Seq<RecordView>, t: Seq<char>) -> Seq<RecordView> {
    v.map_values(
        |e: RecordView|
            if e.0 == t {
                (e.0, ClientView { user_id: e.1.user_id, topics: e.1.topics, active: true })
            } else {
                e
            },
    )
}

/// The records after the topics of `t` were replaced by `ts`.
pub open spec fn retopiced(v: Seq<RecordView>, t: Seq<char>, ts: Seq<Seq<char>>) -> Seq<RecordView> {
    v.map_values(
        |e: RecordView|
            if e.0 == t {
                (e.0, ClientView { user_id: e.1.user_id, topics: ts, active: e.1.active })
            } else {
                e
            },
    )
}

/// The records after the one of `t` was removed.
pub open spec fn without(v: Seq<RecordView>, t: Seq<char>) -> Seq<RecordView>
    decreases v.len(),
{
    if v.len() == 0 {
        v
    } else {
        let rest = without(v.drop_last(), t);
        if v.last().0 == t {
            rest
        } else {
            rest.push(v.last())
        }
    }
}

/// A publish to `topic`, for subscriber `filter` if one is given, reaches `c`.
pub open spec fn delivers(c: ClientView, topic: Seq<char>, filter: Option<usize>) -> bool {
    &&& c.active
    &&& match filter {
        Some(id) => c.user_id == id,
        None => true,
    }
    &&& c.topics.contains(topic)
}

/// The tokens that a publish to `topic` (for `filter`) reaches, in registry order.
pub open spec fn targets(v: Seq<RecordView>, topic: Seq<char>, filter: Option<usize>) -> Seq<Seq<char>>
    decreases v.len(),
{
    if v.len() == 0 {
        Seq::empty()
    } else {
        let rest = targets(v.drop_last(), topic, filter);
        if delivers(v.last().1, topic, filter) {
            rest.push(v.last().0)
        } else {
            rest
        }
    }
}

pub proof fn lemma_without_absent(v: Seq<RecordView>, t: Seq<char>)
    requires
        !has_token(v, t),
    ensures
        without(v, t) == v,
    decreases v.len(),
{
    if v.len() > 0 {
        assert(!has_token(v.drop_last(), t)) by {
            if has_token(v.drop_last(), t) {
                let i = choose|i: int| 0 <= i < v.drop_last().len() && v.drop_last()[i].0 == t;
                assert(v[i].0 == t);
            }
        }
        lemma_without_absent(v.drop_last(), t);
        assert(v.last().0 != t);
        assert(v.drop_last().push(v.last()) =~= v);
    }
}

pub proof fn lemma_without_at(v: Seq<RecordView>, t: Seq<char>, i: int)
    requires
        unique_tokens(v),
        0 <= i < v.len(),
        v[i].0 == t,
    ensures
        without(v, t) == v.remove(i),
    decreases v.len(),
{
    let d = v.drop_last();
    if i == v.len() - 1 {
        assert(!has_token(d, t)) by {
            if has_token(d, t) {
                let j = choose|j: int| 0 <= j < d.len() && d[j].0 == t;
                assert(v[j].0 == t);
            }
        }
        lemma_without_absent(d, t);
        assert(v.remove(i) =~= d);
    } else {
        assert(unique_tokens(d));
        lemma_without_at(d, t, i);
        assert(v.last().0 != t);
        assert(d.remove(i).push(v.last()) =~= v.remove(i));
    }
}

pub proof fn lemma_targets_member(v: Seq<RecordView>, topic: Seq<char>, filter: Option<usize>, t: Seq<char>)
    ensures
        targets(v, topic, filter).contains(t) <==> exists|i: int|
            0 <= i < v.len() && v[i].0 == t && delivers(v[i].1, topic, filter),
    decreases v.len(),
{
    if v.len() > 0 {
        let d = v.drop_last();
        lemma_targets_member(d, topic, filter, t);
        let rest = targets(d, topic, filter);
        if targets(v, topic, filter).contains(t) {
            if rest.contains(t) {
                let i = choose|i: int| 0 <= i < d.len() && d[i].0 == t && delivers(d[i].1, topic, filter);
                assert(v[i] == d[i]);
            } else {
                let k = choose|k: int| 0 <= k < targets(v, topic, filter).len() && targets(v, topic, filter)[k] == t;
                assert(k == rest.len());
                assert(v[v.len() - 1].0 == t);
            }
        }
        if exists|i: int| 0 <= i < v.len() && v[i].0 == t && delivers(v[i].1, topic, filter) {
            let i = choose|i: int| 0 <= i < v.len() && v[i].0 == t && delivers(v[i].1, topic, filter);
            if i == v.len() - 1 {
                assert(targets(v, topic, filter) == rest.push(t));
                assert(targets(v, topic, filter)[rest.len() as int] == t);
            } else {
                assert(d[i] == v[i]);
                let k = choose|k: int| 0 <= k < rest.len() && rest[k] == t;
                if delivers(v.last().1, topic, filter) {
                    assert(targets(v, topic, filter)[k] == t);
                }
            }
        }
    }
}

/// The registry: one record per token, every token distinct from all that it
/// issued before.
pub struct Registry<S> {
    entries: Vec<(String, Client<S>)>,
    next_serial: u64,
    /// Every token issued so far, with its serial and random part.
    issued: Ghost<Map<Seq<char>, (nat, Seq<char>)>>,
}

impl<S> View for Registry<S> {
    type V = Seq<RecordView>;

    closed spec fn view(&self) -> Seq<RecordView> {
        self.entries@.map_values(|e: (String, Client<S>)| (e.0@, e.1@))
    }
}

impl<S> Registry<S> {
    pub closed spec fn wf(&self) -> bool {
        &&& unique_tokens(self@)
        &&& forall|i: int| 0 <= i < self@.len() ==> self.issued@.contains_key(#[trigger] self@[i].0)
        &&& forall|t: Seq<char>|
            #[trigger] self.issued@.contains_key(t) ==> self.issued@[t].0 < self.next_serial
                && t == token_text(self.issued@[t].0, self.issued@[t].1)
    }

    /// Every token that this registry has handed out.
    pub closed spec fn issued(&self) -> Set<Seq<char>> {
        self.issued@.dom()
    }

    /// No serial number is left for another token.
    pub closed spec fn exhausted(&self) -> bool {
        self.next_serial == u64::MAX
    }

    /// The sender held by the record at position `i`.
    pub closed spec fn sender_at(&self, i: int) -> Option<S> {
        self.entries@[i].1.sender
    }

    pub proof fn lemma_unique(&self)
        requires
            self.wf(),
        ensures
            unique_tokens(self@),
    {
    }

    pub fn new() -> (r: Self)
        ensures
            r.wf(),
            r@ == Seq::<RecordView>::empty(),
            r.issued() == Set::<Seq<char>>::empty(),
            !r.exhausted(),
    {
        let r = Registry { entries: Vec::new(), next_serial: 0, issued: Ghost(Map::empty()) };
        assert(r@ =~= Seq::<RecordView>::empty());
        assert(r.issued() =~= Set::<Seq<char>>::empty());
        r
    }

    /// The position of the record of `token`, if there is one.
    fn find(&self, token: &String) -> (r: Option<usize>)
        requires
            self.wf(),
        ensures
            match r {
                Some(i) => i < self@.len() && self@[i as int].0 == token@,
                None => !has_token(self@, token@),
            },
    {
        let mut i: usize = 0;
        while i < self.entries.len()
            invariant
                i <= self.entries@.len(),
                forall|j: int| 0 <= j < i ==> self@[j].0 != token@,
            decreases self.entries@.len() - i,
        {
            if self.entries[i].0 == *token {
                return Some(i);
            }
            i = i + 1;
        }
        None
    }

    /// Registers a pending client of subscriber `user_id` with the default
    /// topics, and returns its new token; `None` once no serial is left.
    pub fn register_client(&mut self, user_id: usize) -> (r: Option<String>)
        requires
            old(self).wf(),
        ensures
            final(self).wf(),
            r.is_some() <==> !old(self).exhausted(),
            match r {
                Some(t) => {
                    &&& final(self)@ == old(self)@.push((t@, pending_client(user_id)))
                    &&& !old(self).issued().contains(t@)
                    &&& final(self).issued() == old(self).issued().insert(t@)
                },
                None => {
                    &&& final(self)@ == old(self)@
                    &&& final(self).issued() == old(self).issued()
                },
            },
    {
        if self.next_serial == u64::MAX {
            return None;
        }
        let random = random_part();
        let token = make_token(self.next_serial, random.as_str());
        proof {
            if self.issued@.contains_key(token@) {
                let k = self.issued@[token@];
                lemma_token_serial_injective(k.0, k.1, self.next_serial as nat, random@);
            }
        }
        let ghost before = self@;
        self.issued = Ghost(self.issued@.insert(token@, (self.next_serial as nat, random@)));
        self.next_serial = self.next_serial + 1;
        proof { reveal_strlit("cats"); }
        let cats = String::from_str("cats");
        assert(cats@ =~= seq!['c', 'a', 't', 's']);
        let topics = vec![cats];
        assert(topics@ =~= seq![cats]);
        assert(topics_view(topics@) =~= default_topics());
        let client = Client { user_id, topics, sender: None };
        self.entries.push((token.clone(), client));
        assert(self@ =~= before.push((token@, pending_client(user_id))));
        Some(token)
    }

    /// Promotes the pending record of `token` to active by storing the sender
    /// of its connection. Fails, and changes nothing, when `token` is unknown
    /// or already active.
    pub fn attach(&mut self, token: &String, sender: S) -> (r: bool)
        requires
            old(self).wf(),
        ensures
            final(self).wf(),
            final(self).issued() == old(self).issued(),
            r == is_pending(old(self)@, token@),
            r ==> final(self)@ == activated(old(self)@, token@),
            r ==> forall|j: int|
                0 <= j < final(self)@.len() && #[trigger] final(self)@[j].0 == token@
                    ==> final(self).sender_at(j) == Some(sender),
            !r ==> final(self)@ == old(self)@,
    {
        match self.find(token) {
            None => false,
            Some(i) => {
                if self.entries[i].1.sender.is_some() {
                    assert(!is_pending(self@, token@)) by {
                        if is_pending(self@, token@) {
                            let j = choose|j: int| 0 <= j < self@.len() && self@[j].0 == token@ && !self@[j].1.active;
                            assert(j == i);
                        }
                    }
                    false
                } else {
                    let ghost before = self@;
                    let ghost old_entries = self.entries@;
                    let mut e = self.entries.remove(i);
                    e.1.sender = Some(sender);
                    self.entries.insert(i, e);
                    assert(self.entries@ =~= old_entries.update(i as int, e));
                    assert(self@ =~= activated(before, token@));
                    true
                }
            },
        }
    }

    /// Replaces the topics of the record of `token` by `topics`; changes
    /// nothing when there is no such record.
    pub fn update_topics(&mut self, token: &String, topics: Vec<String>)
        requires
            old(self).wf(),
        ensures
            final(self).wf(),
            final(self).issued() == old(self).issued(),
            final(self)@ == retopiced(old(self)@, token@, topics_view(topics@)),
    {
        let ghost ts = topics_view(topics@);
        match self.find(token) {
            None => {
                assert(self@ =~= retopiced(self@, token@, ts));
            },
            Some(i) => {
                let ghost before = self@;
                let ghost old_entries = self.entries@;
                let mut e = self.entries.remove(i);
                e.1.topics = topics;
                self.entries.insert(i, e);
                assert(self.entries@ =~= old_entries.update(i as int, e));
                assert(self@ =~= retopiced(before, token@, ts));
            },
        }
    }

    /// Removes the record of `token`, if there is one.
    pub fn remove(&mut self, token: &String)
        requires
            old(self).wf(),
        ensures
            final(self).wf(),
            final(self).issued() == old(self).issued(),
            final(self)@ == without(old(self)@, token@),
    {
        match self.find(token) {
            None => {
                proof { lemma_without_absent(self@, token@); }
            },
            Some(i) => {
                let ghost before = self@;
                proof { lemma_without_at(before, token@, i as int); }
                let _ = self.entries.remove(i);
                assert(self@ =~= before.remove(i as int));
            },
        }
    }

    /// The number of records.
    pub fn len(&self) -> (r: usize)
        ensures
            r == self@.len(),
    {
        self.entries.len()
    }

    /// The client registered under `token`, if there is one.
    pub fn get(&self, token: &String) -> (r: Option<&Client<S>>)
        requires
            self.wf(),
        ensures
            r.is_some() == has_token(self@, token@),
            match r {
                Some(c) => forall|j: int|
                    0 <= j < self@.len() && #[trigger] self@[j].0 == token@ ==> self@[j].1 == c@,
                None => true,
            },
    {
        match self.find(token) {
            None => None,
            Some(i) => Some(&self.entries[i].1),
        }
    }

    /// The sender of the connection attached to `token`, if it is active.
    pub fn sender_of(&self, token: &String) -> (r: Option<&S>)
        requires
            self.wf(),
        ensures
            r.is_some() == is_active(self@, token@),
            match r {
                Some(s) => forall|j: int|
                    0 <= j < self@.len() && #[trigger] self@[j].0 == token@ ==> self.sender_at(j) == Some(*s),
                None => true,
            },
    {
        match self.find(token) {
            None => None,
            Some(i) => {
                match &self.entries[i].1.sender {
                    Some(s) => Some(s),
                    None => {
                        assert(!is_active(self@, token@)) by {
                            if is_active(self@, token@) {
                                let j = choose|j: int| 0 <= j < self@.len() && self@[j].0 == token@ && self@[j].1.active;
                                assert(j == i);
                            }
                        }
                        None
                    },
                }
            },
        }
    }

    /// The tokens of the active records that a publish to `topic` reaches:
    /// those whose subscriber is `filter`, when one is given, and whose topics
    /// hold `topic`.
    pub fn recipients(&self, topic: &String, filter: Option<usize>) -> (r: Vec<String>)
        ensures
            topics_view(r@) == targets(self@, topic@, filter),
    {
        let mut out: Vec<String> = Vec::new();
        let mut i: usize = 0;
        while i < self.entries.len()
            invariant
                i <= self.entries@.len(),
                topics_view(out@) == targets(self@.subrange(0, i as int), topic@, filter),
            decreases self.entries@.len() - i,
        {
            let ghost prev = out@;
            let entry = &self.entries[i];
            let wanted = match filter {
                Some(id) => entry.1.user_id == id,
                None => true,
            };
            if entry.1.sender.is_some() && wanted && has_topic(&entry.1.topics, topic) {
                out.push(entry.0.clone());
                assert(topics_view(out@) =~= topics_view(prev).push(entry.0@));
            }
            assert(self@.subrange(0, i + 1).drop_last() =~= self@.subrange(0, i as int));
            i = i + 1;
        }
        assert(self@.subrange(0, i as int) =~= self@);
        out
    }
}

/// `topics` holds `topic`.
pub fn has_topic(topics: &Vec<String>, topic: &String) -> (r: bool)
    ensures
        r == topics_view(topics@).contains(topic@),
{
    let mut i: usize = 0;
    while i < topics.len()
        invariant
            i <= topics@.len(),
            forall|j: int| 0 <= j < i ==> topics@[j]@ != topic@,
        decreases topics@.len() - i,
    {
        if topics[i] == *topic {
            assert(topics_view(topics@)[i as int] == topic@);
            return true;
        }
        i = i + 1;
    }
    assert(!topics_view(topics@).contains(topic@)) by {
        if topics_view(topics@).contains(topic@) {
            let j = choose|j: int| 0 <= j < topics_view(topics@).len() && topics_view(topics@)[j] == topic@;
            assert(topics@[j]@ == topic@);
        }
    }
    false
}

} // verus!
