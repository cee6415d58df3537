//! The index of chat messages sent but not yet echoed by the server, keyed by
//! a normalized content fingerprint (lowercase, trimmed).
//!
//! `register` stores the placeholder handle for a key, the newest send
//! overwriting an older pending entry of the same key — the protocol carries
//! no correlation id, so only the most recent unmatched send with identical
//! normalized text stays retrievable. `retire` removes and returns the entry
//! for a key, or nothing when no such text is pending.

use vstd::prelude::*;

use crate::text::norm_key;
use crate::text::normalize_key;

verus! {

/// One pending chat message: the presentation layer's placeholder handle and
/// the moment the message was sent, in milliseconds.
#[derive(Debug, Clone, Copy, PartialEq, Eq, Structural)]
pub struct PendingEntry {
    pub placeholder: u64,
    pub sent_at: u64,
}

/// Pairwise-distinct keys.
pub open spec fn unique_keys(s: Seq<(Seq<char>, PendingEntry)>) -> bool {
    forall|i: int, j: int| 0 <= i < j < s.len() ==> s[i].0 != s[j].0
}

/// The map a sequence of keyed entries denotes, later entries overwriting
/// earlier ones of the same key.
pub open spec fn entries_map(s: Seq<(Seq<char>, PendingEntry)>) -> Map<Seq<char>, PendingEntry>
    decreases s.len(),
{
    if s.len() == 0 {
        Map::empty()
    } else {
        entries_map(s.drop_last()).insert(s.last().0, s.last().1)
    }
}

pub proof fn lemma_entries_contains(s: Seq<(Seq<char>, PendingEntry)>, k: Seq<char>)
    ensures
        entries_map(s).contains_key(k) <==> exists|i: int| 0 <= i < s.len() && s[i].0 == k,
    decreases s.len(),
{
    if s.len() > 0 {
        lemma_entries_contains(s.drop_last(), k);
        if s.last().0 == k {
            assert(s[s.len() - 1].0 == k);
        } else if entries_map(s.drop_last()).contains_key(k) {
            let i = choose|i: int| 0 <= i < s.drop_last().len() && s.drop_last()[i].0 == k;
            assert(s[i].0 == k);
        } else if exists|i: int| 0 <= i < s.len() && s[i].0 == k {
            let i = choose|i: int| 0 <= i < s.len() && s[i].0 == k;
            assert(s.drop_last()[i].0 == k);
        }
    }
}

pub proof fn lemma_entries_at(s: Seq<(Seq<char>, PendingEntry)>, i: int)
    requires
        unique_keys(s),
        0 <= i < s.len(),
    ensures
        entries_map(s).contains_key(s[i].0),
        entries_map(s)[s[i].0] == s[i].1,
    decreases s.len(),
{
    if i < s.len() - 1 {
        assert(unique_keys(s.drop_last())) by {
            assert(forall|a: int, b: int|
                0 <= a < b < s.len() - 1 ==> s.drop_last()[a] == s[a] && s.drop_last()[b]
                    == s[b]);
        }
        assert(s.drop_last()[i] == s[i]);
        lemma_entries_at(s.drop_last(), i);
        assert(s[i].0 != s.last().0);
    }
}

proof fn lemma_unique_keys_drop_last(s: Seq<(Seq<char>, PendingEntry)>)
    requires
        unique_keys(s),
        s.len() > 0,
    ensures
        unique_keys(s.drop_last()),
{
    assert(forall|a: int, b: int|
        0 <= a < b < s.len() - 1 ==> s.drop_last()[a] == s[a] && s.drop_last()[b] == s[b]);
}

pub proof fn lemma_entries_remove(s: Seq<(Seq<char>, PendingEntry)>, i: int)
    requires
        unique_keys(s),
        0 <= i < s.len(),
    ensures
        entries_map(s.remove(i)) == entries_map(s).remove(s[i].0),
    decreases s.len(),
{
    let k = s[i].0;
    if i == s.len() - 1 {
        assert(s.remove(i) =~= s.drop_last());
        lemma_unique_keys_drop_last(s);
        lemma_entries_contains(s.drop_last(), k);
        assert(forall|a: int| 0 <= a < s.len() - 1 ==> s.drop_last()[a] == s[a]);
        assert(!entries_map(s.drop_last()).contains_key(k));
        assert(entries_map(s.drop_last()) =~= entries_map(s).remove(k));
    } else {
        let t = s.drop_last();
        let lk = s.last().0;
        let lv = s.last().1;
        assert(s.remove(i).drop_last() =~= t.remove(i));
        assert(s.remove(i).last() == s.last());
        lemma_unique_keys_drop_last(s);
        assert(t[i] == s[i]);
        lemma_entries_remove(t, i);
        assert(k != lk);
        assert(entries_map(s.remove(i)) == entries_map(t.remove(i)).insert(lk, lv));
        assert(entries_map(t).remove(k).insert(lk, lv) =~= entries_map(t).insert(lk, lv).remove(
            k,
        ));
    }
}

/// Registering an unmatched text and then retiring any text with the same
/// normalized key yields exactly the registered entry and leaves the index
/// as it stood before the send.
pub proof fn lemma_register_then_retire(
    m: Map<Seq<char>, PendingEntry>,
    k: Seq<char>,
    e: PendingEntry,
)
    requires
        !m.contains_key(k),
    ensures
        m.insert(k, e).contains_key(k),
        m.insert(k, e)[k] == e,
        m.insert(k, e).remove(k) == m,
{
    assert(m.insert(k, e).remove(k) =~= m);
}

/// The pending-outbound index.
pub struct PendingIndex {
    entries: Vec<(String, PendingEntry)>,
}

/// The model of the entry sequence.
pub open spec fn entries_view(s: Seq<(String, PendingEntry)>) -> Seq<(Seq<char>, PendingEntry)> {
    Seq::new(s.len(), |i: int| (s[i].0@, s[i].1))
}

impl View for PendingIndex {
    type V = Map<Seq<char>, PendingEntry>;

    closed spec fn view(&self) -> Map<Seq<char>, PendingEntry> {
        entries_map(entries_view(self.entries@))
    }
}

impl PendingIndex {
    /// Well-formedness: at most one entry per normalized key.
    pub closed spec fn wf(&self) -> bool {
        unique_keys(entries_view(self.entries@))
    }

    /// An empty index.
    pub fn new() -> (p: PendingIndex)
        ensures
            p.wf(),
            p@ == Map::<Seq<char>, PendingEntry>::empty(),
    {
        let p = PendingIndex { entries: Vec::new() };
        proof {
            assert(entries_view(p.entries@) =~= Seq::<(Seq<char>, PendingEntry)>::empty());
        }
        p
    }

    fn find_index(&self, key: &String) -> (r: Option<usize>)
        ensures
            match r {
                Some(i) => i < self.entries@.len() && self.entries@[i as int].0@ == key@,
                None => forall|i: int|
                    0 <= i < self.entries@.len() ==> self.entries@[i].0@ != key@,
            },
    {
        let mut i: usize = 0;
        while i < self.entries.len()
            invariant
                i <= self.entries@.len(),
                forall|j: int| 0 <= j < i ==> self.entries@[j].0@ != key@,
            decreases self.entries@.len() - i,
        {
            if self.entries[i].0 == *key {
                return Some(i);
            }
            i = i + 1;
        }
        None
    }

    /// Stores a pending entry under the normalized key of `text`, replacing
    /// an older entry of the same key.
    pub fn register(&mut self, text: &str, placeholder: u64, sent_at: u64)
        requires
            old(self).wf(),
        ensures
            final(self).wf(),
            final(self)@ == old(self)@.insert(
                norm_key(text@),
                PendingEntry { placeholder, sent_at },
            ),
    {
        let key = normalize_key(text);
        let entry = PendingEntry { placeholder, sent_at };
        let ghost ev0 = entries_view(old(self).entries@);
        let idx = self.find_index(&key);
        match idx {
            Some(i) => {
                proof {
                    lemma_entries_remove(ev0, i as int);
                }
                let _ = self.entries.remove(i);
                proof {
                    assert(entries_view(self.entries@) =~= ev0.remove(i as int));
                }
                let ghost ev1 = entries_view(self.entries@);
                self.entries.push((key, entry));
                proof {
                    assert(entries_view(self.entries@) =~= ev1.push((norm_key(text@), entry)));
                    assert(entries_view(self.entries@).drop_last() =~= ev1);
                    assert(old(self)@.remove(norm_key(text@)).insert(norm_key(text@), entry)
                        =~= old(self)@.insert(norm_key(text@), entry));
                    assert forall|a: int, b: int|
                        0 <= a < b < entries_view(self.entries@).len() implies entries_view(
                        self.entries@,
                    )[a].0 != entries_view(self.entries@)[b].0 by {
                        if b < entries_view(self.entries@).len() - 1 {
                            assert(ev1[a] == ev0.remove(i as int)[a]);
                        } else {
                            lemma_entries_contains(ev1, norm_key(text@));
                        }
                    }
                }
            },
            None => {
                self.entries.push((key, entry));
                proof {
                    assert(entries_view(self.entries@) =~= ev0.push((norm_key(text@), entry)));
                    assert(entries_view(self.entries@).drop_last() =~= ev0);
                }
            },
        }
    }

    /// Removes and returns the entry whose key is the normalized form of
    /// `text`, or nothing when no such text is pending.
    pub fn retire(&mut self, text: &str) -> (r: Option<PendingEntry>)
        requires
            old(self).wf(),
        ensures
            final(self).wf(),
            match r {
                Some(e) => old(self)@.contains_key(norm_key(text@)) && old(self)@[norm_key(
                    text@,
                )] == e && final(self)@ == old(self)@.remove(norm_key(text@)),
                None => !old(self)@.contains_key(norm_key(text@)) && final(self)@ == old(self)@,
            },
    {
        let key = normalize_key(text);
        let ghost ev0 = entries_view(old(self).entries@);
        let idx = self.find_index(&key);
        match idx {
            Some(i) => {
                proof {
                    lemma_entries_remove(ev0, i as int);
                    lemma_entries_at(ev0, i as int);
                }
                let removed = self.entries.remove(i);
                proof {
                    assert(entries_view(self.entries@) =~= ev0.remove(i as int));
                    assert forall|a: int, b: int|
                        0 <= a < b < ev0.remove(i as int).len() implies ev0.remove(i as int)[a].0
                        != ev0.remove(i as int)[b].0 by {}
                }
                Some(removed.1)
            },
            None => {
                proof {
                    lemma_entries_contains(ev0, key@);
                }
                None
            },
        }
    }

    /// Whether a message with the normalized key of `text` is pending.
    pub fn is_pending(&self, text: &str) -> (r: bool)
        requires
            self.wf(),
        ensures
            r == self@.contains_key(norm_key(text@)),
    {
        let key = normalize_key(text);
        let idx = self.find_index(&key);
        proof {
            lemma_entries_contains(entries_view(self.entries@), key@);
        }
        match idx {
            Some(i) => {
                proof {
                    assert(entries_view(self.entries@)[i as int].0 == key@);
                }
                true
            },
            None => false,
        }
    }
}

} // verus!
