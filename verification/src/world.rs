//! The authoritative-plus-optimistic table of players in the current room.
//!
//! The table is modelled as a map from username to player record. Its one
//! invariant: at most one entry per username, whatever sequence of joins,
//! updates, departures and snapshot replacements arrives. Inbound updates and
//! optimistic local moves both go through `upsert`, so a later authoritative
//! record simply overwrites a speculative one (last write wins).

use vstd::prelude::*;

use crate::protocol::Player;
use crate::protocol::PlayerV;
use crate::protocol::players_view;

verus! {

/// Pairwise-distinct usernames.
pub open spec fn unique_usernames(ps: Seq<PlayerV>) -> bool {
    forall|i: int, j: int| 0 <= i < j < ps.len() ==> ps[i].username != ps[j].username
}

/// The map a sequence of player records denotes, later records overwriting
/// earlier ones of the same username.
pub open spec fn snapshot_map(ps: Seq<PlayerV>) -> Map<Seq<char>, PlayerV>
    decreases ps.len(),
{
    if ps.len() == 0 {
        Map::empty()
    } else {
        snapshot_map(ps.drop_last()).insert(ps.last().username, ps.last())
    }
}

pub proof fn lemma_snapshot_contains(ps: Seq<PlayerV>, k: Seq<char>)
    ensures
        snapshot_map(ps).contains_key(k) <==> exists|i: int|
            0 <= i < ps.len() && ps[i].username == k,
    decreases ps.len(),
{
    if ps.len() > 0 {
        lemma_snapshot_contains(ps.drop_last(), k);
        if ps.last().username == k {
            assert(ps[ps.len() - 1].username == k);
        } else if snapshot_map(ps.drop_last()).contains_key(k) {
            let i = choose|i: int| 0 <= i < ps.drop_last().len() && ps.drop_last()[i].username
                == k;
            assert(ps[i].username == k);
        } else if exists|i: int| 0 <= i < ps.len() && ps[i].username == k {
            let i = choose|i: int| 0 <= i < ps.len() && ps[i].username == k;
            assert(ps.drop_last()[i].username == k);
        }
    }
}

pub proof fn lemma_snapshot_at(ps: Seq<PlayerV>, i: int)
    requires
        unique_usernames(ps),
        0 <= i < ps.len(),
    ensures
        snapshot_map(ps).contains_key(ps[i].username),
        snapshot_map(ps)[ps[i].username] == ps[i],
    decreases ps.len(),
{
    if i == ps.len() - 1 {
    } else {
        assert(unique_usernames(ps.drop_last())) by {
            assert(forall|a: int, b: int|
                0 <= a < b < ps.len() - 1 ==> ps.drop_last()[a] == ps[a] && ps.drop_last()[b]
                    == ps[b]);
        }
        assert(ps.drop_last()[i] == ps[i]);
        lemma_snapshot_at(ps.drop_last(), i);
        assert(ps[i].username != ps.last().username);
    }
}

proof fn lemma_unique_drop_last(ps: Seq<PlayerV>)
    requires
        unique_usernames(ps),
        ps.len() > 0,
    ensures
        unique_usernames(ps.drop_last()),
{
    assert(forall|a: int, b: int|
        0 <= a < b < ps.len() - 1 ==> ps.drop_last()[a] == ps[a] && ps.drop_last()[b] == ps[b]);
}

pub proof fn lemma_snapshot_remove(ps: Seq<PlayerV>, i: int)
    requires
        unique_usernames(ps),
        0 <= i < ps.len(),
    ensures
        snapshot_map(ps.remove(i)) == snapshot_map(ps).remove(ps[i].username),
    decreases ps.len(),
{
    let k = ps[i].username;
    if i == ps.len() - 1 {
        assert(ps.remove(i) =~= ps.drop_last());
        lemma_unique_drop_last(ps);
        lemma_snapshot_contains(ps.drop_last(), k);
        assert(forall|a: int| 0 <= a < ps.len() - 1 ==> ps.drop_last()[a] == ps[a]);
        assert(!snapshot_map(ps.drop_last()).contains_key(k));
        assert(snapshot_map(ps.drop_last()) =~= snapshot_map(ps).remove(k));
    } else {
        let t = ps.drop_last();
        let lk = ps.last().username;
        let lv = ps.last();
        assert(ps.remove(i).drop_last() =~= t.remove(i));
        assert(ps.remove(i).last() == lv);
        lemma_unique_drop_last(ps);
        assert(t[i] == ps[i]);
        lemma_snapshot_remove(t, i);
        assert(k != lk);
        assert(snapshot_map(ps.remove(i)) == snapshot_map(t.remove(i)).insert(lk, lv));
        assert(snapshot_map(t).remove(k).insert(lk, lv) =~= snapshot_map(t).insert(lk, lv).remove(
            k,
        ));
    }
}

pub proof fn lemma_snapshot_len(ps: Seq<PlayerV>)
    requires
        unique_usernames(ps),
    ensures
        snapshot_map(ps).dom().len() == ps.len(),
        snapshot_map(ps).dom().finite(),
    decreases ps.len(),
{
    if ps.len() > 0 {
        lemma_unique_drop_last(ps);
        lemma_snapshot_len(ps.drop_last());
        lemma_snapshot_contains(ps.drop_last(), ps.last().username);
        assert(forall|a: int| 0 <= a < ps.len() - 1 ==> ps.drop_last()[a] == ps[a]);
        assert(!snapshot_map(ps.drop_last()).contains_key(ps.last().username));
        assert(snapshot_map(ps).dom() =~= snapshot_map(ps.drop_last()).dom().insert(
            ps.last().username,
        ));
        vstd::set::axiom_set_insert_len(snapshot_map(ps.drop_last()).dom(), ps.last().username);
    }
}

/// Applying one snapshot always yields one table, whatever stood there
/// before: resynchronization replaces the whole table, so replaying the same
/// `game_state` twice leaves exactly the state the first application left.
pub proof fn lemma_snapshot_replacing(w1: WorldState, w2: WorldState, ps: Seq<PlayerV>)
    requires
        w1@ == snapshot_map(ps),
        w2@ == snapshot_map(ps),
    ensures
        w1@ == w2@,
{
}

/// A speculative, optimistic record for a username is wholly overwritten by
/// the next authoritative record for the same username: last write wins, and
/// no trace of the speculative value remains.
pub proof fn lemma_last_write_wins(
    m: Map<Seq<char>, PlayerV>,
    optimistic: PlayerV,
    authoritative: PlayerV,
)
    requires
        optimistic.username == authoritative.username,
    ensures
        m.insert(optimistic.username, optimistic).insert(
            authoritative.username,
            authoritative,
        ) == m.insert(authoritative.username, authoritative),
{
    assert(m.insert(optimistic.username, optimistic).insert(authoritative.username, authoritative)
        =~= m.insert(authoritative.username, authoritative));
}

/// The table of players, keyed by username.
pub struct WorldState {
    players: Vec<Player>,
}

impl View for WorldState {
    type V = Map<Seq<char>, PlayerV>;

    closed spec fn view(&self) -> Map<Seq<char>, PlayerV> {
        snapshot_map(players_view(self.players@))
    }
}

impl WorldState {
    /// Well-formedness: at most one entry per username.
    pub closed spec fn wf(&self) -> bool {
        unique_usernames(players_view(self.players@))
    }

    /// An empty room.
    pub fn new() -> (w: WorldState)
        ensures
            w.wf(),
            w@ == Map::<Seq<char>, PlayerV>::empty(),
    {
        let w = WorldState { players: Vec::new() };
        proof {
            assert(players_view(w.players@) =~= Seq::<PlayerV>::empty());
        }
        w
    }

    fn find_index(&self, username: &String) -> (r: Option<usize>)
        ensures
            match r {
                Some(i) => i < self.players@.len() && self.players@[i as int]@.username
                    == username@,
                None => forall|i: int|
                    0 <= i < self.players@.len() ==> self.players@[i]@.username != username@,
            },
    {
        let mut i: usize = 0;
        while i < self.players.len()
            invariant
                i <= self.players@.len(),
                forall|j: int| 0 <= j < i ==> self.players@[j]@.username != username@,
            decreases self.players@.len() - i,
        {
            if self.players[i].username == *username {
                return Some(i);
            }
            i = i + 1;
        }
        None
    }

    /// Inserts or overwrites the record for `p`'s username.
    pub fn upsert(&mut self, p: Player)
        requires
            old(self).wf(),
        ensures
            final(self).wf(),
            final(self)@ == old(self)@.insert(p@.username, p@),
    {
        let ghost pv0 = players_view(old(self).players@);
        let idx = self.find_index(&p.username);
        match idx {
            Some(i) => {
                proof {
                    lemma_snapshot_remove(pv0, i as int);
                }
                let _ = self.players.remove(i);
                proof {
                    assert(players_view(self.players@) =~= pv0.remove(i as int));
                }
                let ghost pv1 = players_view(self.players@);
                self.players.push(p);
                proof {
                    assert(players_view(self.players@) =~= pv1.push(p@));
                    assert(players_view(self.players@).drop_last() =~= pv1);
                    assert(old(self)@.remove(p@.username).insert(p@.username, p@) =~= old(
                        self,
                    )@.insert(p@.username, p@));
                    assert(final(self)@ == old(self)@.insert(p@.username, p@));
                    assert forall|a: int, b: int|
                        0 <= a < b < players_view(self.players@).len() implies players_view(
                        self.players@,
                    )[a].username != players_view(self.players@)[b].username by {
                        if b < players_view(self.players@).len() - 1 {
                            assert(pv1[a] == pv0.remove(i as int)[a]);
                        } else {
                            lemma_snapshot_contains(pv1, p@.username);
                        }
                    }
                }
            },
            None => {
                self.players.push(p);
                proof {
                    assert(players_view(self.players@) =~= pv0.push(p@));
                    assert(players_view(self.players@).drop_last() =~= pv0);
                }
            },
        }
    }

    /// Removes the record for `username`, if present.
    pub fn remove_player(&mut self, username: &String)
        requires
            old(self).wf(),
        ensures
            final(self).wf(),
            final(self)@ == old(self)@.remove(username@),
    {
        let ghost pv0 = players_view(old(self).players@);
        let idx = self.find_index(username);
        match idx {
            Some(i) => {
                proof {
                    lemma_snapshot_remove(pv0, i as int);
                }
                let _ = self.players.remove(i);
                proof {
                    assert(players_view(self.players@) =~= pv0.remove(i as int));
                    assert forall|a: int, b: int|
                        0 <= a < b < pv0.remove(i as int).len() implies pv0.remove(
                        i as int,
                    )[a].username != pv0.remove(i as int)[b].username by {}
                }
            },
            None => {
                proof {
                    lemma_snapshot_contains(pv0, username@);
                    assert(old(self)@ =~= old(self)@.remove(username@));
                }
            },
        }
    }

    /// Replaces the whole table with a snapshot: the authoritative
    /// resynchronization path. A username repeated within the snapshot keeps
    /// its last record.
    pub fn replace_all(&mut self, players: Vec<Player>)
        ensures
            final(self).wf(),
            final(self)@ == snapshot_map(players_view(players@)),
    {
        let ghost ps = players_view(players@);
        self.players.clear();
        proof {
            assert(players_view(self.players@) =~= Seq::<PlayerV>::empty());
            assert(ps.take(0) =~= Seq::<PlayerV>::empty());
        }
        let mut i: usize = 0;
        while i < players.len()
            invariant
                i <= players@.len(),
                ps == players_view(players@),
                self.wf(),
                self@ == snapshot_map(ps.take(i as int)),
            decreases players@.len() - i,
        {
            let p = players[i].clone();
            self.upsert(p);
            proof {
                assert(ps.take(i + 1).drop_last() =~= ps.take(i as int));
                assert(ps.take(i + 1).last() == ps[i as int]);
            }
            i = i + 1;
        }
        proof {
            assert(ps.take(players@.len() as int) =~= ps);
        }
    }

    /// The record for `username`.
    pub fn get(&self, username: &String) -> (r: Option<&Player>)
        requires
            self.wf(),
        ensures
            match r {
                Some(p) => self@.contains_key(username@) && self@[username@] == p@,
                None => !self@.contains_key(username@),
            },
    {
        let idx = self.find_index(username);
        proof {
            lemma_snapshot_contains(players_view(self.players@), username@);
        }
        match idx {
            Some(i) => {
                proof {
                    lemma_snapshot_at(players_view(self.players@), i as int);
                }
                Some(&self.players[i])
            },
            None => None,
        }
    }

    /// How many players the table holds.
    pub fn len(&self) -> (n: usize)
        requires
            self.wf(),
        ensures
            n == self@.dom().len(),
    {
        proof {
            lemma_snapshot_len(players_view(self.players@));
        }
        self.players.len()
    }

    /// A copy of the table for the presentation layer: every entry of the
    /// map, each username once — the table never holds two records with one
    /// username.
    pub fn players_snapshot(&self) -> (r: Vec<Player>)
        requires
            self.wf(),
        ensures
            r@.len() == self@.dom().len(),
            forall|i: int, j: int|
                0 <= i < j < r@.len() ==> r@[i]@.username != r@[j]@.username,
            forall|i: int|
                0 <= i < r@.len() ==> self@.contains_key(#[trigger] r@[i]@.username)
                    && self@[r@[i]@.username] == r@[i]@,
    {
        proof {
            lemma_snapshot_len(players_view(self.players@));
        }
        let mut r: Vec<Player> = Vec::new();
        let mut i: usize = 0;
        while i < self.players.len()
            invariant
                i <= self.players@.len(),
                r@.len() == i,
                self.wf(),
                forall|j: int| 0 <= j < i ==> r@[j]@ == self.players@[j]@,
            decreases self.players@.len() - i,
        {
            let p = self.players[i].clone();
            r.push(p);
            i = i + 1;
        }
        proof {
            assert forall|i: int|
                0 <= i < r@.len() implies self@.contains_key(#[trigger] r@[i]@.username)
                && self@[r@[i]@.username] == r@[i]@ by {
                assert(r@[i]@ == players_view(self.players@)[i]);
                lemma_snapshot_at(players_view(self.players@), i);
            }
            assert forall|i: int, j: int|
                0 <= i < j < r@.len() implies r@[i]@.username != r@[j]@.username by {
                assert(r@[i]@ == players_view(self.players@)[i]);
                assert(r@[j]@ == players_view(self.players@)[j]);
            }
        }
        r
    }
}

} // verus!
