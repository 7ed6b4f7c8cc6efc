//! The registry store model: a table of owner-to-card rows with the
//! central invariant that each owner holds at most one row, and an
//! atomic update-or-insert write against that invariant.

use vstd::prelude::*;
use vstd::map::*;

verus! {

/// A stored card: the canonical id and the display-name snapshot taken
/// at the most recent write.
pub struct Card {
    pub id: String,
    pub username: String,
}

/// The mathematical value of a stored card.
#[verifier::ext_equal]
pub ghost struct CardV {
    pub id: Seq<char>,
    pub username: Seq<char>,
}

impl View for Card {
    type V = CardV;

    open spec fn view(&self) -> CardV {
        CardV { id: self.id@, username: self.username@ }
    }
}

impl Clone for Card {
    fn clone(&self) -> (r: Card)
        ensures
            r@ == self@,
    {
        Card { id: self.id.clone(), username: self.username.clone() }
    }
}

struct Row {
    owner_id: String,
    card: Card,
}

/// The registry of cards, keyed by owner.
pub struct Registry {
    rows: Vec<Row>,
}

spec fn rows_distinct(rows: Seq<Row>) -> bool {
    forall|i: int, j: int|
        #![trigger rows[i].owner_id@, rows[j].owner_id@]
        0 <= i < j < rows.len() ==> rows[i].owner_id@ != rows[j].owner_id@
}

spec fn row_has_key(rows: Seq<Row>, k: Seq<char>) -> bool {
    exists|i: int| 0 <= i < rows.len() && (#[trigger] rows[i].owner_id@) == k
}

spec fn row_index_of(rows: Seq<Row>, k: Seq<char>) -> int {
    choose|i: int| 0 <= i < rows.len() && (#[trigger] rows[i].owner_id@) == k
}

proof fn lemma_index_unique(rows: Seq<Row>, i: int)
    requires
        rows_distinct(rows),
        0 <= i < rows.len(),
    ensures
        row_has_key(rows, rows[i].owner_id@),
        row_index_of(rows, rows[i].owner_id@) == i,
{
    assert(row_has_key(rows, rows[i].owner_id@));
    let j = row_index_of(rows, rows[i].owner_id@);
    if j != i {
        assert(false);
    }
}

impl View for Registry {
    type V = Map<Seq<char>, CardV>;

    /// The registry as a map from owner to card value.
    closed spec fn view(&self) -> Map<Seq<char>, CardV> {
        Map::new(
            |k: Seq<char>| row_has_key(self.rows@, k),
            |k: Seq<char>| self.rows@[row_index_of(self.rows@, k)].card@,
        )
    }
}

impl Registry {
    /// Well-formedness: owners are pairwise distinct, so each owner has
    /// at most one row.
    pub closed spec fn wf(&self) -> bool {
        rows_distinct(self.rows@)
    }

    /// The owners in row order: the order in which `list` reports cards.
    pub closed spec fn owners(&self) -> Seq<Seq<char>> {
        Seq::new(self.rows@.len(), |i: int| self.rows@[i].owner_id@)
    }

    /// An empty registry.
    pub fn new() -> (r: Registry)
        ensures
            r.wf(),
            r@ == Map::<Seq<char>, CardV>::empty(),
            r.owners() == Seq::<Seq<char>>::empty(),
    {
        let r = Registry { rows: Vec::new() };
        proof {
            assert(r@ =~= Map::<Seq<char>, CardV>::empty());
            assert(r.owners() =~= Seq::<Seq<char>>::empty());
        }
        r
    }

    fn find_index(&self, owner_id: &String) -> (r: Option<usize>)
        ensures
            match r {
                Some(i) => i < self.rows@.len() && self.rows@[i as int].owner_id@ == owner_id@,
                None => !row_has_key(self.rows@, owner_id@),
            },
    {
        let n = self.rows.len();
        let mut i: usize = 0;
        while i < n
            invariant
                n == self.rows@.len(),
                i <= n,
                forall|j: int| 0 <= j < i ==> (#[trigger] self.rows@[j].owner_id@) != owner_id@,
            decreases n - i,
        {
            if self.rows[i].owner_id == *owner_id {
                return Some(i);
            }
            i += 1;
        }
        None
    }

    /// The atomic update-or-insert write: if the owner already has a
    /// row, its id and username are overwritten in place; otherwise a
    /// new row is appended. Returns whether a row already existed.
    pub fn upsert(&mut self, owner_id: &String, id: String, username: String) -> (existed: bool)
        requires
            old(self).wf(),
        ensures
            final(self).wf(),
            existed == old(self)@.contains_key(owner_id@),
            final(self)@ == old(self)@.insert(
                owner_id@,
                CardV { id: id@, username: username@ },
            ),
            existed ==> final(self).owners() == old(self).owners(),
            !existed ==> final(self).owners() == old(self).owners().push(owner_id@),
    {
        let ghost rows0 = self.rows@;
        let ghost cardv = CardV { id: id@, username: username@ };
        let found = self.find_index(owner_id);
        match found {
            Some(i) => {
                self.rows[i] = Row { owner_id: owner_id.clone(), card: Card { id, username } };
                proof {
                    let rows1 = self.rows@;
                    assert(rows1 == rows0.update(i as int, rows1[i as int]));
                    assert forall|p: int, q: int|
                        #![trigger rows1[p].owner_id@, rows1[q].owner_id@]
                        0 <= p < q < rows1.len() implies rows1[p].owner_id@
                        != rows1[q].owner_id@ by {
                        assert(rows1[p].owner_id@ == rows0[p].owner_id@);
                        assert(rows1[q].owner_id@ == rows0[q].owner_id@);
                    }
                    assert(self.owners() =~= old(self).owners());
                    lemma_index_unique(rows0, i as int);
                    assert_maps_equal!(
                        self@,
                        old(self)@.insert(owner_id@, CardV { id: id@, username: username@ }),
                        k => {
                            if row_has_key(rows1, k) {
                                let j = row_index_of(rows1, k);
                                lemma_index_unique(rows1, j);
                                if k == owner_id@ {
                                    assert(rows1[i as int].owner_id@ == k);
                                    lemma_index_unique(rows1, i as int);
                                    assert(j == i as int);
                                } else {
                                    assert(rows0[j].owner_id@ == k);
                                    lemma_index_unique(rows0, j);
                                    assert(row_has_key(rows0, k));
                                }
                            }
                            if row_has_key(rows0, k) {
                                let j = row_index_of(rows0, k);
                                assert(rows1[j].owner_id@ == k);
                                assert(row_has_key(rows1, k));
                            }
                        }
                    );
                }
                true
            },
            None => {
                self.rows.push(Row { owner_id: owner_id.clone(), card: Card { id, username } });
                proof {
                    let rows1 = self.rows@;
                    let n = rows0.len() as int;
                    assert(rows1 == rows0.push(rows1[n]));
                    assert forall|p: int, q: int|
                        #![trigger rows1[p].owner_id@, rows1[q].owner_id@]
                        0 <= p < q < rows1.len() implies rows1[p].owner_id@
                        != rows1[q].owner_id@ by {
                        if q < n {
                            assert(rows1[p].owner_id@ == rows0[p].owner_id@);
                            assert(rows1[q].owner_id@ == rows0[q].owner_id@);
                        } else {
                            assert(rows1[q].owner_id@ == owner_id@);
                            assert(rows1[p].owner_id@ == rows0[p].owner_id@);
                            assert(!row_has_key(rows0, owner_id@));
                        }
                    }
                    assert(self.owners() =~= old(self).owners().push(owner_id@));
                    assert_maps_equal!(
                        self@,
                        old(self)@.insert(owner_id@, CardV { id: id@, username: username@ }),
                        k => {
                            if row_has_key(rows1, k) {
                                let j = row_index_of(rows1, k);
                                lemma_index_unique(rows1, j);
                                if k == owner_id@ {
                                    assert(rows1[n].owner_id@ == k);
                                    lemma_index_unique(rows1, n);
                                    assert(j == n);
                                } else {
                                    assert(j < n);
                                    assert(rows0[j].owner_id@ == k);
                                    lemma_index_unique(rows0, j);
                                    assert(row_has_key(rows0, k));
                                }
                            }
                            if row_has_key(rows0, k) {
                                let j = row_index_of(rows0, k);
                                assert(rows1[j].owner_id@ == k);
                                assert(row_has_key(rows1, k));
                            }
                            if k == owner_id@ {
                                assert(rows1[n].owner_id@ == k);
                                assert(row_has_key(rows1, k));
                            }
                        }
                    );
                }
                false
            },
        }
    }

    /// Looks up the one card of the given owner.
    pub fn get(&self, owner_id: &String) -> (r: Option<Card>)
        requires
            self.wf(),
        ensures
            match r {
                Some(c) => self@.contains_key(owner_id@) && c@ == self@[owner_id@],
                None => !self@.contains_key(owner_id@),
            },
    {
        match self.find_index(owner_id) {
            Some(i) => {
                proof {
                    lemma_index_unique(self.rows@, i as int);
                }
                Some(self.rows[i].card.clone())
            },
            None => None,
        }
    }

    /// Returns every stored card, in row order: position `i` of the
    /// result is the card of owner `self.owners()[i]`.
    pub fn list(&self) -> (r: Vec<Card>)
        requires
            self.wf(),
        ensures
            r@.len() == self.owners().len(),
            forall|i: int|
                0 <= i < r@.len() ==> self@.contains_key(self.owners()[i]) && (#[trigger] r@[i])@
                    == self@[self.owners()[i]],
    {
        let mut out: Vec<Card> = Vec::new();
        let n = self.rows.len();
        let mut i: usize = 0;
        while i < n
            invariant
                n == self.rows@.len(),
                i <= n,
                out@.len() == i,
                forall|j: int| 0 <= j < i ==> (#[trigger] out@[j])@ == self.rows@[j].card@,
            decreases n - i,
        {
            out.push(self.rows[i].card.clone());
            i += 1;
        }
        proof {
            assert forall|j: int|
                0 <= j < out@.len() implies self@.contains_key(self.owners()[j]) && (
            #[trigger] out@[j])@ == self@[self.owners()[j]] by {
                lemma_index_unique(self.rows@, j);
            }
        }
        out
    }

    /// Law (listing completeness): the owner order that `list` follows
    /// enumerates exactly the keys of the registry, each exactly once.
    pub proof fn lemma_owners_complete(&self)
        requires
            self.wf(),
        ensures
            forall|k: Seq<char>| #[trigger]
                self@.contains_key(k) <==> self.owners().contains(k),
            forall|i: int, j: int|
                0 <= i < j < self.owners().len() ==> self.owners()[i] != self.owners()[j],
    {
        assert forall|k: Seq<char>| #[trigger]
            self@.contains_key(k) <==> self.owners().contains(k) by {
            if self@.contains_key(k) {
                let i = row_index_of(self.rows@, k);
                assert(self.owners()[i] == k);
            }
            if self.owners().contains(k) {
                let i = choose|i: int| 0 <= i < self.owners().len() && self.owners()[i] == k;
                assert(self.rows@[i].owner_id@ == k);
            }
        }
    }
}

/// Law (upsert idempotence): two writes for the same owner leave
/// exactly one entry for that owner, holding the most recently written
/// card; the rest of the registry is as if only the second write had
/// happened.
pub proof fn lemma_upsert_idempotent(
    m: Map<Seq<char>, CardV>,
    owner: Seq<char>,
    c1: CardV,
    c2: CardV,
)
    ensures
        m.insert(owner, c1).insert(owner, c2) == m.insert(owner, c2),
        m.insert(owner, c1).insert(owner, c2)[owner] == c2,
        m.insert(owner, c1).insert(owner, c2).dom() == m.dom().insert(owner),
{
    assert(m.insert(owner, c1).insert(owner, c2) =~= m.insert(owner, c2));
    assert(m.insert(owner, c1).insert(owner, c2).dom() =~= m.dom().insert(owner));
}

/// Law (isolation across owners): writes for two distinct owners
/// commute, and each owner's entry holds its own card afterwards —
/// neither write is lost or overwritten by the other.
pub proof fn lemma_owner_isolation(
    m: Map<Seq<char>, CardV>,
    o1: Seq<char>,
    c1: CardV,
    o2: Seq<char>,
    c2: CardV,
)
    requires
        o1 != o2,
    ensures
        m.insert(o1, c1).insert(o2, c2) == m.insert(o2, c2).insert(o1, c1),
        m.insert(o1, c1).insert(o2, c2)[o1] == c1,
        m.insert(o1, c1).insert(o2, c2)[o2] == c2,
{
    assert(m.insert(o1, c1).insert(o2, c2) =~= m.insert(o2, c2).insert(o1, c1));
}

} // verus!
