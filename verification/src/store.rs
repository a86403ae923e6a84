//! The record store: an in-memory table of hero rows in insertion order,
//! keyed by an integer id that is assigned on creation and never reused.

use vstd::prelude::*;

use crate::models::{hero_of, heroes_view, Hero, HeroV, NewHero};

verus! {

/// Does the table `s` hold a row with the id `id`?
pub open spec fn contains_id(s: Seq<HeroV>, id: int) -> bool {
    exists|i: int| 0 <= i < s.len() && s[i].id == id
}

/// The position of the row with the id `id`; meaningful only where
/// `contains_id(s, id)` holds and the ids of `s` are distinct.
pub open spec fn row_index(s: Seq<HeroV>, id: int) -> int {
    choose|i: int| 0 <= i < s.len() && s[i].id == id
}

/// Listing is idempotent: absent an intervening write, any two listings
/// of a table show the same rows in the same order, because `list`
/// determines its result's value from the table state alone.
pub proof fn lemma_list_deterministic(t: HeroTable, a: Seq<Hero>, b: Seq<Hero>)
    requires
        heroes_view(a) == t@,
        heroes_view(b) == t@,
    ensures
        heroes_view(a) == heroes_view(b),
{
}

/// The table of hero rows. Rows stay in insertion order; every id is
/// distinct, below `next_id`, and non-negative.
pub struct HeroTable {
    rows: Vec<Hero>,
    next_id: i32,
}

impl View for HeroTable {
    type V = Seq<HeroV>;

    closed spec fn view(&self) -> Seq<HeroV> {
        heroes_view(self.rows@)
    }
}

impl HeroTable {
    /// The id the next created row will receive.
    pub closed spec fn spec_next_id(&self) -> int {
        self.next_id as int
    }

    /// Well-formedness: ids are non-negative, below `next_id`, and distinct.
    pub closed spec fn wf(&self) -> bool {
        &&& self.next_id >= 0
        &&& forall|i: int| 0 <= i < self@.len() ==> 0 <= #[trigger] self@[i].id < self.next_id as int
        &&& forall|i: int, j: int|
            0 <= i < j < self@.len() ==> #[trigger] self@[i].id != #[trigger] self@[j].id
    }

    /// An empty table.
    pub fn new() -> (t: HeroTable)
        ensures
            t@ == Seq::<HeroV>::empty(),
            t.wf(),
            t.spec_next_id() == 0,
    {
        let t = HeroTable { rows: Vec::new(), next_id: 0 };
        proof {
            assert(t@ =~= Seq::<HeroV>::empty());
        }
        t
    }

    /// Has the table handed out every id it can? A full table can no
    /// longer create rows.
    pub fn at_capacity(&self) -> (r: bool)
        ensures
            r == (self.spec_next_id() == i32::MAX),
    {
        self.next_id == i32::MAX
    }

    /// All rows, in insertion order. The result is a function of the table
    /// state alone, so repeated listings without an intervening write
    /// return the same rows in the same order.
    pub fn list(&self) -> (r: Vec<Hero>)
        ensures
            heroes_view(r@) == self@,
    {
        let mut out: Vec<Hero> = Vec::new();
        let n = self.rows.len();
        let mut i: usize = 0;
        while i < n
            invariant
                n == self.rows.len(),
                0 <= i <= n,
                heroes_view(out@) =~= self@.subrange(0, i as int),
            decreases n - i,
        {
            let ghost out0 = out@;
            out.push(self.rows[i].clone());
            proof {
                assert(self@.len() == self.rows@.len());
                assert(heroes_view(out0).len() == out0.len());
                assert(heroes_view(out0).len() == i as int);
                assert(out0.len() == i as int);
                assert(out@ =~= out0.push(out@.last()));
                assert(out@.last()@ == self@[i as int]);
                assert forall|t: int| 0 <= t < out@.len() implies #[trigger] heroes_view(out@)[t]
                    == self@.subrange(0, i as int + 1)[t] by {
                    assert(heroes_view(out@)[t] == out@[t]@);
                    if t < i as int {
                        assert(out@[t] == out0[t]);
                        assert(heroes_view(out0)[t] == self@.subrange(0, i as int)[t]);
                    }
                }
                assert(heroes_view(out@) =~= self@.subrange(0, i as int + 1));
            }
            i += 1;
        }
        proof {
            assert(self@.subrange(0, n as int) =~= self@);
        }
        out
    }

    /// The row with the id `id`, or `None` where the table holds no such row.
    pub fn get(&self, id: i32) -> (r: Option<&Hero>)
        requires
            self.wf(),
        ensures
            match r {
                Some(h) => contains_id(self@, id as int) && h@ == self@[row_index(
                    self@,
                    id as int,
                )] && h@.id == id as int,
                None => !contains_id(self@, id as int),
            },
    {
        let n = self.rows.len();
        let mut i: usize = 0;
        while i < n
            invariant
                n == self.rows.len(),
                0 <= i <= n,
                self.wf(),
                forall|k: int| 0 <= k < i ==> #[trigger] self@[k].id != id as int,
            decreases n - i,
        {
            if self.rows[i].id == id {
                let h = &self.rows[i];
                proof {
                    assert(self@[i as int].id == id as int);
                    let w = row_index(self@, id as int);
                    assert(0 <= w < self@.len() && self@[w].id == id as int);
                    assert(w == i as int);
                }
                return Some(h);
            }
            i += 1;
        }
        None
    }

    /// Store the field set `h` as a fresh row. The new row is appended, it
    /// carries the returned id, and no existing row held that id before.
    pub fn create(&mut self, h: NewHero) -> (id: i32)
        requires
            old(self).wf(),
            old(self).spec_next_id() < i32::MAX,
        ensures
            final(self).wf(),
            id == old(self).spec_next_id(),
            !contains_id(old(self)@, id as int),
            final(self)@ == old(self)@.push(hero_of(id as int, h@)),
            final(self).spec_next_id() == old(self).spec_next_id() + 1,
    {
        let id = self.next_id;
        let row = Hero {
            id,
            fantasy_name: h.fantasy_name,
            real_name: h.real_name,
            spotted_photo: h.spotted_photo,
            strength_level: h.strength_level,
        };
        proof {
            assert(row@ == hero_of(id as int, h@));
        }
        self.rows.push(row);
        self.next_id = self.next_id + 1;
        proof {
            let pre = old(self)@;
            let post = self@;
            assert(post =~= pre.push(hero_of(id as int, h@)));
            assert forall|i: int| 0 <= i < post.len() implies 0 <= #[trigger] post[i].id
                < self.next_id as int by {
                if i < pre.len() {
                    assert(post[i] == pre[i]);
                    assert(0 <= pre[i].id < old(self).next_id as int);
                } else {
                    assert(post[i] == hero_of(id as int, h@));
                }
            }
            assert forall|i: int, j: int| 0 <= i < j < post.len() implies #[trigger] post[i].id
                != #[trigger] post[j].id by {
                if j < pre.len() {
                    assert(post[i] == pre[i] && post[j] == pre[j]);
                } else {
                    assert(post[j] == hero_of(id as int, h@));
                    assert(post[i] == pre[i]);
                    assert(pre[i].id < id as int);
                }
            }
        }
        id
    }

    /// Replace the mutable fields of the row with the id `id` by `h`,
    /// preserving the id and the row's position. Returns whether a row was
    /// targeted. Every other row is left exactly as it was.
    pub fn update(&mut self, id: i32, h: NewHero) -> (r: bool)
        requires
            old(self).wf(),
        ensures
            final(self).wf(),
            final(self).spec_next_id() == old(self).spec_next_id(),
            final(self)@.len() == old(self)@.len(),
            contains_id(old(self)@, id as int) ==> r && final(self)@ == old(self)@.update(
                row_index(old(self)@, id as int),
                hero_of(id as int, h@),
            ),
            !contains_id(old(self)@, id as int) ==> !r && final(self)@ == old(self)@,
            forall|j: int|
                0 <= j < old(self)@.len() && old(self)@[j].id != id as int
                    ==> final(self)@[j] == old(self)@[j],
    {
        let n = self.rows.len();
        let mut i: usize = 0;
        while i < n
            invariant
                n == self.rows.len(),
                0 <= i <= n,
                self.wf(),
                *self == *old(self),
                forall|k: int| 0 <= k < i ==> #[trigger] self@[k].id != id as int,
            decreases n - i,
        {
            if self.rows[i].id == id {
                proof {
                    assert(self@[i as int].id == id as int);
                    let w = row_index(self@, id as int);
                    assert(0 <= w < self@.len() && self@[w].id == id as int);
                    assert(w == i as int);
                }
                let row = Hero {
                    id,
                    fantasy_name: h.fantasy_name,
                    real_name: h.real_name,
                    spotted_photo: h.spotted_photo,
                    strength_level: h.strength_level,
                };
                let slot = vstd::std_specs::vec::vec_index_mut(&mut self.rows, i);
                *slot = row;
                proof {
                    assert(self@ =~= old(self)@.update(i as int, hero_of(id as int, h@)));
                }
                return true;
            }
            i += 1;
        }
        proof {
            assert(self@ =~= old(self)@);
        }
        false
    }

    /// Remove the row with the id `id`, keeping every other row in order.
    /// Returns whether a row was removed. Afterwards no row holds `id`:
    /// a later `get(id)` reports not-found and a listing no longer
    /// includes it.
    pub fn delete(&mut self, id: i32) -> (r: bool)
        requires
            old(self).wf(),
        ensures
            final(self).wf(),
            final(self).spec_next_id() == old(self).spec_next_id(),
            !contains_id(final(self)@, id as int),
            contains_id(old(self)@, id as int) ==> r && final(self)@ == old(self)@.remove(
                row_index(old(self)@, id as int),
            ),
            !contains_id(old(self)@, id as int) ==> !r && final(self)@ == old(self)@,
    {
        let n = self.rows.len();
        let mut i: usize = 0;
        while i < n
            invariant
                n == self.rows.len(),
                0 <= i <= n,
                self.wf(),
                *self == *old(self),
                forall|k: int| 0 <= k < i ==> #[trigger] self@[k].id != id as int,
            decreases n - i,
        {
            if self.rows[i].id == id {
                proof {
                    assert(self@[i as int].id == id as int);
                    let w = row_index(self@, id as int);
                    assert(0 <= w < self@.len() && self@[w].id == id as int);
                    assert(w == i as int);
                }
                self.rows.remove(i);
                proof {
                    assert(self@ =~= old(self)@.remove(i as int));
                    assert forall|k: int| 0 <= k < self@.len() implies #[trigger] self@[k].id
                        != id as int by {
                        if k < i as int {
                            assert(self@[k] == old(self)@[k]);
                        } else {
                            assert(self@[k] == old(self)@[k + 1]);
                        }
                    }
                }
                return true;
            }
            i += 1;
        }
        proof {
            assert(self@ =~= old(self)@);
        }
        false
    }
}

} // verus!
