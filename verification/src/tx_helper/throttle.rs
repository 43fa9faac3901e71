//! Reports that come too often.

use crate::text::same;
#[allow(unused_imports)]
use crate::text::texts;
#[allow(unused_imports)]
use crate::fmt::minus;
use vstd::prelude::*;

verus! {

/// The least time between two reports on one thing, in nanoseconds.
pub const REPORT_NANOS: u128 = 100_000_000;

/// When the last report on each thing was made, in nanoseconds.
#[derive(Debug)]
pub struct Throttle {
    pub names: Vec<String>,
    pub times: Vec<u128>,
}

impl View for Throttle {
    type V = Map<Seq<char>, u128>;

    open spec fn view(&self) -> Map<Seq<char>, u128> {
        Map::new(
            |k: Seq<char>| texts(self.names@).contains(k),
            |k: Seq<char>| self.times@[texts(self.names@).index_of(k)],
        )
    }
}

/// Whether a report is made: it is the first, enough time has passed, or it has to be.
pub open spec fn report_due(last: Map<Seq<char>, u128>, name: Seq<char>, now: u128, force: bool) -> bool {
    !last.contains_key(name) || minus(now as int, last[name] as int) >= REPORT_NANOS || force
}

impl Throttle {
    /// Each name has one time.
    pub open spec fn wf(&self) -> bool {
        &&& self.names@.len() == self.times@.len()
        &&& texts(self.names@).no_duplicates()
    }

    /// No report was made.
    pub fn new() -> (r: Throttle)
        ensures
            r.wf(),
            r@ == Map::<Seq<char>, u128>::empty(),
    {
        let t = Throttle { names: Vec::new(), times: Vec::new() };
        assert(t@ =~= Map::empty());
        t
    }

    fn find(&self, name: &str) -> (r: Option<usize>)
        requires
            self.wf(),
        ensures
            match r {
                Some(i) => i < self.names@.len() && texts(self.names@)[i as int] == name@ && texts(
                    self.names@,
                ).index_of(name@) == i && texts(self.names@).contains(name@),
                None => !texts(self.names@).contains(name@),
            },
    {
        let ghost all = texts(self.names@);
        let mut i: usize = 0;
        while i < self.names.len()
            invariant
                i <= self.names@.len(),
                all == texts(self.names@),
                all.no_duplicates(),
                forall|k: int| 0 <= k < i ==> #[trigger] all[k] != name@,
            decreases self.names.len() - i,
        {
            if same(self.names[i].as_str(), name) {
                proof {
                    assert(all[i as int] == name@);
                    let j = all.index_of(name@);
                    assert(0 <= j < all.len() && all[j] == name@);
                }
                return Some(i);
            }
            i += 1;
        }
        assert(all.len() == self.names@.len());
        None
    }

    /// Whether a report on `name` is made now. If so, it is noted.
    pub fn pass(&mut self, name: &str, now: u128, force: bool) -> (r: bool)
        requires
            old(self).wf(),
        ensures
            final(self).wf(),
            r == report_due(old(self)@, name@, now, force),
            final(self)@ == (if r {
                old(self)@.insert(name@, now)
            } else {
                old(self)@
            }),
    {
        let ghost before = *self;
        let ghost all = texts(self.names@);
        match self.find(name) {
            Some(i) => {
                let last = self.times[i];
                let passed: u128 = if now > last {
                    now - last
                } else {
                    0
                };
                if passed >= REPORT_NANOS || force {
                    self.times.set(i, now);
                    proof {
                        assert(self@.dom() =~= before@.insert(name@, now).dom());
                        assert forall|k: Seq<char>| self@.contains_key(k) implies #[trigger] self@[k]
                            == before@.insert(name@, now)[k] by {
                            let j = all.index_of(k);
                            assert(0 <= j < all.len() && all[j] == k);
                        }
                        assert(self@ =~= before@.insert(name@, now));
                    }
                    true
                } else {
                    false
                }
            },
            None => {
                self.names.push(name.to_owned());
                self.times.push(now);
                proof {
                    let more = texts(self.names@);
                    assert(more =~= all.push(name@));
                    assert(more.no_duplicates()) by {
                        assert forall|a: int, b: int|
                            0 <= a < more.len() && 0 <= b < more.len() && a != b implies more[a]
                            != more[b] by {
                            if a < all.len() && b == all.len() {
                                assert(all.contains(all[a]));
                            } else if b < all.len() && a == all.len() {
                                assert(all.contains(all[b]));
                            }
                        }
                    }
                    assert forall|k: Seq<char>| #[trigger] more.contains(k) <==> all.contains(k) || k
                        == name@ by {
                        if more.contains(k) {
                            let j = choose|j: int| 0 <= j < more.len() && more[j] == k;
                            if j < all.len() {
                                assert(all[j] == k);
                            }
                        }
                        if all.contains(k) {
                            let j = choose|j: int| 0 <= j < all.len() && all[j] == k;
                            assert(more[j] == k);
                        }
                        assert(more[all.len() as int] == name@);
                    }
                    assert(self@.dom() =~= before@.insert(name@, now).dom());
                    assert forall|k: Seq<char>| self@.contains_key(k) implies #[trigger] self@[k]
                        == before@.insert(name@, now)[k] by {
                        let j = more.index_of(k);
                        assert(0 <= j < more.len() && more[j] == k);
                        if k != name@ {
                            let i = all.index_of(k);
                            assert(0 <= i < all.len() && all[i] == k);
                            assert(more[i] == k);
                            assert(i == j);
                        }
                    }
                    assert(self@ =~= before@.insert(name@, now));
                }
                true
            },
        }
    }

    /// Forgets a name.
    pub fn forget(&mut self, name: &str)
        requires
            old(self).wf(),
        ensures
            final(self).wf(),
            final(self)@ == old(self)@.remove(name@),
    {
        let ghost before = *self;
        let ghost all = texts(self.names@);
        match self.find(name) {
            Some(i) => {
                self.names.remove(i);
                self.times.remove(i);
                proof {
                    let less = texts(self.names@);
                    assert(less =~= all.remove(i as int));
                    assert forall|a: int, b: int|
                        0 <= a < less.len() && 0 <= b < less.len() && a != b implies less[a]
                        != less[b] by {
                        let x = if a < i {
                            a
                        } else {
                            a + 1
                        };
                        let y = if b < i {
                            b
                        } else {
                            b + 1
                        };
                        assert(all[x] != all[y]);
                    }
                    assert forall|k: Seq<char>| #[trigger] less.contains(k) <==> all.contains(k) && k
                        != name@ by {
                        if less.contains(k) {
                            let j = choose|j: int| 0 <= j < less.len() && less[j] == k;
                            let x = if j < i {
                                j
                            } else {
                                j + 1
                            };
                            assert(all[x] == k);
                            assert(all[x] != all[i as int]);
                        }
                        if all.contains(k) && k != name@ {
                            let j = choose|j: int| 0 <= j < all.len() && all[j] == k;
                            let x = if j < i {
                                j
                            } else {
                                j - 1
                            };
                            assert(less[x] == k);
                        }
                    }
                    assert(self@.dom() =~= before@.remove(name@).dom());
                    assert forall|k: Seq<char>| self@.contains_key(k) implies #[trigger] self@[k]
                        == before@.remove(name@)[k] by {
                        let j = less.index_of(k);
                        assert(0 <= j < less.len() && less[j] == k);
                        let m = all.index_of(k);
                        assert(0 <= m < all.len() && all[m] == k);
                        let x = if j < i {
                            j
                        } else {
                            j + 1
                        };
                        assert(all[x] == k);
                        assert(x == m);
                    }
                    assert(self@ =~= before@.remove(name@));
                }
            },
            None => {
                assert(self@ =~= before@.remove(name@));
            },
        }
    }
}

/// A report that has to be made always is, and so is the first report on a thing.
pub proof fn forced_and_first_reports_are_made(
    last: Map<Seq<char>, u128>,
    name: Seq<char>,
    now: u128,
    force: bool,
)
    requires
        force || !last.contains_key(name),
    ensures
        report_due(last, name, now, force),
{
}

/// Two reports on a thing between which nothing forces one, and nothing forgets it, are at least
/// the least time apart.
pub proof fn reports_are_spaced(last: Map<Seq<char>, u128>, name: Seq<char>, then: u128, now: u128)
    requires
        report_due(last.insert(name, then), name, now, false),
    ensures
        now >= then + REPORT_NANOS,
{
}

} // verus!
