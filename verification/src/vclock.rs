//! Vector clocks: per-record causality stamps.
//!
//! A vector clock maps a client id to the last counter value seen from that
//! client; a component that was never set reads as zero. Clock values are
//! minted by the store's global change counter, which only grows, so a
//! client's own component never decreases across its local mutations.

use vstd::prelude::*;
use crate::text::str_eq;

verus! {

/// A counter value minted by the global change counter.
pub type Counter = u64;

/// A vector clock: for each client id, the last counter value seen from it.
#[derive(Debug, Clone, PartialEq)]
pub struct VClock {
    pub entries: Vec<(String, u64)>,
}

/// The component of `entries` for `client`: the first entry with that id,
/// or zero when there is none.
pub open spec fn clock_get(entries: Seq<(Seq<char>, u64)>, client: Seq<char>) -> u64
    decreases entries.len(),
{
    if entries.len() == 0 {
        0
    } else if entries[0].0 == client {
        entries[0].1
    } else {
        clock_get(entries.drop_first(), client)
    }
}

impl View for VClock {
    type V = Seq<(Seq<char>, u64)>;

    open spec fn view(&self) -> Seq<(Seq<char>, u64)> {
        self.entries@.map_values(|e: (String, u64)| (e.0@, e.1))
    }
}

proof fn lemma_clock_get_update(
    es: Seq<(Seq<char>, u64)>,
    i: int,
    client: Seq<char>,
    counter: u64,
    c: Seq<char>,
)
    requires
        0 <= i < es.len(),
        es[i].0 == client,
        forall|j: int| 0 <= j < i ==> es[j].0 != client,
    ensures
        clock_get(es.update(i, (client, counter)), c) == if c == client {
            counter
        } else {
            clock_get(es, c)
        },
    decreases i,
{
    let es2 = es.update(i, (client, counter));
    if i == 0 {
        assert(es2.drop_first() =~= es.drop_first());
    } else {
        assert(es2[0] == es[0]);
        assert(es[0].0 != client);
        assert(es.drop_first()[i - 1].0 == client);
        assert(forall|j: int| 0 <= j < i - 1 ==> es.drop_first()[j].0 != client);
        lemma_clock_get_update(es.drop_first(), i - 1, client, counter, c);
        assert(es2.drop_first() =~= es.drop_first().update(i - 1, (client, counter)));
    }
}

proof fn lemma_clock_get_push(
    es: Seq<(Seq<char>, u64)>,
    client: Seq<char>,
    counter: u64,
    c: Seq<char>,
)
    requires
        forall|j: int| 0 <= j < es.len() ==> es[j].0 != client,
    ensures
        clock_get(es.push((client, counter)), c) == if c == client {
            counter
        } else {
            clock_get(es, c)
        },
    decreases es.len(),
{
    let es2 = es.push((client, counter));
    if es.len() == 0 {
        assert(es2[0] == (client, counter));
        assert(es2.drop_first() =~= Seq::<(Seq<char>, u64)>::empty());
        assert(clock_get(Seq::<(Seq<char>, u64)>::empty(), c) == 0);
    } else {
        assert(es2[0] == es[0]);
        assert forall|j: int| 0 <= j < es.drop_first().len() implies es.drop_first()[j].0
            != client by {
            assert(es.drop_first()[j] == es[j + 1]);
        }
        lemma_clock_get_push(es.drop_first(), client, counter, c);
        assert(es2.drop_first() =~= es.drop_first().push((client, counter)));
    }
}

/// Copy a clock's entries, element by element.
fn clone_entries(entries: &Vec<(String, u64)>) -> (r: Vec<(String, u64)>)
    ensures
        r@ == entries@,
{
    let mut r: Vec<(String, u64)> = Vec::new();
    let n = entries.len();
    let mut i: usize = 0;
    while i < n
        invariant
            n == entries.len(),
            0 <= i <= n,
            r@ == entries@.take(i as int),
        decreases n - i,
    {
        r.push((entries[i].0.clone(), entries[i].1));
        proof {
            assert(r@ =~= entries@.take(i as int + 1));
        }
        i += 1;
    }
    proof {
        assert(entries@.take(n as int) =~= entries@);
    }
    r
}

impl VClock {
    /// The clock's component for `client`; zero when the client never
    /// stamped this record.
    pub open spec fn get_spec(self, client: Seq<char>) -> u64 {
        clock_get(self@, client)
    }

    /// A clock with the single component `client -> counter`.
    pub fn new(client: String, counter: u64) -> (r: VClock)
        ensures
            forall|c: Seq<char>|
                r.get_spec(c) == if c == client@ {
                    counter
                } else {
                    0u64
                },
    {
        let mut entries: Vec<(String, u64)> = Vec::new();
        entries.push((client, counter));
        let r = VClock { entries };
        proof {
            assert forall|c: Seq<char>|
                r.get_spec(c) == if c == client@ {
                    counter
                } else {
                    0u64
                } by {
                assert(r@ =~= Seq::<(Seq<char>, u64)>::empty().push((client@, counter)));
                lemma_clock_get_push(Seq::<(Seq<char>, u64)>::empty(), client@, counter, c);
            }
        }
        r
    }

    /// A clock equal to `self` except that the component for `client` is
    /// set to `counter`.
    pub fn apply(&self, client: String, counter: u64) -> (r: VClock)
        ensures
            forall|c: Seq<char>|
                r.get_spec(c) == if c == client@ {
                    counter
                } else {
                    self.get_spec(c)
                },
    {
        let ghost orig = self@;
        let mut entries = clone_entries(&self.entries);
        let n = entries.len();
        let mut i: usize = 0;
        while i < n
            invariant
                n == entries.len(),
                0 <= i <= n,
                orig == self@,
                orig == entries@.map_values(|e: (String, u64)| (e.0@, e.1)),
                forall|j: int| 0 <= j < i ==> orig[j].0 != client@,
            decreases n - i,
        {
            if str_eq(entries[i].0.as_str(), client.as_str()) {
                let key = entries[i].0.clone();
                proof {
                    assert(orig[i as int].0 == client@);
                }
                entries[i] = (key, counter);
                let r = VClock { entries };
                proof {
                    assert(r@ =~= orig.update(i as int, (client@, counter)));
                    assert forall|c: Seq<char>|
                        r.get_spec(c) == if c == client@ {
                            counter
                        } else {
                            self.get_spec(c)
                        } by {
                        lemma_clock_get_update(orig, i as int, client@, counter, c);
                        assert(r@ == orig.update(i as int, (client@, counter)));
                    }
                }
                return r;
            }
            i += 1;
        }
        entries.push((client, counter));
        let r = VClock { entries };
        proof {
            assert(r@ =~= orig.push((client@, counter)));
            assert forall|c: Seq<char>|
                r.get_spec(c) == if c == client@ {
                    counter
                } else {
                    clock_get(orig, c)
                } by {
                lemma_clock_get_push(orig, client@, counter, c);
            }
        }
        r
    }

    /// An equal copy of the clock.
    pub fn duplicate(&self) -> (r: VClock)
        ensures
            r@ == self@,
    {
        VClock { entries: clone_entries(&self.entries) }
    }

    /// Read the clock's component for `client`.
    pub fn get(&self, client: &str) -> (r: u64)
        ensures
            r == self.get_spec(client@),
    {
        let n = self.entries.len();
        let mut i: usize = 0;
        proof {
            assert(self@.skip(0) =~= self@);
        }
        while i < n
            invariant
                n == self.entries.len(),
                0 <= i <= n,
                self@.len() == n,
                clock_get(self@, client@) == clock_get(self@.skip(i as int), client@),
                forall|j: int| 0 <= j < self@.len()
                    ==> #[trigger] self@[j] == (self.entries@[j].0@, self.entries@[j].1),
            decreases n - i,
        {
            proof {
                assert(self@.skip(i as int)[0] == self@[i as int]);
            }
            if str_eq(self.entries[i].0.as_str(), client) {
                return self.entries[i].1;
            }
            proof {
                assert(self@.skip(i as int).drop_first() =~= self@.skip(i as int + 1));
            }
            i += 1;
        }
        proof {
            assert(self@.skip(i as int).len() == 0);
        }
        0
    }
}

} // verus!
