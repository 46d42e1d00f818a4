use vstd::prelude::*;

use crate::bytes::{bytes_equal, copy_range};

verus! {

/// The outcome of pinging a bulb: whether it is alive, and its id.
pub struct Answer {
    result: bool,
    id: Vec<u8>,
}

impl View for Answer {
    type V = (bool, Seq<u8>);

    closed spec fn view(&self) -> (bool, Seq<u8>) {
        (self.result, self.id@)
    }
}

/// Number of failed pings among `pings`.
pub open spec fn failures(pings: Seq<bool>) -> nat
    decreases pings.len(),
{
    if pings.len() == 0 {
        0
    } else {
        failures(pings.drop_last()) + if pings.last() { 0nat } else { 1nat }
    }
}

/// A bulb counts as alive when at most two of its pings failed.
pub open spec fn alive_after(pings: Seq<bool>) -> bool {
    failures(pings) <= 2
}

impl Answer {
    /// The answer for bulb `id` given the outcome of each ping (`true`: it came back).
    pub fn from_pings(id: Vec<u8>, pings: &[bool]) -> (a: Answer)
        ensures
            a@ == (alive_after(pings@), id@),
    {
        let mut failed: usize = 0;
        let n = pings.len();
        for i in 0..n
            invariant
                n == pings@.len(),
                failed == failures(pings@.take(i as int)),
                failed <= i,
        {
            assert(pings@.take(i + 1).drop_last() =~= pings@.take(i as int));
            if !pings[i] {
                failed = failed + 1;
            }
        }
        assert(pings@.take(n as int) =~= pings@);
        Answer { id: id, result: failed <= 2 }
    }

    /// Whether the bulb is alive.
    pub fn result(&self) -> (r: bool)
        ensures
            r == self@.0,
    {
        self.result
    }

    /// The bulb's id.
    pub fn id(&self) -> (r: &Vec<u8>)
        ensures
            r@ == self@.1,
    {
        &self.id
    }
}

/// The known bulbs, each under its id, in the order they were found; an id
/// occurs at most once.
///
/// The bulbs are held as a vector of (id, bulb) pairs rather than in a hash
/// map keyed by the id string: vstd specifies `HashMap` only for key types
/// whose hashing and equality it models (`obeys_key_model`), which it grants
/// to primitive keys and not to strings or byte vectors, so a string-keyed
/// map would say nothing provable about its contents.  What the map gave for
/// free, that no id occurs twice, is this type's invariant.
pub struct BulbRegistry<V> {
    entries: Vec<(Vec<u8>, V)>,
}

/// Entries with their ids taken by view.
pub open spec fn entries_view<V>(e: Seq<(Vec<u8>, V)>) -> Seq<(Seq<u8>, V)> {
    e.map_values(|p: (Vec<u8>, V)| (p.0@, p.1))
}

/// No id occurs twice.
pub open spec fn unique_ids<V>(s: Seq<(Seq<u8>, V)>) -> bool {
    forall|i: int, j: int| 0 <= i < s.len() && 0 <= j < s.len() && i != j ==> #[trigger] s[i].0 != #[trigger] s[j].0
}

/// Whether `id` is among the entries.
pub open spec fn has_id<V>(s: Seq<(Seq<u8>, V)>, id: Seq<u8>) -> bool {
    exists|i: int| 0 <= i < s.len() && #[trigger] s[i].0 == id
}

/// Whether some answer declares bulb `id` dead.
pub open spec fn declared_dead(answers: Seq<(bool, Seq<u8>)>, id: Seq<u8>) -> bool {
    exists|i: int| 0 <= i < answers.len() && !answers[i].0 && #[trigger] answers[i].1 == id
}

/// Whether some answer is negative.
pub open spec fn any_dead(answers: Seq<(bool, Seq<u8>)>) -> bool {
    exists|i: int| 0 <= i < answers.len() && !#[trigger] answers[i].0
}

/// Keeps the entries whose bulb no answer declares dead.
pub open spec fn is_live<V>(answers: Seq<(bool, Seq<u8>)>) -> spec_fn((Seq<u8>, V)) -> bool {
    |e: (Seq<u8>, V)| !declared_dead(answers, e.0)
}

/// The entries of `s` whose bulb no answer declares dead, in order.
pub open spec fn live_entries<V>(s: Seq<(Seq<u8>, V)>, answers: Seq<(bool, Seq<u8>)>) -> Seq<(Seq<u8>, V)> {
    s.filter(is_live(answers))
}

/// Answers taken by view.
pub open spec fn answers_view(a: Seq<Answer>) -> Seq<(bool, Seq<u8>)> {
    a.map_values(|x: Answer| x@)
}

impl<V> View for BulbRegistry<V> {
    type V = Seq<(Seq<u8>, V)>;

    closed spec fn view(&self) -> Seq<(Seq<u8>, V)> {
        entries_view(self.entries@)
    }
}

impl<V> BulbRegistry<V> {
    #[verifier::type_invariant]
    closed spec fn ids_unique(self) -> bool {
        unique_ids(entries_view(self.entries@))
    }

    /// An empty registry.
    pub fn new() -> (r: Self)
        ensures
            r@ == Seq::<(Seq<u8>, V)>::empty(),
            unique_ids(r@),
    {
        let r = BulbRegistry { entries: Vec::new() };
        assert(r@ =~= Seq::<(Seq<u8>, V)>::empty());
        r
    }

    /// Number of bulbs.
    pub fn len(&self) -> (n: usize)
        ensures
            n == self@.len(),
            unique_ids(self@),
    {
        proof {
            use_type_invariant(self);
        }
        self.entries.len()
    }

    /// Index of the entry with id `id`.
    fn position(&self, id: &[u8]) -> (r: Option<usize>)
        ensures
            r matches Some(i) ==> i < self@.len() && self@[i as int].0 == id@,
            r is None ==> !has_id(self@, id@),
    {
        let n = self.entries.len();
        for i in 0..n
            invariant
                n == self@.len(),
                n == self.entries@.len(),
                forall|j: int| 0 <= j < i ==> #[trigger] self@[j].0 != id@,
        {
            if bytes_equal(self.entries[i].0.as_slice(), id) {
                return Some(i);
            }
        }
        None
    }

    /// Whether a bulb with id `id` is known.
    pub fn contains(&self, id: &[u8]) -> (r: bool)
        ensures
            r == has_id(self@, id@),
            unique_ids(self@),
    {
        proof {
            use_type_invariant(self);
        }
        self.position(id).is_some()
    }

    /// The bulb with id `id`.
    pub fn get(&self, id: &[u8]) -> (r: Option<&V>)
        ensures
            r is None <==> !has_id(self@, id@),
            r matches Some(v) ==> exists|i: int| 0 <= i < self@.len() && #[trigger] self@[i] == (id@, *v),
    {
        match self.position(id) {
            Some(i) => {
                let v = &self.entries[i].1;
                assert(self@[i as int] == (id@, *v));
                Some(v)
            },
            None => None,
        }
    }

    /// The ids of the known bulbs, in order.
    pub fn ids(&self) -> (r: Vec<Vec<u8>>)
        ensures
            r@.len() == self@.len(),
            forall|i: int| 0 <= i < r@.len() ==> #[trigger] r@[i]@ == self@[i].0,
    {
        let n = self.entries.len();
        let mut r: Vec<Vec<u8>> = Vec::new();
        for i in 0..n
            invariant
                n == self@.len(),
                n == self.entries@.len(),
                r@.len() == i,
                forall|j: int| 0 <= j < i ==> #[trigger] r@[j]@ == self@[j].0,
        {
            let k = self.entries[i].0.as_slice();
            let c = copy_range(k, 0, k.len());
            assert(k@.subrange(0, k@.len() as int) =~= k@);
            r.push(c);
        }
        r
    }

    /// Adds bulb `v` under `id` unless a bulb with that id is known; returns
    /// whether it was added.
    pub fn insert_new(&mut self, id: Vec<u8>, v: V) -> (added: bool)
        ensures
            added == !has_id(old(self)@, id@),
            added ==> final(self)@ == old(self)@.push((id@, v)),
            !added ==> final(self)@ == old(self)@,
            unique_ids(final(self)@),
    {
        proof {
            use_type_invariant(&*self);
        }
        if self.contains(id.as_slice()) {
            return false;
        }
        let ghost k = id@;
        let ghost old_view = self@;
        let mut entries: Vec<(Vec<u8>, V)> = Vec::new();
        std::mem::swap(&mut entries, &mut self.entries);
        entries.push((id, v));
        assert(entries_view(entries@) =~= old_view.push((k, v)));
        assert(unique_ids(entries_view(entries@))) by {
            assert forall|i: int, j: int|
                0 <= i < entries_view(entries@).len() && 0 <= j < entries_view(entries@).len() && i != j
                implies #[trigger] entries_view(entries@)[i].0 != #[trigger] entries_view(entries@)[j].0 by {
                if i == old_view.len() as int {
                    assert(old_view[j].0 != k);
                } else if j == old_view.len() as int {
                    assert(old_view[i].0 != k);
                }
            }
        }
        self.entries = entries;
        true
    }

    /// Drops every bulb that some answer declares dead; returns whether any
    /// answer was negative.
    pub fn remove_dead(&mut self, answers: &[Answer]) -> (removed_any: bool)
        ensures
            removed_any == any_dead(answers_view(answers@)),
            final(self)@ == live_entries(old(self)@, answers_view(answers@)),
            unique_ids(final(self)@),
    {
        proof {
            use_type_invariant(&*self);
        }
        let ghost av = answers_view(answers@);
        let ghost keep = is_live::<V>(av);
        let ghost orig = self@;
        let mut rest: Vec<(Vec<u8>, V)> = Vec::new();
        std::mem::swap(&mut rest, &mut self.entries);
        let mut kept: Vec<(Vec<u8>, V)> = Vec::new();
        assert(orig.filter(keep) =~= entries_view(kept@) + entries_view(rest@).filter(keep)) by {
            reveal(Seq::filter);
            assert(entries_view(kept@) =~= Seq::<(Seq<u8>, V)>::empty());
        }
        while rest.len() > 0
            invariant
                av == answers_view(answers@),
                keep == is_live::<V>(av),
                orig.filter(keep) == entries_view(kept@) + entries_view(rest@).filter(keep),
                unique_ids(entries_view(kept@)),
                unique_ids(entries_view(rest@)),
                forall|i: int, j: int|
                    0 <= i < kept@.len() && 0 <= j < rest@.len() ==> #[trigger] entries_view(kept@)[i].0
                        != #[trigger] entries_view(rest@)[j].0,
            decreases rest@.len(),
        {
            let ghost rv = entries_view(rest@);
            let ghost kv = entries_view(kept@);
            let e = rest.remove(0);
            assert(rv =~= seq![rv[0]] + entries_view(rest@));
            proof {
                entries_view(rest@).lemma_filter_prepend(rv[0], keep);
            }
            let dead = self::is_declared_dead(answers, e.0.as_slice());
            if !dead {
                kept.push(e);
                assert(entries_view(kept@) =~= kv.push(rv[0]));
                assert(entries_view(kept@) + entries_view(rest@).filter(keep) =~= kv + (seq![rv[0]]
                    + entries_view(rest@).filter(keep)));
                assert(unique_ids(entries_view(kept@))) by {
                    assert forall|i: int, j: int|
                        0 <= i < entries_view(kept@).len() && 0 <= j < entries_view(kept@).len() && i != j
                        implies #[trigger] entries_view(kept@)[i].0 != #[trigger] entries_view(kept@)[j].0 by {
                        if i == kv.len() as int {
                            assert(kv[j].0 != rv[0].0);
                        } else if j == kv.len() as int {
                            assert(kv[i].0 != rv[0].0);
                        }
                    }
                }
                assert forall|i: int, j: int|
                    0 <= i < kept@.len() && 0 <= j < rest@.len() implies #[trigger] entries_view(kept@)[i].0
                        != #[trigger] entries_view(rest@)[j].0 by {
                    assert(entries_view(rest@)[j] == rv[j + 1]);
                    if i < kv.len() {
                        assert(kv[i].0 != rv[j + 1].0);
                    } else {
                        assert(rv[0].0 != rv[j + 1].0);
                    }
                }
            } else {
                assert(entries_view(kept@) + entries_view(rest@).filter(keep) =~= kv + (Seq::empty()
                    + entries_view(rest@).filter(keep)));
                assert forall|i: int, j: int|
                    0 <= i < kept@.len() && 0 <= j < rest@.len() implies #[trigger] entries_view(kept@)[i].0
                        != #[trigger] entries_view(rest@)[j].0 by {
                    assert(entries_view(rest@)[j] == rv[j + 1]);
                    assert(kv[i].0 != rv[j + 1].0);
                }
            }
            assert(unique_ids(entries_view(rest@))) by {
                assert forall|i: int, j: int|
                    0 <= i < entries_view(rest@).len() && 0 <= j < entries_view(rest@).len() && i != j
                    implies #[trigger] entries_view(rest@)[i].0 != #[trigger] entries_view(rest@)[j].0 by {
                    assert(rv[i + 1].0 != rv[j + 1].0);
                }
            }
        }
        assert(entries_view(rest@).filter(keep) =~= Seq::<(Seq<u8>, V)>::empty()) by {
            reveal(Seq::filter);
        }
        assert(orig.filter(keep) =~= entries_view(kept@));
        self.entries = kept;
        self::has_negative(answers)
    }
}

/// Whether some answer declares bulb `id` dead.
fn is_declared_dead(answers: &[Answer], id: &[u8]) -> (r: bool)
    ensures
        r == declared_dead(answers_view(answers@), id@),
{
    let n = answers.len();
    for i in 0..n
        invariant
            n == answers@.len(),
            forall|j: int| 0 <= j < i ==> !(!answers@[j]@.0 && #[trigger] answers@[j]@.1 == id@),
    {
        if !answers[i].result && bytes_equal(answers[i].id.as_slice(), id) {
            assert(answers_view(answers@)[i as int] == answers@[i as int]@);
            assert(answers_view(answers@)[i as int].1 == id@ && !answers_view(answers@)[i as int].0);
            assert(declared_dead(answers_view(answers@), id@));
            return true;
        }
    }
    assert forall|j: int| 0 <= j < answers_view(answers@).len() implies !(!answers_view(answers@)[j].0
        && #[trigger] answers_view(answers@)[j].1 == id@) by {
        assert(answers_view(answers@)[j] == answers@[j]@);
    }
    false
}

/// Whether some answer is negative.
fn has_negative(answers: &[Answer]) -> (r: bool)
    ensures
        r == any_dead(answers_view(answers@)),
{
    let n = answers.len();
    for i in 0..n
        invariant
            n == answers@.len(),
            forall|j: int| 0 <= j < i ==> #[trigger] answers@[j]@.0,
    {
        if !answers[i].result {
            assert(answers_view(answers@)[i as int] == answers@[i as int]@);
            assert(!answers_view(answers@)[i as int].0);
            assert(any_dead(answers_view(answers@)));
            return true;
        }
    }
    assert forall|j: int| 0 <= j < answers_view(answers@).len() implies #[trigger] answers_view(answers@)[j].0 by {
        assert(answers_view(answers@)[j] == answers@[j]@);
    }
    false
}

proof fn lemma_failures_bound(pings: Seq<bool>)
    ensures
        failures(pings) <= pings.len(),
    decreases pings.len(),
{
    if pings.len() > 0 {
        lemma_failures_bound(pings.drop_last());
    }
}

/// Counting failures: each ping adds one failure when it failed and none when
/// it came back, so `failures` is the number of failed pings, and failed and
/// returned pings together make up all of them.
pub proof fn lemma_failures_count(pings: Seq<bool>, b: bool)
    ensures
        failures(pings.push(b)) == failures(pings) + if b { 0int } else { 1int },
        failures(pings) == pings.filter(|x: bool| !x).len(),
        pings.filter(|x: bool| !x).len() + pings.filter(|x: bool| x).len() == pings.len(),
    decreases pings.len(),
{
    assert(pings.push(b).drop_last() =~= pings);
    reveal(Seq::filter);
    if pings.len() > 0 {
        lemma_failures_count(pings.drop_last(), pings.last());
    }
}

/// A bulb is alive exactly when at most two pings failed, that is when all
/// but at most two of its pings came back; of four pings, when at least two
/// came back.
pub proof fn lemma_alive_counts_every_ping(pings: Seq<bool>)
    ensures
        alive_after(pings) <==> pings.filter(|x: bool| !x).len() <= 2,
        alive_after(pings) <==> pings.filter(|x: bool| x).len() + 2 >= pings.len(),
        pings.len() == 4 ==> (alive_after(pings) <==> pings.filter(|x: bool| x).len() >= 2),
{
    lemma_failures_count(pings, true);
}

/// Of four pings, a bulb is alive exactly when at least two came back.
pub proof fn lemma_alive_two_of_four(pings: Seq<bool>)
    requires
        pings.len() == 4,
    ensures
        alive_after(pings) <==> pings.len() - failures(pings) >= 2,
{
    lemma_failures_bound(pings);
}

/// Adding a bulb makes its id known, so adding the same id again is refused
/// and leaves the registry as it was.
pub proof fn lemma_insert_then_known<V>(s: Seq<(Seq<u8>, V)>, id: Seq<u8>, v: V)
    ensures
        has_id(s.push((id, v)), id),
        unique_ids(s) && !has_id(s, id) ==> unique_ids(s.push((id, v))),
{
    assert(s.push((id, v))[s.len() as int].0 == id);
    if unique_ids(s) && !has_id(s, id) {
        assert forall|i: int, j: int|
            0 <= i < s.push((id, v)).len() && 0 <= j < s.push((id, v)).len() && i != j
            implies #[trigger] s.push((id, v))[i].0 != #[trigger] s.push((id, v))[j].0 by {
            if i == s.len() as int {
                assert(s[j].0 != id);
            } else if j == s.len() as int {
                assert(s[i].0 != id);
            }
        }
    }
}

/// After dropping the dead bulbs no bulb declared dead remains, and every
/// bulb not declared dead is still there.
pub proof fn lemma_remove_dead<V>(s: Seq<(Seq<u8>, V)>, answers: Seq<(bool, Seq<u8>)>)
    ensures
        forall|i: int|
            0 <= i < live_entries(s, answers).len() ==> !declared_dead(
                answers,
                #[trigger] live_entries(s, answers)[i].0,
            ),
        forall|i: int|
            0 <= i < s.len() && !declared_dead(answers, s[i].0) ==> #[trigger] live_entries(
                s,
                answers,
            ).contains(s[i]),
{
    broadcast use vstd::seq_lib::group_filter_ensures;

    let keep = is_live::<V>(answers);
    assert forall|i: int| 0 <= i < live_entries(s, answers).len() implies !declared_dead(
        answers,
        #[trigger] live_entries(s, answers)[i].0,
    ) by {
        assert(keep(s.filter(keep)[i]));
    }
    assert forall|i: int| 0 <= i < s.len() && !declared_dead(answers, s[i].0) implies #[trigger] live_entries(
        s,
        answers,
    ).contains(s[i]) by {
        assert(keep(s[i]));
    }
}

} // verus!
