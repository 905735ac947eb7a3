use vstd::prelude::*;

verus! {

/// Keeps the elements of `s` whose delivery outcome in `ok` (same index) is a success,
/// in their order.
pub open spec fn retain_spec<T>(s: Seq<T>, ok: Seq<bool>) -> Seq<T>
    decreases s.len(),
{
    if s.len() == 0 {
        Seq::empty()
    } else {
        let rest = retain_spec(s.drop_last(), ok);
        if ok[s.len() - 1] {
            rest.push(s.last())
        } else {
            rest
        }
    }
}

/// A listener survives a delivery pass exactly when it was there and its send succeeded.
pub proof fn lemma_retain_contains<T>(s: Seq<T>, ok: Seq<bool>, x: T)
    requires
        ok.len() >= s.len(),
    ensures
        retain_spec(s, ok).contains(x) <==> exists|i: int| 0 <= i < s.len() && s[i] == x && ok[i],
    decreases s.len(),
{
    if s.len() > 0 {
        let n = s.len() - 1;
        let d = s.drop_last();
        lemma_retain_contains(d, ok, x);
        let rest = retain_spec(d, ok);
        if exists|i: int| 0 <= i < s.len() && s[i] == x && ok[i] {
            let i = choose|i: int| 0 <= i < s.len() && s[i] == x && ok[i];
            if i < n {
                assert(d[i] == x);
                let k = choose|k: int| 0 <= k < rest.len() && rest[k] == x;
                if ok[n] {
                    assert(rest.push(s.last())[k] == x);
                }
            } else {
                assert(retain_spec(s, ok) == rest.push(s.last()));
                assert(retain_spec(s, ok)[rest.len() as int] == x);
            }
        }
        if retain_spec(s, ok).contains(x) {
            if ok[n] && x == s.last() {
                assert(s[n] == x);
            } else {
                let k = choose|k: int| 0 <= k < retain_spec(s, ok).len() && retain_spec(s, ok)[k] == x;
                if ok[n] {
                    assert(k < rest.len());
                    assert(rest[k] == x);
                }
                assert(rest.contains(x));
                let i = choose|i: int| 0 <= i < d.len() && d[i] == x && ok[i];
                assert(s[i] == x);
            }
        }
    }
}

/// Pruning adds nobody.
pub proof fn lemma_retain_subset<T>(s: Seq<T>, ok: Seq<bool>, x: T)
    ensures
        retain_spec(s, ok).contains(x) ==> s.contains(x),
    decreases s.len(),
{
    if s.len() > 0 {
        let d = s.drop_last();
        lemma_retain_subset(d, ok, x);
        let rest = retain_spec(d, ok);
        if retain_spec(s, ok).contains(x) && !(ok[s.len() - 1] && x == s.last()) {
            let k = choose|k: int| 0 <= k < retain_spec(s, ok).len() && retain_spec(s, ok)[k] == x;
            if ok[s.len() - 1] {
                assert(rest[k] == x);
            }
            assert(rest.contains(x));
            let i = choose|i: int| 0 <= i < d.len() && d[i] == x;
            assert(s[i] == x);
        } else if retain_spec(s, ok).contains(x) {
            assert(s[s.len() - 1] == x);
        }
    }
}

/// Pruning never lengthens the registry.
pub proof fn lemma_retain_len<T>(s: Seq<T>, ok: Seq<bool>)
    ensures
        retain_spec(s, ok).len() <= s.len(),
    decreases s.len(),
{
    if s.len() > 0 {
        lemma_retain_len(s.drop_last(), ok);
    }
}

/// Every outcome a failure: everybody is dropped.
pub proof fn lemma_retain_none<T>(s: Seq<T>, ok: Seq<bool>)
    requires
        ok.len() >= s.len(),
        forall|i: int| 0 <= i < s.len() ==> !ok[i],
    ensures
        retain_spec(s, ok) == Seq::<T>::empty(),
    decreases s.len(),
{
    if s.len() > 0 {
        lemma_retain_none(s.drop_last(), ok);
    }
}

proof fn lemma_retain_step<T>(s: Seq<T>, ok: Seq<bool>, j: int)
    requires
        0 <= j < s.len(),
        ok.len() >= s.len(),
    ensures
        retain_spec(s.take(j + 1), ok) == if ok[j] {
            retain_spec(s.take(j), ok).push(s[j])
        } else {
            retain_spec(s.take(j), ok)
        },
{
    assert(s.take(j + 1).drop_last() =~= s.take(j));
}

/// Keeps, in their order, the elements of `v` whose mark in `keep` is set.
pub fn retain_marked<T>(v: &mut Vec<T>, keep: &Vec<bool>)
    requires
        keep@.len() == old(v)@.len(),
    ensures
        final(v)@ == retain_spec(old(v)@, keep@),
{
    let ghost orig = v@;
    let n = v.len();
    let mut i: usize = 0;
    let mut j: usize = 0;
    while j < n
        invariant
            n == orig.len(),
            keep@.len() == n,
            j <= n,
            i <= j,
            i == retain_spec(orig.take(j as int), keep@).len(),
            v@ == retain_spec(orig.take(j as int), keep@) + orig.skip(
                j as int,
            ),
        decreases n - j,
    {
        proof {
            lemma_retain_step(orig, keep@, j as int);
            lemma_retain_len(orig.take(j as int), keep@);
        }
        let ghost kept = retain_spec(orig.take(j as int), keep@);
        assert(v@[i as int] == orig[j as int]);
        if keep[j] {
            i = i + 1;
            assert(v@ =~= kept.push(orig[j as int]) + orig.skip(j + 1));
        } else {
            v.remove(i);
            assert(v@ =~= kept + orig.skip(j + 1));
        }
        j = j + 1;
    }
    assert(orig.take(n as int) =~= orig);
    assert(v@ =~= retain_spec(orig, keep@));
}

/// An ordered collection of outbound subscriber handles with send-and-prune semantics.
///
/// Delivery is done by the owner of the handles: it takes a snapshot with `items`, attempts a
/// send to each handle in order, and hands the outcomes back to `retain_delivered`, which keeps
/// exactly the handles whose send succeeded.
pub struct ListenerRegistry<T> {
    listeners: Vec<T>,
}

impl<T> View for ListenerRegistry<T> {
    type V = Seq<T>;

    closed spec fn view(&self) -> Seq<T> {
        self.listeners@
    }
}

impl<T> ListenerRegistry<T> {
    pub fn new() -> (r: Self)
        ensures
            r@ == Seq::<T>::empty(),
    {
        ListenerRegistry { listeners: Vec::new() }
    }

    /// Registers `listener` after those already there; an equal handle is registered again.
    pub fn push(&mut self, listener: T)
        ensures
            final(self)@ == old(self)@.push(listener),
    {
        self.listeners.push(listener);
    }

    pub fn len(&self) -> (r: usize)
        ensures
            r == self@.len(),
    {
        self.listeners.len()
    }

    pub fn is_empty(&self) -> (r: bool)
        ensures
            r == (self@.len() == 0),
    {
        self.listeners.len() == 0
    }

    /// The registered handles, in insertion order.
    pub fn items(&self) -> (r: &Vec<T>)
        ensures
            r@ == self@,
    {
        &self.listeners
    }

    /// Drops each listener whose send failed (`delivered[i]` is false for the `i`-th one) and
    /// keeps the others in their order.
    pub fn retain_delivered(&mut self, delivered: &Vec<bool>)
        requires
            delivered@.len() == old(self)@.len(),
        ensures
            final(self)@ == retain_spec(old(self)@, delivered@),
    {
        retain_marked(&mut self.listeners, delivered);
    }
}

} // verus!
