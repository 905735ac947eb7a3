use vstd::prelude::*;

use crate::listener_registry::{lemma_retain_contains, retain_marked, retain_spec};

verus! {

/// A contributor as plain text: story, module and parameter name.
pub type ContributorView = (Seq<char>, Seq<char>, Seq<char>);

/// Who put a reference into a story's context.
#[derive(Clone, Debug, Eq, Hash)]
pub enum Contributor {
    ModuleContributor { story_id: String, module_id: String, parameter_name: String },
}

impl View for Contributor {
    type V = ContributorView;

    open spec fn view(&self) -> ContributorView {
        match self {
            Contributor::ModuleContributor { story_id, module_id, parameter_name } => (
                story_id@,
                module_id@,
                parameter_name@,
            ),
        }
    }
}

impl PartialEq for Contributor {
    fn eq(&self, o: &Contributor) -> bool {
        match (self, o) {
            (
                Contributor::ModuleContributor { story_id: s1, module_id: m1, parameter_name: p1 },
                Contributor::ModuleContributor { story_id: s2, module_id: m2, parameter_name: p2 },
            ) => *s1 == *s2 && *m1 == *m2 && *p1 == *p2,
        }
    }
}

impl vstd::std_specs::cmp::PartialEqSpecImpl for Contributor {
    open spec fn obeys_eq_spec() -> bool {
        true
    }

    open spec fn eq_spec(&self, o: &Contributor) -> bool {
        self@ == o@
    }
}

impl Contributor {
    pub fn module_new(story_id: &str, module_id: &str, parameter_name: &str) -> (r: Self)
        ensures
            r@ == (story_id@, module_id@, parameter_name@),
    {
        Contributor::ModuleContributor {
            story_id: story_id.to_owned(),
            module_id: module_id.to_owned(),
            parameter_name: parameter_name.to_owned(),
        }
    }

    /// A copy with the same text.
    pub fn duplicate(&self) -> (r: Self)
        ensures
            r@ == self@,
    {
        match self {
            Contributor::ModuleContributor { story_id, module_id, parameter_name } => {
                Contributor::ModuleContributor {
                    story_id: story_id.clone(),
                    module_id: module_id.clone(),
                    parameter_name: parameter_name.clone(),
                }
            },
        }
    }
}

/// The contributors named by a list of them, as a set.
pub open spec fn contributor_set(s: Seq<Contributor>) -> Set<ContributorView> {
    Set::new(|x: ContributorView| exists|i: int| 0 <= i < s.len() && s[i]@ == x)
}

/// A reference in a story's context, with the contributors that put it there.
#[derive(Clone, Debug)]
pub struct ContextEntity {
    reference: String,
    contributors: Vec<Contributor>,
}

impl View for ContextEntity {
    type V = (Seq<char>, Set<ContributorView>);

    closed spec fn view(&self) -> (Seq<char>, Set<ContributorView>) {
        (self.reference@, contributor_set(self.contributors@))
    }
}

impl PartialEq for ContextEntity {
    fn eq(&self, o: &ContextEntity) -> bool {
        let same_reference = self.reference == o.reference;
        let forward = ContextEntity::covers(&self.contributors, &o.contributors);
        let backward = ContextEntity::covers(&o.contributors, &self.contributors);
        proof {
            if forward && backward {
                assert(contributor_set(self.contributors@) =~= contributor_set(o.contributors@));
            }
        }
        same_reference && forward && backward
    }
}

impl vstd::std_specs::cmp::PartialEqSpecImpl for ContextEntity {
    open spec fn obeys_eq_spec() -> bool {
        true
    }

    open spec fn eq_spec(&self, o: &ContextEntity) -> bool {
        self@ == o@
    }
}

impl ContextEntity {
    pub fn new(reference: &str) -> (r: Self)
        ensures
            r@ == (reference@, Set::<ContributorView>::empty()),
    {
        let r = ContextEntity { reference: reference.to_owned(), contributors: Vec::new() };
        assert(contributor_set(r.contributors@) =~= Set::<ContributorView>::empty());
        r
    }

    pub fn reference(&self) -> (r: &String)
        ensures
            r@ == self@.0,
    {
        &self.reference
    }

    fn holds(list: &Vec<Contributor>, c: &Contributor) -> (r: bool)
        ensures
            r == contributor_set(list@).contains(c@),
    {
        let mut i: usize = 0;
        while i < list.len()
            invariant
                i <= list@.len(),
                forall|k: int| 0 <= k < i ==> list@[k]@ != c@,
            decreases list@.len() - i,
        {
            if list[i] == *c {
                return true;
            }
            i = i + 1;
        }
        false
    }

    fn covers(a: &Vec<Contributor>, b: &Vec<Contributor>) -> (r: bool)
        ensures
            r == contributor_set(a@).subset_of(contributor_set(b@)),
    {
        let mut i: usize = 0;
        while i < a.len()
            invariant
                i <= a@.len(),
                forall|k: int| 0 <= k < i ==> contributor_set(b@).contains(#[trigger] a@[k]@),
            decreases a@.len() - i,
        {
            if !ContextEntity::holds(b, &a[i]) {
                assert(contributor_set(a@).contains(a@[i as int]@));
                return false;
            }
            i = i + 1;
        }
        true
    }

    /// Adds `contributor`; one already there is not added again.
    pub fn add_contributor(&mut self, contributor: Contributor)
        ensures
            final(self)@ == (old(self)@.0, old(self)@.1.insert(contributor@)),
    {
        if !ContextEntity::holds(&self.contributors, &contributor) {
            let ghost before = self.contributors@;
            self.contributors.push(contributor);
            assert(self.contributors@[before.len() as int]@ == contributor@);
            assert forall|x: ContributorView| #[trigger] contributor_set(before).contains(x)
                implies contributor_set(self.contributors@).contains(x) by {
                let i = choose|i: int| 0 <= i < before.len() && before[i]@ == x;
                assert(self.contributors@[i] == before[i]);
            }
        }
        assert(contributor_set(self.contributors@) =~= contributor_set(old(self).contributors@).insert(contributor@));
    }
}

/// One contributor's claim on one reference.
pub type ContributionView = (ContributorView, Seq<char>);

struct Contribution {
    contributor: Contributor,
    reference: String,
}

impl View for Contribution {
    type V = ContributionView;

    closed spec fn view(&self) -> ContributionView {
        (self.contributor@, self.reference@)
    }
}

spec fn pairs(s: Seq<Contribution>) -> Set<ContributionView> {
    Set::new(|p: ContributionView| exists|i: int| 0 <= i < s.len() && s[i]@ == p)
}

proof fn lemma_pairs_step(s: Seq<Contribution>, j: int)
    requires
        0 <= j < s.len(),
    ensures
        pairs(s.take(j + 1)) == pairs(s.take(j)).insert(s[j]@),
{
    let long = s.take(j + 1);
    let short = s.take(j);
    assert forall|p: ContributionView| pairs(long).contains(p) <==> pairs(short).insert(
        s[j]@,
    ).contains(p) by {
        if pairs(long).contains(p) {
            let i = choose|i: int| 0 <= i < long.len() && long[i]@ == p;
            if i < j {
                assert(short[i]@ == p);
            }
        }
        if pairs(short).contains(p) {
            let i = choose|i: int| 0 <= i < short.len() && short[i]@ == p;
            assert(long[i]@ == p);
        }
        if p == s[j]@ {
            assert(long[j]@ == p);
        }
    }
    assert(pairs(long) =~= pairs(short).insert(s[j]@));
}

/// No contributor claims two references.
pub open spec fn one_reference_each(m: Set<ContributionView>) -> bool {
    forall|p: ContributionView, q: ContributionView|
        m.contains(p) && m.contains(q) && p.0 == q.0 ==> p == q
}

/// The claims left after `contributor` gave up its own and took `reference`.
pub open spec fn contributed(
    m: Set<ContributionView>,
    contributor: ContributorView,
    reference: Seq<char>,
) -> Set<ContributionView> {
    m.filter(|p: ContributionView| p.0 != contributor).insert((contributor, reference))
}

/// The claims left after a module of a story withdrew those of the named parameters.
pub open spec fn withdrawn(
    m: Set<ContributionView>,
    story_id: Seq<char>,
    module_id: Seq<char>,
    parameter_names: Set<Seq<char>>,
) -> Set<ContributionView> {
    m.filter(
        |p: ContributionView|
            !(p.0.0 == story_id && p.0.1 == module_id && parameter_names.contains(p.0.2)),
    )
}

/// The claims left after a module of a story withdrew all of its own.
pub open spec fn withdrawn_all(
    m: Set<ContributionView>,
    story_id: Seq<char>,
    module_id: Seq<char>,
) -> Set<ContributionView> {
    m.filter(|p: ContributionView| !(p.0.0 == story_id && p.0.1 == module_id))
}

/// The contributors that claim `reference`.
pub open spec fn contributors_of(m: Set<ContributionView>, reference: Seq<char>) -> Set<
    ContributorView,
> {
    Set::new(|c: ContributorView| m.contains((c, reference)))
}

spec fn name_view(n: Option<&String>) -> Option<Seq<char>> {
    match n {
        Some(s) => Some(s@),
        None => None,
    }
}

spec fn clear_pred(
    c: ContributorView,
    story_id: Seq<char>,
    module_id: Seq<char>,
    parameter_name: Option<Seq<char>>,
) -> bool {
    c.0 == story_id && c.1 == module_id && match parameter_name {
        Some(n) => c.2 == n,
        None => true,
    }
}

/// Some contributor claims `reference`.
pub open spec fn is_claimed(m: Set<ContributionView>, reference: Seq<char>) -> bool {
    exists|c: ContributorView| m.contains((c, reference))
}

/// `r` lists the entities of the claims `m`: one for each claimed reference, with exactly the
/// contributors that claim it.
pub open spec fn entities_of(r: Seq<ContextEntity>, m: Set<ContributionView>) -> bool {
    &&& forall|a: int, b: int| 0 <= a < b < r.len() ==> r[a]@.0 != r[b]@.0
    &&& forall|a: int| 0 <= a < r.len() ==> #[trigger] r[a]@.1 == contributors_of(m, r[a]@.0)
    &&& forall|a: int| 0 <= a < r.len() ==> is_claimed(m, #[trigger] r[a]@.0)
    &&& forall|p: ContributionView|
        m.contains(p) ==> exists|a: int| 0 <= a < r.len() && #[trigger] r[a]@.0 == p.1
}

proof fn lemma_entities_grow(
    old_r: Seq<ContextEntity>,
    r: Seq<ContextEntity>,
    k: int,
    before: Set<ContributionView>,
    x: ContributionView,
)
    requires
        entities_of(old_r, before),
        0 <= k < old_r.len(),
        old_r[k]@.0 == x.1,
        r.len() == old_r.len(),
        r[k]@ == (old_r[k]@.0, old_r[k]@.1.insert(x.0)),
        forall|a: int| 0 <= a < r.len() && a != k ==> r[a] == old_r[a],
    ensures
        entities_of(r, before.insert(x)),
{
    let after = before.insert(x);
    assert forall|a: int| 0 <= a < r.len() implies r[a]@.0 == old_r[a]@.0 by {
        if a != k {
            assert(r[a] == old_r[a]);
        }
    }
    assert forall|a: int| 0 <= a < r.len() implies #[trigger] r[a]@.1 == contributors_of(after, r[a]@.0) by {
        if a == k {
            assert(r[a]@.1 =~= contributors_of(after, r[a]@.0));
        } else {
            assert(r[a] == old_r[a]);
            assert(contributors_of(after, r[a]@.0) =~= contributors_of(before, r[a]@.0));
        }
    }
    assert forall|a: int| 0 <= a < r.len() implies is_claimed(after, #[trigger] r[a]@.0) by {
        let c = choose|c: ContributorView| before.contains((c, old_r[a]@.0));
        assert(after.contains((c, r[a]@.0)));
    }
    assert forall|p: ContributionView| after.contains(p) implies exists|a: int| 0 <= a < r.len() && #[trigger] r[a]@.0 == p.1 by {
        if p == x {
            assert(r[k]@.0 == p.1);
        } else {
            let a = choose|a: int| 0 <= a < old_r.len() && old_r[a]@.0 == p.1;
            assert(r[a]@.0 == p.1);
        }
    }
    assert forall|a: int, b: int| 0 <= a < b < r.len() implies r[a]@.0 != r[b]@.0 by {
        assert(r[a]@.0 == old_r[a]@.0);
        assert(r[b]@.0 == old_r[b]@.0);
    }
}

proof fn lemma_entities_add(
    old_r: Seq<ContextEntity>,
    e: ContextEntity,
    before: Set<ContributionView>,
    x: ContributionView,
)
    requires
        entities_of(old_r, before),
        forall|a: int| 0 <= a < old_r.len() ==> old_r[a]@.0 != x.1,
        e@ == (x.1, Set::<ContributorView>::empty().insert(x.0)),
    ensures
        entities_of(old_r.push(e), before.insert(x)),
{
    let after = before.insert(x);
    let r = old_r.push(e);
    let n = old_r.len() as int;
    assert forall|a: int| 0 <= a < r.len() implies #[trigger] r[a]@.1 == contributors_of(after, r[a]@.0) by {
        if a == n {
            assert forall|c: ContributorView| #[trigger] before.contains((c, x.1)) implies false by {
                let i = choose|i: int| 0 <= i < old_r.len() && #[trigger] old_r[i]@.0 == x.1;
            }
            assert(r[a]@.1 =~= contributors_of(after, r[a]@.0));
        } else {
            assert(r[a] == old_r[a]);
            assert(contributors_of(after, r[a]@.0) =~= contributors_of(before, r[a]@.0));
        }
    }
    assert forall|a: int| 0 <= a < r.len() implies is_claimed(after, #[trigger] r[a]@.0) by {
        if a == n {
            assert(after.contains((x.0, r[a]@.0)));
        } else {
            assert(r[a] == old_r[a]);
            let c = choose|c: ContributorView| before.contains((c, old_r[a]@.0));
            assert(after.contains((c, r[a]@.0)));
        }
    }
    assert forall|p: ContributionView| after.contains(p) implies exists|a: int| 0 <= a < r.len() && #[trigger] r[a]@.0 == p.1 by {
        if p == x {
            assert(r[n]@.0 == p.1);
        } else {
            let a = choose|a: int| 0 <= a < old_r.len() && old_r[a]@.0 == p.1;
            assert(r[a] == old_r[a]);
        }
    }
    assert forall|a: int, b: int| 0 <= a < b < r.len() implies r[a]@.0 != r[b]@.0 by {
        assert(r[a] == old_r[a]);
        if b < n {
            assert(r[b] == old_r[b]);
        }
    }
}

/// Adds one claim to the entities listed so far.
fn add_claim(r: &mut Vec<ContextEntity>, entry: &Contribution, Ghost(before): Ghost<Set<ContributionView>>)
    requires
        entities_of(old(r)@, before),
    ensures
        entities_of(final(r)@, before.insert(entry@)),
{
    let ghost old_r = r@;
    let mut k: usize = 0;
    while k < r.len()
        invariant
            r@ == old_r,
            k <= r@.len(),
            forall|a: int| 0 <= a < k ==> r@[a]@.0 != entry.reference@,
        ensures
            r@ == old_r,
            k <= r@.len(),
            forall|a: int| 0 <= a < k ==> r@[a]@.0 != entry.reference@,
            k < r@.len() ==> r@[k as int]@.0 == entry.reference@,
        decreases r@.len() - k,
    {
        if r[k].reference == entry.reference {
            break;
        }
        k = k + 1;
    }
    if k < r.len() {
        let mut ent = r.remove(k);
        ent.add_contributor(entry.contributor.duplicate());
        r.insert(k, ent);
        proof {
            lemma_entities_grow(old_r, r@, k as int, before, entry@);
        }
    } else {
        let mut ent = ContextEntity::new(entry.reference.as_str());
        ent.add_contributor(entry.contributor.duplicate());
        proof {
            lemma_entities_add(old_r, ent, before, entry@);
        }
        r.push(ent);
    }
}

/// The context of the stories: which contributor has put which entity reference there.
///
/// Each contributor claims at most one reference; a reference is in the context while at least
/// one contributor claims it.
pub struct StoryContextStore {
    contributions: Vec<Contribution>,
}

impl View for StoryContextStore {
    type V = Set<ContributionView>;

    closed spec fn view(&self) -> Set<ContributionView> {
        pairs(self.contributions@)
    }
}

impl StoryContextStore {
    pub fn new() -> (r: Self)
        ensures
            r@ == Set::<ContributionView>::empty(),
            one_reference_each(r@),
    {
        let r = StoryContextStore { contributions: Vec::new() };
        assert(r@ =~= Set::<ContributionView>::empty());
        r
    }

    /// Drops the claims of the contributors of `module_id` in `story_id` (only the one of
    /// `parameter_name`, where given).
    fn clear_matching(&mut self, story_id: &String, module_id: &String, parameter_name: Option<&String>)
        ensures
            final(self)@ == old(self)@.filter(
                |p: ContributionView|
                    !clear_pred(p.0, story_id@, module_id@, name_view(parameter_name)),
            ),
    {
        let ghost orig = self.contributions@;
        let ghost pn = name_view(parameter_name);
        let mut keep: Vec<bool> = Vec::new();
        let mut i: usize = 0;
        while i < self.contributions.len()
            invariant
                self.contributions@ == orig,
                pn == name_view(parameter_name),
                i <= orig.len(),
                keep@.len() == i,
                forall|k: int| 0 <= k < i ==> keep@[k] == !clear_pred(orig[k]@.0, story_id@, module_id@, pn),
            decreases orig.len() - i,
        {
            let m = match &self.contributions[i].contributor {
                Contributor::ModuleContributor { story_id: s, module_id: mo, parameter_name: p } => {
                    *s == *story_id && *mo == *module_id && match parameter_name {
                        Some(n) => *p == *n,
                        None => true,
                    }
                },
            };
            keep.push(!m);
            i = i + 1;
        }
        retain_marked(&mut self.contributions, &keep);
        let ghost target = pairs(orig).filter(
            |p: ContributionView| !clear_pred(p.0, story_id@, module_id@, pn),
        );
        assert forall|p: ContributionView| pairs(self.contributions@).contains(p) <==> target.contains(p) by {
            let cur = self.contributions@;
            if pairs(cur).contains(p) {
                let k = choose|k: int| 0 <= k < cur.len() && cur[k]@ == p;
                let e = cur[k];
                assert(cur.contains(e));
                lemma_retain_contains(orig, keep@, e);
                let i = choose|i: int| 0 <= i < orig.len() && orig[i] == e && keep@[i];
                assert(orig[i]@ == p);
                assert(pairs(orig).contains(p));
            }
            if target.contains(p) {
                assert(pairs(orig).contains(p));
                let i = choose|i: int| 0 <= i < orig.len() && orig[i]@ == p;
                assert(keep@[i]);
                lemma_retain_contains(orig, keep@, orig[i]);
                assert(cur.contains(orig[i]));
                let k = choose|k: int| 0 <= k < cur.len() && cur[k] == orig[i];
                assert(cur[k]@ == p);
            }
        }
        assert(pairs(self.contributions@) =~= target);
    }

    fn clear_contributor(&mut self, contributor: &Contributor)
        ensures
            final(self)@ == old(self)@.filter(|p: ContributionView| p.0 != contributor@),
    {
        match contributor {
            Contributor::ModuleContributor { story_id, module_id, parameter_name } => {
                self.clear_matching(story_id, module_id, Some(parameter_name));
            },
        }
        assert(self@ =~= old(self)@.filter(|p: ContributionView| p.0 != contributor@));
    }

    /// `parameter_name` of `module_id` in `story_id` now claims `reference`, and no longer the
    /// reference it claimed before, if any.
    pub fn contribute(&mut self, story_id: &str, module_id: &str, parameter_name: &str, reference: &str)
        ensures
            final(self)@ == contributed(old(self)@, (story_id@, module_id@, parameter_name@), reference@),
            one_reference_each(old(self)@) ==> one_reference_each(final(self)@),
    {
        let contributor = Contributor::module_new(story_id, module_id, parameter_name);
        self.clear_contributor(&contributor);
        let entry = Contribution { contributor, reference: reference.to_owned() };
        let ghost before = self.contributions@;
        self.contributions.push(entry);
        assert(self.contributions@.take(before.len() as int) =~= before);
        assert(self.contributions@ =~= self.contributions@.take(before.len() + 1int));
        proof {
            lemma_pairs_step(self.contributions@, before.len() as int);
        }
    }

    /// The named parameters of `module_id` in `story_id` give up their claims.
    pub fn withdraw(&mut self, story_id: &str, module_id: &str, parameter_names: Vec<&str>)
        ensures
            final(self)@ == withdrawn(
                old(self)@,
                story_id@,
                module_id@,
                Set::new(|n: Seq<char>| exists|k: int| 0 <= k < parameter_names@.len() && parameter_names@[k]@ == n),
            ),
            one_reference_each(old(self)@) ==> one_reference_each(final(self)@),
    {
        let ghost orig = self@;
        let mut k: usize = 0;
        while k < parameter_names.len()
            invariant
                k <= parameter_names@.len(),
                self@ == withdrawn(
                    orig,
                    story_id@,
                    module_id@,
                    Set::new(|n: Seq<char>| exists|j: int| 0 <= j < k && parameter_names@[j]@ == n),
                ),
            decreases parameter_names@.len() - k,
        {
            let c = Contributor::module_new(story_id, module_id, parameter_names[k]);
            self.clear_contributor(&c);
            k = k + 1;
            assert(self@ =~= withdrawn(
                orig,
                story_id@,
                module_id@,
                Set::new(|n: Seq<char>| exists|j: int| 0 <= j < k && parameter_names@[j]@ == n),
            ));
        }
    }

    /// The entities of the context: one for each claimed reference, with the contributors that
    /// claim it.
    pub fn current(&self) -> (r: Vec<ContextEntity>)
        ensures
            entities_of(r@, self@),
    {
        let ghost orig = self.contributions@;
        let mut r: Vec<ContextEntity> = Vec::new();
        let mut j: usize = 0;
        assert(pairs(orig.take(0)) =~= Set::<ContributionView>::empty());
        while j < self.contributions.len()
            invariant
                self.contributions@ == orig,
                j <= orig.len(),
                entities_of(r@, pairs(orig.take(j as int))),
            decreases orig.len() - j,
        {
            proof {
                lemma_pairs_step(orig, j as int);
            }
            add_claim(&mut r, &self.contributions[j], Ghost(pairs(orig.take(j as int))));
            j = j + 1;
        }
        assert(orig.take(orig.len() as int) =~= orig);
        r
    }

    /// Every parameter of `module_id` in `story_id` gives up its claim.
    pub fn withdraw_all(&mut self, story_id: &str, module_id: &str)
        ensures
            final(self)@ == withdrawn_all(old(self)@, story_id@, module_id@),
            one_reference_each(old(self)@) ==> one_reference_each(final(self)@),
    {
        let s = story_id.to_owned();
        let m = module_id.to_owned();
        self.clear_matching(&s, &m, None);
        assert(self@ =~= withdrawn_all(old(self)@, story_id@, module_id@));
    }
}

} // verus!
