//! Readiness checks: the registry of checks, keyed by their `SCREAMING_SNAKE_CASE` types.
use crate::text::{chars_of, str_eq, string_of};
use vstd::prelude::*;

verus! {

/// A check that reports whether the server is ready to handle requests.
pub trait ReadinessCheck {
    /// Returns the check's type.
    ///
    /// The type must be `SCREAMING_SNAKE_CASE`.
    fn type_(&self) -> &str;

    /// Performs the check, returning its result.
    fn result(&self) -> ReadinessCheckResult;
}

/// The result of a readiness check.
#[derive(Debug, Clone, PartialEq, Eq, Structural, Hash)]
pub struct ReadinessCheckResult {
    successful: bool,
}

/// The first stage of building a [`ReadinessCheckResult`]: the success is still to be set.
pub struct ReadinessCheckResultBuilder;

/// The last stage of building a [`ReadinessCheckResult`].
pub struct ReadinessCheckResultComplete {
    successful: bool,
}

impl ReadinessCheckResultBuilder {
    /// Sets the success of the check.
    pub fn successful(self, successful: bool) -> (r: ReadinessCheckResultComplete)
        ensures
            r.spec_successful() == successful,
    {
        ReadinessCheckResultComplete { successful }
    }
}

impl ReadinessCheckResultComplete {
    /// The success set for the check.
    pub closed spec fn spec_successful(&self) -> bool {
        self.successful
    }

    /// The result.
    pub fn build(self) -> (r: ReadinessCheckResult)
        ensures
            r.spec_successful() == self.spec_successful(),
    {
        ReadinessCheckResult { successful: self.successful }
    }
}

impl ReadinessCheckResult {
    /// Starts building a result.
    pub fn builder() -> ReadinessCheckResultBuilder {
        ReadinessCheckResultBuilder
    }

    /// The success of the check.
    pub closed spec fn spec_successful(&self) -> bool {
        self.successful
    }

    /// The success of the check.
    pub fn successful(&self) -> (r: bool)
        ensures
            r == self.spec_successful(),
    {
        self.successful
    }
}

/// Whether a check type is `SCREAMING_SNAKE_CASE`: one or more of `A` to `Z` and `_`.
pub open spec fn is_check_type(t: Seq<char>) -> bool {
    &&& t.len() > 0
    &&& forall|i: int| 0 <= i < t.len() ==> ('A' <= #[trigger] t[i] <= 'Z' || t[i] == '_')
}

/// Whether a check type is `SCREAMING_SNAKE_CASE`.
pub fn is_valid_check_type(t: &str) -> (r: bool)
    ensures
        r == is_check_type(t@),
{
    let c = chars_of(t);
    if c.len() == 0 {
        return false;
    }
    let mut i: usize = 0;
    while i < c.len()
        invariant
            i <= c.len(),
            c@ == t@,
            forall|j: int| 0 <= j < i ==> ('A' <= #[trigger] c@[j] <= 'Z' || c@[j] == '_'),
        decreases c.len() - i,
    {
        let ch = c[i];
        if !(('A' <= ch && ch <= 'Z') || ch == '_') {
            return false;
        }
        i = i + 1;
    }
    true
}

/// The order of strings: character by character, a proper prefix first.
pub open spec fn text_lt(a: Seq<char>, b: Seq<char>) -> bool
    decreases a.len(),
{
    if a.len() == 0 {
        b.len() > 0
    } else if b.len() == 0 {
        false
    } else if a[0] != b[0] {
        (a[0] as int) < (b[0] as int)
    } else {
        text_lt(a.drop_first(), b.drop_first())
    }
}

proof fn lemma_text_irrefl(a: Seq<char>)
    ensures
        !text_lt(a, a),
    decreases a.len(),
{
    if a.len() > 0 {
        lemma_text_irrefl(a.drop_first());
    }
}

proof fn lemma_text_asym(a: Seq<char>, b: Seq<char>)
    ensures
        text_lt(a, b) ==> !text_lt(b, a),
    decreases a.len(),
{
    if a.len() > 0 && b.len() > 0 && a[0] == b[0] {
        lemma_text_asym(a.drop_first(), b.drop_first());
    }
}

proof fn lemma_text_total(a: Seq<char>, b: Seq<char>)
    ensures
        a != b ==> text_lt(a, b) || text_lt(b, a),
    decreases a.len(),
{
    if a.len() > 0 && b.len() > 0 && a[0] == b[0] {
        lemma_text_total(a.drop_first(), b.drop_first());
        if a.drop_first() == b.drop_first() {
            assert(a =~= seq![a[0]] + a.drop_first());
            assert(b =~= seq![b[0]] + b.drop_first());
        }
    } else if a.len() == 0 && b.len() == 0 {
        assert(a =~= b);
    } else if a.len() > 0 && b.len() > 0 {
        assert((a[0] as int) != (b[0] as int));
    }
}

proof fn lemma_text_trans(a: Seq<char>, b: Seq<char>, c: Seq<char>)
    ensures
        text_lt(a, b) && text_lt(b, c) ==> text_lt(a, c),
    decreases a.len(),
{
    if a.len() > 0 && b.len() > 0 && c.len() > 0 && a[0] == b[0] && b[0] == c[0] {
        lemma_text_trans(a.drop_first(), b.drop_first(), c.drop_first());
    }
}

/// The order of strings is a strict total order.
pub proof fn lemma_text_order(a: Seq<char>, b: Seq<char>, c: Seq<char>)
    ensures
        !text_lt(a, a),
        text_lt(a, b) ==> !text_lt(b, a),
        a != b ==> text_lt(a, b) || text_lt(b, a),
        text_lt(a, b) && text_lt(b, c) ==> text_lt(a, c),
{
    lemma_text_irrefl(a);
    lemma_text_asym(a, b);
    lemma_text_total(a, b);
    lemma_text_trans(a, b, c);
}

/// Whether `a` comes before `b` in the order of strings.
pub fn text_less(a: &str, b: &str) -> (r: bool)
    ensures
        r == text_lt(a@, b@),
{
    let n = a.unicode_len();
    let m = b.unicode_len();
    let mut i: usize = 0;
    assert(a@.skip(0) =~= a@ && b@.skip(0) =~= b@);
    while i < n && i < m
        invariant
            n == a@.len(),
            m == b@.len(),
            i <= n,
            i <= m,
            forall|j: int| 0 <= j < i ==> a@[j] == b@[j],
            text_lt(a@, b@) == text_lt(a@.skip(i as int), b@.skip(i as int)),
        decreases n - i,
    {
        let x = a.get_char(i);
        let y = b.get_char(i);
        assert(a@.skip(i as int)[0] == x && b@.skip(i as int)[0] == y);
        if x != y {
            return (x as u32) < (y as u32);
        }
        assert(a@.skip(i as int).drop_first() =~= a@.skip(i + 1));
        assert(b@.skip(i as int).drop_first() =~= b@.skip(i + 1));
        i = i + 1;
    }
    i < m
}

/// The types of the reported outcomes, in order.
pub open spec fn reported_types(r: Seq<ReadinessCheckMetadata>) -> Seq<Seq<char>> {
    r.map_values(|m: ReadinessCheckMetadata| m.type_@)
}

/// Whether position `i` is listed in `order`.
pub open spec fn lists(order: Seq<usize>, i: int) -> bool {
    exists|k: int| 0 <= k < order.len() && order[k] == i
}

/// Whether `successful` is the success of a result that `check.result()` can return.
pub open spec fn reports_outcome<C: ReadinessCheck>(check: &C, successful: bool) -> bool {
    exists|res: ReadinessCheckResult| #[trigger] call_ensures(C::result, (check,), res) && res.spec_successful() == successful
}

/// The type and outcome of one check run.
#[derive(Debug, Clone)]
pub struct ReadinessCheckMetadata {
    pub type_: String,
    pub successful: bool,
}

/// The registered readiness checks, each under its own type.
pub struct ReadinessCheckRegistry<C> {
    types: Vec<String>,
    checks: Vec<C>,
}

impl<C: ReadinessCheck> ReadinessCheckRegistry<C> {
    /// The registered types, in order of registration.
    pub closed spec fn spec_types(&self) -> Seq<Seq<char>> {
        self.types@.map_values(|t: String| t@)
    }

    /// The registered checks, in order of registration.
    pub closed spec fn spec_checks(&self) -> Seq<C> {
        self.checks@
    }

    /// Every registered type is `SCREAMING_SNAKE_CASE` and registered once, beside its check.
    pub closed spec fn wf(&self) -> bool {
        &&& self.types.len() == self.checks.len()
        &&& forall|i: int| 0 <= i < self.types.len() ==> is_check_type(#[trigger] self.types@[i]@)
        &&& forall|i: int, j: int| 0 <= i < j < self.types.len() ==> #[trigger] self.types@[i]@ != #[trigger] self.types@[j]@
    }

    /// An empty registry.
    pub fn new() -> (r: Self)
        ensures
            r.wf(),
            r.spec_types() == Seq::<Seq<char>>::empty(),
            r.spec_checks() == Seq::<C>::empty(),
    {
        let r = ReadinessCheckRegistry { types: Vec::new(), checks: Vec::new() };
        assert(r.spec_types() =~= Seq::<Seq<char>>::empty());
        r
    }

    /// The number of registered checks.
    pub fn len(&self) -> (r: usize)
        requires
            self.wf(),
        ensures
            r == self.spec_types().len(),
    {
        self.types.len()
    }

    /// Whether a check of type `t` is registered.
    pub fn contains(&self, t: &str) -> (r: bool)
        ensures
            r == self.spec_types().contains(t@),
    {
        let mut i: usize = 0;
        while i < self.types.len()
            invariant
                i <= self.types.len(),
                forall|j: int| 0 <= j < i ==> #[trigger] self.types@[j]@ != t@,
            decreases self.types.len() - i,
        {
            if str_eq(self.types[i].as_str(), t) {
                assert(self.spec_types()[i as int] == t@);
                return true;
            }
            i = i + 1;
        }
        proof {
            if self.spec_types().contains(t@) {
                let k = choose|k: int| 0 <= k < self.spec_types().len() && self.spec_types()[k] == t@;
                assert(self.types@[k]@ == t@);
            }
        }
        false
    }

    /// Registers `check` under the type `t` it reports. The type must be
    /// `SCREAMING_SNAKE_CASE` and not yet registered: a server panics on any other, so those
    /// are left out here, and a caller tests them first with [`is_valid_check_type`] and
    /// [`ReadinessCheckRegistry::contains`].
    pub fn register_inner(&mut self, t: &str, check: C)
        requires
            old(self).wf(),
            is_check_type(t@),
            !old(self).spec_types().contains(t@),
        ensures
            final(self).wf(),
            final(self).spec_types() == old(self).spec_types().push(t@),
            final(self).spec_checks() == old(self).spec_checks().push(check),
    {
        let ghost old_types = self.spec_types();
        self.types.push(string_of(t));
        self.checks.push(check);
        proof {
            assert(self.spec_types() =~= old_types.push(t@));
            assert forall|i: int, j: int| 0 <= i < j < self.types.len() implies #[trigger] self.types@[i]@ != #[trigger] self.types@[j]@ by {
                if j == self.types.len() - 1 {
                    assert(old_types[i] == self.types@[i]@);
                    assert(old_types.contains(self.types@[i]@));
                }
            }
        }
    }

    /// The positions of the registered checks in the order of their types.
    fn type_order(&self) -> (order: Vec<usize>)
        requires
            self.wf(),
        ensures
            order@.len() == self.types@.len(),
            forall|k: int| 0 <= k < order@.len() ==> (#[trigger] order@[k]) < self.types@.len(),
            forall|k: int, l: int|
                0 <= k < l < order@.len() ==> text_lt(
                    self.types@[#[trigger] order@[k] as int]@,
                    self.types@[#[trigger] order@[l] as int]@,
                ),
            forall|i: int| 0 <= i < self.types@.len() ==> #[trigger] lists(order@, i),
    {
        let n = self.types.len();
        let mut order: Vec<usize> = Vec::new();
        let mut i: usize = 0;
        while i < n
            invariant
                self.wf(),
                n == self.types@.len(),
                i <= n,
                order@.len() == i,
                forall|k: int| 0 <= k < order@.len() ==> (#[trigger] order@[k]) < i,
                forall|k: int, l: int|
                    0 <= k < l < order@.len() ==> text_lt(
                        self.types@[#[trigger] order@[k] as int]@,
                        self.types@[#[trigger] order@[l] as int]@,
                    ),
                forall|x: int| 0 <= x < i ==> #[trigger] lists(order@, x),
            decreases n - i,
        {
            let mut p: usize = 0;
            while p < order.len() && text_less(self.types[order[p]].as_str(), self.types[i].as_str())
                invariant
                    self.wf(),
                    n == self.types@.len(),
                    i < n,
                    p <= order@.len(),
                    forall|k: int| 0 <= k < order@.len() ==> (#[trigger] order@[k]) < i,
                    forall|k: int|
                        0 <= k < p ==> text_lt(
                            self.types@[#[trigger] order@[k] as int]@,
                            self.types@[i as int]@,
                        ),
                decreases order@.len() - p,
            {
                p = p + 1;
            }
            let ghost old_order = order@;
            let ghost t = self.types@[i as int]@;
            proof {
                if p < old_order.len() {
                    let q = old_order[p as int] as int;
                    assert(self.types@[q]@ != t);
                    lemma_text_order(self.types@[q]@, t, t);
                    assert(text_lt(t, self.types@[q]@));
                }
            }
            order.insert(p, i);
            proof {
                assert forall|k: int, l: int| 0 <= k < l < order@.len() implies text_lt(
                    self.types@[#[trigger] order@[k] as int]@,
                    self.types@[#[trigger] order@[l] as int]@,
                ) by {
                    if l < p {
                        assert(order@[k] == old_order[k] && order@[l] == old_order[l]);
                    } else if l == p {
                        assert(order@[k] == old_order[k]);
                    } else if k < p {
                        assert(order@[k] == old_order[k] && order@[l] == old_order[l - 1]);
                        let a = self.types@[old_order[k] as int]@;
                        let c = self.types@[old_order[l - 1] as int]@;
                        if l - 1 > p {
                            let b = self.types@[old_order[p as int] as int]@;
                            lemma_text_order(t, b, c);
                            lemma_text_order(a, t, c);
                        } else {
                            lemma_text_order(a, t, c);
                        }
                    } else if k == p {
                        assert(order@[l] == old_order[l - 1]);
                        let c = self.types@[old_order[l - 1] as int]@;
                        if l - 1 > p {
                            let b = self.types@[old_order[p as int] as int]@;
                            lemma_text_order(t, b, c);
                        }
                    } else {
                        assert(order@[k] == old_order[k - 1] && order@[l] == old_order[l - 1]);
                    }
                }
                assert forall|x: int| 0 <= x < i + 1 implies #[trigger] lists(order@, x) by {
                    if x == i {
                        assert(order@[p as int] == i);
                    } else {
                        assert(lists(old_order, x));
                        let k = choose|k: int| 0 <= k < old_order.len() && old_order[k] == x;
                        if k < p {
                            assert(order@[k] == x);
                        } else {
                            assert(order@[k + 1] == x);
                        }
                    }
                }
                assert forall|k: int| 0 <= k < order@.len() implies (#[trigger] order@[k]) < i + 1 by {
                    if k < p {
                        assert(order@[k] == old_order[k]);
                    } else if k > p {
                        assert(order@[k] == old_order[k - 1]);
                    }
                }
            }
            i = i + 1;
        }
        order
    }

    /// Runs every check, in the order of their types, and reports each type with its
    /// outcome, in that order: the outcome reported under a type is the success of the result
    /// that the check registered under that type returned.
    pub fn run_checks(&self) -> (r: Vec<ReadinessCheckMetadata>)
        requires
            self.wf(),
        ensures
            reported_types(r@).len() == self.spec_types().len(),
            forall|k: int, l: int|
                0 <= k < l < r@.len() ==> text_lt(
                    #[trigger] reported_types(r@)[k],
                    #[trigger] reported_types(r@)[l],
                ),
            forall|t: Seq<char>| #[trigger] self.spec_types().contains(t) ==> reported_types(r@).contains(t),
            forall|t: Seq<char>| #[trigger] reported_types(r@).contains(t) ==> self.spec_types().contains(t),
            forall|k: int, i: int|
                0 <= k < r@.len() && 0 <= i < self.spec_types().len() && #[trigger] self.spec_types()[i]
                    == (#[trigger] r@[k]).type_@ ==> reports_outcome(&self.spec_checks()[i], r@[k].successful),
    {
        let order = self.type_order();
        let mut r: Vec<ReadinessCheckMetadata> = Vec::new();
        let mut j: usize = 0;
        while j < order.len()
            invariant
                self.wf(),
                order@.len() == self.types@.len(),
                forall|k: int| 0 <= k < order@.len() ==> (#[trigger] order@[k]) < self.types@.len(),
                j <= order@.len(),
                r@.len() == j,
                forall|k: int| 0 <= k < j ==> (#[trigger] r@[k]).type_@ == self.types@[order@[k] as int]@,
                forall|k: int| 0 <= k < j ==> reports_outcome(&self.checks@[order@[k] as int], (#[trigger] r@[k]).successful),
            decreases order@.len() - j,
        {
            let i = order[j];
            let result = self.checks[i].result();
            assert(call_ensures(C::result, (&self.checks@[i as int],), result));
            let t = string_of(self.types[i].as_str());
            r.push(ReadinessCheckMetadata { type_: t, successful: result.successful() });
            j = j + 1;
        }
        proof {
            let rt = reported_types(r@);
            assert forall|k: int, l: int| 0 <= k < l < r@.len() implies text_lt(
                #[trigger] rt[k],
                #[trigger] rt[l],
            ) by {
                assert(rt[k] == self.types@[order@[k] as int]@);
                assert(rt[l] == self.types@[order@[l] as int]@);
            }
            assert forall|t: Seq<char>| #[trigger] self.spec_types().contains(t) implies rt.contains(t) by {
                let i = choose|i: int| 0 <= i < self.spec_types().len() && self.spec_types()[i] == t;
                assert(lists(order@, i));
                let k = choose|k: int| 0 <= k < order@.len() && order@[k] == i;
                assert(rt[k] == t);
            }
            assert forall|t: Seq<char>| #[trigger] rt.contains(t) implies self.spec_types().contains(t) by {
                let k = choose|k: int| 0 <= k < rt.len() && rt[k] == t;
                let i = order@[k] as int;
                assert(self.spec_types()[i] == t);
            }
            assert forall|k: int, i: int|
                0 <= k < r@.len() && 0 <= i < self.spec_types().len() && #[trigger] self.spec_types()[i]
                    == (#[trigger] r@[k]).type_@ implies reports_outcome(&self.spec_checks()[i], r@[k].successful) by {
                let o = order@[k] as int;
                assert(self.types@[o]@ == r@[k].type_@);
                assert(self.types@[i]@ == self.spec_types()[i]);
                if o != i {
                    assert(self.types@[o]@ != self.types@[i]@);
                }
                assert(reports_outcome(&self.checks@[i], r@[k].successful));
            }
        }
        r
    }
}
} // verus!
