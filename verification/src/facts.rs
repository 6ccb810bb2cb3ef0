//! Owner-local current facts behind the event projection.
//!
//! Every public identity whose committed state is projected (signals, controllers,
//! References, outputs and managed components) is a target with a stable text key.
//! Targets are tracked once each, in key order. After each domain unit the host
//! reads every target's current fact; only facts that changed are published, and a
//! published fact becomes the one later reads are compared against.
use crate::text::{ascii_chars, decimal, decimal_string};
use vstd::prelude::*;

verus! {

/// A public identity whose committed state is projected.
#[derive(Clone, Copy, Debug, PartialEq, Eq, Structural)]
pub enum Target {
    /// A measured signal.
    Signal {
        /// Instrument identity.
        instrument: u64,
        /// Parameter identity.
        parameter: u64,
    },
    /// A native controller.
    Controller(u64),
    /// A Reference.
    Reference(u64),
    /// A physical or virtual output.
    Output {
        /// Instrument identity.
        instrument: u64,
        /// Parameter identity.
        parameter: u64,
    },
    /// A managed component.
    Component(u64),
}

/// Decimal text of an identity.
pub open spec fn dec(n: u64) -> Seq<char> {
    ascii_chars(decimal(n as nat))
}

/// Stable key of a target: its kind and identities separated by colons.
pub open spec fn target_key(t: Target) -> Seq<char> {
    match t {
        Target::Signal { instrument, parameter } => "signal:"@ + dec(instrument) + ":"@ + dec(parameter),
        Target::Controller(id) => "controller:"@ + dec(id),
        Target::Reference(id) => "reference:"@ + dec(id),
        Target::Output { instrument, parameter } => "output:"@ + dec(instrument) + ":"@ + dec(parameter),
        Target::Component(id) => "component:"@ + dec(id),
    }
}

/// Wire kind of a target.
pub open spec fn target_kind(t: Target) -> Seq<char> {
    match t {
        Target::Signal { .. } => "signal"@,
        Target::Controller(_) => "controller"@,
        Target::Reference(_) => "reference"@,
        Target::Output { .. } => "output"@,
        Target::Component(_) => "component"@,
    }
}

fn join2(a: &str, b: &str, c: &str) -> (out: String)
    ensures
        out@ == a@ + b@ + c@,
{
    let ab = crate::text::concat(a, b);
    crate::text::concat(ab.as_str(), c)
}

impl Target {
    /// Stable key.
    pub fn key(&self) -> (key: String)
        ensures
            key@ == target_key(*self),
    {
        match self {
            Target::Signal { instrument, parameter } => {
                let i = decimal_string(*instrument);
                let p = decimal_string(*parameter);
                let head = join2("signal:", i.as_str(), ":");
                let out = crate::text::concat(head.as_str(), p.as_str());
                proof {
                    assert(out@ =~= target_key(*self));
                }
                out
            },
            Target::Controller(id) => {
                let d = decimal_string(*id);
                crate::text::concat("controller:", d.as_str())
            },
            Target::Reference(id) => {
                let d = decimal_string(*id);
                crate::text::concat("reference:", d.as_str())
            },
            Target::Output { instrument, parameter } => {
                let i = decimal_string(*instrument);
                let p = decimal_string(*parameter);
                let head = join2("output:", i.as_str(), ":");
                let out = crate::text::concat(head.as_str(), p.as_str());
                proof {
                    assert(out@ =~= target_key(*self));
                }
                out
            },
            Target::Component(id) => {
                let d = decimal_string(*id);
                crate::text::concat("component:", d.as_str())
            },
        }
    }

    /// Wire kind.
    pub fn kind(&self) -> (kind: &'static str)
        ensures
            kind@ == target_kind(*self),
    {
        match self {
            Target::Signal { .. } => "signal",
            Target::Controller(_) => "controller",
            Target::Reference(_) => "reference",
            Target::Output { .. } => "output",
            Target::Component(_) => "component",
        }
    }
}

// ---------------------------------------------------------------------------
// Text order.

/// Lexicographic order of texts by code point, the order of Rust strings.
pub open spec fn text_lt(a: Seq<char>, b: Seq<char>) -> bool
    decreases a.len(),
{
    if a.len() == 0 {
        b.len() > 0
    } else if b.len() == 0 {
        false
    } else if a[0] != b[0] {
        a[0] < b[0]
    } else {
        text_lt(a.drop_first(), b.drop_first())
    }
}

/// `a` is not after `b`.
pub open spec fn text_le(a: Seq<char>, b: Seq<char>) -> bool {
    !text_lt(b, a)
}

proof fn lemma_text_lt_irreflexive(a: Seq<char>)
    ensures
        !text_lt(a, a),
    decreases a.len(),
{
    if a.len() > 0 {
        lemma_text_lt_irreflexive(a.drop_first());
    }
}

proof fn lemma_text_lt_trans(a: Seq<char>, b: Seq<char>, c: Seq<char>)
    requires
        text_lt(a, b),
        text_lt(b, c),
    ensures
        text_lt(a, c),
    decreases a.len(),
{
    if a.len() > 0 && b.len() > 0 && c.len() > 0 && a[0] == b[0] && b[0] == c[0] {
        lemma_text_lt_trans(a.drop_first(), b.drop_first(), c.drop_first());
    }
}

proof fn lemma_text_lt_total(a: Seq<char>, b: Seq<char>)
    ensures
        a == b || text_lt(a, b) || text_lt(b, a),
    decreases a.len(),
{
    if a.len() > 0 && b.len() > 0 {
        if a[0] == b[0] {
            lemma_text_lt_total(a.drop_first(), b.drop_first());
            if a.drop_first() == b.drop_first() {
                assert(a =~= seq![a[0]] + a.drop_first());
                assert(b =~= seq![b[0]] + b.drop_first());
            }
        }
    } else if a.len() == 0 && b.len() == 0 {
        assert(a =~= b);
    }
}

proof fn lemma_text_le_trans(a: Seq<char>, b: Seq<char>, c: Seq<char>)
    requires
        text_le(a, b),
        text_le(b, c),
    ensures
        text_le(a, c),
{
    if text_lt(c, a) {
        lemma_text_lt_total(a, b);
        if a == b {
        } else if text_lt(a, b) {
            lemma_text_lt_trans(c, a, b);
        }
    }
}

/// Whether `a` comes before `b`.
pub fn text_less(a: &str, b: &str) -> (r: bool)
    ensures
        r == text_lt(a@, b@),
{
    let n = a.unicode_len();
    let m = b.unicode_len();
    let mut i: usize = 0;
    proof {
        assert(a@.skip(0) =~= a@);
        assert(b@.skip(0) =~= b@);
    }
    while i < n && i < m
        invariant
            n == a@.len(),
            m == b@.len(),
            i <= n,
            i <= m,
            text_lt(a@, b@) == text_lt(a@.skip(i as int), b@.skip(i as int)),
        decreases n - i,
    {
        let x = a.get_char(i);
        let y = b.get_char(i);
        proof {
            assert(a@.skip(i as int)[0] == x);
            assert(b@.skip(i as int)[0] == y);
            assert(a@.skip(i as int).drop_first() =~= a@.skip(i + 1));
            assert(b@.skip(i as int).drop_first() =~= b@.skip(i + 1));
        }
        if x != y {
            return x < y;
        }
        i += 1;
    }
    proof {
        assert(a@.skip(i as int).len() == n - i);
        assert(b@.skip(i as int).len() == m - i);
    }
    i == n && i < m
}

// ---------------------------------------------------------------------------
// The fact table.

/// Tracked targets in key order, each with its last published fact.
pub struct FactTable {
    targets: Vec<Target>,
    keys: Vec<String>,
    facts: Vec<Option<Vec<u8>>>,
}

/// Option of bytes, by value.
pub open spec fn fact_view(f: Option<Vec<u8>>) -> Option<Seq<u8>> {
    match f {
        Some(v) => Some(v@),
        None => None,
    }
}

/// Indices, in order, from `k` on, whose current fact is present and differs from
/// the published one.
pub open spec fn changed_from(published: Seq<Option<Seq<u8>>>, current: Seq<Option<Seq<u8>>>, k: int) -> Seq<usize>
    decreases current.len() - k,
{
    if k < 0 || k >= current.len() {
        Seq::empty()
    } else {
        let rest = changed_from(published, current, k + 1);
        if current[k] is Some && current[k] != published[k] {
            seq![k as usize] + rest
        } else {
            rest
        }
    }
}

impl FactTable {
    /// Tracked targets.
    pub closed spec fn spec_targets(&self) -> Seq<Target> {
        self.targets@
    }

    /// Last published fact of each tracked target.
    pub closed spec fn spec_facts(&self) -> Seq<Option<Seq<u8>>> {
        self.facts@.map_values(|f: Option<Vec<u8>>| fact_view(f))
    }

    /// Targets are in key order, tracked once each, and every target has a fact
    /// slot.
    pub open spec fn wf(&self) -> bool {
        &&& self.spec_facts().len() == self.spec_targets().len()
        &&& forall|i: int, j: int| 0 <= i < j < self.spec_targets().len() ==> text_le(
            target_key(#[trigger] self.spec_targets()[i]),
            target_key(#[trigger] self.spec_targets()[j]),
        )
        &&& forall|i: int, j: int| 0 <= i < j < self.spec_targets().len() ==> #[trigger] self.spec_targets()[i]
            != #[trigger] self.spec_targets()[j]
    }

    closed spec fn keys_aligned(&self) -> bool {
        &&& self.keys@.len() == self.targets@.len()
        &&& self.facts@.len() == self.targets@.len()
        &&& forall|i: int| 0 <= i < self.keys@.len() ==> (#[trigger] self.keys@[i])@ == target_key(self.targets@[i])
    }

    /// Internal consistency.
    pub closed spec fn inv(&self) -> bool {
        self.wf() && self.keys_aligned()
    }

    /// A table tracking nothing.
    pub fn new() -> (table: Self)
        ensures
            table.inv(),
            table.spec_targets().len() == 0,
    {
        FactTable { targets: Vec::new(), keys: Vec::new(), facts: Vec::new() }
    }

    /// Tracked targets in key order.
    pub fn targets(&self) -> (targets: &Vec<Target>)
        ensures
            targets@ == self.spec_targets(),
    {
        &self.targets
    }

    /// Track a target once; a new target takes its place in key order after every
    /// target whose key is not after its own, with no published fact yet.
    /// Returns its position, or `None` when it was already tracked.
    pub fn track(&mut self, target: Target) -> (position: Option<usize>)
        requires
            old(self).inv(),
        ensures
            final(self).inv(),
            old(self).spec_targets().contains(target) ==> position is None && *final(self) == *old(self),
            !old(self).spec_targets().contains(target) ==> (position matches Some(p) && {
                &&& p <= old(self).spec_targets().len()
                &&& final(self).spec_targets() == old(self).spec_targets().insert(p as int, target)
                &&& final(self).spec_facts() == old(self).spec_facts().insert(p as int, None)
            }),
    {
        let mut i: usize = 0;
        while i < self.targets.len()
            invariant
                self.inv(),
                i <= self.targets@.len(),
                forall|j: int| 0 <= j < i ==> self.targets@[j] != target,
            decreases self.targets@.len() - i,
        {
            if self.targets[i] == target {
                proof {
                    assert(self.spec_targets()[i as int] == target);
                }
                return None;
            }
            i += 1;
        }
        proof {
            assert(!self.spec_targets().contains(target));
        }
        let key = target.key();
        let mut p: usize = 0;
        while p < self.keys.len() && !text_less(key.as_str(), self.keys[p].as_str())
            invariant
                self.inv(),
                key@ == target_key(target),
                p <= self.keys@.len(),
                forall|j: int| 0 <= j < p ==> text_le(target_key(#[trigger] self.spec_targets()[j]), key@),
            decreases self.keys@.len() - p,
        {
            proof {
                assert(self.keys@[p as int]@ == target_key(self.spec_targets()[p as int]));
            }
            p += 1;
        }
        proof {
            if p < self.keys@.len() {
                assert(self.keys@[p as int]@ == target_key(self.spec_targets()[p as int]));
                assert(text_lt(key@, target_key(self.spec_targets()[p as int])));
            }
        }
        let ghost old_targets = self.spec_targets();
        let ghost old_facts = self.spec_facts();
        let ghost old_keys = self.keys@;
        self.targets.insert(p, target);
        self.keys.insert(p, key);
        self.facts.insert(p, None);
        proof {
            let t = self.spec_targets();
            assert(t =~= old_targets.insert(p as int, target));
            assert(self.spec_facts() =~= old_facts.insert(p as int, None));
            assert forall|i: int| 0 <= i < self.keys@.len() implies (#[trigger] self.keys@[i])@ == target_key(self.targets@[i]) by {
                if i < p {
                    assert(self.keys@[i] == old_keys[i]);
                } else if i > p {
                    assert(self.keys@[i] == old_keys[i - 1]);
                }
            }
            assert forall|a: int, b: int| 0 <= a < b < t.len() implies text_le(
                target_key(#[trigger] t[a]),
                target_key(#[trigger] t[b]),
            ) by {
                if b < p {
                    assert(t[a] == old_targets[a] && t[b] == old_targets[b]);
                } else if b == p {
                    assert(t[a] == old_targets[a]);
                } else if a < p {
                    assert(t[a] == old_targets[a] && t[b] == old_targets[b - 1]);
                    if a < b - 1 {
                    }
                } else if a == p {
                    assert(t[b] == old_targets[b - 1]);
                    lemma_text_lt_asym_le(key@, target_key(old_targets[p as int]));
                    if p < b - 1 {
                        assert(text_le(target_key(old_targets[p as int]), target_key(old_targets[b - 1])));
                        lemma_text_le_trans(key@, target_key(old_targets[p as int]), target_key(old_targets[b - 1]));
                    }
                } else {
                    assert(t[a] == old_targets[a - 1] && t[b] == old_targets[b - 1]);
                }
            }
            assert forall|a: int, b: int| 0 <= a < b < t.len() implies #[trigger] t[a] != #[trigger] t[b] by {
                if b < p {
                    assert(t[a] == old_targets[a] && t[b] == old_targets[b]);
                } else if b == p {
                    assert(t[a] == old_targets[a]);
                } else if a < p {
                    assert(t[a] == old_targets[a] && t[b] == old_targets[b - 1]);
                } else if a == p {
                    assert(t[b] == old_targets[b - 1]);
                } else {
                    assert(t[a] == old_targets[a - 1] && t[b] == old_targets[b - 1]);
                }
            }
        }
        Some(p)
    }

    /// Positions, in order, whose current fact is present and differs from the
    /// published one: exactly the facts a domain unit changed.
    pub fn changed(&self, current: &Vec<Option<Vec<u8>>>) -> (positions: Vec<usize>)
        requires
            self.inv(),
            current@.len() == self.spec_targets().len(),
        ensures
            positions@ == changed_from(
                self.spec_facts(),
                current@.map_values(|f: Option<Vec<u8>>| fact_view(f)),
                0,
            ),
    {
        let ghost cur = current@.map_values(|f: Option<Vec<u8>>| fact_view(f));
        let ghost published = self.spec_facts();
        let mut out: Vec<usize> = Vec::new();
        let mut k: usize = current.len();
        while k > 0
            invariant
                k <= current@.len(),
                current@.len() == self.facts@.len(),
                cur == current@.map_values(|f: Option<Vec<u8>>| fact_view(f)),
                published == self.facts@.map_values(|f: Option<Vec<u8>>| fact_view(f)),
                out@ == changed_from(published, cur, k as int),
            decreases k,
        {
            k -= 1;
            let differs = match (&current[k], &self.facts[k]) {
                (None, _) => false,
                (Some(now), None) => true,
                (Some(now), Some(before)) => !bytes_equal(now, before),
            };
            proof {
                assert(cur[k as int] == fact_view(current@[k as int]));
                assert(published[k as int] == fact_view(self.facts@[k as int]));
                assert(differs == (cur[k as int] is Some && cur[k as int] != published[k as int]));
            }
            if differs {
                let mut next: Vec<usize> = Vec::new();
                next.push(k);
                let mut j: usize = 0;
                while j < out.len()
                    invariant
                        j <= out@.len(),
                        next@ == seq![k] + out@.subrange(0, j as int),
                    decreases out@.len() - j,
                {
                    next.push(out[j]);
                    proof {
                        assert(next@ =~= seq![k] + out@.subrange(0, j + 1));
                    }
                    j += 1;
                }
                proof {
                    assert(out@.subrange(0, out@.len() as int) =~= out@);
                }
                out = next;
            }
        }
        out
    }

    /// Record the fact just published for position `position`.
    pub fn publish(&mut self, position: usize, fact: Vec<u8>)
        requires
            old(self).inv(),
            position < old(self).spec_targets().len(),
        ensures
            final(self).inv(),
            final(self).spec_targets() == old(self).spec_targets(),
            final(self).spec_facts() == old(self).spec_facts().update(position as int, Some(fact@)),
    {
        let ghost before = self.facts@;
        self.facts.set(position, Some(fact));
        proof {
            assert(self.spec_facts() =~= before.map_values(|f: Option<Vec<u8>>| fact_view(f)).update(
                position as int,
                Some(fact@),
            ));
        }
    }

    /// Current facts in key order, for a frozen projection: every tracked target
    /// that has a published fact, with that fact.
    pub fn projection(&self) -> (records: Vec<(Target, Vec<u8>)>)
        requires
            self.inv(),
        ensures
            records@.map_values(|r: (Target, Vec<u8>)| (r.0, r.1@)) == projected(
                self.spec_targets(),
                self.spec_facts(),
                self.spec_targets().len() as int,
            ),
    {
        let mut out: Vec<(Target, Vec<u8>)> = Vec::new();
        let mut i: usize = 0;
        while i < self.targets.len()
            invariant
                self.inv(),
                i <= self.targets@.len(),
                out@.map_values(|r: (Target, Vec<u8>)| (r.0, r.1@)) == projected(
                    self.spec_targets(),
                    self.spec_facts(),
                    i as int,
                ),
            decreases self.targets@.len() - i,
        {
            proof {
                assert(self.spec_facts()[i as int] == fact_view(self.facts@[i as int]));
            }
            match &self.facts[i] {
                Some(fact) => {
                    let copy = fact.clone();
                    proof {
                        assert(copy@ =~= fact@);
                    }
                    let ghost before = out@;
                    out.push((self.targets[i], copy));
                    proof {
                        assert(out@.map_values(|r: (Target, Vec<u8>)| (r.0, r.1@)) =~= before.map_values(
                            |r: (Target, Vec<u8>)| (r.0, r.1@),
                        ).push((self.spec_targets()[i as int], copy@)));
                    }
                },
                None => {},
            }
            i += 1;
        }
        out
    }
}

/// Targets among the first `n` that have a published fact, with that fact, in order.
pub open spec fn projected(targets: Seq<Target>, facts: Seq<Option<Seq<u8>>>, n: int) -> Seq<(Target, Seq<u8>)>
    decreases n,
{
    if n <= 0 {
        Seq::empty()
    } else {
        let before = projected(targets, facts, n - 1);
        match facts[n - 1] {
            Some(f) => before.push((targets[n - 1], f)),
            None => before,
        }
    }
}

proof fn lemma_text_lt_asym_le(a: Seq<char>, b: Seq<char>)
    requires
        text_lt(a, b),
    ensures
        text_le(a, b),
{
    if text_lt(b, a) {
        lemma_text_lt_trans(a, b, a);
        lemma_text_lt_irreflexive(a);
    }
}

/// Whether two byte strings are equal.
fn bytes_equal(a: &Vec<u8>, b: &Vec<u8>) -> (r: bool)
    ensures
        r == (a@ == b@),
{
    if a.len() != b.len() {
        return false;
    }
    let mut i: usize = 0;
    while i < a.len()
        invariant
            a@.len() == b@.len(),
            i <= a@.len(),
            forall|j: int| 0 <= j < i ==> a@[j] == b@[j],
        decreases a@.len() - i,
    {
        if a[i] != b[i] {
            return false;
        }
        i += 1;
    }
    proof {
        assert(a@ =~= b@);
    }
    true
}

/// The published facts after every present current fact was published.
pub open spec fn merged(published: Seq<Option<Seq<u8>>>, current: Seq<Option<Seq<u8>>>) -> Seq<Option<Seq<u8>>> {
    Seq::new(current.len(), |i: int| if current[i] is Some { current[i] } else { published[i] })
}

proof fn lemma_nothing_changed_from(published: Seq<Option<Seq<u8>>>, current: Seq<Option<Seq<u8>>>, k: int)
    requires
        published.len() == current.len(),
        0 <= k,
    ensures
        changed_from(merged(published, current), current, k).len() == 0,
    decreases current.len() - k,
{
    if k < current.len() {
        lemma_nothing_changed_from(published, current, k + 1);
    }
}

/// Observation is idempotent: once every changed fact was published, reading the
/// same current facts again finds nothing to publish.
pub proof fn law_published_facts_are_not_republished(
    published: Seq<Option<Seq<u8>>>,
    current: Seq<Option<Seq<u8>>>,
)
    requires
        published.len() == current.len(),
    ensures
        changed_from(merged(published, current), current, 0).len() == 0,
{
    lemma_nothing_changed_from(published, current, 0);
}

} // verus!
