//! The link registry: named link definitions, one namespace per bus kind.
//!
//! A link is a single-use resource: activating it removes it from the
//! registry, so at most one bridge ever runs per link name. A name that is
//! absent is either never-configured or already-activated; the registry does
//! not distinguish the two.
use vstd::prelude::*;
use crate::BusKind;
use crate::link::LinkConfig;

verus! {

/// True when `c` has the given kind and name.
pub open spec fn matches_link(c: LinkConfig, kind: BusKind, name: Seq<u8>) -> bool {
    c.kind() == kind && c.name() == name
}

/// True when some entry of `s` has the given kind and name.
pub open spec fn contains_link(s: Seq<LinkConfig>, kind: BusKind, name: Seq<u8>) -> bool {
    exists|i: int| 0 <= i < s.len() && #[trigger] matches_link(s[i], kind, name)
}

/// The index of the entry of `s` with the given kind and name; meaningful
/// only when `contains_link` holds (and unique when `names_unique` holds).
pub open spec fn link_index(s: Seq<LinkConfig>, kind: BusKind, name: Seq<u8>) -> int {
    choose|i: int| 0 <= i < s.len() && #[trigger] matches_link(s[i], kind, name)
}

/// Names are unique within each bus kind.
pub open spec fn names_unique(s: Seq<LinkConfig>) -> bool {
    forall|i: int, j: int|
        #![trigger s[i].kind(), s[j].kind()]
        0 <= i < j < s.len() && s[i].kind() == s[j].kind() ==> s[i].name() != s[j].name()
}

/// The entries of `s` of the given kind, in registration order.
pub open spec fn of_kind(s: Seq<LinkConfig>, kind: BusKind) -> Seq<LinkConfig> {
    s.filter(|c: LinkConfig| c.kind() == kind)
}

/// The entries of `s` of the other kind, in registration order.
pub open spec fn without_kind(s: Seq<LinkConfig>, kind: BusKind) -> Seq<LinkConfig> {
    s.filter(|c: LinkConfig| c.kind() != kind)
}

/// Under `names_unique`, any matching index is the matching index.
pub proof fn lemma_link_index_unique(s: Seq<LinkConfig>, kind: BusKind, name: Seq<u8>, i: int)
    requires
        names_unique(s),
        0 <= i < s.len(),
        matches_link(s[i], kind, name),
    ensures
        contains_link(s, kind, name),
        link_index(s, kind, name) == i,
{
    assert(contains_link(s, kind, name));
    let j = link_index(s, kind, name);
    assert(0 <= j < s.len() && matches_link(s[j], kind, name));
    if i < j {
        assert(s[i].name() != s[j].name());
    } else if j < i {
        assert(s[j].name() != s[i].name());
    }
}

/// Registry failures reported to the operator.
#[derive(Clone, Copy, Debug, PartialEq, Eq, Structural)]
pub enum RegistryError {
    /// `register` found an entry of the same kind and name.
    DuplicateName,
    /// `resolve` found no entry: never configured, or already activated.
    UnknownLink,
}

/// Named link definitions, one namespace per bus kind.
pub struct Registry {
    links: Vec<LinkConfig>,
}

impl View for Registry {
    type V = Seq<LinkConfig>;

    closed spec fn view(&self) -> Seq<LinkConfig> {
        self.links@
    }
}

impl Registry {
    /// Well-formed: names are unique within each bus kind.
    pub open spec fn wf(&self) -> bool {
        names_unique(self@)
    }

    /// An empty registry.
    pub fn new() -> (r: Registry)
        ensures
            r@ == Seq::<LinkConfig>::empty(),
            r.wf(),
    {
        Registry { links: Vec::new() }
    }

    /// The index of the entry with the given kind and name, if any.
    fn find(&self, kind: BusKind, name: &[u8]) -> (r: Option<usize>)
        ensures
            match r {
                Some(i) => 0 <= i < self@.len() && matches_link(self@[i as int], kind, name@),
                None => !contains_link(self@, kind, name@),
            },
    {
        let mut i: usize = 0;
        while i < self.links.len()
            invariant
                i <= self.links.len(),
                forall|k: int| 0 <= k < i ==> !#[trigger] matches_link(self.links@[k], kind, name@),
            decreases self.links.len() - i,
        {
            if self.links[i].is_named(kind, name) {
                return Some(i);
            }
            i += 1;
        }
        None
    }

    /// Adds a link definition; rejects a name already present for its kind.
    pub fn register(&mut self, config: LinkConfig) -> (r: Result<(), RegistryError>)
        requires
            old(self).wf(),
        ensures
            final(self).wf(),
            contains_link(old(self)@, config.kind(), config.name()) ==> {
                &&& r == Err::<(), RegistryError>(RegistryError::DuplicateName)
                &&& final(self)@ == old(self)@
            },
            !contains_link(old(self)@, config.kind(), config.name()) ==> {
                &&& r == Ok::<(), RegistryError>(())
                &&& final(self)@ == old(self)@.push(config)
            },
    {
        let kind = config.kind_of();
        match self.find(kind, config.name_ref().as_slice()) {
            Some(_) => Err(RegistryError::DuplicateName),
            None => {
                proof {
                    let s = self.links@;
                    let c = config;
                    assert forall|i: int, j: int|
                        0 <= i < j < s.push(c).len() && #[trigger] s.push(c)[i].kind()
                            == #[trigger] s.push(c)[j].kind() implies s.push(c)[i].name()
                        != s.push(c)[j].name() by {
                        if j == s.len() {
                            assert(s.push(c)[i] == s[i]);
                            if s[i].kind() == c.kind() && s[i].name() == c.name() {
                                assert(matches_link(s[i], c.kind(), c.name()));
                            }
                        } else {
                            assert(s.push(c)[i] == s[i]);
                            assert(s.push(c)[j] == s[j]);
                        }
                    }
                }
                self.links.push(config);
                Ok(())
            },
        }
    }

    /// Removes and returns the link with the given kind and name.
    ///
    /// An absent name reports `UnknownLink`, whether it was never configured
    /// or already activated.
    pub fn resolve(&mut self, kind: BusKind, name: &[u8]) -> (r: Result<
        LinkConfig,
        RegistryError,
    >)
        requires
            old(self).wf(),
        ensures
            final(self).wf(),
            contains_link(old(self)@, kind, name@) ==> {
                let i = link_index(old(self)@, kind, name@);
                &&& r == Ok::<LinkConfig, RegistryError>(old(self)@[i])
                &&& final(self)@ == old(self)@.remove(i)
            },
            !contains_link(old(self)@, kind, name@) ==> {
                &&& r == Err::<LinkConfig, RegistryError>(RegistryError::UnknownLink)
                &&& final(self)@ == old(self)@
            },
    {
        match self.find(kind, name) {
            Some(i) => {
                proof {
                    lemma_link_index_unique(self.links@, kind, name@, i as int);
                    lemma_remove_keeps_unique(self.links@, i as int);
                }
                let c = self.links.remove(i);
                Ok(c)
            },
            None => Err(RegistryError::UnknownLink),
        }
    }

    /// Removes and returns every remaining link of the given kind, in
    /// registration order. An empty result is not an error: draining a kind
    /// twice is valid, and the second drain returns nothing.
    pub fn resolve_all(&mut self, kind: BusKind) -> (r: Vec<LinkConfig>)
        requires
            old(self).wf(),
        ensures
            final(self).wf(),
            r@ == of_kind(old(self)@, kind),
            final(self)@ == without_kind(old(self)@, kind),
    {
        let mut rest: Vec<LinkConfig> = Vec::new();
        core::mem::swap(&mut self.links, &mut rest);
        let ghost orig: Seq<LinkConfig> = rest@;
        let mut out: Vec<LinkConfig> = Vec::new();
        proof {
            assert(orig.subrange(0, 0) =~= Seq::<LinkConfig>::empty());
            reveal(Seq::filter);
        }
        while rest.len() > 0
            invariant
                rest@.len() <= orig.len(),
                rest@ == orig.subrange(orig.len() - rest@.len(), orig.len() as int),
                out@ == of_kind(orig.subrange(0, orig.len() - rest@.len()), kind),
                self.links@ == without_kind(orig.subrange(0, orig.len() - rest@.len()), kind),
            decreases rest@.len(),
        {
            let ghost done: int = orig.len() - rest@.len();
            let c = rest.remove(0);
            proof {
                assert(c == orig[done]);
                assert(rest@ =~= orig.subrange(orig.len() - rest@.len(), orig.len() as int));
                reveal(Seq::filter);
                assert(orig.subrange(0, done + 1).drop_last() =~= orig.subrange(0, done));
                assert(orig.subrange(0, done + 1).last() == c);
            }
            let k = c.kind_of();
            if k == kind {
                out.push(c);
            } else {
                self.links.push(c);
            }
        }
        proof {
            assert(orig.subrange(0, orig.len() as int) =~= orig);
            lemma_filter_keeps_unique(orig, |c: LinkConfig| c.kind() != kind);
        }
        out
    }
}

/// Removing an entry keeps the remaining names unique.
proof fn lemma_remove_keeps_unique(s: Seq<LinkConfig>, at: int)
    requires
        names_unique(s),
        0 <= at < s.len(),
    ensures
        names_unique(s.remove(at)),
{
    let t = s.remove(at);
    assert forall|i: int, j: int|
        0 <= i < j < t.len() && #[trigger] t[i].kind() == #[trigger] t[j].kind() implies t[i].name()
        != t[j].name() by {
        let si = if i < at { i } else { i + 1 };
        let sj = if j < at { j } else { j + 1 };
        assert(t[i] == s[si]);
        assert(t[j] == s[sj]);
    }
}

/// Filtering keeps the remaining names unique, and every kept entry's kind
/// and name are still found in the original sequence.
proof fn lemma_filter_keeps_unique(s: Seq<LinkConfig>, pred: spec_fn(LinkConfig) -> bool)
    requires
        names_unique(s),
    ensures
        names_unique(s.filter(pred)),
        forall|i: int|
            0 <= i < s.filter(pred).len() ==> #[trigger] contains_link(
                s,
                s.filter(pred)[i].kind(),
                s.filter(pred)[i].name(),
            ),
    decreases s.len(),
{
    reveal(Seq::filter);
    if s.len() > 0 {
        let d = s.drop_last();
        let last = s.last();
        assert(names_unique(d)) by {
            assert forall|i: int, j: int|
                0 <= i < j < d.len() && #[trigger] d[i].kind() == #[trigger] d[j].kind() implies d[i].name()
                != d[j].name() by {
                assert(d[i] == s[i]);
                assert(d[j] == s[j]);
            }
        }
        lemma_filter_keeps_unique(d, pred);
        let f = s.filter(pred);
        let fd = d.filter(pred);
        assert forall|i: int|
            0 <= i < f.len() implies #[trigger] contains_link(s, f[i].kind(), f[i].name()) by {
            if i < fd.len() {
                assert(f[i] == fd[i]);
                assert(contains_link(d, fd[i].kind(), fd[i].name()));
                let w = link_index(d, fd[i].kind(), fd[i].name());
                assert(matches_link(s[w], f[i].kind(), f[i].name()));
            } else {
                assert(f[i] == last);
                assert(matches_link(s[s.len() - 1], f[i].kind(), f[i].name()));
            }
        }
        if pred(last) {
            assert(f == fd.push(last));
            assert forall|i: int, j: int|
                0 <= i < j < f.len() && #[trigger] f[i].kind() == #[trigger] f[j].kind() implies f[i].name()
                != f[j].name() by {
                if j == fd.len() {
                    assert(f[i] == fd[i]);
                    assert(f[j] == last);
                    if fd[i].kind() == last.kind() && fd[i].name() == last.name() {
                        assert(contains_link(d, fd[i].kind(), fd[i].name()));
                        let w = link_index(d, fd[i].kind(), fd[i].name());
                        assert(matches_link(d[w], last.kind(), last.name()));
                        assert(s[w].kind() == s[s.len() - 1].kind());
                        assert(s[w].name() != s[s.len() - 1].name());
                    }
                } else {
                    assert(f[i] == fd[i]);
                    assert(f[j] == fd[j]);
                }
            }
        } else {
            assert(f == fd);
        }
    }
}

/// Resolving one link never removes or affects a link with a different name
/// or kind: the other binding is still present, at the same definition.
pub proof fn lemma_resolve_keeps_others(
    s: Seq<LinkConfig>,
    kind1: BusKind,
    name1: Seq<u8>,
    kind2: BusKind,
    name2: Seq<u8>,
)
    requires
        names_unique(s),
        contains_link(s, kind1, name1),
        !(kind1 == kind2 && name1 == name2),
    ensures
        contains_link(s.remove(link_index(s, kind1, name1)), kind2, name2) == contains_link(
            s,
            kind2,
            name2,
        ),
        contains_link(s, kind2, name2) ==> s.remove(link_index(s, kind1, name1))[link_index(
            s.remove(link_index(s, kind1, name1)),
            kind2,
            name2,
        )] == s[link_index(s, kind2, name2)],
{
    let at = link_index(s, kind1, name1);
    assert(0 <= at < s.len() && matches_link(s[at], kind1, name1));
    let t = s.remove(at);
    lemma_remove_keeps_unique(s, at);
    if contains_link(s, kind2, name2) {
        let i = link_index(s, kind2, name2);
        assert(0 <= i < s.len() && matches_link(s[i], kind2, name2));
        assert(i != at);
        let ti = if i < at { i } else { i - 1 };
        assert(t[ti] == s[i]);
        lemma_link_index_unique(t, kind2, name2, ti);
        lemma_link_index_unique(s, kind2, name2, i);
    }
    if contains_link(t, kind2, name2) {
        let j = link_index(t, kind2, name2);
        assert(0 <= j < t.len() && matches_link(t[j], kind2, name2));
        let sj = if j < at { j } else { j + 1 };
        assert(t[j] == s[sj]);
        assert(contains_link(s, kind2, name2)) by {
            assert(matches_link(s[sj], kind2, name2));
        }
    }
}

/// A link resolved once is gone: resolving the same kind and name again
/// finds nothing (the single-activation invariant).
pub proof fn lemma_resolve_single_activation(s: Seq<LinkConfig>, kind: BusKind, name: Seq<u8>)
    requires
        names_unique(s),
        contains_link(s, kind, name),
    ensures
        !contains_link(s.remove(link_index(s, kind, name)), kind, name),
{
    let at = link_index(s, kind, name);
    assert(0 <= at < s.len() && matches_link(s[at], kind, name));
    let t = s.remove(at);
    if contains_link(t, kind, name) {
        let j = link_index(t, kind, name);
        assert(0 <= j < t.len() && matches_link(t[j], kind, name));
        let sj = if j < at { j } else { j + 1 };
        assert(t[j] == s[sj]);
        assert(sj != at);
        if sj < at {
            assert(s[sj].name() != s[at].name());
        } else {
            assert(s[at].name() != s[sj].name());
        }
    }
}

/// A sequence none of whose entries has the given kind yields nothing when
/// the entries of that kind are selected.
proof fn lemma_of_kind_absent(s: Seq<LinkConfig>, kind: BusKind)
    requires
        forall|i: int| 0 <= i < s.len() ==> (#[trigger] s[i].kind()) != kind,
    ensures
        of_kind(s, kind) =~= Seq::<LinkConfig>::empty(),
    decreases s.len(),
{
    reveal(Seq::filter);
    if s.len() > 0 {
        let d = s.drop_last();
        assert(forall|i: int| 0 <= i < d.len() ==> (#[trigger] d[i].kind()) != kind);
        lemma_of_kind_absent(d, kind);
        assert(s.last().kind() != kind);
    }
}

/// A sequence with no entry of the given kind is kept whole when the entries
/// of the other kind are selected: draining a kind that has nothing to drain
/// leaves the registry as it was.
pub proof fn lemma_without_kind_whole(s: Seq<LinkConfig>, kind: BusKind)
    requires
        of_kind(s, kind).len() == 0,
    ensures
        without_kind(s, kind) =~= s,
    decreases s.len(),
{
    reveal(Seq::filter);
    if s.len() > 0 {
        let d = s.drop_last();
        assert(of_kind(d, kind).len() == 0);
        lemma_without_kind_whole(d, kind);
        assert(s =~= d.push(s.last()));
    }
}

/// Draining a kind once drains it for good: what `resolve_all` leaves behind
/// contains nothing of that kind, so draining again returns the empty
/// sequence.
pub proof fn lemma_resolve_all_drains(s: Seq<LinkConfig>, kind: BusKind)
    ensures
        of_kind(without_kind(s, kind), kind) =~= Seq::<LinkConfig>::empty(),
{
    broadcast use vstd::seq_lib::group_filter_ensures;

    let w = without_kind(s, kind);
    assert(forall|i: int| 0 <= i < w.len() ==> (#[trigger] w[i].kind()) != kind);
    lemma_of_kind_absent(w, kind);
}

} // verus!
