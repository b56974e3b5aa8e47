//! Telemetry for script features the runtime does not implement yet.
//!
//! Each unimplemented feature a movie touches is recorded once: the
//! collection deduplicates encounters so that the warning for a given stub
//! is emitted a single time, however often script hits it.

use vstd::prelude::*;

verus! {

/// One unimplemented feature, named precisely enough to deduplicate.
#[derive(Clone, Debug)]
pub enum Stub {
    /// A native method of the legacy scripting API, optionally narrowed to
    /// the specific behaviour that is missing.
    Avm1Method { class: String, method: String, specifics: Option<String> },
    /// Anything else, described free-form.
    Other(String),
}

/// Whether two stubs name the same unimplemented feature.
pub open spec fn stub_eq(a: Stub, b: Stub) -> bool {
    match (a, b) {
        (
            Stub::Avm1Method { class: c1, method: m1, specifics: s1 },
            Stub::Avm1Method { class: c2, method: m2, specifics: s2 },
        ) => c1@ == c2@ && m1@ == m2@ && (match (s1, s2) {
            (Option::None, Option::None) => true,
            (Option::Some(x), Option::Some(y)) => x@ == y@,
            _ => false,
        }),
        (Stub::Other(t1), Stub::Other(t2)) => t1@ == t2@,
        _ => false,
    }
}

/// The one-line description of a stub, as the warning prints it.
pub open spec fn spec_message(s: Stub) -> Seq<char> {
    match s {
        Stub::Avm1Method { class, method, specifics: Option::None } => "AVM1 "@ + class@ + "."@
            + method@,
        Stub::Avm1Method { class, method, specifics: Option::Some(sp) } => "AVM1 "@ + class@ + "."@
            + method@ + " "@ + sp@,
        Stub::Other(text) => text@,
    }
}

impl Stub {
    /// Whether this stub names the same unimplemented feature as `other`.
    pub fn same(&self, other: &Stub) -> (b: bool)
        ensures
            b == stub_eq(*self, *other),
    {
        match (self, other) {
            (
                Stub::Avm1Method { class: c1, method: m1, specifics: s1 },
                Stub::Avm1Method { class: c2, method: m2, specifics: s2 },
            ) => {
                if !c1.eq(c2) {
                    return false;
                }
                if !m1.eq(m2) {
                    return false;
                }
                match (s1, s2) {
                    (Option::None, Option::None) => true,
                    (Option::Some(x), Option::Some(y)) => x.eq(y),
                    _ => false,
                }
            },
            (Stub::Other(t1), Stub::Other(t2)) => t1.eq(t2),
            _ => false,
        }
    }

    /// The one-line description of this stub.
    pub fn message(&self) -> (r: String)
        ensures
            r@ == spec_message(*self),
    {
        match self {
            Stub::Avm1Method { class, method, specifics } => {
                let mut out = String::from_str("AVM1 ");
                out.append(class.as_str());
                out.append(".");
                out.append(method.as_str());
                match specifics {
                    Option::Some(sp) => {
                        out.append(" ");
                        out.append(sp.as_str());
                    },
                    Option::None => {},
                }
                out
            },
            Stub::Other(text) => {
                let mut out = String::new();
                out.append(text.as_str());
                proof {
                    assert(out@ =~= text@);
                }
                out
            },
        }
    }
}

/// The set of stubs already reported, each held once.
pub struct StubCollection {
    inner: Vec<Stub>,
}

impl StubCollection {
    /// The recorded stubs, in the order they were first encountered.
    pub closed spec fn stubs(self) -> Seq<Stub> {
        self.inner@
    }

    /// Whether a stub naming the same feature is already recorded.
    pub open spec fn contains_stub(self, s: Stub) -> bool {
        exists|i: int| 0 <= i < self.stubs().len() && stub_eq(#[trigger] self.stubs()[i], s)
    }

    /// An empty collection.
    pub fn new() -> (c: StubCollection)
        ensures
            c.stubs() == Seq::<Stub>::empty(),
    {
        StubCollection { inner: Vec::new() }
    }

    /// Record a stub encounter. Returns whether this feature is seen for
    /// the first time — exactly then should a warning be emitted, and
    /// exactly then is the stub added to the collection.
    pub fn encounter(&mut self, stub: Stub) -> (fresh: bool)
        ensures
            fresh == !old(self).contains_stub(stub),
            fresh ==> final(self).stubs() == old(self).stubs().push(stub),
            !fresh ==> final(self).stubs() == old(self).stubs(),
    {
        let mut i: usize = 0;
        while i < self.inner.len()
            invariant
                0 <= i <= self.inner@.len(),
                forall|j: int| 0 <= j < i ==> !stub_eq(#[trigger] self.inner@[j], stub),
            decreases self.inner@.len() - i,
        {
            if self.inner[i].same(&stub) {
                proof {
                    assert(stub_eq(self.stubs()[i as int], stub));
                }
                return false;
            }
            i += 1;
        }
        self.inner.push(stub);
        true
    }

    /// The recorded stubs, for iteration.
    pub fn iter(&self) -> (r: &Vec<Stub>)
        ensures
            r@ == self.stubs(),
    {
        &self.inner
    }
}

} // verus!
