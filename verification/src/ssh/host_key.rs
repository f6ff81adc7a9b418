use vstd::prelude::*;
use vstd::string::*;

verus! {

/// Which host keys a connection trusts.
///
/// `TrustAll` accepts every key. It is there for development only: it gives
/// no protection against an impostor, and [`HostKeyPolicy::is_insecure`]
/// flags it so that a front end can warn about it.
#[derive(Debug, PartialEq, Eq)]
pub enum HostKeyPolicy {
    /// Accept whatever key the host presents. Insecure.
    TrustAll,
    /// Accept a key only if its fingerprint is one of these.
    Known(Vec<String>),
}

/// A [`HostKeyPolicy`] as a mathematical value.
pub enum HostKeyPolicyView {
    TrustAll,
    Known(Seq<Seq<char>>),
}

impl View for HostKeyPolicy {
    type V = HostKeyPolicyView;

    open spec fn view(&self) -> HostKeyPolicyView {
        match self {
            HostKeyPolicy::TrustAll => HostKeyPolicyView::TrustAll,
            HostKeyPolicy::Known(list) => HostKeyPolicyView::Known(list.deep_view()),
        }
    }
}

impl HostKeyPolicyView {
    /// The policy accepts a fingerprint if it trusts every key, or if the
    /// fingerprint is on its list.
    pub open spec fn accepts(self, fingerprint: Seq<char>) -> bool {
        match self {
            HostKeyPolicyView::TrustAll => true,
            HostKeyPolicyView::Known(list) => list.contains(fingerprint),
        }
    }

    pub open spec fn is_insecure(self) -> bool {
        self is TrustAll
    }
}

impl Clone for HostKeyPolicy {
    fn clone(&self) -> (r: HostKeyPolicy)
        ensures
            r@ == self@,
    {
        match self {
            HostKeyPolicy::TrustAll => HostKeyPolicy::TrustAll,
            HostKeyPolicy::Known(list) => {
                let mut copy: Vec<String> = Vec::new();
                let mut i: usize = 0;
                while i < list.len()
                    invariant
                        i <= list.len(),
                        copy.len() == i,
                        forall|k: int| 0 <= k < i ==> (#[trigger] copy@[k])@ == list@[k]@,
                    decreases list.len() - i,
                {
                    copy.push(list[i].clone());
                    i = i + 1;
                }
                assert(copy.deep_view() =~= list.deep_view());
                HostKeyPolicy::Known(copy)
            },
        }
    }
}

impl Default for HostKeyPolicy {
    /// The policy of a connection that was given none: trust every key.
    /// Replace it before the connection is used outside development.
    fn default() -> (p: HostKeyPolicy)
        ensures
            p@ == HostKeyPolicyView::TrustAll,
            p@.is_insecure(),
    {
        HostKeyPolicy::TrustAll
    }
}

impl HostKeyPolicy {
    /// Whether this policy verifies nothing.
    pub fn is_insecure(&self) -> (b: bool)
        ensures
            b == self@.is_insecure(),
    {
        match self {
            HostKeyPolicy::TrustAll => true,
            HostKeyPolicy::Known(_) => false,
        }
    }

    /// Whether the host key with this fingerprint is trusted.
    pub fn accepts(&self, fingerprint: &str) -> (b: bool)
        ensures
            b == self@.accepts(fingerprint@),
    {
        match self {
            HostKeyPolicy::TrustAll => true,
            HostKeyPolicy::Known(list) => {
                let wanted = fingerprint.to_owned();
                let ghost known = list.deep_view();
                let mut i: usize = 0;
                while i < list.len()
                    invariant
                        i <= list.len(),
                        known == list.deep_view(),
                        self@ == HostKeyPolicyView::Known(known),
                        wanted@ == fingerprint@,
                        forall|k: int| 0 <= k < i ==> known[k] != fingerprint@,
                    decreases list.len() - i,
                {
                    assert(known[i as int] == list@[i as int]@);
                    if list[i] == wanted {
                        assert(known[i as int] == fingerprint@);
                        return true;
                    }
                    i = i + 1;
                }
                false
            },
        }
    }
}

} // verus!
