use vstd::prelude::*;

use crate::strutil::bytes_eq;

verus! {

/// A terminal operation the host is asked to carry out.
#[derive(Clone, Debug, PartialEq, Eq)]
pub enum Action {
    Keep,
    FileInto { folder: Vec<u8>, copy: bool, create: bool },
    Redirect { address: Vec<u8>, copy: bool },
    Discard,
    Reject { ereject: bool, reason: Vec<u8> },
}

/// Whether an action cancels the implicit keep.
pub open spec fn is_canceling(a: Action) -> bool {
    match a {
        Action::Keep => true,
        Action::FileInto { .. } => true,
        Action::Redirect { .. } => true,
        Action::Discard => true,
        Action::Reject { .. } => true,
    }
}

/// Whether any executed action cancels the implicit keep.
pub open spec fn has_canceling(s: Seq<Action>) -> bool {
    exists|i: int| 0 <= i < s.len() && is_canceling(#[trigger] s[i])
}

/// Whether recording `a` would repeat a delivery already on the list:
/// a second `keep`, or a second delivery to the same folder or address.
pub open spec fn duplicate_of(s: Seq<Action>, a: Action) -> bool {
    match a {
        Action::Keep => exists|i: int| 0 <= i < s.len() && (#[trigger] s[i]) is Keep,
        Action::FileInto { folder, .. } => exists|i: int|
            0 <= i < s.len() && ((#[trigger] s[i]) matches Action::FileInto { folder: f, .. }
                && f@ == folder@),
        Action::Redirect { address, .. } => exists|i: int|
            0 <= i < s.len() && ((#[trigger] s[i]) matches Action::Redirect { address: x, .. }
                && x@ == address@),
        Action::Discard => false,
        Action::Reject { .. } => false,
    }
}

/// The same action, payloads compared by content.
pub open spec fn action_equiv(a: Action, b: Action) -> bool {
    match (a, b) {
        (Action::Keep, Action::Keep) => true,
        (
            Action::FileInto { folder: f1, copy: c1, create: r1 },
            Action::FileInto { folder: f2, copy: c2, create: r2 },
        ) => f1@ == f2@ && c1 == c2 && r1 == r2,
        (
            Action::Redirect { address: a1, copy: c1 },
            Action::Redirect { address: a2, copy: c2 },
        ) => a1@ == a2@ && c1 == c2,
        (Action::Discard, Action::Discard) => true,
        (
            Action::Reject { ereject: e1, reason: r1 },
            Action::Reject { ereject: e2, reason: r2 },
        ) => e1 == e2 && r1@ == r2@,
        _ => false,
    }
}

/// The recorded list with the `discard` entries dropped, from position `i`.
pub open spec fn delivered_from(s: Seq<Action>, i: int) -> Seq<Action>
    decreases s.len() - i,
{
    if i < 0 || i >= s.len() {
        Seq::empty()
    } else if s[i] is Discard {
        delivered_from(s, i + 1)
    } else {
        seq![s[i]] + delivered_from(s, i + 1)
    }
}

/// The executed actions, in order, with duplicate deliveries collapsed and
/// `discard` dropped from the delivered list.
pub struct ActionList {
    pub actions: Vec<Action>,
}

impl ActionList {
    pub fn new() -> (r: Self)
        ensures
            r.actions@.len() == 0,
    {
        ActionList { actions: Vec::new() }
    }

    /// Whether a `keep` was already recorded.
    fn has_keep(&self) -> (r: bool)
        ensures
            r == exists|i: int|
                0 <= i < self.actions@.len() && (#[trigger] self.actions@[i]) is Keep,
    {
        let mut i: usize = 0;
        while i < self.actions.len()
            invariant
                i <= self.actions@.len(),
                forall|j: int| 0 <= j < i ==> !((#[trigger] self.actions@[j]) is Keep),
            decreases self.actions@.len() - i,
        {
            if matches!(self.actions[i], Action::Keep) {
                return true;
            }
            i += 1;
        }
        false
    }

    /// Whether a `fileinto` to this folder was already recorded.
    fn has_fileinto(&self, folder: &Vec<u8>) -> (r: bool)
        ensures
            r == exists|i: int|
                0 <= i < self.actions@.len() && ((#[trigger] self.actions@[i])
                    matches Action::FileInto { folder: f, .. } && f@ == folder@),
            r ==> has_canceling(self.actions@),
    {
        let mut i: usize = 0;
        while i < self.actions.len()
            invariant
                i <= self.actions@.len(),
                forall|j: int|
                    0 <= j < i ==> !((#[trigger] self.actions@[j]) matches Action::FileInto {
                        folder: f,
                        ..
                    } && f@ == folder@),
            decreases self.actions@.len() - i,
        {
            if let Action::FileInto { folder: f, .. } = &self.actions[i] {
                if bytes_eq(f, folder) {
                    proof {
                        assert(is_canceling(self.actions@[i as int]));
                    }
                    return true;
                }
            }
            i += 1;
        }
        false
    }

    /// Whether a `redirect` to this address was already recorded.
    fn has_redirect(&self, address: &Vec<u8>) -> (r: bool)
        ensures
            r == exists|i: int|
                0 <= i < self.actions@.len() && ((#[trigger] self.actions@[i])
                    matches Action::Redirect { address: x, .. } && x@ == address@),
            r ==> has_canceling(self.actions@),
    {
        let mut i: usize = 0;
        while i < self.actions.len()
            invariant
                i <= self.actions@.len(),
                forall|j: int|
                    0 <= j < i ==> !((#[trigger] self.actions@[j]) matches Action::Redirect {
                        address: x,
                        ..
                    } && x@ == address@),
            decreases self.actions@.len() - i,
        {
            if let Action::Redirect { address: a, .. } = &self.actions[i] {
                if bytes_eq(a, address) {
                    proof {
                        assert(is_canceling(self.actions@[i as int]));
                    }
                    return true;
                }
            }
            i += 1;
        }
        false
    }

    /// Records an executed action. `keep` is idempotent; a repeated delivery
    /// to the same folder or address collapses into the first.
    pub fn add(&mut self, a: Action)
        ensures
            final(self).actions@ == (if duplicate_of(old(self).actions@, a) {
                old(self).actions@
            } else {
                old(self).actions@.push(a)
            }),
            has_canceling(final(self).actions@) <==> (has_canceling(old(self).actions@)
                || is_canceling(a)),
    {
        let duplicate = match &a {
            Action::Keep => self.has_keep(),
            Action::FileInto { folder, .. } => self.has_fileinto(folder),
            Action::Redirect { address, .. } => self.has_redirect(address),
            Action::Discard => false,
            Action::Reject { .. } => false,
        };
        proof {
            assert(is_canceling(a));
        }
        if duplicate {
            return ;
        }
        let ghost before = self.actions@;
        self.actions.push(a);
        proof {
            assert(self.actions@[self.actions@.len() - 1] == a);
            assert(has_canceling(self.actions@));
        }
    }

    /// The list the host receives: `discard` entries are dropped, and when
    /// nothing canceled the implicit keep the whole delivery is one `keep`.
    pub fn finalize(&self) -> (r: (Vec<Action>, bool))
        ensures
            r.1 == !has_canceling(self.actions@),
            r.1 ==> r.0@.len() == 1 && r.0@[0] is Keep,
            !r.1 ==> r.0@.len() == delivered_from(self.actions@, 0).len() && forall|j: int|
                0 <= j < r.0@.len() ==> action_equiv(
                    #[trigger] r.0@[j],
                    delivered_from(self.actions@, 0)[j],
                ),
    {
        let implicit = !self.has_any();
        if implicit {
            let mut out: Vec<Action> = Vec::new();
            out.push(Action::Keep);
            (out, true)
        } else {
            let mut out: Vec<Action> = Vec::new();
            let mut i: usize = 0;
            let ghost mut dpre: Seq<Action> = Seq::empty();
            while i < self.actions.len()
                invariant
                    i <= self.actions@.len(),
                    delivered_from(self.actions@, 0) == dpre + delivered_from(
                        self.actions@,
                        i as int,
                    ),
                    out@.len() == dpre.len(),
                    forall|j: int|
                        0 <= j < out@.len() ==> action_equiv(#[trigger] out@[j], dpre[j]),
                decreases self.actions@.len() - i,
            {
                match &self.actions[i] {
                    Action::Discard => {},
                    Action::Keep => {
                        out.push(Action::Keep);
                        proof {
                            dpre = dpre.push(self.actions@[i as int]);
                        }
                    },
                    Action::FileInto { folder, copy, create } => {
                        out.push(
                            Action::FileInto {
                                folder: crate::lexer::clone_bytes(folder),
                                copy: *copy,
                                create: *create,
                            },
                        );
                        proof {
                            dpre = dpre.push(self.actions@[i as int]);
                        }
                    },
                    Action::Redirect { address, copy } => {
                        out.push(
                            Action::Redirect {
                                address: crate::lexer::clone_bytes(address),
                                copy: *copy,
                            },
                        );
                        proof {
                            dpre = dpre.push(self.actions@[i as int]);
                        }
                    },
                    Action::Reject { ereject, reason } => {
                        out.push(
                            Action::Reject {
                                ereject: *ereject,
                                reason: crate::lexer::clone_bytes(reason),
                            },
                        );
                        proof {
                            dpre = dpre.push(self.actions@[i as int]);
                        }
                    },
                }
                proof {
                    assert(delivered_from(self.actions@, i as int) == (if self.actions@[i as int]
                        is Discard {
                        delivered_from(self.actions@, i + 1)
                    } else {
                        seq![self.actions@[i as int]] + delivered_from(self.actions@, i + 1)
                    }));
                    if !(self.actions@[i as int] is Discard) {
                        assert(dpre.drop_last() + delivered_from(self.actions@, i as int)
                            =~= dpre + delivered_from(self.actions@, i + 1));
                    }
                }
                i += 1;
            }
            proof {
                assert(delivered_from(self.actions@, self.actions@.len() as int) =~= Seq::empty());
                assert(delivered_from(self.actions@, 0) =~= dpre);
            }
            (out, false)
        }
    }

    /// Whether any canceling action ran.
    fn has_any(&self) -> (r: bool)
        ensures
            r == has_canceling(self.actions@),
    {
        if self.actions.len() > 0 {
            proof {
                assert(is_canceling(self.actions@[0]));
            }
            true
        } else {
            false
        }
    }
}

} // verus!
