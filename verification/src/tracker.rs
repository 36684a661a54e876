//! Tracker for outstanding token-transfer requests: a map from request
//! identifier to the stage the request is in, used to classify replies.

use vstd::prelude::*;

use crate::pair::PairError;

verus! {

/// The stage an outbound token operation is in: each `Sending*` form moves to
/// the matching completed form, with the decoded boolean reply, when the
/// reply arrives.
#[derive(Clone, Copy, PartialEq, Eq, Structural, Debug)]
pub enum MessageStatus {
    SendingMsgToLockTokenA,
    TokenALocked(bool),
    SendingMsgToLockTokenB,
    TokenBLocked(bool),
    SendingMessageToReturnTokensA,
    TokensAReturnComplete(bool),
    SendingMsgToTransferTokenIn,
    TokenInTransferred(bool),
    SendingMsgToTransferTokenOut,
    TokenOutTransferred(bool),
    SendingMessageToReturnTokenIn,
    TokenInReturnComplete(bool),
    SendingMsgToUnlockTokenA,
    TokenAUnlocked(bool),
    SendingMsgToUnlockTokenB,
    TokenBUnlocked(bool),
    SendingTreasuryTokenA,
    TreasuryTokenASent(bool),
    SendingTreasuryTokenB,
    TreasuryTokenBSent(bool),
}

/// Each request identifier appears at most once.
pub open spec fn ids_unique(s: Seq<(u64, MessageStatus)>) -> bool {
    forall|i: int, j: int| 0 <= i < j < s.len() ==> s[i].0 != s[j].0
}

/// The status a tracker view holds for `id`, when present.
pub open spec fn status_of(s: Seq<(u64, MessageStatus)>, id: u64) -> Option<MessageStatus> {
    if exists|i: int| 0 <= i < s.len() && s[i].0 == id {
        Some(s[choose|i: int| 0 <= i < s.len() && s[i].0 == id].1)
    } else {
        None
    }
}

/// State machine which tracks the state of each in-flight token request.
pub struct MessageTracker {
    entries: Vec<(u64, MessageStatus)>,
}

impl View for MessageTracker {
    type V = Seq<(u64, MessageStatus)>;

    closed spec fn view(&self) -> Seq<(u64, MessageStatus)> {
        self.entries@
    }
}

impl MessageTracker {
    pub open spec fn wf(&self) -> bool {
        ids_unique(self@)
    }

    pub fn new() -> (r: MessageTracker)
        ensures
            r.wf(),
            r@ =~= Seq::<(u64, MessageStatus)>::empty(),
    {
        MessageTracker { entries: Vec::new() }
    }

    fn find(&self, id: u64) -> (r: Option<usize>)
        ensures
            r matches Some(i) ==> i < self@.len() && self@[i as int].0 == id,
            r is None ==> forall|i: int| 0 <= i < self@.len() ==> self@[i].0 != id,
    {
        let mut i: usize = 0;
        while i < self.entries.len()
            invariant
                i <= self@.len(),
                forall|j: int| 0 <= j < i ==> self@[j].0 != id,
            decreases self@.len() - i,
        {
            if self.entries[i].0 == id {
                return Some(i);
            }
            i = i + 1;
        }
        None
    }

    /// Start tracking the state of a request; an existing entry for the same
    /// identifier is overwritten.
    pub fn insert_msg_status(&mut self, msg_id: u64, status: MessageStatus)
        requires
            old(self).wf(),
        ensures
            final(self).wf(),
            status_of(final(self)@, msg_id) == Some(status),
            forall|other: u64|
                other != msg_id ==> status_of(final(self)@, other) == status_of(old(self)@, other),
    {
        match self.find(msg_id) {
            Some(i) => {
                let ghost prev = self@;
                self.entries.remove(i);
                self.entries.insert(i, (msg_id, status));
                proof {
                    assert(self@ =~= prev.update(i as int, (msg_id, status)));
                    lemma_status_of_at(self@, i as int);
                    lemma_status_of_update_other(prev, i as int, (msg_id, status));
                }
            },
            None => {
                let ghost prev = self@;
                self.entries.push((msg_id, status));
                proof {
                    lemma_status_of_at(self@, prev.len() as int);
                    lemma_status_of_push_other(prev, (msg_id, status));
                }
            },
        }
    }

    /// Drive the state machine further for a given request; nothing happens
    /// for an unknown identifier.
    pub fn update_msg_status(&mut self, msg_id: u64, new_status: MessageStatus)
        requires
            old(self).wf(),
        ensures
            final(self).wf(),
            status_of(old(self)@, msg_id) is Some ==> status_of(final(self)@, msg_id) == Some(
                new_status,
            ),
            status_of(old(self)@, msg_id) is None ==> final(self)@ == old(self)@,
            forall|other: u64|
                other != msg_id ==> status_of(final(self)@, other) == status_of(old(self)@, other),
    {
        match self.find(msg_id) {
            Some(i) => {
                proof {
                    lemma_status_of_at(self@, i as int);
                }
                let ghost prev = self@;
                self.entries.remove(i);
                self.entries.insert(i, (msg_id, new_status));
                proof {
                    assert(self@ =~= prev.update(i as int, (msg_id, new_status)));
                    lemma_status_of_at(self@, i as int);
                    lemma_status_of_update_other(prev, i as int, (msg_id, new_status));
                }
            },
            None => {},
        }
    }

    /// Current state of the tracked request, or `None` if it is unknown.
    pub fn get_msg_status(&self, msg_id: u64) -> (r: Option<MessageStatus>)
        requires
            self.wf(),
        ensures
            r == status_of(self@, msg_id),
    {
        match self.find(msg_id) {
            Some(i) => {
                proof {
                    lemma_status_of_at(self@, i as int);
                }
                Some(self.entries[i].1)
            },
            None => None,
        }
    }

    /// Stop tracking a request; returns the state it was in.
    pub fn remove_msg_status(&mut self, msg_id: u64) -> (r: Option<MessageStatus>)
        requires
            old(self).wf(),
        ensures
            final(self).wf(),
            r == status_of(old(self)@, msg_id),
            status_of(final(self)@, msg_id) is None,
            forall|other: u64|
                other != msg_id ==> status_of(final(self)@, other) == status_of(old(self)@, other),
    {
        match self.find(msg_id) {
            Some(i) => {
                proof {
                    lemma_status_of_at(self@, i as int);
                }
                let ghost prev = self@;
                let e = self.entries.remove(i);
                proof {
                    lemma_status_of_remove(prev, i as int);
                }
                Some(e.1)
            },
            None => None,
        }
    }
}

/// What a tracked status means for the operation that awaited the reply.
pub open spec fn spec_transfer_result(status: Option<MessageStatus>) -> Result<(), PairError> {
    match status {
        None => Err(PairError::MessageNotFound),
        Some(st) => match st {
            MessageStatus::TokenALocked(ok) | MessageStatus::TokenBLocked(ok)
            | MessageStatus::TokensAReturnComplete(ok) | MessageStatus::TokenInTransferred(ok)
            | MessageStatus::TokenOutTransferred(ok) | MessageStatus::TokenInReturnComplete(ok)
            | MessageStatus::TokenAUnlocked(ok) | MessageStatus::TokenBUnlocked(ok)
            | MessageStatus::TreasuryTokenASent(ok) | MessageStatus::TreasuryTokenBSent(ok) => if ok {
                Ok(())
            } else {
                Err(PairError::TokenTransferFailed)
            },
            _ => Err(PairError::InvalidMessageStatus),
        },
    }
}

/// Result of the transfer behind a tracked request: failure when the request
/// is unknown or still in flight, otherwise the decoded reply.
pub fn fetch_transfer_result(msg_tracker: &MessageTracker, msg_id: u64) -> (r: Result<
    (),
    PairError,
>)
    requires
        msg_tracker.wf(),
    ensures
        r == spec_transfer_result(status_of(msg_tracker@, msg_id)),
{
    let status = match msg_tracker.get_msg_status(msg_id) {
        Some(st) => st,
        None => {
            return Err(PairError::MessageNotFound);
        },
    };
    let success = match status {
        MessageStatus::TokenALocked(ok) => ok,
        MessageStatus::TokenBLocked(ok) => ok,
        MessageStatus::TokensAReturnComplete(ok) => ok,
        MessageStatus::TokenInTransferred(ok) => ok,
        MessageStatus::TokenOutTransferred(ok) => ok,
        MessageStatus::TokenInReturnComplete(ok) => ok,
        MessageStatus::TokenAUnlocked(ok) => ok,
        MessageStatus::TokenBUnlocked(ok) => ok,
        MessageStatus::TreasuryTokenASent(ok) => ok,
        MessageStatus::TreasuryTokenBSent(ok) => ok,
        _ => {
            return Err(PairError::InvalidMessageStatus);
        },
    };
    if success {
        Ok(())
    } else {
        Err(PairError::TokenTransferFailed)
    }
}

proof fn lemma_status_of_at(s: Seq<(u64, MessageStatus)>, i: int)
    requires
        ids_unique(s),
        0 <= i < s.len(),
    ensures
        status_of(s, s[i].0) == Some(s[i].1),
{
    let id = s[i].0;
    assert(exists|j: int| 0 <= j < s.len() && s[j].0 == id);
    let j = choose|j: int| 0 <= j < s.len() && s[j].0 == id;
    assert(j == i);
}

proof fn lemma_status_of_update_other(s: Seq<(u64, MessageStatus)>, i: int, e: (u64, MessageStatus))
    requires
        ids_unique(s),
        0 <= i < s.len(),
        s[i].0 == e.0,
    ensures
        forall|other: u64| other != e.0 ==> status_of(s.update(i, e), other) == status_of(s, other),
{
    let t = s.update(i, e);
    assert forall|other: u64| other != e.0 implies status_of(t, other) == status_of(s, other) by {
        if exists|j: int| 0 <= j < s.len() && s[j].0 == other {
            let j = choose|j: int| 0 <= j < s.len() && s[j].0 == other;
            assert(t[j].0 == other);
            assert(exists|k: int| 0 <= k < t.len() && t[k].0 == other);
            let k = choose|k: int| 0 <= k < t.len() && t[k].0 == other;
            assert(k != i);
            assert(s[k].0 == other);
            assert(k == j);
        } else {
            assert(forall|k: int| 0 <= k < t.len() ==> t[k].0 != other);
        }
    }
}

proof fn lemma_status_of_push_other(s: Seq<(u64, MessageStatus)>, e: (u64, MessageStatus))
    requires
        ids_unique(s),
    ensures
        forall|other: u64| other != e.0 ==> status_of(s.push(e), other) == status_of(s, other),
{
    let t = s.push(e);
    assert forall|other: u64| other != e.0 implies status_of(t, other) == status_of(s, other) by {
        if exists|j: int| 0 <= j < s.len() && s[j].0 == other {
            let j = choose|j: int| 0 <= j < s.len() && s[j].0 == other;
            assert(t[j].0 == other);
            assert(exists|k: int| 0 <= k < t.len() && t[k].0 == other);
            let k = choose|k: int| 0 <= k < t.len() && t[k].0 == other;
            assert(k != s.len());
            assert(s[k].0 == other);
            assert(k == j);
        } else {
            assert(forall|k: int| 0 <= k < t.len() ==> t[k].0 != other);
        }
    }
}

proof fn lemma_status_of_remove(s: Seq<(u64, MessageStatus)>, i: int)
    requires
        ids_unique(s),
        0 <= i < s.len(),
    ensures
        status_of(s.remove(i), s[i].0) is None,
        forall|other: u64| other != s[i].0 ==> status_of(s.remove(i), other) == status_of(s, other),
        ids_unique(s.remove(i)),
{
    let t = s.remove(i);
    let id = s[i].0;
    assert forall|k: int| 0 <= k < t.len() implies t[k].0 != id by {
        if k < i {
            assert(t[k] == s[k]);
        } else {
            assert(t[k] == s[k + 1]);
        }
    }
    assert forall|other: u64| other != id implies status_of(t, other) == status_of(s, other) by {
        if exists|j: int| 0 <= j < s.len() && s[j].0 == other {
            let j = choose|j: int| 0 <= j < s.len() && s[j].0 == other;
            let jt = if j < i {
                j
            } else {
                j - 1
            };
            assert(t[jt].0 == other);
            assert(exists|k: int| 0 <= k < t.len() && t[k].0 == other);
            let k = choose|k: int| 0 <= k < t.len() && t[k].0 == other;
            if k < i {
                assert(s[k].0 == other);
                assert(k == j);
            } else {
                assert(s[k + 1].0 == other);
                assert(k + 1 == j);
            }
        } else {
            assert forall|k: int| 0 <= k < t.len() implies t[k].0 != other by {
                if k < i {
                    assert(t[k] == s[k]);
                } else {
                    assert(t[k] == s[k + 1]);
                }
            }
        }
    }
    assert forall|a: int, b: int| 0 <= a < b < t.len() implies t[a].0 != t[b].0 by {
        let sa = if a < i {
            a
        } else {
            a + 1
        };
        let sb = if b < i {
            b
        } else {
            b + 1
        };
        assert(t[a] == s[sa]);
        assert(t[b] == s[sb]);
    }
}

} // verus!
