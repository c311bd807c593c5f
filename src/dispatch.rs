//! Correlation of replies with requests on one connection, and the reply bit
//! of message-kind tags.
use crate::error::{LairError, LairResult};
use vstd::prelude::*;

verus! {

/// The bit that marks a message-kind tag as the reply to the request kind
/// without it.
pub const REPLY_BIT: u32 = 0x8000_0000;

/// Whether a tag names a reply.
pub fn is_reply(tag: u32) -> (r: bool)
    ensures
        r == (tag & REPLY_BIT != 0),
{
    tag & REPLY_BIT != 0
}

/// The reply tag of a request tag.
pub fn reply_tag(request: u32) -> (r: u32)
    ensures
        r == request | REPLY_BIT,
{
    request | REPLY_BIT
}

/// The request tag that a reply tag answers.
pub fn request_tag(reply: u32) -> (r: u32)
    ensures
        r == reply & !REPLY_BIT,
{
    reply & !REPLY_BIT
}

/// A request tag's reply is a reply, and it answers that request.
pub proof fn lemma_reply_tag_round_trip(request: u32)
    requires
        request & REPLY_BIT == 0,
    ensures
        (request | REPLY_BIT) & REPLY_BIT != 0,
        (request | REPLY_BIT) & !REPLY_BIT == request,
{
    assert((request | 0x8000_0000u32) & 0x8000_0000u32 != 0) by (bit_vector);
    assert(request & 0x8000_0000u32 == 0 ==> (request | 0x8000_0000u32) & !0x8000_0000u32
        == request) by (bit_vector);
}

/// The table of requests that await a reply on one connection.
pub struct Correlator {
    next_id: u64,
    pending: Vec<u64>,
}

impl Correlator {
    /// The id the next request gets.
    pub closed spec fn next(&self) -> u64 {
        self.next_id
    }

    /// The ids that await a reply.
    pub closed spec fn waiting(&self) -> Seq<u64> {
        self.pending@
    }

    /// Ids are handed out in increasing order, each waits at most once, and
    /// every waiting id was handed out already.
    pub open spec fn wf(&self) -> bool {
        &&& self.waiting().no_duplicates()
        &&& forall|i: int| 0 <= i < self.waiting().len() ==> #[trigger] self.waiting()[i] < self.next()
    }

    /// A table with nothing waiting; the first id is 1.
    pub fn new() -> (r: Self)
        ensures
            r.wf(),
            r.next() == 1,
            r.waiting() == Seq::<u64>::empty(),
    {
        Correlator { next_id: 1, pending: Vec::new() }
    }

    /// Hand out a fresh id and mark it as waiting. Fails with
    /// `ProtocolViolation` once the id space is used up.
    pub fn register(&mut self) -> (r: LairResult<u64>)
        requires
            old(self).wf(),
        ensures
            final(self).wf(),
            old(self).next() < u64::MAX ==> {
                &&& r == Ok::<u64, LairError>(old(self).next())
                &&& !old(self).waiting().contains(old(self).next())
                &&& final(self).next() == old(self).next() + 1
                &&& final(self).waiting() == old(self).waiting().push(old(self).next())
            },
            old(self).next() == u64::MAX ==> r == Err::<u64, LairError>(
                LairError::ProtocolViolation,
            ) && final(self).next() == old(self).next() && final(self).waiting() == old(self).waiting(),
    {
        if self.next_id == u64::MAX {
            return Err(LairError::ProtocolViolation);
        }
        let id = self.next_id;
        assert(!self.pending@.contains(id)) by {
            if self.pending@.contains(id) {
                let k = choose|k: int| 0 <= k < self.pending@.len() && self.pending@[k] == id;
                assert(self.waiting()[k] < self.next());
            }
        }
        self.pending.push(id);
        self.next_id = id + 1;
        assert(forall|i: int| 0 <= i < self.waiting().len() ==> #[trigger] self.waiting()[i] < self.next()) by {
            assert forall|i: int| 0 <= i < self.waiting().len() implies #[trigger] self.waiting()[i] < self.next() by {
                if i < self.waiting().len() - 1 {
                    assert(old(self).waiting()[i] < old(self).next());
                }
            }
        }
        Ok(id)
    }

    /// Retire a waiting id when its reply arrives. Succeeds exactly when the
    /// id was waiting; a reply to any other id is a protocol violation.
    pub fn resolve(&mut self, id: u64) -> (r: LairResult<()>)
        requires
            old(self).wf(),
        ensures
            final(self).wf(),
            final(self).next() == old(self).next(),
            r is Ok <==> old(self).waiting().contains(id),
            r is Err ==> r == Err::<(), LairError>(LairError::ProtocolViolation) && final(self).waiting() == old(self).waiting(),
            r is Ok ==> !final(self).waiting().contains(id) && final(self).waiting().len() + 1
                == old(self).waiting().len() && final(self).waiting().to_set() == old(self).waiting().to_set().remove(id),
    {
        let mut i: usize = 0;
        while i < self.pending.len()
            invariant
                i <= self.pending@.len(),
                self.pending@ == old(self).waiting(),
                self.next_id == old(self).next(),
                old(self).wf(),
                forall|j: int| 0 <= j < i ==> self.pending@[j] != id,
            decreases self.pending@.len() - i,
        {
            if self.pending[i] == id {
                let ghost before = self.pending@;
                self.pending.remove(i);
                proof {
                    let after = self.pending@;
                    assert(after =~= before.remove(i as int));
                    assert(after.no_duplicates()) by {
                        assert forall|a: int, b: int|
                            0 <= a < after.len() && 0 <= b < after.len() && a != b implies after[a]
                            != after[b] by {
                            let a2 = if a < i { a } else { a + 1 };
                            let b2 = if b < i { b } else { b + 1 };
                            assert(after[a] == before[a2]);
                            assert(after[b] == before[b2]);
                            assert(a2 != b2);
                            assert(before.no_duplicates());
                        }
                    }
                    assert forall|k: int| 0 <= k < after.len() implies #[trigger] after[k]
                        < self.next_id by {
                        let k2 = if k < i { k } else { k + 1 };
                        assert(after[k] == before[k2]);
                        assert(old(self).waiting()[k2] < old(self).next());
                    }
                    assert(!after.contains(id)) by {
                        if after.contains(id) {
                            let k = choose|k: int| 0 <= k < after.len() && after[k] == id;
                            let k2 = if k < i { k } else { k + 1 };
                            assert(after[k] == before[k2]);
                        }
                    }
                    assert(after.to_set() =~= before.to_set().remove(id)) by {
                        assert forall|x: u64| after.to_set().contains(x) implies before.to_set().remove(id).contains(x) by {
                            let k = choose|k: int| 0 <= k < after.len() && after[k] == x;
                            let k2 = if k < i { k } else { k + 1 };
                            assert(after[k] == before[k2]);
                        }
                        assert forall|x: u64| before.to_set().remove(id).contains(x) implies after.to_set().contains(x) by {
                            let k = choose|k: int| 0 <= k < before.len() && before[k] == x;
                            assert(k != i);
                            let k2 = if k < i { k } else { k - 1 };
                            assert(after[k2] == before[k]);
                        }
                    }
                }
                return Ok(());
            }
            i = i + 1;
        }
        Err(LairError::ProtocolViolation)
    }
}

} // verus!
