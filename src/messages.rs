use crate::api::ApiError;
use vstd::prelude::*;

verus! {

/// One external call of a pass over the listing's messages.
#[derive(Clone, Copy, Debug, PartialEq, Eq, Structural)]
pub enum MessageOp {
    /// Replace the content of an owned message with page `page`.
    Edit { page: usize, message: u64 },
    /// Send page `page` as a new message.
    Create { page: usize },
    /// Delete an owned message that no page needs any more.
    Delete { message: u64 },
}

/// The call at position `i` of a pass: the pages and the owned messages are
/// zipped by position; a page without a message is created and a message
/// without a page is deleted.
pub open spec fn op_at(existing: Seq<u64>, pages: nat, i: int) -> MessageOp {
    if i < existing.len() && i < pages {
        MessageOp::Edit { page: i as usize, message: existing[i] }
    } else if i < pages {
        MessageOp::Create { page: i as usize }
    } else {
        MessageOp::Delete { message: existing[i] }
    }
}

pub open spec fn max_nat(a: nat, b: nat) -> nat {
    if a < b {
        b
    } else {
        a
    }
}

pub open spec fn min_nat(a: nat, b: nat) -> nat {
    if a < b {
        a
    } else {
        b
    }
}

/// All calls of a pass, in the order in which they are made.
pub open spec fn message_ops(existing: Seq<u64>, pages: nat) -> Seq<MessageOp> {
    Seq::new(max_nat(existing.len(), pages), |i: int| op_at(existing, pages, i))
}

/// The state of a pass.
pub struct MessagePassView {
    /// The owned messages when the pass began, oldest first.
    pub existing: Seq<u64>,
    /// The number of planned pages.
    pub pages: nat,
    /// How many calls have succeeded.
    pub done: nat,
    /// The messages created so far, in order.
    pub created: Seq<u64>,
    /// The failure that stopped the pass, if any.
    pub failure: Option<ApiError>,
}

impl MessagePassView {
    pub open spec fn total(self) -> nat {
        max_nat(self.existing.len(), self.pages)
    }

    /// How many owned messages are edited in place.
    pub open spec fn kept(self) -> nat {
        min_nat(self.existing.len(), self.pages)
    }

    pub open spec fn well_formed(self) -> bool {
        &&& self.done <= self.total()
        &&& self.created.len() == if self.done > self.existing.len() {
            self.done - self.existing.len()
        } else {
            0
        }
    }

    /// The messages that the pass owns now: those edited or not yet
    /// reached, then those it created. A deleted one is no longer owned.
    /// Where the messages that are still owned resume after the edited
    /// ones: deletes remove the owned messages from `kept` on, in order.
    pub open spec fn resume(self) -> nat {
        min_nat(max_nat(self.done, self.kept()), self.existing.len())
    }

    pub open spec fn published(self) -> Seq<u64> {
        self.existing.take(self.kept() as int) + self.existing.subrange(
            self.resume() as int,
            self.existing.len() as int,
        ) + self.created
    }

    /// The call to make next, if the pass goes on.
    pub open spec fn next(self) -> Option<MessageOp> {
        if self.failure is None && self.done < self.total() {
            Some(op_at(self.existing, self.pages, self.done as int))
        } else {
            None
        }
    }

    pub open spec fn is_complete(self) -> bool {
        self.failure is None && self.done == self.total()
    }
}

/// One reconciliation pass of the listing's messages against the planned
/// pages. The caller makes each call that `next_op` names and reports its
/// result; the pass then says which identity record to store or drop.
pub struct MessagePass {
    existing: Vec<u64>,
    page_count: usize,
    done: usize,
    created: Vec<u64>,
    failure: Option<ApiError>,
}

impl View for MessagePass {
    type V = MessagePassView;

    closed spec fn view(&self) -> MessagePassView {
        MessagePassView {
            existing: self.existing@,
            pages: self.page_count as nat,
            done: self.done as nat,
            created: self.created@,
            failure: self.failure,
        }
    }
}

/// Lists every call of a pass, in order.
pub fn plan_message_ops(existing: &Vec<u64>, page_count: usize) -> (r: Vec<MessageOp>)
    ensures
        r@ == message_ops(existing@, page_count as nat),
{
    let total = if existing.len() < page_count {
        page_count
    } else {
        existing.len()
    };
    let mut ops: Vec<MessageOp> = Vec::new();
    let mut i: usize = 0;
    while i < total
        invariant
            i <= total,
            total == max_nat(existing@.len(), page_count as nat),
            ops@ == message_ops(existing@, page_count as nat).take(i as int),
        decreases total - i,
    {
        let op = if i < existing.len() && i < page_count {
            MessageOp::Edit { page: i, message: existing[i] }
        } else if i < page_count {
            MessageOp::Create { page: i }
        } else {
            MessageOp::Delete { message: existing[i] }
        };
        ops.push(op);
        proof {
            assert(ops@ =~= message_ops(existing@, page_count as nat).take(i + 1));
        }
        i = i + 1;
    }
    proof {
        assert(ops@ =~= message_ops(existing@, page_count as nat));
    }
    ops
}

impl MessagePass {
    /// Starts a pass over the owned messages, oldest first, for
    /// `page_count` pages. Zero pages tear the whole listing down.
    pub fn new(existing: Vec<u64>, page_count: usize) -> (r: MessagePass)
        ensures
            r@.well_formed(),
            r@.existing == existing@,
            r@.pages == page_count,
            r@.done == 0,
            r@.created == Seq::<u64>::empty(),
            r@.failure is None,
    {
        MessagePass { existing, page_count, done: 0, created: Vec::new(), failure: None }
    }

    /// The call to make next; `None` once the pass is complete or stopped.
    pub fn next_op(&self) -> (r: Option<MessageOp>)
        requires
            self@.well_formed(),
        ensures
            r == self@.next(),
    {
        if self.failure.is_some() {
            return None;
        }
        let total = if self.existing.len() < self.page_count {
            self.page_count
        } else {
            self.existing.len()
        };
        if self.done >= total {
            None
        } else if self.done < self.existing.len() && self.done < self.page_count {
            Some(MessageOp::Edit { page: self.done, message: self.existing[self.done] })
        } else if self.done < self.page_count {
            Some(MessageOp::Create { page: self.done })
        } else {
            Some(MessageOp::Delete { message: self.existing[self.done] })
        }
    }

    /// Whether every call has succeeded.
    pub fn is_complete(&self) -> (r: bool)
        requires
            self@.well_formed(),
        ensures
            r == self@.is_complete(),
    {
        self.failure.is_none() && self.done == if self.existing.len() < self.page_count {
            self.page_count
        } else {
            self.existing.len()
        }
    }

    /// The failure that stopped the pass, if any.
    pub fn failure(&self) -> (r: Option<ApiError>)
        ensures
            r == self@.failure,
    {
        self.failure
    }

    /// The messages that the pass owns now, in page order.
    pub fn published(&self) -> (r: Vec<u64>)
        requires
            self@.well_formed(),
        ensures
            r@ == self@.published(),
    {
        let m = self.existing.len();
        let kept = if m < self.page_count {
            m
        } else {
            self.page_count
        };
        let skip_to = if self.done < kept {
            kept
        } else if self.done > m {
            m
        } else {
            self.done
        };
        let mut r: Vec<u64> = Vec::new();
        let mut i: usize = 0;
        while i < kept
            invariant
                i <= kept,
                kept == self@.kept(),
                r@ == self.existing@.take(i as int),
            decreases kept - i,
        {
            r.push(self.existing[i]);
            proof {
                assert(r@ =~= self.existing@.take(i + 1));
            }
            i = i + 1;
        }
        let mut j: usize = skip_to;
        while j < m
            invariant
                kept <= skip_to <= j <= m,
                m == self.existing@.len(),
                kept == self@.kept(),
                skip_to == self@.resume(),
                r@ == self.existing@.take(kept as int) + self.existing@.subrange(
                    skip_to as int,
                    j as int,
                ),
            decreases m - j,
        {
            r.push(self.existing[j]);
            proof {
                assert(r@ =~= self.existing@.take(kept as int) + self.existing@.subrange(
                    skip_to as int,
                    j + 1,
                ));
            }
            j = j + 1;
        }
        let mut k: usize = 0;
        while k < self.created.len()
            invariant
                k <= self.created@.len(),
                r@ == self.existing@.take(kept as int) + self.existing@.subrange(
                    skip_to as int,
                    m as int,
                ) + self.created@.take(k as int),
            decreases self.created@.len() - k,
        {
            r.push(self.created[k]);
            proof {
                assert(r@ =~= self.existing@.take(kept as int) + self.existing@.subrange(
                    skip_to as int,
                    m as int,
                ) + self.created@.take(k + 1));
            }
            k = k + 1;
        }
        proof {
            assert(self.created@.take(k as int) =~= self.created@);
        }
        r
    }

    /// Reports the result of the pending edit. Any failure stops the pass.
    pub fn record_edit(&mut self, result: Result<(), ApiError>) -> (r: Result<(), ApiError>)
        requires
            old(self)@.well_formed(),
            old(self)@.next() matches Some(MessageOp::Edit { .. }),
        ensures
            final(self)@.well_formed(),
            r == result,
            final(self)@ == (match result {
                Ok(()) => MessagePassView { done: old(self)@.done + 1, ..old(self)@ },
                Err(e) => MessagePassView { failure: Some(e), ..old(self)@ },
            }),
    {
        match result {
            Ok(()) => {
                self.done = self.done + 1;
            },
            Err(e) => {
                self.failure = Some(e);
            },
        }
        result
    }

    /// Reports the result of the pending create, with the new message on
    /// success, which the caller then records as owned. Any failure stops
    /// the pass.
    pub fn record_create(&mut self, result: Result<u64, ApiError>) -> (r: Result<u64, ApiError>)
        requires
            old(self)@.well_formed(),
            old(self)@.next() matches Some(MessageOp::Create { .. }),
        ensures
            final(self)@.well_formed(),
            r == result,
            final(self)@ == (match result {
                Ok(id) => MessagePassView {
                    done: old(self)@.done + 1,
                    created: old(self)@.created.push(id),
                    ..old(self)@
                },
                Err(e) => MessagePassView { failure: Some(e), ..old(self)@ },
            }),
    {
        match result {
            Ok(id) => {
                self.done = self.done + 1;
                self.created.push(id);
            },
            Err(e) => {
                self.failure = Some(e);
            },
        }
        result
    }

    /// Reports the result of the pending delete. A message that is already
    /// gone counts as deleted; either way the caller drops the returned
    /// message from its records. Any other failure stops the pass.
    pub fn record_delete(&mut self, result: Result<(), ApiError>) -> (r: Result<u64, ApiError>)
        requires
            old(self)@.well_formed(),
            old(self)@.next() matches Some(MessageOp::Delete { .. }),
        ensures
            final(self)@.well_formed(),
            match result {
                Ok(()) | Err(ApiError::NotFound) => {
                    &&& r == Ok::<u64, ApiError>(old(self)@.existing[old(self)@.done as int])
                    &&& final(self)@ == MessagePassView { done: old(self)@.done + 1, ..old(self)@ }
                },
                Err(e) => {
                    &&& r == Err::<u64, ApiError>(e)
                    &&& final(self)@ == MessagePassView { failure: Some(e), ..old(self)@ }
                },
            },
    {
        match result {
            Ok(()) | Err(ApiError::NotFound) => {
                assert(self.done < self.existing.len());
                let message = self.existing[self.done];
                self.done = self.done + 1;
                Ok(message)
            },
            Err(e) => {
                self.failure = Some(e);
                Err(e)
            },
        }
    }
}

/// After a pass in which every call succeeded, the owned messages are one
/// for each page, the edited ones still first and in place; a second pass
/// on them with the same pages only edits, and with no pages makes no call.
pub proof fn lemma_complete_pass(v: MessagePassView)
    requires
        v.well_formed(),
        v.is_complete(),
    ensures
        v.published().len() == v.pages,
        v.published().take(v.kept() as int) == v.existing.take(v.kept() as int),
        v.published().skip(v.kept() as int) == v.created,
        forall|i: int|
            0 <= i < message_ops(v.published(), v.pages).len() ==> #[trigger] message_ops(
                v.published(),
                v.pages,
            )[i] == (MessageOp::Edit { page: i as usize, message: v.published()[i] }),
        v.pages == 0 ==> message_ops(v.published(), v.pages).len() == 0,
{
    let p = v.published();
    assert(v.existing.subrange(v.resume() as int, v.existing.len() as int) =~= Seq::<u64>::empty());
    assert(p =~= v.existing.take(v.kept() as int) + v.created);
    assert(p.take(v.kept() as int) =~= v.existing.take(v.kept() as int));
    assert(p.skip(v.kept() as int) =~= v.created);
}

} // verus!
