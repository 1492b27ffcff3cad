//! The resumption and sequencing discipline: how fork-transition tags update
//! a consumer's canonical view of the chain, and how a retained cursor
//! resumes a stream without gaps.

use vstd::prelude::*;

use crate::request::Request;
use crate::response::ForkStep;
use crate::response::Response;

verus! {

/// The identity of a delivered block: its number and its hash.
#[derive(Clone, Debug, PartialEq, Eq)]
pub struct BlockId {
    pub num: u64,
    pub hash: String,
}

impl View for BlockId {
    type V = (u64, Seq<char>);

    open spec fn view(&self) -> (u64, Seq<char>) {
        (self.num, self.hash@)
    }
}

/// Why a fork transition could not be applied to the canonical view.
#[derive(Clone, Copy, Debug, PartialEq, Eq, Structural)]
pub enum StreamError {
    /// A response carried no metadata, so its block cannot be identified.
    MissingMetadata,
    /// A new block neither extended the chain nor redelivered the tip.
    NonMonotonicNew,
    /// An undo named a block other than the current tip, or the view is empty.
    UndoMismatch,
    /// An undo named a block at or below the final mark.
    UndoFinal,
    /// A final tag named a block that is not in the canonical view.
    UnknownFinal,
}

/// Well-formedness of a canonical view: block numbers strictly increase along
/// the chain, and the final mark, if set, is the number of a block in the
/// chain.
pub open spec fn chain_wf(blocks: Seq<(u64, Seq<char>)>, fin: Option<u64>) -> bool {
    &&& (forall|i: int, j: int|
        0 <= i < j < blocks.len() ==> (#[trigger] blocks[i]).0 < (#[trigger] blocks[j]).0)
    &&& (fin matches Some(f) ==> exists|i: int|
        0 <= i < blocks.len() && (#[trigger] blocks[i]).0 == f)
}

/// The transition of a consumer's canonical view under one fork-transition
/// tag, over the mathematical model of the view.
///
/// A new block extends the chain when its number is above the tip's;
/// redelivery of the exact tip (same number and hash) is tolerated as a
/// no-op, so resuming at a cursor boundary is safe. An undo retracts exactly
/// the tip, and never a block at or below the final mark. A final tag marks a
/// block of the chain irreversible, raising the final mark and changing
/// nothing else.
pub open spec fn step_model(
    blocks: Seq<(u64, Seq<char>)>,
    fin: Option<u64>,
    step: ForkStep,
    num: u64,
    hash: Seq<char>,
) -> Result<(Seq<(u64, Seq<char>)>, Option<u64>), StreamError> {
    match step {
        ForkStep::New => {
            if blocks.len() > 0 && blocks.last() == (num, hash) {
                Ok((blocks, fin))
            } else if blocks.len() == 0 || blocks.last().0 < num {
                Ok((blocks.push((num, hash)), fin))
            } else {
                Err(StreamError::NonMonotonicNew)
            }
        },
        ForkStep::Undo => {
            if blocks.len() == 0 || blocks.last() != (num, hash) {
                Err(StreamError::UndoMismatch)
            } else if fin matches Some(f) && num <= f {
                Err(StreamError::UndoFinal)
            } else {
                Ok((blocks.drop_last(), fin))
            }
        },
        ForkStep::Final => {
            if exists|i: int| 0 <= i < blocks.len() && #[trigger] blocks[i] == (num, hash) {
                if fin matches Some(f) && f >= num {
                    Ok((blocks, fin))
                } else {
                    Ok((blocks, Some(num)))
                }
            } else {
                Err(StreamError::UnknownFinal)
            }
        },
    }
}

/// Law: every successful transition preserves well-formedness of the
/// canonical view.
pub proof fn lemma_step_model_preserves_wf(
    blocks: Seq<(u64, Seq<char>)>,
    fin: Option<u64>,
    step: ForkStep,
    num: u64,
    hash: Seq<char>,
)
    requires
        chain_wf(blocks, fin),
        step_model(blocks, fin, step, num, hash) is Ok,
    ensures
        (step_model(blocks, fin, step, num, hash) matches Ok(next) && chain_wf(next.0, next.1)),
{
    let next = step_model(blocks, fin, step, num, hash)->Ok_0;
    match step {
        ForkStep::New => {
            if blocks.len() > 0 && blocks.last() == (num, hash) {
            } else {
                assert(forall|i: int|
                    0 <= i < blocks.len() ==> (#[trigger] blocks[i]).0 <= blocks.last().0);
                match fin {
                    Some(f) => {
                        let w = choose|i: int|
                            0 <= i < blocks.len() && (#[trigger] blocks[i]).0 == f;
                        assert(next.0[w].0 == f);
                    },
                    None => {},
                }
            }
        },
        ForkStep::Undo => {
            match fin {
                Some(f) => {
                    let w = choose|i: int|
                        0 <= i < blocks.len() && (#[trigger] blocks[i]).0 == f;
                    assert(blocks.last().0 == num && num > f);
                    assert(w < blocks.len() - 1);
                    assert(next.0[w].0 == f);
                },
                None => {},
            }
        },
        ForkStep::Final => {
            if !(fin matches Some(f) && f >= num) {
                let w = choose|i: int|
                    0 <= i < blocks.len() && #[trigger] blocks[i] == (num, hash);
                assert(next.0[w].0 == num);
            }
        },
    }
}

/// Law: redelivery of the block at the tip under a new tag is a no-op, so a
/// consumer that resumes at a cursor boundary and sees the boundary block
/// again ends in the same state.
pub proof fn lemma_redelivery_idempotent(
    blocks: Seq<(u64, Seq<char>)>,
    fin: Option<u64>,
    num: u64,
    hash: Seq<char>,
)
    requires
        blocks.len() > 0,
        blocks.last() == (num, hash),
    ensures
        step_model(blocks, fin, ForkStep::New, num, hash) == Ok::<
            (Seq<(u64, Seq<char>)>, Option<u64>),
            StreamError,
        >((blocks, fin)),
{
}

/// The state a consumer's canonical view reaches after processing a whole
/// sequence of fork transitions in order, stopping at the first refused one.
pub open spec fn apply_all(
    blocks: Seq<(u64, Seq<char>)>,
    fin: Option<u64>,
    msgs: Seq<(ForkStep, u64, Seq<char>)>,
) -> Result<(Seq<(u64, Seq<char>)>, Option<u64>), StreamError>
    decreases msgs.len(),
{
    if msgs.len() == 0 {
        Ok((blocks, fin))
    } else {
        match step_model(blocks, fin, msgs[0].0, msgs[0].1, msgs[0].2) {
            Ok(next) => apply_all(next.0, next.1, msgs.drop_first()),
            Err(e) => Err(e),
        }
    }
}

/// Law: processing a sequence of transitions in one unbroken run is the same
/// as processing a prefix, then resuming with the rest — so a consumer that
/// resumes exactly after the last processed response ends in the same state
/// it would have reached without the interruption.
pub proof fn lemma_resume_exact(
    blocks: Seq<(u64, Seq<char>)>,
    fin: Option<u64>,
    msgs: Seq<(ForkStep, u64, Seq<char>)>,
    k: int,
)
    requires
        0 <= k <= msgs.len(),
    ensures
        (match apply_all(blocks, fin, msgs.take(k)) {
            Ok(mid) => apply_all(mid.0, mid.1, msgs.skip(k)) == apply_all(blocks, fin, msgs),
            Err(e) => apply_all(blocks, fin, msgs) == Err::<
                (Seq<(u64, Seq<char>)>, Option<u64>),
                StreamError,
            >(e),
        }),
    decreases k,
{
    if k == 0 {
        assert(msgs.take(0) =~= Seq::<(ForkStep, u64, Seq<char>)>::empty());
        assert(msgs.skip(0) =~= msgs);
    } else {
        let prefix = msgs.take(k);
        assert(prefix[0] == msgs[0]);
        match step_model(blocks, fin, msgs[0].0, msgs[0].1, msgs[0].2) {
            Ok(next) => {
                let rest = msgs.drop_first();
                assert(prefix.drop_first() =~= rest.take(k - 1));
                assert(msgs.skip(k) =~= rest.skip(k - 1));
                lemma_resume_exact(next.0, next.1, rest, k - 1);
            },
            Err(_) => {},
        }
    }
}

/// Law: a consumer that resumes one response before the boundary — so the
/// server redelivers the boundary response, a new block then still at the
/// tip — also ends in the state of the unbroken run: the redelivery is
/// absorbed as a no-op and the rest replays exactly.
pub proof fn lemma_resume_at_boundary(
    blocks: Seq<(u64, Seq<char>)>,
    fin: Option<u64>,
    msgs: Seq<(ForkStep, u64, Seq<char>)>,
    k: int,
)
    requires
        0 <= k < msgs.len(),
        msgs[k].0 is New,
        (apply_all(blocks, fin, msgs.take(k + 1)) matches Ok(mid) && mid.0.len() > 0
            && mid.0.last() == (msgs[k].1, msgs[k].2)),
    ensures
        (apply_all(blocks, fin, msgs.take(k + 1)) matches Ok(mid) && apply_all(
            mid.0,
            mid.1,
            msgs.skip(k),
        ) == apply_all(blocks, fin, msgs)),
{
    let mid = apply_all(blocks, fin, msgs.take(k + 1))->Ok_0;
    lemma_redelivery_idempotent(mid.0, mid.1, msgs[k].1, msgs[k].2);
    assert(msgs.skip(k)[0] == msgs[k]);
    assert(msgs.skip(k).drop_first() =~= msgs.skip(k + 1));
    assert(apply_all(mid.0, mid.1, msgs.skip(k)) == apply_all(mid.0, mid.1, msgs.skip(k + 1)));
    lemma_resume_exact(blocks, fin, msgs, k + 1);
}

/// A replay is a valid resumption of the full response sequence at index `k`
/// when it is a suffix of that sequence starting at or before `k + 1`: the
/// server may redeliver already-processed responses but may not skip any.
pub open spec fn is_resumption_of<T>(full: Seq<T>, k: int, replay: Seq<T>) -> bool {
    exists|j: int| 0 <= j <= k + 1 && j <= full.len() && replay =~= full.skip(j)
}

/// Law: a valid resumption never skips the response after the resumption
/// point — the replay delivers it, and everything after it, in order.
pub proof fn lemma_resumption_no_gap<T>(full: Seq<T>, k: int, replay: Seq<T>)
    requires
        0 <= k,
        k + 1 < full.len(),
        is_resumption_of(full, k, replay),
    ensures
        exists|i: int|
            0 <= i < replay.len() && #[trigger] replay.skip(i) =~= full.skip(k + 1),
{
    let j = choose|j: int| 0 <= j <= k + 1 && j <= full.len() && replay =~= full.skip(j);
    assert(replay.skip(k + 1 - j) =~= full.skip(k + 1));
}

/// A consumer's canonical view of the chain, maintained from the
/// fork-transition tags of a stream's responses.
pub struct CanonicalChain {
    pub blocks: Vec<BlockId>,
    pub final_num: Option<u64>,
}

impl View for CanonicalChain {
    type V = Seq<(u64, Seq<char>)>;

    open spec fn view(&self) -> Seq<(u64, Seq<char>)> {
        self.blocks@.map_values(|b: BlockId| b@)
    }
}

impl CanonicalChain {
    /// Well-formedness of this view: see [`chain_wf`].
    pub open spec fn wf(&self) -> bool {
        chain_wf(self@, self.final_num)
    }

    /// The empty canonical view: no blocks, no final mark.
    pub fn new() -> (c: CanonicalChain)
        ensures
            c@ =~= Seq::<(u64, Seq<char>)>::empty(),
            c.final_num is None,
            c.wf(),
    {
        CanonicalChain { blocks: Vec::new(), final_num: None }
    }

    /// How many blocks the view holds.
    pub fn len(&self) -> (n: usize)
        ensures
            n == self@.len(),
    {
        self.blocks.len()
    }

    /// The identity of the block the view holds at `i`.
    pub fn get(&self, i: usize) -> (b: &BlockId)
        requires
            i < self@.len(),
        ensures
            b@ == self@[i as int],
    {
        &self.blocks[i]
    }

    /// The identity of the chain tip, if the view is non-empty.
    pub fn tip(&self) -> (t: Option<&BlockId>)
        ensures
            self@.len() == 0 ==> t is None,
            self@.len() > 0 ==> (t matches Some(b) && b@ == self@.last()),
    {
        if self.blocks.len() == 0 {
            None
        } else {
            Some(&self.blocks[self.blocks.len() - 1])
        }
    }

    /// Apply one fork transition to the view, exactly as [`step_model`] says:
    /// the result is `Ok` and the view becomes the model's successor state,
    /// or the result is the model's error and the view is unchanged.
    pub fn apply(&mut self, step: ForkStep, block: &BlockId) -> (r: Result<(), StreamError>)
        requires
            old(self).wf(),
        ensures
            final(self).wf(),
            (match step_model(old(self)@, old(self).final_num, step, block.num, block.hash@) {
                Ok(next) => r is Ok && final(self)@ =~= next.0 && final(self).final_num
                    == next.1,
                Err(e) => r == Err::<(), StreamError>(e) && final(self)@ =~= old(self)@
                    && final(self).final_num == old(self).final_num,
            }),
    {
        proof {
            if step_model(self@, self.final_num, step, block.num, block.hash@) is Ok {
                lemma_step_model_preserves_wf(
                    self@,
                    self.final_num,
                    step,
                    block.num,
                    block.hash@,
                );
            }
        }
        match step {
            ForkStep::New => {
                let n: usize = self.blocks.len();
                if n > 0 && self.blocks[n - 1].num == block.num
                    && self.blocks[n - 1].hash == block.hash {
                    Ok(())
                } else if n == 0 || self.blocks[n - 1].num < block.num {
                    self.blocks.push(BlockId { num: block.num, hash: block.hash.clone() });
                    proof {
                        assert(self@ =~= old(self)@.push((block.num, block.hash@)));
                    }
                    Ok(())
                } else {
                    Err(StreamError::NonMonotonicNew)
                }
            },
            ForkStep::Undo => {
                let n: usize = self.blocks.len();
                if n == 0 || self.blocks[n - 1].num != block.num
                    || !(self.blocks[n - 1].hash == block.hash) {
                    Err(StreamError::UndoMismatch)
                } else {
                    let at_or_below_final: bool = match self.final_num {
                        Some(f) => block.num <= f,
                        None => false,
                    };
                    if at_or_below_final {
                        Err(StreamError::UndoFinal)
                    } else {
                        let _ = self.blocks.pop();
                        proof {
                            assert(self@ =~= old(self)@.drop_last());
                        }
                        Ok(())
                    }
                }
            },
            ForkStep::Final => {
                if self.contains_id(block) {
                    let raise: bool = match self.final_num {
                        Some(f) => f < block.num,
                        None => true,
                    };
                    if raise {
                        self.final_num = Some(block.num);
                    }
                    Ok(())
                } else {
                    Err(StreamError::UnknownFinal)
                }
            },
        }
    }

    /// Whether the view holds a block with this identity.
    pub fn contains_id(&self, block: &BlockId) -> (r: bool)
        ensures
            r == exists|i: int| 0 <= i < self@.len() && #[trigger] self@[i] == block@,
    {
        let n: usize = self.blocks.len();
        let mut i: usize = 0;
        while i < n
            invariant
                0 <= i <= n,
                n == self@.len(),
                forall|k: int| 0 <= k < i ==> #[trigger] self@[k] != block@,
            decreases n - i,
        {
            if self.blocks[i].num == block.num && self.blocks[i].hash == block.hash {
                assert(self@[i as int] == block@);
                return true;
            }
            i = i + 1;
        }
        false
    }
}

/// Consumer-side stream state: the canonical view plus the retained
/// resumption cursor — the cursor of the last successfully processed
/// response, the point a re-issued request resumes from.
pub struct StreamState {
    pub chain: CanonicalChain,
    pub cursor: String,
}

impl StreamState {
    /// A fresh consumer: empty view, no cursor retained yet.
    pub fn new() -> (s: StreamState)
        ensures
            s.chain@ =~= Seq::<(u64, Seq<char>)>::empty(),
            s.chain.final_num is None,
            s.chain.wf(),
            s.cursor@ == Seq::<char>::empty(),
    {
        StreamState { chain: CanonicalChain::new(), cursor: String::new() }
    }

    /// Process one response's bookkeeping: apply its fork transition to the
    /// canonical view and, on success, retain its cursor as the resumption
    /// point. On any failure — missing metadata or a transition the model
    /// refuses — neither the view nor the retained cursor advances, so the
    /// caller can retry or resume from the prior cursor.
    pub fn process(&mut self, resp: &Response) -> (r: Result<(), StreamError>)
        requires
            old(self).chain.wf(),
        ensures
            final(self).chain.wf(),
            (match resp.metadata {
                None => r == Err::<(), StreamError>(StreamError::MissingMetadata)
                    && final(self).chain@ =~= old(self).chain@
                    && final(self).chain.final_num == old(self).chain.final_num
                    && final(self).cursor@ == old(self).cursor@,
                Some(m) => (match step_model(
                    old(self).chain@,
                    old(self).chain.final_num,
                    resp.step,
                    m.num,
                    m.hash@,
                ) {
                    Ok(next) => r is Ok && final(self).chain@ =~= next.0
                        && final(self).chain.final_num == next.1
                        && final(self).cursor@ == resp.cursor@,
                    Err(e) => r == Err::<(), StreamError>(e)
                        && final(self).chain@ =~= old(self).chain@
                        && final(self).chain.final_num == old(self).chain.final_num
                        && final(self).cursor@ == old(self).cursor@,
                }),
            }),
    {
        match &resp.metadata {
            None => Err(StreamError::MissingMetadata),
            Some(m) => {
                let id = BlockId { num: m.num, hash: m.hash.clone() };
                match self.chain.apply(resp.step, &id) {
                    Ok(()) => {
                        self.cursor = resp.cursor.clone();
                        Ok(())
                    },
                    Err(e) => Err(e),
                }
            },
        }
    }

    /// Re-issue a streaming request after an interruption: every field of the
    /// prior request keeps its value and the retained cursor is populated, so
    /// the server resumes from the cursor rather than the literal start
    /// number.
    pub fn resume_request(&self, prior: Request) -> (r: Request)
        ensures
            r.cursor@ == self.cursor@,
            r.start_block_num == prior.start_block_num,
            r.stop_block_num == prior.stop_block_num,
            r.final_blocks_only == prior.final_blocks_only,
            r.transforms == prior.transforms,
    {
        prior.resume(self.cursor.clone())
    }
}

} // verus!
