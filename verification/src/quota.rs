//! Tag correlation and the quota command accumulators.
//!
//! A command's response is the sub-sequence of records up to and including
//! the first tagged completion bearing the command's tag. The accumulators
//! fold the records before that completion into a typed result and divert
//! every out-of-scope record to the unilateral sink, in arrival order. A
//! sequence that ends without the completion is a protocol violation and is
//! reported as `MissingCompletion`, never looped on or treated as success.

use vstd::prelude::*;

use crate::response::{records_view, Quota, QuotaRoot, QuotaRootView, QuotaView, RequestId,
    ResponseData, ResponseView};
use crate::sink::UnilateralSink;

verus! {

/// Why a quota command failed.
#[derive(Clone, Copy, Debug, PartialEq, Eq, Structural)]
pub enum QuotaError {
    /// The record sequence ended before the tagged completion was observed.
    MissingCompletion,
    /// The bounded sub-sequence held no record of the kind the command
    /// required at least one of.
    EmptyResult,
}

/// Whether `r` is the tagged completion for the command with tag `tag`.
pub open spec fn is_completion_for(r: ResponseView, tag: Seq<char>) -> bool {
    match r {
        ResponseView::Done { tag: t } => t == tag,
        _ => false,
    }
}

/// Whether the sequence holds a tagged completion for `tag` anywhere.
pub open spec fn has_completion(s: Seq<ResponseView>, tag: Seq<char>) -> bool {
    exists|i: int| 0 <= i < s.len() && is_completion_for(s[i], tag)
}

/// The index of the first tagged completion for `tag`, or the length of the
/// sequence when there is none.
pub open spec fn completion_idx(s: Seq<ResponseView>, tag: Seq<char>) -> int
    decreases s.len(),
{
    if s.len() == 0 {
        0
    } else if is_completion_for(s[0], tag) {
        0
    } else {
        1 + completion_idx(s.subrange(1, s.len() as int), tag)
    }
}

/// The records in scope for the command: everything strictly before the
/// first tagged completion, or the whole sequence when there is none.
pub open spec fn scope(s: Seq<ResponseView>, tag: Seq<char>) -> Seq<ResponseView> {
    s.take(completion_idx(s, tag))
}

/// The quota payloads of a record sequence, in arrival order.
pub open spec fn quotas_of(s: Seq<ResponseView>) -> Seq<QuotaView>
    decreases s.len(),
{
    if s.len() == 0 {
        Seq::empty()
    } else {
        quotas_of(s.drop_last()) + (match s.last() {
            ResponseView::Quota(q) => seq![q],
            _ => Seq::empty(),
        })
    }
}

/// The quota-root payloads of a record sequence, in arrival order.
pub open spec fn roots_of(s: Seq<ResponseView>) -> Seq<QuotaRootView>
    decreases s.len(),
{
    if s.len() == 0 {
        Seq::empty()
    } else {
        roots_of(s.drop_last()) + (match s.last() {
            ResponseView::QuotaRoot(r) => seq![r],
            _ => Seq::empty(),
        })
    }
}

/// The records that are not quota data, in arrival order: what a quota
/// command diverts to the unilateral sink.
pub open spec fn non_quota_of(s: Seq<ResponseView>) -> Seq<ResponseView>
    decreases s.len(),
{
    if s.len() == 0 {
        Seq::empty()
    } else {
        non_quota_of(s.drop_last()) + (if s.last() is Quota {
            Seq::empty()
        } else {
            seq![s.last()]
        })
    }
}

/// The records that are neither quota nor quota-root data, in arrival order:
/// what a quota-root command diverts to the unilateral sink.
pub open spec fn neither_quota_nor_root_of(s: Seq<ResponseView>) -> Seq<ResponseView>
    decreases s.len(),
{
    if s.len() == 0 {
        Seq::empty()
    } else {
        neither_quota_nor_root_of(s.drop_last()) + (if s.last() is Quota || s.last() is QuotaRoot {
            Seq::empty()
        } else {
            seq![s.last()]
        })
    }
}

/// A prefix free of completions that ends at a completion (or at the end of
/// the sequence) pins down `completion_idx` exactly.
pub proof fn lemma_first_completion(s: Seq<ResponseView>, tag: Seq<char>, i: int)
    requires
        0 <= i <= s.len(),
        forall|j: int| 0 <= j < i ==> !is_completion_for(s[j], tag),
        i < s.len() ==> is_completion_for(s[i], tag),
    ensures
        completion_idx(s, tag) == i,
    decreases s.len(),
{
    if s.len() == 0 {
    } else if i == 0 {
    } else {
        assert(!is_completion_for(s[0], tag));
        let rest = s.subrange(1, s.len() as int);
        assert forall|j: int| 0 <= j < i - 1 implies !is_completion_for(rest[j], tag) by {
            assert(rest[j] == s[j + 1]);
        }
        if i - 1 < rest.len() {
            assert(rest[i - 1] == s[i]);
        }
        lemma_first_completion(rest, tag, i - 1);
    }
}

/// One consumption step: taking the head off a suffix of the record sequence
/// moves the suffix forward by one.
proof fn lemma_view_step(pre: Seq<ResponseData>, s: Seq<ResponseView>, i: int)
    requires
        0 <= i <= s.len(),
        records_view(pre) == s.skip(i),
        pre.len() > 0,
    ensures
        i < s.len(),
        pre[0]@ == s[i],
        records_view(pre.subrange(1, pre.len() as int)) == s.skip(i + 1),
{
    assert(records_view(pre).len() == pre.len());
    assert(s.skip(i).len() == s.len() - i);
    assert(records_view(pre)[0] == pre[0]@);
    assert(s.skip(i)[0] == s[i]);
    let rest = pre.subrange(1, pre.len() as int);
    assert forall|k: int| 0 <= k < rest.len() implies records_view(rest)[k] == s.skip(i + 1)[k] by {
        assert(rest[k] == pre[k + 1]);
        assert(records_view(pre)[k + 1] == pre[k + 1]@);
        assert(s.skip(i)[k + 1] == s[i + 1 + k]);
        assert(s.skip(i + 1)[k] == s[i + 1 + k]);
    }
    assert(records_view(rest).len() == rest.len());
    assert(s.skip(i + 1).len() == s.len() - i - 1);
    assert(records_view(rest) =~= s.skip(i + 1));
}

/// Whether `r` is the tagged completion for the command with tag `tag`:
/// the point at which a correlated read must stop consuming.
pub fn is_tagged_completion(r: &ResponseData, tag: &RequestId) -> (b: bool)
    ensures
        b == is_completion_for(r@, tag@),
{
    match r {
        ResponseData::Done { tag: t } => t.0 == tag.0,
        _ => false,
    }
}

/// The streaming tag correlator and accumulator for a GETQUOTA-style
/// command: it consumes one record at a time, reports exactly when the
/// tagged completion arrives so the caller stops reading there, captures the
/// first quota record, and diverts every other in-scope record to the sink
/// as it is observed.
pub struct QuotaCorrelator {
    tag: RequestId,
    found: Option<Quota>,
    done: bool,
    hist: Ghost<Seq<ResponseView>>,
}

impl QuotaCorrelator {
    /// The tag this correlator synchronizes on.
    pub closed spec fn tag_view(&self) -> Seq<char> {
        self.tag@
    }

    /// Every record this correlator has consumed, in arrival order.
    pub closed spec fn history(&self) -> Seq<ResponseView> {
        self.hist@
    }

    /// Whether the tagged completion has been observed.
    pub closed spec fn is_done(&self) -> bool {
        self.done
    }

    /// Internal consistency: the completion, once seen, is the last record
    /// consumed and the only one; the captured quota is the first quota
    /// record of the command's scope.
    pub closed spec fn wf(&self) -> bool {
        let sc = if self.done {
            self.hist@.drop_last()
        } else {
            self.hist@
        };
        &&& (if self.done {
            self.hist@.len() > 0 && is_completion_for(self.hist@.last(), self.tag@) && (forall|
                j: int,
            |
                0 <= j < self.hist@.len() - 1 ==> !is_completion_for(self.hist@[j], self.tag@))
        } else {
            forall|j: int| 0 <= j < self.hist@.len() ==> !is_completion_for(self.hist@[j], self.tag@)
        })
        &&& (match self.found {
            Some(q) => quotas_of(sc).len() > 0 && q@ == quotas_of(sc)[0],
            None => quotas_of(sc).len() == 0,
        })
    }

    /// A fresh correlator for the command with the given tag.
    pub fn new(tag: RequestId) -> (c: QuotaCorrelator)
        ensures
            c.wf(),
            !c.is_done(),
            c.history() == Seq::<ResponseView>::empty(),
            c.tag_view() == tag@,
    {
        QuotaCorrelator { tag, found: None, done: false, hist: Ghost(Seq::empty()) }
    }

    /// Consumes the next record. Returns true exactly when the record is the
    /// tagged completion: the caller must stop feeding records then. A quota
    /// record is captured (the first one) or dropped (any later one); any
    /// other record is diverted to the sink at once.
    pub fn step(&mut self, r: ResponseData, sink: &mut UnilateralSink) -> (stop: bool)
        requires
            old(self).wf(),
            !old(self).is_done(),
        ensures
            final(self).wf(),
            final(self).tag_view() == old(self).tag_view(),
            final(self).history() == old(self).history().push(r@),
            stop == is_completion_for(r@, old(self).tag_view()),
            final(self).is_done() == stop,
            final(sink)@ == old(sink)@ + (if is_completion_for(r@, old(self).tag_view()) || r@
                is Quota {
                Seq::<ResponseView>::empty()
            } else {
                seq![r@]
            }),
    {
        let ghost pre_hist = self.hist@;
        let stop = is_tagged_completion(&r, &self.tag);
        proof {
            self.hist@ = pre_hist.push(r@);
            assert(self.hist@.drop_last() =~= pre_hist);
            assert(old(sink)@ + Seq::<ResponseView>::empty() =~= old(sink)@);
        }
        if stop {
            self.done = true;
        } else {
            match r {
                ResponseData::Quota(q) => {
                    proof {
                        assert(quotas_of(self.hist@) =~= quotas_of(pre_hist).push(q@));
                    }
                    if self.found.is_none() {
                        self.found = Some(q);
                    }
                },
                other => {
                    proof {
                        assert(quotas_of(self.hist@) =~= quotas_of(pre_hist));
                        assert(old(sink)@.push(other@) =~= old(sink)@ + seq![other@]);
                    }
                    sink.push(other);
                },
            }
        }
        stop
    }

    /// Ends the command once the caller has no more records to feed: the
    /// captured quota if the completion was observed, `EmptyResult` if the
    /// completion came without any quota, `MissingCompletion` if the record
    /// sequence ended first.
    pub fn finish(self) -> (r: Result<Quota, QuotaError>)
        requires
            self.wf(),
        ensures
            self.is_done() == has_completion(self.history(), self.tag_view()),
            ({
                let sc = scope(self.history(), self.tag_view());
                match r {
                    Ok(q) => self.is_done() && quotas_of(sc).len() > 0 && q@ == quotas_of(sc)[0],
                    Err(QuotaError::EmptyResult) => self.is_done() && quotas_of(sc).len() == 0,
                    Err(QuotaError::MissingCompletion) => !self.is_done(),
                }
            }),
    {
        proof {
            if self.done {
                lemma_first_completion(self.hist@, self.tag@, self.hist@.len() - 1);
                assert(scope(self.hist@, self.tag@) =~= self.hist@.drop_last());
                assert(has_completion(self.hist@, self.tag@)) by {
                    assert(0 <= self.hist@.len() - 1 < self.hist@.len() && is_completion_for(
                        self.hist@.last(),
                        self.tag@,
                    ));
                }
            } else {
                lemma_first_completion(self.hist@, self.tag@, self.hist@.len() as int);
                assert(scope(self.hist@, self.tag@) =~= self.hist@);
            }
        }
        match self.found {
            Some(q) => if self.done {
                Ok(q)
            } else {
                Err(QuotaError::MissingCompletion)
            },
            None => if self.done {
                Err(QuotaError::EmptyResult)
            } else {
                Err(QuotaError::MissingCompletion)
            },
        }
    }
}

/// Folds the response records of a GETQUOTA-style command. The first quota
/// record before the tagged completion is the command's single result; every
/// other record before the completion is diverted to the sink in arrival
/// order. A completion with no quota before it is `EmptyResult`; a sequence
/// that ends without the completion is `MissingCompletion`. Records after
/// the completion are not touched.
pub fn get_quota(records: Vec<ResponseData>, command_tag: &RequestId, sink: &mut UnilateralSink)
    -> (r: Result<Quota, QuotaError>)
    ensures
        ({
            let s = records_view(records@);
            let sc = scope(s, command_tag@);
            &&& match r {
                Ok(q) => has_completion(s, command_tag@) && quotas_of(sc).len() > 0 && q@
                    == quotas_of(sc)[0],
                Err(QuotaError::EmptyResult) => has_completion(s, command_tag@) && quotas_of(
                    sc,
                ).len() == 0,
                Err(QuotaError::MissingCompletion) => !has_completion(s, command_tag@),
            }
            &&& final(sink)@ == old(sink)@ + non_quota_of(sc)
        }),
{
    let ghost s = records_view(records@);
    let ghost tag = command_tag@;
    let mut recs = records;
    let mut c = QuotaCorrelator::new(RequestId(command_tag.0.clone()));
    let ghost mut i: int = 0;
    while recs.len() > 0
        invariant
            0 <= i <= s.len(),
            s == records_view(records@),
            tag == command_tag@,
            records_view(recs@) == s.skip(i),
            c.wf(),
            !c.is_done(),
            c.tag_view() == tag,
            c.history() == s.take(i),
            sink@ == old(sink)@ + non_quota_of(s.take(i)),
        decreases recs.len(),
    {
        let ghost pre = recs@;
        let r = recs.remove(0);
        proof {
            lemma_view_step(pre, s, i);
            assert(r@ == s[i]);
            assert(recs@ =~= pre.subrange(1, pre.len() as int));
            assert(records_view(recs@) == s.skip(i + 1));
            assert(s.take(i + 1) =~= s.take(i).push(s[i]));
        }
        let ghost c0 = c;
        let stop = c.step(r, sink);
        if stop {
            proof {
                assert forall|j: int| 0 <= j < i implies !is_completion_for(#[trigger] s[j], tag) by {
                    assert(c0.history()[j] == s.take(i)[j]);
                    assert(s.take(i)[j] == s[j]);
                }
                lemma_first_completion(s, tag, i);
                assert(scope(s, tag) =~= s.take(i));
                assert(has_completion(s, tag)) by {
                    assert(0 <= i < s.len() && is_completion_for(s[i], tag));
                }
                assert forall|j: int| 0 <= j < i implies !is_completion_for(
                    #[trigger] s.take(i + 1)[j],
                    tag,
                ) by {
                    assert(s.take(i + 1)[j] == s[j]);
                }
                assert(s.take(i + 1)[i] == s[i]);
                lemma_first_completion(s.take(i + 1), tag, i);
                assert(scope(s.take(i + 1), tag) =~= s.take(i));
                assert((old(sink)@ + non_quota_of(s.take(i))) + Seq::<ResponseView>::empty() =~= old(
                    sink,
                )@ + non_quota_of(s.take(i)));
            }
            return c.finish();
        }
        proof {
            assert(s.take(i + 1).drop_last() =~= s.take(i));
            if s[i] is Quota {
                assert(non_quota_of(s.take(i + 1)) =~= non_quota_of(s.take(i)));
                assert((old(sink)@ + non_quota_of(s.take(i))) + Seq::<ResponseView>::empty() =~= old(
                    sink,
                )@ + non_quota_of(s.take(i)));
            } else {
                assert(non_quota_of(s.take(i + 1)) =~= non_quota_of(s.take(i)).push(s[i]));
                assert((old(sink)@ + non_quota_of(s.take(i))) + seq![s[i]] =~= old(sink)@
                    + non_quota_of(s.take(i)).push(s[i]));
            }
            i = i + 1;
        }
    }
    proof {
        assert(s.skip(i).len() == 0);
        assert(i == s.len());
        assert(s.take(i) =~= s);
        assert forall|j: int| 0 <= j < i implies !is_completion_for(#[trigger] s[j], tag) by {
            assert(c.history()[j] == s.take(i)[j]);
            assert(s.take(i)[j] == s[j]);
        }
        lemma_first_completion(s, tag, i);
        assert(scope(s, tag) =~= s.take(i));
    }
    c.finish()
}

/// The streaming tag correlator and accumulator for a GETQUOTAROOT-style
/// command: it consumes one record at a time, reports exactly when the
/// tagged completion arrives, gathers quota-root and quota records each in
/// arrival order, and diverts every other in-scope record to the sink as it
/// is observed.
pub struct QuotaRootCorrelator {
    tag: RequestId,
    roots: Vec<QuotaRoot>,
    quotas: Vec<Quota>,
    done: bool,
    hist: Ghost<Seq<ResponseView>>,
}

impl QuotaRootCorrelator {
    /// The tag this correlator synchronizes on.
    pub closed spec fn tag_view(&self) -> Seq<char> {
        self.tag@
    }

    /// Every record this correlator has consumed, in arrival order.
    pub closed spec fn history(&self) -> Seq<ResponseView> {
        self.hist@
    }

    /// Whether the tagged completion has been observed.
    pub closed spec fn is_done(&self) -> bool {
        self.done
    }

    /// Internal consistency: the completion, once seen, is the last record
    /// consumed and the only one; the gathered collections are exactly the
    /// quota-root and quota records of the command's scope, in order.
    pub closed spec fn wf(&self) -> bool {
        let sc = if self.done {
            self.hist@.drop_last()
        } else {
            self.hist@
        };
        &&& (if self.done {
            self.hist@.len() > 0 && is_completion_for(self.hist@.last(), self.tag@) && (forall|
                j: int,
            |
                0 <= j < self.hist@.len() - 1 ==> !is_completion_for(self.hist@[j], self.tag@))
        } else {
            forall|j: int| 0 <= j < self.hist@.len() ==> !is_completion_for(self.hist@[j], self.tag@)
        })
        &&& self.roots@.map_values(|x: QuotaRoot| x@) == roots_of(sc)
        &&& self.quotas@.map_values(|x: Quota| x@) == quotas_of(sc)
    }

    /// A fresh correlator for the command with the given tag.
    pub fn new(tag: RequestId) -> (c: QuotaRootCorrelator)
        ensures
            c.wf(),
            !c.is_done(),
            c.history() == Seq::<ResponseView>::empty(),
            c.tag_view() == tag@,
    {
        let roots: Vec<QuotaRoot> = Vec::new();
        let quotas: Vec<Quota> = Vec::new();
        proof {
            assert(roots@.map_values(|x: QuotaRoot| x@) =~= roots_of(Seq::empty()));
            assert(quotas@.map_values(|x: Quota| x@) =~= quotas_of(Seq::empty()));
        }
        QuotaRootCorrelator { tag, roots, quotas, done: false, hist: Ghost(Seq::empty()) }
    }

    /// Consumes the next record. Returns true exactly when the record is the
    /// tagged completion: the caller must stop feeding records then. A
    /// quota-root or quota record is gathered; any other record is diverted
    /// to the sink at once.
    pub fn step(&mut self, r: ResponseData, sink: &mut UnilateralSink) -> (stop: bool)
        requires
            old(self).wf(),
            !old(self).is_done(),
        ensures
            final(self).wf(),
            final(self).tag_view() == old(self).tag_view(),
            final(self).history() == old(self).history().push(r@),
            stop == is_completion_for(r@, old(self).tag_view()),
            final(self).is_done() == stop,
            final(sink)@ == old(sink)@ + (if is_completion_for(r@, old(self).tag_view()) || r@
                is Quota || r@ is QuotaRoot {
                Seq::<ResponseView>::empty()
            } else {
                seq![r@]
            }),
    {
        let ghost pre_hist = self.hist@;
        let stop = is_tagged_completion(&r, &self.tag);
        proof {
            self.hist@ = pre_hist.push(r@);
            assert(self.hist@.drop_last() =~= pre_hist);
            assert(old(sink)@ + Seq::<ResponseView>::empty() =~= old(sink)@);
        }
        if stop {
            self.done = true;
        } else {
            match r {
                ResponseData::QuotaRoot(qr) => {
                    proof {
                        assert(roots_of(self.hist@) =~= roots_of(pre_hist).push(qr@));
                        assert(quotas_of(self.hist@) =~= quotas_of(pre_hist));
                        assert(self.roots@.push(qr).map_values(|x: QuotaRoot| x@)
                            =~= self.roots@.map_values(|x: QuotaRoot| x@).push(qr@));
                    }
                    self.roots.push(qr);
                },
                ResponseData::Quota(q) => {
                    proof {
                        assert(roots_of(self.hist@) =~= roots_of(pre_hist));
                        assert(quotas_of(self.hist@) =~= quotas_of(pre_hist).push(q@));
                        assert(self.quotas@.push(q).map_values(|x: Quota| x@)
                            =~= self.quotas@.map_values(|x: Quota| x@).push(q@));
                    }
                    self.quotas.push(q);
                },
                other => {
                    proof {
                        assert(roots_of(self.hist@) =~= roots_of(pre_hist));
                        assert(quotas_of(self.hist@) =~= quotas_of(pre_hist));
                        assert(old(sink)@.push(other@) =~= old(sink)@ + seq![other@]);
                    }
                    sink.push(other);
                },
            }
        }
        stop
    }

    /// Ends the command once the caller has no more records to feed: the two
    /// gathered collections (each possibly empty) if the completion was
    /// observed, `MissingCompletion` if the record sequence ended first.
    pub fn finish(self) -> (r: Result<(Vec<QuotaRoot>, Vec<Quota>), QuotaError>)
        requires
            self.wf(),
        ensures
            self.is_done() == has_completion(self.history(), self.tag_view()),
            ({
                let sc = scope(self.history(), self.tag_view());
                match r {
                    Ok(pair) => self.is_done() && pair.0@.map_values(|x: QuotaRoot| x@)
                        == roots_of(sc) && pair.1@.map_values(|x: Quota| x@) == quotas_of(sc),
                    Err(e) => e == QuotaError::MissingCompletion && !self.is_done(),
                }
            }),
    {
        proof {
            if self.done {
                lemma_first_completion(self.hist@, self.tag@, self.hist@.len() - 1);
                assert(scope(self.hist@, self.tag@) =~= self.hist@.drop_last());
                assert(has_completion(self.hist@, self.tag@)) by {
                    assert(0 <= self.hist@.len() - 1 < self.hist@.len() && is_completion_for(
                        self.hist@.last(),
                        self.tag@,
                    ));
                }
            } else {
                lemma_first_completion(self.hist@, self.tag@, self.hist@.len() as int);
                assert(scope(self.hist@, self.tag@) =~= self.hist@);
            }
        }
        if self.done {
            Ok((self.roots, self.quotas))
        } else {
            Err(QuotaError::MissingCompletion)
        }
    }
}

/// Folds the response records of a GETQUOTAROOT-style command. Quota-root
/// records and quota records before the tagged completion are each gathered
/// in arrival order; both collections may be empty. Every other record
/// before the completion is diverted to the sink in arrival order. A
/// sequence that ends without the completion is `MissingCompletion`.
/// Records after the completion are not touched.
pub fn get_quota_root(records: Vec<ResponseData>, command_tag: &RequestId, sink: &mut UnilateralSink)
    -> (r: Result<(Vec<QuotaRoot>, Vec<Quota>), QuotaError>)
    ensures
        ({
            let s = records_view(records@);
            let sc = scope(s, command_tag@);
            &&& match r {
                Ok(pair) => has_completion(s, command_tag@) && pair.0@.map_values(
                    |x: QuotaRoot| x@,
                ) == roots_of(sc) && pair.1@.map_values(|x: Quota| x@) == quotas_of(sc),
                Err(e) => e == QuotaError::MissingCompletion && !has_completion(s, command_tag@),
            }
            &&& final(sink)@ == old(sink)@ + neither_quota_nor_root_of(sc)
        }),
{
    let ghost s = records_view(records@);
    let ghost tag = command_tag@;
    let mut recs = records;
    let mut c = QuotaRootCorrelator::new(RequestId(command_tag.0.clone()));
    let ghost mut i: int = 0;
    while recs.len() > 0
        invariant
            0 <= i <= s.len(),
            s == records_view(records@),
            tag == command_tag@,
            records_view(recs@) == s.skip(i),
            c.wf(),
            !c.is_done(),
            c.tag_view() == tag,
            c.history() == s.take(i),
            sink@ == old(sink)@ + neither_quota_nor_root_of(s.take(i)),
        decreases recs.len(),
    {
        let ghost pre = recs@;
        let r = recs.remove(0);
        proof {
            lemma_view_step(pre, s, i);
            assert(r@ == s[i]);
            assert(recs@ =~= pre.subrange(1, pre.len() as int));
            assert(records_view(recs@) == s.skip(i + 1));
            assert(s.take(i + 1) =~= s.take(i).push(s[i]));
        }
        let ghost c0 = c;
        let stop = c.step(r, sink);
        if stop {
            proof {
                assert forall|j: int| 0 <= j < i implies !is_completion_for(
                    #[trigger] s[j],
                    tag,
                ) by {
                    assert(c0.history()[j] == s.take(i)[j]);
                    assert(s.take(i)[j] == s[j]);
                }
                lemma_first_completion(s, tag, i);
                assert(scope(s, tag) =~= s.take(i));
                assert(has_completion(s, tag)) by {
                    assert(0 <= i < s.len() && is_completion_for(s[i], tag));
                }
                assert forall|j: int| 0 <= j < i implies !is_completion_for(
                    #[trigger] s.take(i + 1)[j],
                    tag,
                ) by {
                    assert(s.take(i + 1)[j] == s[j]);
                }
                assert(s.take(i + 1)[i] == s[i]);
                lemma_first_completion(s.take(i + 1), tag, i);
                assert(scope(s.take(i + 1), tag) =~= s.take(i));
                assert((old(sink)@ + neither_quota_nor_root_of(s.take(i)))
                    + Seq::<ResponseView>::empty() =~= old(sink)@ + neither_quota_nor_root_of(
                    s.take(i),
                ));
            }
            return c.finish();
        }
        proof {
            assert(s.take(i + 1).drop_last() =~= s.take(i));
            if s[i] is Quota || s[i] is QuotaRoot {
                assert(neither_quota_nor_root_of(s.take(i + 1)) =~= neither_quota_nor_root_of(
                    s.take(i),
                ));
                assert((old(sink)@ + neither_quota_nor_root_of(s.take(i)))
                    + Seq::<ResponseView>::empty() =~= old(sink)@ + neither_quota_nor_root_of(
                    s.take(i),
                ));
            } else {
                assert(neither_quota_nor_root_of(s.take(i + 1)) =~= neither_quota_nor_root_of(
                    s.take(i),
                ).push(s[i]));
                assert((old(sink)@ + neither_quota_nor_root_of(s.take(i))) + seq![s[i]] =~= old(
                    sink,
                )@ + neither_quota_nor_root_of(s.take(i)).push(s[i]));
            }
            i = i + 1;
        }
    }
    proof {
        assert(s.skip(i).len() == 0);
        assert(i == s.len());
        assert(s.take(i) =~= s);
        assert forall|j: int| 0 <= j < i implies !is_completion_for(#[trigger] s[j], tag) by {
            assert(c.history()[j] == s.take(i)[j]);
            assert(s.take(i)[j] == s[j]);
        }
        lemma_first_completion(s, tag, i);
        assert(scope(s, tag) =~= s.take(i));
    }
    c.finish()
}

} // verus!
