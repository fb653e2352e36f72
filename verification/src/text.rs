use vstd::prelude::*;

pub mod text_database;

use crate::channel::NameRequest;
use crate::common::lemma_prefix_trans;
use crate::db::StoreError;
use crate::errors::PipelineError;
use text_database::{
    TextDatabase, TextWrite, character_writes_of, missing_count, roma_writes_of, sat_add_u64,
};

verus! {

/// How many buffered requests trigger a write pass across the locales.
pub const TEXT_FLUSH_THRESHOLD: usize = 1000;

/// The drained request stream split into write batches: full batches of
/// the threshold size, and one final shorter batch for the remainder.
pub open spec fn chunk_batches(reqs: Seq<NameRequest>) -> Seq<Seq<NameRequest>>
    decreases reqs.len(),
{
    if reqs.len() == 0 {
        Seq::empty()
    } else if reqs.len() <= TEXT_FLUSH_THRESHOLD {
        seq![reqs]
    } else {
        seq![reqs.take(TEXT_FLUSH_THRESHOLD as int)] + chunk_batches(
            reqs.skip(TEXT_FLUSH_THRESHOLD as int),
        )
    }
}

/// The batches flattened back into one stream.
pub open spec fn concat_batches(chunks: Seq<Seq<NameRequest>>) -> Seq<NameRequest>
    decreases chunks.len(),
{
    if chunks.len() == 0 {
        Seq::empty()
    } else {
        chunks.first() + concat_batches(chunks.drop_first())
    }
}

/// The transactions one locale commits for a sequence of batches: per
/// batch, one primary-name-and-description pass, then one transliterated
/// pass.
pub open spec fn resolver_txs(
    names: Map<i32, String>,
    roma: Map<i32, String>,
    descs: Map<i32, String>,
    chunks: Seq<Seq<NameRequest>>,
) -> Seq<Seq<TextWrite>>
    decreases chunks.len(),
{
    if chunks.len() == 0 {
        Seq::empty()
    } else {
        resolver_txs(names, roma, descs, chunks.drop_last()) + seq![
            character_writes_of(names, descs, chunks.last()),
            roma_writes_of(roma, chunks.last()),
        ]
    }
}

/// Appending one batch at the back flattens to appending its requests.
pub proof fn lemma_concat_batches_push(chunks: Seq<Seq<NameRequest>>, c: Seq<NameRequest>)
    ensures
        concat_batches(chunks.push(c)) == concat_batches(chunks) + c,
    decreases chunks.len(),
{
    if chunks.len() == 0 {
        assert(chunks.push(c).drop_first() =~= Seq::<Seq<NameRequest>>::empty());
        assert(chunks.push(c).first() == c);
        assert(concat_batches(chunks.push(c)) == chunks.push(c).first() + concat_batches(
            chunks.push(c).drop_first(),
        ));
        assert(c + Seq::<NameRequest>::empty() =~= Seq::<NameRequest>::empty() + c);
    } else {
        assert(chunks.push(c).first() == chunks.first());
        assert(chunks.push(c).drop_first() =~= chunks.drop_first().push(c));
        lemma_concat_batches_push(chunks.drop_first(), c);
        assert(chunks.first() + (concat_batches(chunks.drop_first()) + c) =~= (chunks.first()
            + concat_batches(chunks.drop_first())) + c);
    }
}

/// A full-size batch at the front of the stream is split off as the first
/// write batch.
pub proof fn lemma_chunk_batches_cons(c: Seq<NameRequest>, s: Seq<NameRequest>)
    requires
        c.len() == TEXT_FLUSH_THRESHOLD,
    ensures
        chunk_batches(c + s) == seq![c] + chunk_batches(s),
{
    if s.len() == 0 {
        assert(c + s =~= c);
        assert(chunk_batches(c) =~= seq![c] + chunk_batches(s));
    } else {
        assert((c + s).take(TEXT_FLUSH_THRESHOLD as int) =~= c);
        assert((c + s).skip(TEXT_FLUSH_THRESHOLD as int) =~= s);
        assert(chunk_batches(c + s) =~= seq![c] + chunk_batches(s));
    }
}

/// The write batches of a stream that ends in full batches plus a short
/// remainder are exactly those batches plus the remainder.
pub proof fn lemma_chunk_batches_of(chunks: Seq<Seq<NameRequest>>, rest: Seq<NameRequest>)
    requires
        forall|m: int| 0 <= m < chunks.len() ==> (#[trigger] chunks[m]).len() == TEXT_FLUSH_THRESHOLD,
        rest.len() < TEXT_FLUSH_THRESHOLD,
    ensures
        chunk_batches(concat_batches(chunks) + rest) == chunks + if rest.len() == 0 {
            Seq::<Seq<NameRequest>>::empty()
        } else {
            seq![rest]
        },
    decreases chunks.len(),
{
    if chunks.len() == 0 {
        if rest.len() == 0 {
            assert(concat_batches(chunks) + rest =~= Seq::<NameRequest>::empty());
            assert(chunk_batches(concat_batches(chunks) + rest) =~= chunks);
        } else {
            assert(concat_batches(chunks) + rest =~= rest);
            assert(chunk_batches(concat_batches(chunks) + rest) =~= chunks + seq![rest]);
        }
    } else {
        let c0 = chunks.first();
        let tail = chunks.drop_first();
        assert(concat_batches(chunks) + rest =~= c0 + (concat_batches(tail) + rest));
        lemma_chunk_batches_cons(c0, concat_batches(tail) + rest);
        assert(forall|m: int| 0 <= m < tail.len() ==> (#[trigger] tail[m]).len()
            == TEXT_FLUSH_THRESHOLD);
        lemma_chunk_batches_of(tail, rest);
        if rest.len() == 0 {
            assert(seq![c0] + (tail + Seq::<Seq<NameRequest>>::empty()) =~= chunks
                + Seq::<Seq<NameRequest>>::empty());
        } else {
            assert(seq![c0] + (tail + seq![rest]) =~= chunks + seq![rest]);
        }
    }
}

/// The unresolved-name count is additive over a split of the stream.
pub proof fn lemma_missing_count_add(
    names: Map<i32, String>,
    a: Seq<NameRequest>,
    b: Seq<NameRequest>,
)
    ensures
        missing_count(names, a + b) == missing_count(names, a) + missing_count(names, b),
    decreases b.len(),
{
    if b.len() == 0 {
        assert(a + b =~= a);
    } else {
        assert((a + b).drop_last() =~= a + b.drop_last());
        assert((a + b).last() == b.last());
        lemma_missing_count_add(names, a, b.drop_last());
    }
}

/// Saturating addition chains like plain addition.
pub proof fn lemma_sat_add_chain(a: u64, x: nat, y: nat)
    ensures
        sat_add_u64(sat_add_u64(a, x), y) == sat_add_u64(a, x + y),
{
}

/// The consumer's state: the per-locale resolvers, the request buffer, and
/// ghost bookkeeping — the locale states as they were handed in, and the
/// full batches already written. The caller feeds requests in one at a
/// time (from the channel) and closes with `finish`; whenever the buffer
/// reaches the threshold, and once more at the end, one write pass runs
/// across every locale, each locale committing one primary pass and one
/// transliterated pass in its own transactions.
pub struct TextResolver {
    pub databases: Vec<TextDatabase>,
    pub char_requests: Vec<NameRequest>,
    pub initial: Ghost<Seq<TextDatabase>>,
    pub chunks: Ghost<Seq<Seq<NameRequest>>>,
}

impl TextResolver {
    /// Every request handed to this resolver so far, in order.
    pub open spec fn handled(self) -> Seq<NameRequest> {
        concat_batches(self.chunks@) + self.char_requests@
    }

    /// Each locale's state reflects exactly the batches written so far:
    /// its indices are untouched, its committed history has grown by the
    /// batches' write passes, and its unresolved-name counter by the
    /// batches' unresolved names.
    pub open spec fn stores_consistent(self) -> bool {
        &&& self.databases@.len() == self.initial@.len()
        &&& forall|m: int|
            0 <= m < self.chunks@.len() ==> (#[trigger] self.chunks@[m]).len()
                == TEXT_FLUSH_THRESHOLD
        &&& forall|k: int|
            0 <= k < self.databases@.len() ==> {
                let d0 = #[trigger] self.initial@[k];
                let d1 = self.databases@[k];
                &&& d1.chara_names == d0.chara_names
                &&& d1.chara_roma_names == d0.chara_roma_names
                &&& d1.chara_descriptions == d0.chara_descriptions
                &&& d1.setup == d0.setup
                &&& d1.committed@ == d0.committed@ + resolver_txs(
                    d0.chara_names@,
                    d0.chara_roma_names@,
                    d0.chara_descriptions@,
                    self.chunks@,
                )
                &&& d1.missing_character_names == sat_add_u64(
                    d0.missing_character_names,
                    missing_count(d0.chara_names@, concat_batches(self.chunks@)),
                )
            }
    }

    /// Consistent, with room in the buffer.
    pub open spec fn wf(self) -> bool {
        &&& self.stores_consistent()
        &&& self.char_requests@.len() < TEXT_FLUSH_THRESHOLD
    }

    /// What survives any failure: each locale keeps its indices, and what
    /// it had committed when the resolver started is preserved.
    pub open spec fn preserves_initial(self) -> bool {
        &&& self.databases@.len() == self.initial@.len()
        &&& forall|k: int|
            0 <= k < self.databases@.len() ==> {
                let d0 = #[trigger] self.initial@[k];
                let d1 = self.databases@[k];
                &&& d1.chara_names == d0.chara_names
                &&& d1.chara_roma_names == d0.chara_roma_names
                &&& d1.chara_descriptions == d0.chara_descriptions
                &&& d1.setup == d0.setup
                &&& d0.committed@.is_prefix_of(d1.committed@)
            }
    }

    /// Wraps the per-locale resolvers, with nothing handled yet.
    pub fn new(databases: Vec<TextDatabase>) -> (r: TextResolver)
        ensures
            r.wf(),
            r.initial@ == databases@,
            r.handled() == Seq::<NameRequest>::empty(),
    {
        let ghost init = databases@;
        let r = TextResolver {
            databases,
            char_requests: Vec::new(),
            initial: Ghost(init),
            chunks: Ghost(Seq::empty()),
        };
        proof {
            assert(concat_batches(r.chunks@) =~= Seq::<NameRequest>::empty());
            assert(r.handled() =~= Seq::<NameRequest>::empty());
            assert forall|k: int| 0 <= k < r.databases@.len() implies {
                let d0 = #[trigger] r.initial@[k];
                let d1 = r.databases@[k];
                &&& d1.committed@ == d0.committed@ + resolver_txs(
                    d0.chara_names@,
                    d0.chara_roma_names@,
                    d0.chara_descriptions@,
                    r.chunks@,
                )
                &&& d1.missing_character_names == sat_add_u64(
                    d0.missing_character_names,
                    missing_count(d0.chara_names@, concat_batches(r.chunks@)),
                )
            } by {
                let d0 = r.initial@[k];
                assert(d0.committed@ + resolver_txs(
                    d0.chara_names@,
                    d0.chara_roma_names@,
                    d0.chara_descriptions@,
                    r.chunks@,
                ) =~= d0.committed@);
            }
        }
        r
    }

    /// One write pass of the current buffer across every locale, in locale
    /// order: each locale commits its primary pass, then its transliterated
    /// pass.
    #[verifier::loop_isolation(false)]
    fn write_pass(&mut self) -> (res: Result<(), StoreError>)
        ensures
            final(self).initial == old(self).initial,
            final(self).chunks == old(self).chunks,
            final(self).char_requests == old(self).char_requests,
            final(self).databases@.len() == old(self).databases@.len(),
            match res {
                Ok(_) => forall|k: int|
                    0 <= k < old(self).databases@.len() ==> {
                        let d0 = #[trigger] old(self).databases@[k];
                        let d1 = final(self).databases@[k];
                        &&& d1.chara_names == d0.chara_names
                        &&& d1.chara_roma_names == d0.chara_roma_names
                        &&& d1.chara_descriptions == d0.chara_descriptions
                        &&& d1.setup == d0.setup
                        &&& d1.committed@ == d0.committed@ + seq![
                            character_writes_of(
                                d0.chara_names@,
                                d0.chara_descriptions@,
                                old(self).char_requests@,
                            ),
                            roma_writes_of(d0.chara_roma_names@, old(self).char_requests@),
                        ]
                        &&& d1.missing_character_names == sat_add_u64(
                            d0.missing_character_names,
                            missing_count(d0.chara_names@, old(self).char_requests@),
                        )
                    },
                Err(_) => forall|k: int|
                    0 <= k < old(self).databases@.len() ==> {
                        let d0 = #[trigger] old(self).databases@[k];
                        let d1 = final(self).databases@[k];
                        &&& d1.chara_names == d0.chara_names
                        &&& d1.chara_roma_names == d0.chara_roma_names
                        &&& d1.chara_descriptions == d0.chara_descriptions
                        &&& d1.setup == d0.setup
                        &&& d0.committed@.is_prefix_of(d1.committed@)
                    },
            },
    {
        let ghost dbs0 = self.databases@;
        let ghost chunk = self.char_requests@;
        let ndb = self.databases.len();
        let mut k: usize = 0;
        while k < ndb
            invariant
                ndb == dbs0.len(),
                self.databases@.len() == ndb,
                0 <= k <= ndb,
                self.initial == old(self).initial,
                self.chunks == old(self).chunks,
                self.char_requests == old(self).char_requests,
                forall|m: int|
                    0 <= m < ndb ==> {
                        let d0 = #[trigger] dbs0[m];
                        let d1 = self.databases@[m];
                        &&& d1.chara_names == d0.chara_names
                        &&& d1.chara_roma_names == d0.chara_roma_names
                        &&& d1.chara_descriptions == d0.chara_descriptions
                        &&& d1.setup == d0.setup
                        &&& d1.missing_character_names == if m < k {
                            sat_add_u64(
                                d0.missing_character_names,
                                missing_count(d0.chara_names@, chunk),
                            )
                        } else {
                            d0.missing_character_names
                        }
                        &&& d1.committed@ == d0.committed@ + if m < k {
                            seq![
                                character_writes_of(
                                    d0.chara_names@,
                                    d0.chara_descriptions@,
                                    chunk,
                                ),
                                roma_writes_of(d0.chara_roma_names@, chunk),
                            ]
                        } else {
                            Seq::<Seq<TextWrite>>::empty()
                        }
                    },
            decreases ndb - k,
        {
            let mut d = self.databases.remove(k);
            let r1 = d.write_character(&self.char_requests);
            let r2 = match r1 {
                Ok(_) => d.write_character_roma(&self.char_requests),
                Err(e) => Err(e),
            };
            self.databases.insert(k, d);
            match r2 {
                Ok(_) => {
                    proof {
                        let d0 = dbs0[k as int];
                        let d1 = self.databases@[k as int];
                        assert(d1.committed@ =~= d0.committed@ + seq![
                            character_writes_of(d0.chara_names@, d0.chara_descriptions@, chunk),
                            roma_writes_of(d0.chara_roma_names@, chunk),
                        ]);
                    }
                },
                Err(e) => {
                    proof {
                        assert forall|m: int| 0 <= m < ndb implies {
                            let d0 = #[trigger] dbs0[m];
                            d0.committed@.is_prefix_of(self.databases@[m].committed@)
                        } by {
                            let d0 = dbs0[m];
                            let d1 = self.databases@[m];
                            assert(d0.committed@ =~= d1.committed@.subrange(
                                0,
                                d0.committed@.len() as int,
                            ));
                        }
                    }
                    return Err(e);
                },
            }
            k = k + 1;
        }
        Ok(())
    }

    /// Buffers one request; when the buffer reaches the threshold, runs one
    /// write pass across every locale and empties the buffer.
    pub fn push_request(&mut self, char_request: NameRequest) -> (res: Result<(), PipelineError>)
        requires
            old(self).wf(),
        ensures
            final(self).initial == old(self).initial,
            match res {
                Ok(_) => final(self).wf() && final(self).handled() == old(self).handled().push(
                    char_request,
                ),
                Err(e) => {
                    &&& !e.spec_is_data_fault()
                    &&& final(self).preserves_initial()
                    &&& old(self).char_requests@.len() + 1 >= TEXT_FLUSH_THRESHOLD
                },
            },
    {
        self.char_requests.push(char_request);
        if self.char_requests.len() >= TEXT_FLUSH_THRESHOLD {
            let ghost chunk = self.char_requests@;
            let ghost chunks0 = self.chunks@;
            match self.write_pass() {
                Ok(_) => {
                    proof {
                        lemma_concat_batches_push(chunks0, chunk);
                        assert forall|k: int| 0 <= k < self.databases@.len() implies {
                            let d0 = #[trigger] self.initial@[k];
                            let d1 = self.databases@[k];
                            &&& d1.committed@ == d0.committed@ + resolver_txs(
                                d0.chara_names@,
                                d0.chara_roma_names@,
                                d0.chara_descriptions@,
                                chunks0.push(chunk),
                            )
                            &&& d1.missing_character_names == sat_add_u64(
                                d0.missing_character_names,
                                missing_count(d0.chara_names@, concat_batches(chunks0.push(chunk))),
                            )
                        } by {
                            let d0 = self.initial@[k];
                            let d1 = self.databases@[k];
                            assert(chunks0.push(chunk).drop_last() =~= chunks0);
                            assert(chunks0.push(chunk).last() == chunk);
                            assert(d1.committed@ =~= d0.committed@ + resolver_txs(
                                d0.chara_names@,
                                d0.chara_roma_names@,
                                d0.chara_descriptions@,
                                chunks0.push(chunk),
                            ));
                            lemma_missing_count_add(
                                d0.chara_names@,
                                concat_batches(chunks0),
                                chunk,
                            );
                            lemma_sat_add_chain(
                                d0.missing_character_names,
                                missing_count(d0.chara_names@, concat_batches(chunks0)),
                                missing_count(d0.chara_names@, chunk),
                            );
                        }
                    }
                    self.chunks = Ghost(self.chunks@.push(chunk));
                    self.char_requests = Vec::new();
                    proof {
                        lemma_concat_batches_push(chunks0, chunk);
                        assert(self.handled() =~= concat_batches(chunks0) + chunk);
                        assert(old(self).handled().push(char_request) =~= concat_batches(chunks0)
                            + chunk);
                    }
                    Ok(())
                },
                Err(e) => {
                    proof {
                        assert forall|k: int| 0 <= k < self.databases@.len() implies {
                            let d0 = #[trigger] self.initial@[k];
                            d0.committed@.is_prefix_of(self.databases@[k].committed@)
                        } by {
                            let d0 = self.initial@[k];
                            let dmid = old(self).databases@[k];
                            let d1 = self.databases@[k];
                            assert(d0.committed@ =~= dmid.committed@.subrange(
                                0,
                                d0.committed@.len() as int,
                            ));
                            lemma_prefix_trans(d0.committed@, dmid.committed@, d1.committed@);
                        }
                    }
                    Err(PipelineError::Store(e))
                },
            }
        } else {
            proof {
                assert(self.handled() =~= old(self).handled().push(char_request));
            }
            Ok(())
        }
    }

    /// Closes the stream: writes the buffered remainder, if any, in one
    /// final pass, and reports the first locale's unresolved-name count.
    /// After it, every locale has committed exactly the write passes of
    /// the handled stream's batches, in order.
    pub fn finish(&mut self) -> (res: Result<u64, PipelineError>)
        requires
            old(self).wf(),
        ensures
            final(self).initial == old(self).initial,
            match res {
                Ok(total) => {
                    &&& final(self).databases@.len() == old(self).databases@.len()
                    &&& forall|k: int|
                        0 <= k < final(self).databases@.len() ==> {
                            let d0 = #[trigger] final(self).initial@[k];
                            let d1 = final(self).databases@[k];
                            &&& d1.chara_names == d0.chara_names
                            &&& d1.chara_roma_names == d0.chara_roma_names
                            &&& d1.chara_descriptions == d0.chara_descriptions
                            &&& d1.committed@ == d0.committed@ + resolver_txs(
                                d0.chara_names@,
                                d0.chara_roma_names@,
                                d0.chara_descriptions@,
                                chunk_batches(old(self).handled()),
                            )
                            &&& d1.missing_character_names == sat_add_u64(
                                d0.missing_character_names,
                                missing_count(d0.chara_names@, old(self).handled()),
                            )
                        }
                    &&& total == if final(self).databases@.len() > 0 {
                        final(self).databases@[0].missing_character_names
                    } else {
                        0u64
                    }
                },
                Err(e) => {
                    &&& !e.spec_is_data_fault()
                    &&& final(self).preserves_initial()
                    &&& old(self).char_requests@.len() > 0
                },
            },
    {
        let ghost chunks0 = self.chunks@;
        let ghost buffered = self.char_requests@;
        if self.char_requests.len() > 0 {
            let ghost chunk = self.char_requests@;
            match self.write_pass() {
                Ok(_) => {
                    proof {
                        lemma_concat_batches_push(chunks0, chunk);
                        lemma_chunk_batches_of(chunks0, chunk);
                        assert(concat_batches(chunks0) + chunk =~= old(self).handled());
                        assert(chunk_batches(old(self).handled()) == chunks0.push(chunk)) by {
                            assert(chunks0 + seq![chunk] =~= chunks0.push(chunk));
                        }
                        assert forall|k: int| 0 <= k < self.databases@.len() implies {
                            let d0 = #[trigger] self.initial@[k];
                            let d1 = self.databases@[k];
                            &&& d1.committed@ == d0.committed@ + resolver_txs(
                                d0.chara_names@,
                                d0.chara_roma_names@,
                                d0.chara_descriptions@,
                                chunk_batches(old(self).handled()),
                            )
                            &&& d1.missing_character_names == sat_add_u64(
                                d0.missing_character_names,
                                missing_count(d0.chara_names@, old(self).handled()),
                            )
                        } by {
                            let d0 = self.initial@[k];
                            let d1 = self.databases@[k];
                            assert(chunks0.push(chunk).drop_last() =~= chunks0);
                            assert(chunks0.push(chunk).last() == chunk);
                            assert(d1.committed@ =~= d0.committed@ + resolver_txs(
                                d0.chara_names@,
                                d0.chara_roma_names@,
                                d0.chara_descriptions@,
                                chunks0.push(chunk),
                            ));
                            lemma_missing_count_add(
                                d0.chara_names@,
                                concat_batches(chunks0),
                                chunk,
                            );
                            lemma_sat_add_chain(
                                d0.missing_character_names,
                                missing_count(d0.chara_names@, concat_batches(chunks0)),
                                missing_count(d0.chara_names@, chunk),
                            );
                        }
                    }
                    self.chunks = Ghost(self.chunks@.push(chunk));
                    self.char_requests = Vec::new();
                },
                Err(e) => {
                    proof {
                        assert forall|k: int| 0 <= k < self.databases@.len() implies {
                            let d0 = #[trigger] self.initial@[k];
                            d0.committed@.is_prefix_of(self.databases@[k].committed@)
                        } by {
                            let d0 = self.initial@[k];
                            let dmid = old(self).databases@[k];
                            assert(d0.committed@ =~= dmid.committed@.subrange(
                                0,
                                d0.committed@.len() as int,
                            ));
                            lemma_prefix_trans(
                                d0.committed@,
                                dmid.committed@,
                                self.databases@[k].committed@,
                            );
                        }
                    }
                    return Err(PipelineError::Store(e));
                },
            }
        } else {
            proof {
                lemma_chunk_batches_of(chunks0, Seq::empty());
                assert(concat_batches(chunks0) + Seq::<NameRequest>::empty() =~= old(
                    self,
                ).handled());
                assert(chunks0 + Seq::<Seq<NameRequest>>::empty() =~= chunks0);
            }
        }
        if self.databases.len() > 0 {
            let total = self.databases[0].get_missing_names();
            Ok(total)
        } else {
            Ok(0)
        }
    }
}

} // verus!
