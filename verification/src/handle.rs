//! The handle table: engine instances behind opaque tokens.
//!
//! A token is a number that is handed out once and never again. Zero is never
//! handed out, so it can stand for "no handle" at a foreign boundary. A token
//! that was destroyed, or that was never issued, is simply not in the table:
//! using it is an error that is detected, not undefined behaviour.

use crate::params::RuntimeConfig;
use vstd::prelude::*;

verus! {

/// The largest token a table hands out. Tokens stay below 2^31 so that they
/// survive a trip through a signed 64-bit integer or a 32-bit address.
pub const TOKEN_LIMIT: u64 = 0x7FFF_FFFF;

/// One engine instance together with what the bridge knows of it: the frame
/// length it was built for and the tuning values it was last given. Tuning
/// values are bit patterns of 32-bit IEEE-754 numbers.
pub struct DeepFilterNetState<E> {
    /// The engine instance. Exactly one per handle.
    pub df: E,
    /// Samples consumed and produced per processing call. Fixed for life.
    pub hop_size: usize,
    /// Strength of the post filter.
    pub post_filter_beta: u32,
    /// Attenuation limit, in decibels.
    pub atten_lim_db: u32,
}

impl<E> DeepFilterNetState<E> {
    /// The state of an engine that was just built with `config` and reported
    /// `hop_size` as its frame length.
    pub fn new(df: E, hop_size: usize, config: &RuntimeConfig) -> (state: Self)
        ensures
            state == (DeepFilterNetState {
                df,
                hop_size,
                post_filter_beta: config.post_filter_beta,
                atten_lim_db: config.atten_lim_db,
            }),
    {
        DeepFilterNetState {
            df,
            hop_size,
            post_filter_beta: config.post_filter_beta,
            atten_lim_db: config.atten_lim_db,
        }
    }
}

struct Entry<E> {
    token: u64,
    state: DeepFilterNetState<E>,
}

/// Owns every live engine instance and maps each to its token.
///
/// The view is the map from live tokens to their states.
pub struct HandleTable<E> {
    entries: Vec<Entry<E>>,
    issued: u64,
}

impl<E> HandleTable<E> {
    /// The invariant of the table: every live token was issued, none is zero,
    /// and no token is held by two entries.
    pub closed spec fn wf(&self) -> bool {
        &&& self.issued <= TOKEN_LIMIT
        &&& forall|i: int|
            0 <= i < self.entries@.len() ==> 1 <= (#[trigger] self.entries@[i]).token
                <= self.issued
        &&& forall|i: int, j: int|
            0 <= i < j < self.entries@.len() ==> (#[trigger] self.entries@[i]).token != (
            #[trigger] self.entries@[j]).token
    }

    /// How many tokens were handed out so far. They are `1..=issued()`.
    pub closed spec fn issued(&self) -> nat {
        self.issued as nat
    }

    /// Whether `token` was handed out and has since been destroyed.
    pub open spec fn retired(&self, token: u64) -> bool {
        1 <= token <= self.issued() && !self@.contains_key(token)
    }

    /// Whether every handle but `token` is the same in `self` and in `later`.
    pub open spec fn same_except(&self, later: &Self, token: u64) -> bool {
        forall|other: u64|
            other != token ==> (self@.contains_key(other) <==> later@.contains_key(other)) && (
            self@.contains_key(other) ==> later@[other] == self@[other])
    }

    /// Whether every token that is retired in `self` is still retired in `later`.
    pub open spec fn retired_stay_retired(&self, later: &Self) -> bool {
        forall|t: u64| self.retired(t) ==> later.retired(t)
    }

    spec fn holds(&self, token: u64) -> bool {
        exists|i: int| 0 <= i < self.entries@.len() && (#[trigger] self.entries@[i]).token == token
    }

    spec fn position(&self, token: u64) -> int {
        choose|i: int| 0 <= i < self.entries@.len() && (#[trigger] self.entries@[i]).token == token
    }

    /// The live handles.
    pub closed spec fn view(&self) -> Map<u64, DeepFilterNetState<E>> {
        Map::new(|t: u64| self.holds(t), |t: u64| self.entries@[self.position(t)].state)
    }

    proof fn lemma_position(&self, i: int)
        requires
            self.wf(),
            0 <= i < self.entries@.len(),
        ensures
            self.holds(self.entries@[i].token),
            self.position(self.entries@[i].token) == i,
            self@.contains_key(self.entries@[i].token),
            self@[self.entries@[i].token] == self.entries@[i].state,
    {
        let t = self.entries@[i].token;
        assert(self.holds(t));
        let p = self.position(t);
        assert(0 <= p < self.entries@.len() && self.entries@[p].token == t);
        if p < i {
            assert(self.entries@[p].token != self.entries@[i].token);
        } else if i < p {
            assert(self.entries@[i].token != self.entries@[p].token);
        }
    }

    /// A live token was issued by this table, and is therefore not zero.
    pub proof fn lemma_live_tokens_were_issued(&self, token: u64)
        requires
            self.wf(),
            self@.contains_key(token),
        ensures
            1 <= token <= self.issued(),
            token <= TOKEN_LIMIT,
    {
        let p = self.position(token);
        assert(0 <= p < self.entries@.len() && self.entries@[p].token == token);
    }

    /// Zero names no handle, in any table.
    pub proof fn lemma_zero_is_never_live(&self)
        requires
            self.wf(),
        ensures
            !self@.contains_key(0),
    {
        if self@.contains_key(0) {
            self.lemma_live_tokens_were_issued(0);
        }
    }

    /// An empty table that has issued no token.
    pub fn new() -> (table: Self)
        ensures
            table.wf(),
            table@ == Map::<u64, DeepFilterNetState<E>>::empty(),
            table.issued() == 0,
    {
        let table = HandleTable { entries: Vec::new(), issued: 0 };
        assert(table@ =~= Map::<u64, DeepFilterNetState<E>>::empty());
        table
    }

    fn find(&self, token: u64) -> (r: Option<usize>)
        requires
            self.wf(),
        ensures
            match r {
                Some(i) => i < self.entries@.len() && self.entries@[i as int].token == token,
                None => !self.holds(token),
            },
    {
        let mut i: usize = 0;
        while i < self.entries.len()
            invariant
                i <= self.entries@.len(),
                forall|k: int| 0 <= k < i ==> (#[trigger] self.entries@[k]).token != token,
            decreases self.entries@.len() - i,
        {
            if self.entries[i].token == token {
                return Some(i);
            }
            i += 1;
        }
        None
    }

    /// Whether `token` names a live handle.
    pub fn contains(&self, token: u64) -> (live: bool)
        requires
            self.wf(),
        ensures
            live == self@.contains_key(token),
    {
        self.find(token).is_some()
    }

    /// Takes ownership of an engine and hands out the next token, or zero once
    /// [`TOKEN_LIMIT`] tokens were issued; the engine is then dropped and the
    /// table is unchanged.
    pub fn create(&mut self, state: DeepFilterNetState<E>) -> (token: u64)
        requires
            old(self).wf(),
        ensures
            final(self).wf(),
            old(self).issued() < TOKEN_LIMIT ==> token == old(self).issued() + 1
                && final(self).issued() == token && final(self)@ == old(self)@.insert(
                token,
                state,
            ),
            old(self).issued() >= TOKEN_LIMIT ==> token == 0 && final(self).issued() == old(
                self,
            ).issued() && final(self)@ == old(self)@,
            old(self).issued() < TOKEN_LIMIT ==> 1 <= token <= TOKEN_LIMIT && !old(
                self,
            )@.contains_key(token) && final(self)@.contains_key(token) && final(self)@[token]
                == state,
            old(self).same_except(final(self), token),
            old(self).retired_stay_retired(final(self)),
    {
        if self.issued >= TOKEN_LIMIT {
            return 0;
        }
        let token: u64 = self.issued + 1;
        let ghost before = *self;
        self.issued = token;
        self.entries.push(Entry { token, state });
        proof {
            let last = self.entries@.len() - 1;
            assert(self.wf());
            assert forall|t: u64| self.holds(t) <==> (t == token || before.holds(t)) by {
                if self.holds(t) {
                    let p = self.position(t);
                    if p < last {
                        assert(before.entries@[p].token == t);
                    }
                }
                if before.holds(t) {
                    let p = before.position(t);
                    assert(self.entries@[p].token == t);
                }
                if t == token {
                    assert(self.entries@[last].token == t);
                }
            }
            assert forall|t: u64| before.holds(t) implies self@[t] == before@[t] by {
                let p = before.position(t);
                assert(self.entries@[p] == before.entries@[p]);
                self.lemma_position(p);
            }
            self.lemma_position(last);
            assert(self@ =~= before@.insert(token, state));
        }
        token
    }

    /// Ends the life of a handle and gives its state back to be released.
    /// A token that is not live, zero among them, leaves the table as it is.
    pub fn destroy(&mut self, token: u64) -> (state: Option<DeepFilterNetState<E>>)
        requires
            old(self).wf(),
        ensures
            final(self).wf(),
            final(self).issued() == old(self).issued(),
            final(self)@ == old(self)@.remove(token),
            state == if old(self)@.contains_key(token) {
                Some(old(self)@[token])
            } else {
                None
            },
            !old(self)@.contains_key(token) ==> final(self)@ == old(self)@,
            old(self).same_except(final(self), token),
            old(self).retired_stay_retired(final(self)),
    {
        let ghost before = *self;
        match self.find(token) {
            None => {
                assert(self@ =~= before@.remove(token));
                None
            },
            Some(i) => {
                proof {
                    before.lemma_position(i as int);
                }
                let entry = self.entries.remove(i);
                proof {
                    assert(self.wf());
                    assert forall|t: u64| self.holds(t) <==> (t != token && before.holds(t)) by {
                        if self.holds(t) {
                            let p = self.position(t);
                            if p < i {
                                assert(before.entries@[p].token == t);
                            } else {
                                assert(before.entries@[p + 1].token == t);
                            }
                        }
                        if t != token && before.holds(t) {
                            let p = before.position(t);
                            if p < i {
                                assert(self.entries@[p].token == t);
                            } else {
                                assert(self.entries@[p - 1].token == t);
                            }
                        }
                    }
                    assert forall|t: u64| self.holds(t) implies self@[t] == before@[t] by {
                        let p = self.position(t);
                        self.lemma_position(p);
                        if p < i {
                            before.lemma_position(p);
                        } else {
                            before.lemma_position(p + 1);
                        }
                    }
                    assert(self@ =~= before@.remove(token));
                }
                Some(entry.state)
            },
        }
    }

    /// The state of a live handle, and nothing for any other token.
    pub fn state(&self, token: u64) -> (state: Option<&DeepFilterNetState<E>>)
        requires
            self.wf(),
        ensures
            match state {
                Some(s) => self@.contains_key(token) && *s == self@[token],
                None => !self@.contains_key(token),
            },
    {
        match self.find(token) {
            None => None,
            Some(i) => {
                proof {
                    self.lemma_position(i as int);
                }
                Some(&self.entries[i].state)
            },
        }
    }

    /// Lends the engine of a live handle for a call that changes it. Whatever
    /// the caller does through the reference, the frame length of this handle
    /// and the states of all other handles stay as they are.
    pub fn engine_mut(&mut self, token: u64) -> (engine: Option<&mut E>)
        requires
            old(self).wf(),
        ensures
            match engine {
                Some(e) => {
                    &&& old(self)@.contains_key(token)
                    &&& *e == old(self)@[token].df
                    &&& final(self)@ == old(self)@.insert(
                        token,
                        (DeepFilterNetState { df: *final(e), ..old(self)@[token] }),
                    )
                },
                None => !old(self)@.contains_key(token) && final(self)@ == old(self)@,
            },
            final(self).wf(),
            final(self).issued() == old(self).issued(),
            old(self).same_except(final(self), token),
            old(self).retired_stay_retired(final(self)),
    {
        match self.find(token) {
            None => None,
            Some(i) => {
                let ghost before = *self;
                let ghost after = *final(self);
                let engine = &mut self.entries[i].state.df;
                proof {
                    before.lemma_position(i as int);
                    Self::lemma_state_replaced(before, after, i as int);
                }
                Some(engine)
            },
        }
    }

    proof fn lemma_state_replaced(before: Self, after: Self, i: int)
        requires
            before.wf(),
            0 <= i < before.entries@.len(),
            after.issued == before.issued,
            after.entries@.len() == before.entries@.len(),
            forall|k: int|
                0 <= k < before.entries@.len() && k != i ==> after.entries@[k]
                    == before.entries@[k],
            after.entries@[i].token == before.entries@[i].token,
        ensures
            after.wf(),
            after@ == before@.insert(before.entries@[i].token, after.entries@[i].state),
    {
        assert forall|k: int| 0 <= k < before.entries@.len() implies (#[trigger] after.entries@[k]).token
            == before.entries@[k].token by {}
        assert(after.wf());
        assert forall|t: u64| after.holds(t) <==> before.holds(t) by {
            if after.holds(t) {
                let p = after.position(t);
                assert(before.entries@[p].token == t);
            }
            if before.holds(t) {
                let p = before.position(t);
                assert(after.entries@[p].token == t);
            }
        }
        before.lemma_position(i);
        assert forall|t: u64| after.holds(t) implies after@[t] == (if t == before.entries@[i].token {
            after.entries@[i].state
        } else {
            before@[t]
        }) by {
            let p = after.position(t);
            after.lemma_position(p);
            before.lemma_position(p);
        }
        assert(after@ =~= before@.insert(before.entries@[i].token, after.entries@[i].state));
    }

    /// Records a new post-filter strength for a live handle and lends its
    /// engine, so that the caller can apply the same value there. Any other
    /// token changes nothing.
    pub fn set_post_filter_beta(&mut self, token: u64, beta: u32) -> (engine: Option<&mut E>)
        requires
            old(self).wf(),
        ensures
            match engine {
                Some(e) => {
                    &&& old(self)@.contains_key(token)
                    &&& *e == old(self)@[token].df
                    &&& final(self)@ == old(self)@.insert(
                        token,
                        (DeepFilterNetState {
                            df: *final(e),
                            post_filter_beta: beta,
                            ..old(self)@[token]
                        }),
                    )
                },
                None => !old(self)@.contains_key(token) && final(self)@ == old(self)@,
            },
            final(self).wf(),
            final(self).issued() == old(self).issued(),
            old(self).same_except(final(self), token),
            old(self).retired_stay_retired(final(self)),
    {
        match self.find(token) {
            None => None,
            Some(i) => {
                let ghost before = *self;
                let ghost after = *final(self);
                self.entries[i].state.post_filter_beta = beta;
                let engine = &mut self.entries[i].state.df;
                proof {
                    before.lemma_position(i as int);
                    Self::lemma_state_replaced(before, after, i as int);
                }
                Some(engine)
            },
        }
    }

    /// Records a new attenuation limit for a live handle and lends its engine,
    /// so that the caller can apply the same value there. Any other token
    /// changes nothing.
    pub fn set_atten_lim(&mut self, token: u64, lim_db: u32) -> (engine: Option<&mut E>)
        requires
            old(self).wf(),
        ensures
            match engine {
                Some(e) => {
                    &&& old(self)@.contains_key(token)
                    &&& *e == old(self)@[token].df
                    &&& final(self)@ == old(self)@.insert(
                        token,
                        (DeepFilterNetState {
                            df: *final(e),
                            atten_lim_db: lim_db,
                            ..old(self)@[token]
                        }),
                    )
                },
                None => !old(self)@.contains_key(token) && final(self)@ == old(self)@,
            },
            final(self).wf(),
            final(self).issued() == old(self).issued(),
            old(self).same_except(final(self), token),
            old(self).retired_stay_retired(final(self)),
    {
        match self.find(token) {
            None => None,
            Some(i) => {
                let ghost before = *self;
                let ghost after = *final(self);
                self.entries[i].state.atten_lim_db = lim_db;
                let engine = &mut self.entries[i].state.df;
                proof {
                    before.lemma_position(i as int);
                    Self::lemma_state_replaced(before, after, i as int);
                }
                Some(engine)
            },
        }
    }

    /// The frame length of a live handle, and zero for any other token.
    pub fn frame_size(&self, token: u64) -> (size: usize)
        requires
            self.wf(),
        ensures
            size == if self@.contains_key(token) {
                self@[token].hop_size
            } else {
                0
            },
    {
        match self.find(token) {
            None => 0,
            Some(i) => {
                proof {
                    self.lemma_position(i as int);
                }
                self.entries[i].state.hop_size
            },
        }
    }
}

} // verus!
