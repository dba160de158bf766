//! The session registry: the single source of truth for which viewers are
//! connected and how to reach each one.
//!
//! A session is an opaque token with at most one live outbound channel.  The
//! registry's mathematical model is the map from tokens to their optional
//! channels; every operation is specified against that map.

use vstd::map::*;
use vstd::prelude::*;
use vstd::set_lib::lemma_int_range;
use vstd::set_lib::lemma_len_subset;
use vstd::set_lib::set_int_range;

verus! {

/// Failure of a registry operation.
#[derive(Clone, Copy, Debug, PartialEq, Eq, Structural)]
pub enum RegistryError {
    UnknownToken,
}

/// Maps each session token to its outbound channel, if one has attached.
pub struct Registry {
    entries: Vec<(u64, Option<u64>)>,
}

impl Registry {
    /// Tokens are unique: each session exists once.
    pub closed spec fn wf(self) -> bool {
        forall|a: int, b: int|
            0 <= a < b < self.entries@.len() ==> (#[trigger] self.entries@[a]).0 != (
            #[trigger] self.entries@[b]).0
    }

    /// A token is registered.
    pub closed spec fn spec_contains(self, t: u64) -> bool {
        exists|k: int| 0 <= k < self.entries@.len() && (#[trigger] self.entries@[k]).0 == t
    }

    /// The position of a registered token.
    closed spec fn key_index(self, t: u64) -> int {
        choose|k: int| 0 <= k < self.entries@.len() && (#[trigger] self.entries@[k]).0 == t
    }
}

impl View for Registry {
    type V = Map<u64, Option<u64>>;

    closed spec fn view(&self) -> Map<u64, Option<u64>> {
        Map::new(|t: u64| self.spec_contains(t), |t: u64| self.entries@[self.key_index(t)].1)
    }
}

impl Registry {
    /// With unique tokens, a matching position is the token's position.
    proof fn l_key_index(self, t: u64, k: int)
        requires
            self.wf(),
            0 <= k < self.entries@.len(),
            self.entries@[k].0 == t,
        ensures
            self.spec_contains(t),
            self.key_index(t) == k,
            self@.contains_key(t),
            self@[t] == self.entries@[k].1,
    {
        assert(self.spec_contains(t));
        let j = self.key_index(t);
        if j != k {
            if j < k {
                assert(self.entries@[j].0 != self.entries@[k].0);
            } else {
                assert(self.entries@[k].0 != self.entries@[j].0);
            }
        }
    }

    /// An empty registry: nobody is connected.
    pub fn new() -> (r: Registry)
        ensures
            r.wf(),
            r@ == Map::<u64, Option<u64>>::empty(),
    {
        let r = Registry { entries: Vec::new() };
        proof {
            assert(r@ =~= Map::<u64, Option<u64>>::empty());
        }
        r
    }

    /// Whether a token is registered.
    pub fn contains(&self, t: u64) -> (b: bool)
        ensures
            b == self.spec_contains(t),
            b == self@.contains_key(t),
    {
        let mut k: usize = 0;
        while k < self.entries.len()
            invariant
                k <= self.entries@.len(),
                forall|m: int| 0 <= m < k ==> (#[trigger] self.entries@[m]).0 != t,
            decreases self.entries@.len() - k,
        {
            if self.entries[k].0 == t {
                return true;
            }
            k = k + 1;
        }
        false
    }

    /// A candidate token in `0 ..= len` that is not registered; such a value
    /// exists because there are more candidates than entries.
    fn fresh_fallback(&self) -> (t: u64)
        requires
            self.wf(),
        ensures
            !self.spec_contains(t),
    {
        let n = self.entries.len();
        let mut k: usize = 0;
        while k < n
            invariant
                k <= n,
                n == self.entries@.len(),
                forall|m: int| 0 <= m < k ==> #[trigger] self.spec_contains(m as u64),
            decreases n - k,
        {
            if !self.contains(k as u64) {
                return k as u64;
            }
            k = k + 1;
        }
        if !self.contains(n as u64) {
            return n as u64;
        }
        proof {
            let toks = self.entries@.map_values(|e: (u64, Option<u64>)| e.0 as int);
            let tset = toks.to_set();
            toks.lemma_cardinality_of_set();
            lemma_int_range(0, n as int + 1);
            assert forall|x: int| set_int_range(0, n as int + 1).contains(x) implies tset.contains(
                x,
            ) by {
                assert(self.spec_contains(x as u64));
                let j = choose|j: int|
                    0 <= j < self.entries@.len() && (#[trigger] self.entries@[j]).0 == (x as u64);
                assert(toks[j] == x);
                assert(toks.contains(x));
            }
            lemma_len_subset(set_int_range(0, n as int + 1), tset);
            assert(false);
        }
        0
    }

    /// Creates a fresh token with no channel and registers it.  The token is
    /// never one that is already present.
    pub fn reserve(&mut self, seed: u64) -> (t: u64)
        requires
            old(self).wf(),
        ensures
            final(self).wf(),
            !old(self)@.contains_key(t),
            final(self)@ == old(self)@.insert(t, None),
    {
        let t = if !self.contains(seed) {
            seed
        } else {
            self.fresh_fallback()
        };
        let ghost pre = *self;
        self.entries.push((t, None));
        proof {
            let n = pre.entries@.len();
            assert forall|a: int, b: int|
                0 <= a < b < self.entries@.len() implies (#[trigger] self.entries@[a]).0 != (
            #[trigger] self.entries@[b]).0 by {
                if b < n {
                    assert(pre.entries@[a].0 != pre.entries@[b].0);
                } else {
                    if pre.entries@[a].0 == t {
                        pre.l_key_index(t, a);
                        assert(pre.spec_contains(t));
                    }
                }
            }
            self.l_key_index(t, n as int);
            assert_maps_equal!(self@, pre@.insert(t, None), u => {
                if u == t {
                    assert(self@[t] == self.entries@[n as int].1);
                } else {
                    if pre.spec_contains(u) {
                        let j = pre.key_index(u);
                        assert(pre.entries@[j].0 == u);
                        assert(self.entries@[j].0 == u);
                        pre.l_key_index(u, j);
                        self.l_key_index(u, j);
                    } else {
                        if self.spec_contains(u) {
                            let j = self.key_index(u);
                            assert(self.entries@[j].0 == u);
                            assert(j < n ==> pre.entries@[j].0 == u);
                        }
                    }
                }
            });
        }
        t
    }

    /// Installs the outbound channel of a registered token; a later attach for
    /// the same token replaces the earlier channel (last writer wins).  An
    /// unknown token is rejected and nothing changes.
    pub fn attach(&mut self, token: u64, chan: u64) -> (r: Result<(), RegistryError>)
        requires
            old(self).wf(),
        ensures
            final(self).wf(),
            match r {
                Ok(()) => old(self)@.contains_key(token) && final(self)@ == old(self)@.insert(
                    token,
                    Some(chan),
                ),
                Err(_) => !old(self)@.contains_key(token) && *final(self) == *old(self),
            },
    {
        let n = self.entries.len();
        let mut k: usize = 0;
        while k < n
            invariant
                k <= n,
                *self == *old(self),
                self.wf(),
                n == self.entries@.len(),
                forall|m: int| 0 <= m < k ==> (#[trigger] self.entries@[m]).0 != token,
            decreases n - k,
        {
            if self.entries[k].0 == token {
                let ghost pre = *self;
                self.entries.remove(k);
                self.entries.insert(k, (token, Some(chan)));
                proof {
                    assert(self.entries@ =~= pre.entries@.update(k as int, (token, Some(chan))));
                    assert forall|a: int, b: int|
                        0 <= a < b < self.entries@.len() implies (#[trigger] self.entries@[a]).0
                        != (#[trigger] self.entries@[b]).0 by {
                        assert(pre.entries@[a].0 != pre.entries@[b].0);
                    }
                    pre.l_key_index(token, k as int);
                    self.l_key_index(token, k as int);
                    assert_maps_equal!(self@, pre@.insert(token, Some(chan)), u => {
                        if u != token {
                            if pre.spec_contains(u) {
                                let j = pre.key_index(u);
                                pre.l_key_index(u, j);
                                assert(self.entries@[j].0 == u);
                                self.l_key_index(u, j);
                            } else {
                                if self.spec_contains(u) {
                                    let j = self.key_index(u);
                                    assert(j != k);
                                    assert(pre.entries@[j].0 == u);
                                }
                            }
                        }
                    });
                }
                return Ok(());
            }
            k = k + 1;
        }
        Err(RegistryError::UnknownToken)
    }

    /// Removes a token unconditionally; removing an absent token changes
    /// nothing, so a second detach is a no-op.
    pub fn detach(&mut self, token: u64)
        requires
            old(self).wf(),
        ensures
            final(self).wf(),
            final(self)@ == old(self)@.remove(token),
    {
        let n = self.entries.len();
        let mut k: usize = 0;
        while k < n
            invariant
                k <= n,
                *self == *old(self),
                self.wf(),
                n == self.entries@.len(),
                forall|m: int| 0 <= m < k ==> (#[trigger] self.entries@[m]).0 != token,
            decreases n - k,
        {
            if self.entries[k].0 == token {
                let ghost pre = *self;
                self.entries.remove(k);
                proof {
                    pre.l_key_index(token, k as int);
                    assert forall|a: int, b: int|
                        0 <= a < b < self.entries@.len() implies (#[trigger] self.entries@[a]).0
                        != (#[trigger] self.entries@[b]).0 by {
                        let a0 = if a < k {
                            a
                        } else {
                            a + 1
                        };
                        let b0 = if b < k {
                            b
                        } else {
                            b + 1
                        };
                        assert(self.entries@[a] == pre.entries@[a0]);
                        assert(self.entries@[b] == pre.entries@[b0]);
                        assert(pre.entries@[a0].0 != pre.entries@[b0].0);
                    }
                    assert_maps_equal!(self@, pre@.remove(token), u => {
                        if u != token && pre.spec_contains(u) {
                            let j = pre.key_index(u);
                            pre.l_key_index(u, j);
                            let j2 = if j < k { j } else { j - 1 };
                            assert(self.entries@[j2].0 == u);
                            self.l_key_index(u, j2);
                        }
                        if self.spec_contains(u) {
                            let j = self.key_index(u);
                            let j0 = if j < k { j } else { j + 1 };
                            assert(self.entries@[j] == pre.entries@[j0]);
                            if u == token {
                                assert(pre.entries@[j0].0 == pre.entries@[k as int].0);
                                assert(j0 != k);
                            }
                        }
                    });
                }
                return ;
            }
            k = k + 1;
        }
        proof {
            assert(!self.spec_contains(token));
            assert(self@ =~= self@.remove(token));
        }
    }

    /// A snapshot of every live outbound channel, taken for one broadcast.
    pub fn each_live(&self) -> (v: Vec<u64>)
        requires
            self.wf(),
        ensures
            snapshot_of(self@, v@),
    {
        let n = self.entries.len();
        let mut out: Vec<u64> = Vec::new();
        let mut k: usize = 0;
        while k < n
            invariant
                self.wf(),
                k <= n,
                n == self.entries@.len(),
                forall|m: int|
                    0 <= m < k && (#[trigger] self.entries@[m]).1 is Some ==> out@.contains(
                        self.entries@[m].1->0,
                    ),
                forall|j: int|
                    0 <= j < out@.len() ==> exists|m: int|
                        0 <= m < k && (#[trigger] self.entries@[m]).1 == Some(#[trigger] out@[j]),
                chan_injective(self@) ==> distinct_seq(out@),
            decreases n - k,
        {
            if let Some(c) = self.entries[k].1 {
                let ghost preout = out@;
                out.push(c);
                proof {
                    assert forall|m: int|
                        0 <= m < k + 1 && (#[trigger] self.entries@[m]).1 is Some implies
                        out@.contains(self.entries@[m].1->0) by {
                        if m < k {
                            let j = choose|j: int|
                                0 <= j < preout.len() && preout[j] == self.entries@[m].1->0;
                            assert(out@[j] == self.entries@[m].1->0);
                        } else {
                            assert(out@[out@.len() - 1] == c);
                        }
                    }
                    if chan_injective(self@) {
                        assert forall|j: int| 0 <= j < preout.len() implies preout[j] != c by {
                            if preout[j] == c {
                                let m = choose|m: int|
                                    0 <= m < k && (#[trigger] self.entries@[m]).1 == Some(
                                        preout[j],
                                    );
                                let tm = self.entries@[m].0;
                                let tk = self.entries@[k as int].0;
                                self.l_key_index(tm, m);
                                self.l_key_index(tk, k as int);
                                assert(self@[tm] == Some(c) && self@[tk] == Some(c));
                                assert(tm == tk);
                                assert(self.entries@[m].0 != self.entries@[k as int].0);
                            }
                        }
                        assert(distinct_seq(out@));
                    }
                }
            }
            k = k + 1;
        }
        proof {
            assert forall|t: u64| #![auto] self@.contains_key(t) && self@[t] is Some implies
                v_holds_channel(out@, self@[t]->0) by {
                let j = self.key_index(t);
                assert(self.entries@[j].0 == t);
                assert(self.entries@[j].1 == self@[t]);
            }
            assert forall|j: int| 0 <= j < out@.len() implies chan_is_live(
                self@,
                #[trigger] out@[j],
            ) by {
                let m = choose|m: int|
                    0 <= m < self.entries@.len() && (#[trigger] self.entries@[m]).1 == Some(
                        out@[j],
                    );
                self.l_key_index(self.entries@[m].0, m);
                assert(self@.contains_key(self.entries@[m].0) && self@[self.entries@[m].0] == Some(
                    out@[j],
                ));
            }
        }
        out
    }
}

/// A sequence holds a channel.
pub open spec fn v_holds_channel(v: Seq<u64>, c: u64) -> bool {
    v.contains(c)
}

/// Some registered session holds this live channel.
pub open spec fn chan_is_live(m: Map<u64, Option<u64>>, c: u64) -> bool {
    exists|t: u64| m.contains_key(t) && (#[trigger] m[t]) == Some(c)
}

/// No two distinct sessions hold the same live channel.
pub open spec fn chan_injective(m: Map<u64, Option<u64>>) -> bool {
    forall|t1: u64, t2: u64|
        m.contains_key(t1) && m.contains_key(t2) && (#[trigger] m[t1]) is Some && m[t1] == (
        #[trigger] m[t2]) ==> t1 == t2
}

/// No channel stands twice in the sequence.
pub open spec fn distinct_seq(v: Seq<u64>) -> bool {
    forall|i: int, j: int| 0 <= i < j < v.len() ==> v[i] != v[j]
}

/// The snapshot relation of one broadcast: the sequence holds exactly the
/// channels of the sessions that are live in the registry, and — as long as
/// no two sessions share a channel — each such channel exactly once, so one
/// broadcast performs exactly one send per live session.
pub open spec fn snapshot_of(m: Map<u64, Option<u64>>, v: Seq<u64>) -> bool {
    (forall|t: u64| #![auto] m.contains_key(t) && m[t] is Some ==> v.contains(m[t]->0))
        && (forall|j: int| 0 <= j < v.len() ==> chan_is_live(m, #[trigger] v[j])) && (
    chan_injective(m) ==> distinct_seq(v))
}

/// A broadcast snapshot reaches every session whose channel is live at the
/// time the snapshot is taken.
pub proof fn lemma_snapshot_reaches_live(m: Map<u64, Option<u64>>, v: Seq<u64>, t: u64)
    requires
        snapshot_of(m, v),
        m.contains_key(t),
        m[t] is Some,
    ensures
        v.contains(m[t]->0),
{
}

/// A broadcast snapshot reaches no session that was detached before the
/// snapshot was taken: a channel that no registered session holds does not
/// appear in the snapshot.
pub proof fn lemma_snapshot_excludes_detached(m: Map<u64, Option<u64>>, v: Seq<u64>, c: u64)
    requires
        snapshot_of(m, v),
        forall|u: u64| m.contains_key(u) ==> m[u] != Some(c),
    ensures
        !v.contains(c),
{
    if v.contains(c) {
        let j = choose|j: int| 0 <= j < v.len() && v[j] == c;
        assert(chan_is_live(m, v[j]));
        let t = choose|t: u64| m.contains_key(t) && (#[trigger] m[t]) == Some(c);
        assert(m[t] != Some(c));
    }
}

/// Detaching is idempotent: removing a token a second time is a no-op on the
/// registry's model.
pub proof fn lemma_detach_idempotent(m: Map<u64, Option<u64>>, t: u64)
    ensures
        m.remove(t).remove(t) == m.remove(t),
{
    assert(m.remove(t).remove(t) =~= m.remove(t));
}

/// Last writer wins: after two attachments under one token, only the second
/// channel stands in the registry's model.
pub proof fn lemma_attach_overwrites(m: Map<u64, Option<u64>>, t: u64, c1: u64, c2: u64)
    ensures
        m.insert(t, Some(c1)).insert(t, Some(c2)) == m.insert(t, Some(c2)),
{
    assert(m.insert(t, Some(c1)).insert(t, Some(c2)) =~= m.insert(t, Some(c2)));
}

} // verus!
