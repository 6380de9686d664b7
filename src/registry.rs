use vstd::prelude::*;

verus! {

/// The registry's record of one live connection.
#[derive(Debug, PartialEq, Eq)]
pub struct SessionHandle {
    pub user_id: String,
    pub ws_id: String,
}

impl SessionHandle {
    pub open spec fn pair(self) -> (Seq<char>, Seq<char>) {
        (self.user_id@, self.ws_id@)
    }
}

impl Clone for SessionHandle {
    fn clone(&self) -> (r: Self)
        ensures
            r == *self,
    {
        SessionHandle { user_id: self.user_id.clone(), ws_id: self.ws_id.clone() }
    }
}

/// In-memory index of the live connections: `(user_id, ws_id)` pairs, each
/// `ws_id` at most once.
pub struct ActorRegistry {
    pub entries: Vec<SessionHandle>,
}

/// The `ws_id` components of a sequence of `(user_id, ws_id)` pairs.
pub open spec fn ws_ids_of(pairs: Seq<(Seq<char>, Seq<char>)>) -> Seq<Seq<char>> {
    pairs.map_values(|p: (Seq<char>, Seq<char>)| p.1)
}

/// Holds of the pairs whose `ws_id` is not `ws`.
pub open spec fn other_ws(ws: Seq<char>) -> spec_fn((Seq<char>, Seq<char>)) -> bool {
    |p: (Seq<char>, Seq<char>)| p.1 != ws
}

/// Holds of the pairs other than those of `ws`, or, given a user, other
/// than `(user, ws)`.
pub open spec fn not_matching(user: Option<Seq<char>>, ws: Seq<char>) -> spec_fn(
    (Seq<char>, Seq<char>),
) -> bool {
    |p: (Seq<char>, Seq<char>)|
        match user {
            Some(u) => p != (u, ws),
            None => p.1 != ws,
        }
}

/// Holds of the pairs of user `u`.
pub open spec fn of_user(u: Seq<char>) -> spec_fn((Seq<char>, Seq<char>)) -> bool {
    |p: (Seq<char>, Seq<char>)| p.0 == u
}

pub open spec fn opt_view(s: Option<&String>) -> Option<Seq<char>> {
    match s {
        Some(x) => Some(x@),
        None => None,
    }
}

/// No `ws_id` occurs twice.
pub open spec fn ws_unique(pairs: Seq<(Seq<char>, Seq<char>)>) -> bool {
    forall|i: int, j: int|
        0 <= i < pairs.len() && 0 <= j < pairs.len() && #[trigger] pairs[i].1 == #[trigger] pairs[j].1
            ==> i == j
}

/// A well-formed registry holds one registration at most for a connection.
pub proof fn lemma_one_user_per_connection(reg: ActorRegistry, u1: Seq<char>, u2: Seq<char>, ws: Seq<char>)
    requires
        reg.wf(),
        reg@.contains((u1, ws)),
        reg@.contains((u2, ws)),
    ensures
        u1 == u2,
{
    let i = choose|i: int| 0 <= i < reg@.len() && reg@[i] == (u1, ws);
    let j = choose|j: int| 0 <= j < reg@.len() && reg@[j] == (u2, ws);
    assert(reg@[i].1 == reg@[j].1);
}

/// Once the registration `(user, ws)` is removed from a well-formed registry
/// that held it, no registration of connection `ws` is left.
pub proof fn lemma_detach_leaves_no_connection(pairs: Seq<(Seq<char>, Seq<char>)>, user: Seq<char>, ws: Seq<char>)
    requires
        ws_unique(pairs),
        pairs.contains((user, ws)),
    ensures
        forall|u: Seq<char>| !(#[trigger] pairs.filter(not_matching(Some(user), ws)).contains((u, ws))),
{
    let i = choose|i: int| 0 <= i < pairs.len() && pairs[i] == (user, ws);
    assert forall|u: Seq<char>| !(#[trigger] pairs.filter(not_matching(Some(user), ws)).contains((u, ws))) by {
        if pairs.filter(not_matching(Some(user), ws)).contains((u, ws)) {
            pairs.lemma_filter_contains_rev(not_matching(Some(user), ws), (u, ws));
            let j = choose|j: int| 0 <= j < pairs.len() && pairs[j] == (u, ws);
            assert(pairs[i].1 == pairs[j].1);
            let f = pairs.filter(not_matching(Some(user), ws));
            let k = choose|k: int| 0 <= k < f.len() && f[k] == (u, ws);
            pairs.lemma_filter_pred(not_matching(Some(user), ws), k);
        }
    }
}

impl View for ActorRegistry {
    type V = Seq<(Seq<char>, Seq<char>)>;

    /// The registered `(user_id, ws_id)` pairs, in registration order.
    open spec fn view(&self) -> Seq<(Seq<char>, Seq<char>)> {
        self.entries@.map_values(|h: SessionHandle| h.pair())
    }
}

impl ActorRegistry {
    pub open spec fn wf(&self) -> bool {
        ws_unique(self@)
    }

    pub fn new() -> (r: Self)
        ensures
            r.wf(),
            r@ == Seq::<(Seq<char>, Seq<char>)>::empty(),
    {
        let r = ActorRegistry { entries: Vec::new() };
        assert(r@ =~= Seq::<(Seq<char>, Seq<char>)>::empty());
        r
    }

    /// The handles other than those of `ws_id`, or, given a user, other than
    /// the one of `ws_id` registered for that user.
    fn retain_others(&self, user_id: Option<&String>, ws_id: &String) -> (r: Vec<SessionHandle>)
        requires
            self.wf(),
        ensures
            r@.map_values(|h: SessionHandle| h.pair()) == self@.filter(
                not_matching(opt_view(user_id), ws_id@),
            ),
            ws_unique(r@.map_values(|h: SessionHandle| h.pair())),
            user_id is None ==> forall|k: int| 0 <= k < r@.len() ==> #[trigger] r@[k].ws_id@ != ws_id@,
    {
        let ghost keep = not_matching(opt_view(user_id), ws_id@);
        let ghost old_view = self@;
        let mut kept: Vec<SessionHandle> = Vec::new();
        let mut i: usize = 0;
        while i < self.entries.len()
            invariant
                i <= self.entries@.len(),
                old_view == self@,
                keep == not_matching(opt_view(user_id), ws_id@),
                ws_unique(old_view),
                kept@.map_values(|h: SessionHandle| h.pair()) == old_view.take(i as int).filter(
                    keep,
                ),
                ws_unique(kept@.map_values(|h: SessionHandle| h.pair())),
                forall|k: int|
                    0 <= k < kept@.len() ==> keep(#[trigger] kept@[k].pair()) && exists|j: int|
                        0 <= j < i && old_view[j] == kept@[k].pair(),
            decreases self.entries@.len() - i,
        {
            let h = &self.entries[i];
            let same_ws = h.ws_id == *ws_id;
            let matches = match user_id {
                Some(u) => same_ws && h.user_id == *u,
                None => same_ws,
            };
            proof {
                assert(old_view[i as int] == h.pair());
                assert(old_view.take(i + 1) =~= old_view.take(i as int).push(old_view[i as int]));
                old_view.take(i as int).lemma_filter_push(old_view[i as int], keep);
            }
            if !matches {
                let ghost before = kept@;
                kept.push(h.clone());
                proof {
                    let kv = kept@.map_values(|h: SessionHandle| h.pair());
                    let bv = before.map_values(|h: SessionHandle| h.pair());
                    assert(kv =~= bv.push(old_view[i as int]));
                    assert forall|k: int|
                        0 <= k < kept@.len() implies keep(#[trigger] kept@[k].pair()) && exists|j: int|
                            0 <= j < i + 1 && old_view[j] == kept@[k].pair() by {
                        if k < before.len() {
                            let j = choose|j: int| 0 <= j < i && old_view[j] == before[k].pair();
                            assert(old_view[j] == kept@[k].pair());
                        } else {
                            assert(old_view[i as int] == kept@[k].pair());
                        }
                    }
                    assert forall|a: int, b: int|
                        0 <= a < kv.len() && 0 <= b < kv.len() && #[trigger] kv[a].1
                            == #[trigger] kv[b].1 implies a == b by {
                        if a < before.len() && b == before.len() {
                            let j = choose|j: int| 0 <= j < i && old_view[j] == before[a].pair();
                            assert(old_view[j].1 == old_view[i as int].1);
                        } else if b < before.len() && a == before.len() {
                            let j = choose|j: int| 0 <= j < i && old_view[j] == before[b].pair();
                            assert(old_view[j].1 == old_view[i as int].1);
                        } else if a < before.len() && b < before.len() {
                            assert(kv[a] == bv[a]);
                            assert(kv[b] == bv[b]);
                        }
                    }
                }
            }
            i = i + 1;
        }
        assert(old_view.take(self.entries@.len() as int) =~= old_view);
        assert forall|k: int| user_id is None && 0 <= k < kept@.len() implies #[trigger] kept@[k].ws_id@
            != ws_id@ by {
            assert(keep(kept@[k].pair()));
        }
        kept
    }

    /// Registers the connection `ws_id` of `user_id`, replacing any earlier
    /// registration of that `ws_id`.
    pub fn attach(&mut self, user_id: String, ws_id: String)
        requires
            old(self).wf(),
        ensures
            final(self).wf(),
            final(self)@ == old(self)@.filter(other_ws(ws_id@)).push((user_id@, ws_id@)),
    {
        let mut kept = self.retain_others(None, &ws_id);
        assert(not_matching(None, ws_id@) == other_ws(ws_id@));
        let ghost before = kept@;
        kept.push(SessionHandle { user_id, ws_id });
        proof {
            let kv = kept@.map_values(|h: SessionHandle| h.pair());
            let bv = before.map_values(|h: SessionHandle| h.pair());
            assert(kv =~= bv.push(kept@[before.len() as int].pair()));
            assert forall|a: int, b: int|
                0 <= a < kv.len() && 0 <= b < kv.len() && #[trigger] kv[a].1 == #[trigger] kv[b].1
                    implies a == b by {
                if a < before.len() && b < before.len() {
                    assert(kv[a] == bv[a]);
                    assert(kv[b] == bv[b]);
                } else if a < before.len() {
                    assert(before[a].ws_id@ != kept@[b].ws_id@);
                } else if b < before.len() {
                    assert(before[b].ws_id@ != kept@[a].ws_id@);
                }
            }
        }
        self.entries = kept;
    }

    /// Removes the registration of the connection `ws_id` of `user_id`.
    pub fn detach(&mut self, user_id: &String, ws_id: &String)
        requires
            old(self).wf(),
        ensures
            final(self).wf(),
            final(self)@ == old(self)@.filter(not_matching(Some(user_id@), ws_id@)),
            !final(self)@.contains((user_id@, ws_id@)),
    {
        let kept = self.retain_others(Some(user_id), ws_id);
        self.entries = kept;
        proof {
            let keep = not_matching(Some(user_id@), ws_id@);
            if self@.contains((user_id@, ws_id@)) {
                let k = self@.index_of((user_id@, ws_id@));
                old(self)@.lemma_filter_pred(keep, k);
            }
        }
    }

    /// The connections of `user_id`, in registration order.
    pub fn handles_for(&self, user_id: &String) -> (r: Vec<String>)
        ensures
            r@.map_values(|s: String| s@) == ws_ids_of(self@.filter(of_user(user_id@))),
    {
        let ghost sel = of_user(user_id@);
        let mut r: Vec<String> = Vec::new();
        let mut i: usize = 0;
        while i < self.entries.len()
            invariant
                i <= self.entries@.len(),
                sel == of_user(user_id@),
                r@.map_values(|s: String| s@) == ws_ids_of(self@.take(i as int).filter(sel)),
            decreases self.entries@.len() - i,
        {
            let h = &self.entries[i];
            let mine = h.user_id == *user_id;
            proof {
                assert(self@[i as int] == h.pair());
                assert(self@.take(i + 1) =~= self@.take(i as int).push(self@[i as int]));
                self@.take(i as int).lemma_filter_push(self@[i as int], sel);
            }
            if mine {
                let ghost before = r@;
                r.push(h.ws_id.clone());
                assert(r@.map_values(|s: String| s@) =~= before.map_values(|s: String| s@).push(
                    h.ws_id@,
                ));
                assert(ws_ids_of(self@.take(i + 1).filter(sel)) =~= ws_ids_of(
                    self@.take(i as int).filter(sel),
                ).push(h.ws_id@));
            }
            i = i + 1;
        }
        assert(self@.take(self.entries@.len() as int) =~= self@);
        r
    }
}

} // verus!
