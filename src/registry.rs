use vstd::prelude::*;

verus! {

/// One `(local_port, exposed_port)` pair offered by an inner client.
#[derive(Clone, Copy, Debug, PartialEq, Eq)]
pub struct Mapping {
    pub local_port: u16,
    pub exposed_port: u16,
}

/// What an exposed port is currently bound to: the session that holds it and
/// the private port that session advertised for it.
#[derive(Clone, Copy, Debug, PartialEq, Eq)]
pub struct Binding {
    pub session: u64,
    pub local_port: u16,
}

/// One row of the mapping table.
#[derive(Clone, Copy, Debug, PartialEq, Eq)]
pub struct Route {
    pub exposed_port: u16,
    pub binding: Binding,
}

/// Binding of `port` in a table: the last row that names it.
pub open spec fn bound_in(rows: Seq<Route>, port: u16) -> Option<Binding>
    decreases rows.len(),
{
    if rows.len() == 0 {
        None
    } else if rows.last().exposed_port == port {
        Some(rows.last().binding)
    } else {
        bound_in(rows.drop_last(), port)
    }
}

/// No exposed port appears in two rows.
pub open spec fn ports_unique(rows: Seq<Route>) -> bool {
    forall|i: int, j: int|
        0 <= i < j < rows.len() ==> #[trigger] rows[i].exposed_port != #[trigger] rows[j].exposed_port
}

/// The rows whose session is not in `dead`, in their order.
pub open spec fn keep_routes(rows: Seq<Route>, dead: Set<u64>) -> Seq<Route>
    decreases rows.len(),
{
    if rows.len() == 0 {
        Seq::empty()
    } else if dead.contains(rows.last().binding.session) {
        keep_routes(rows.drop_last(), dead)
    } else {
        keep_routes(rows.drop_last(), dead).push(rows.last())
    }
}

/// A binding, unless its session is in `dead`.
pub open spec fn unless_dead(b: Option<Binding>, dead: Set<u64>) -> Option<Binding> {
    match b {
        Some(x) => if dead.contains(x.session) { None } else { Some(x) },
        None => None,
    }
}

/// The rows that an announcement of `ms` by `session` adds.
pub open spec fn rows_of(session: u64, ms: Seq<Mapping>) -> Seq<Route> {
    ms.map_values(|m: Mapping| Route { exposed_port: m.exposed_port, binding: Binding { session, local_port: m.local_port } })
}

/// The private port that `ms` maps `port` to, if it names `port`.
pub open spec fn claim_in(ms: Seq<Mapping>, port: u16) -> Option<u16>
    decreases ms.len(),
{
    if ms.len() == 0 {
        None
    } else if ms.last().exposed_port == port {
        Some(ms.last().local_port)
    } else {
        claim_in(ms.drop_last(), port)
    }
}

/// No exposed port appears twice in an announcement.
pub open spec fn claims_unique(ms: Seq<Mapping>) -> bool {
    forall|i: int, j: int|
        0 <= i < j < ms.len() ==> #[trigger] ms[i].exposed_port != #[trigger] ms[j].exposed_port
}

/// The session that holds `port` in a table, if any.
pub open spec fn holder(rows: Seq<Route>, port: u16) -> Option<u64> {
    match bound_in(rows, port) {
        Some(b) => Some(b.session),
        None => None,
    }
}

/// The sessions, other than `session`, that hold a port claimed by `ms`.
pub open spec fn displaced_by(rows: Seq<Route>, session: u64, ms: Seq<Mapping>) -> Set<u64> {
    Set::new(
        |x: u64|
            x != session && exists|k: int| 0 <= k < ms.len() && #[trigger] holder(rows, ms[k].exposed_port) == Some(x),
    )
}

/// The binding of `port` after `session` announced `ms` over `rows`.
pub open spec fn after_announce(rows: Seq<Route>, session: u64, ms: Seq<Mapping>, port: u16) -> Option<Binding> {
    match claim_in(ms, port) {
        Some(l) => Some(Binding { session, local_port: l }),
        None => unless_dead(bound_in(rows, port), displaced_by(rows, session, ms).insert(session)),
    }
}

pub proof fn lemma_bound_in_unique(rows: Seq<Route>, port: u16, i: int)
    requires
        ports_unique(rows),
        0 <= i < rows.len(),
        rows[i].exposed_port == port,
    ensures
        bound_in(rows, port) == Some(rows[i].binding),
    decreases rows.len(),
{
    if i < rows.len() - 1 {
        assert(rows.last() == rows[rows.len() - 1]);
        lemma_bound_in_unique(rows.drop_last(), port, i);
    }
}

pub proof fn lemma_bound_in_some(rows: Seq<Route>, port: u16)
    ensures
        bound_in(rows, port) is Some <==> exists|i: int| 0 <= i < rows.len() && #[trigger] rows[i].exposed_port == port,
        bound_in(rows, port) is Some ==> exists|i: int|
            0 <= i < rows.len() && #[trigger] rows[i].exposed_port == port && rows[i].binding == bound_in(rows, port).unwrap(),
    decreases rows.len(),
{
    if rows.len() > 0 {
        lemma_bound_in_some(rows.drop_last(), port);
        if bound_in(rows.drop_last(), port) is Some {
            let i = choose|i: int|
                0 <= i < rows.drop_last().len() && #[trigger] rows.drop_last()[i].exposed_port == port
                    && rows.drop_last()[i].binding == bound_in(rows.drop_last(), port).unwrap();
            assert(rows[i] == rows.drop_last()[i]);
        }
        if exists|i: int| 0 <= i < rows.len() && #[trigger] rows[i].exposed_port == port {
            let i = choose|i: int| 0 <= i < rows.len() && #[trigger] rows[i].exposed_port == port;
            if i < rows.len() - 1 {
                assert(rows.drop_last()[i] == rows[i]);
            }
        }
    }
}

pub proof fn lemma_keep_routes(rows: Seq<Route>, dead: Set<u64>, port: u16)
    requires
        ports_unique(rows),
    ensures
        bound_in(keep_routes(rows, dead), port) == unless_dead(bound_in(rows, port), dead),
        ports_unique(keep_routes(rows, dead)),
        forall|i: int| 0 <= i < keep_routes(rows, dead).len() ==> rows.contains(#[trigger] keep_routes(rows, dead)[i]),
    decreases rows.len(),
{
    if rows.len() > 0 {
        let pre = rows.drop_last();
        let last = rows.last();
        assert(ports_unique(pre));
        lemma_keep_routes(pre, dead, port);
        lemma_keep_routes(pre, dead, last.exposed_port);
        let kp = keep_routes(pre, dead);
        let k = keep_routes(rows, dead);
        assert forall|i: int| 0 <= i < kp.len() implies rows.contains(#[trigger] kp[i]) by {
            let j = choose|j: int| 0 <= j < pre.len() && pre[j] == kp[i];
            assert(rows[j] == pre[j]);
        }
        if !dead.contains(last.binding.session) {
            assert forall|i: int| 0 <= i < k.len() implies rows.contains(#[trigger] k[i]) by {
                if i == k.len() - 1 {
                    assert(k[i] == rows[rows.len() - 1]);
                } else {
                    assert(k[i] == kp[i]);
                }
            }
            assert forall|a: int, b: int| 0 <= a < b < k.len() implies #[trigger] k[a].exposed_port
                != #[trigger] k[b].exposed_port by {
                assert(k[a] == kp[a]);
                if b == k.len() - 1 {
                    assert(k[b] == last);
                    let j = choose|j: int| 0 <= j < pre.len() && pre[j] == kp[a];
                    assert(rows[j] == pre[j]);
                    assert(rows[rows.len() - 1] == last);
                } else {
                    assert(k[b] == kp[b]);
                }
            }
        }
        if last.exposed_port != port {
            assert(bound_in(rows, port) == bound_in(pre, port));
            if !dead.contains(last.binding.session) {
                assert(k == kp.push(last));
                assert(k.drop_last() =~= kp);
            }
        } else {
            lemma_bound_in_some(pre, port);
            if bound_in(pre, port) is Some {
                let j = choose|j: int| 0 <= j < pre.len() && #[trigger] pre[j].exposed_port == port;
                assert(rows[j] == pre[j]);
                assert(rows[rows.len() - 1] == last);
            }
            lemma_bound_in_some(kp, port);
            if bound_in(kp, port) is Some {
                let i = choose|i: int| 0 <= i < kp.len() && #[trigger] kp[i].exposed_port == port;
                assert(pre.contains(kp[i]));
                let j = choose|j: int| 0 <= j < pre.len() && pre[j] == kp[i];
                assert(rows[j] == pre[j]);
                assert(rows[rows.len() - 1] == last);
                assert(false);
            }
            assert(bound_in(pre, port) is None);
            if dead.contains(last.binding.session) {
                assert(k == kp);
            } else {
                assert(k == kp.push(last));
                assert(k.drop_last() =~= kp);
            }
        }
    }
}

pub proof fn lemma_claim_in_some(ms: Seq<Mapping>, port: u16)
    ensures
        claim_in(ms, port) is Some <==> exists|k: int| 0 <= k < ms.len() && #[trigger] ms[k].exposed_port == port,
    decreases ms.len(),
{
    if ms.len() > 0 {
        lemma_claim_in_some(ms.drop_last(), port);
        if exists|k: int| 0 <= k < ms.len() && #[trigger] ms[k].exposed_port == port {
            let k = choose|k: int| 0 <= k < ms.len() && #[trigger] ms[k].exposed_port == port;
            if k < ms.len() - 1 {
                assert(ms.drop_last()[k] == ms[k]);
            }
        }
        if claim_in(ms.drop_last(), port) is Some {
            let k = choose|k: int| 0 <= k < ms.drop_last().len() && #[trigger] ms.drop_last()[k].exposed_port == port;
            assert(ms[k] == ms.drop_last()[k]);
        }
    }
}

pub proof fn lemma_append_claims(base: Seq<Route>, session: u64, ms: Seq<Mapping>)
    requires
        ports_unique(base),
        claims_unique(ms),
        forall|i: int| 0 <= i < base.len() ==> claim_in(ms, #[trigger] base[i].exposed_port) is None,
    ensures
        ports_unique(base + rows_of(session, ms)),
        forall|p: u16| #[trigger] bound_in(base + rows_of(session, ms), p) == match claim_in(ms, p) {
            Some(l) => Some(Binding { session, local_port: l }),
            None => bound_in(base, p),
        },
    decreases ms.len(),
{
    let all = base + rows_of(session, ms);
    if ms.len() == 0 {
        assert(all =~= base);
    } else {
        let pre = ms.drop_last();
        let m = ms.last();
        assert(claims_unique(pre));
        assert forall|i: int| 0 <= i < base.len() implies claim_in(pre, #[trigger] base[i].exposed_port) is None by {
            lemma_claim_in_some(pre, base[i].exposed_port);
            lemma_claim_in_some(ms, base[i].exposed_port);
            if claim_in(pre, base[i].exposed_port) is Some {
                let k = choose|k: int| 0 <= k < pre.len() && #[trigger] pre[k].exposed_port == base[i].exposed_port;
                assert(ms[k] == pre[k]);
            }
        }
        lemma_append_claims(base, session, pre);
        let part = base + rows_of(session, pre);
        let r = Route { exposed_port: m.exposed_port, binding: Binding { session, local_port: m.local_port } };
        assert(all =~= part.push(r));
        assert(all.drop_last() =~= part);
        lemma_claim_in_some(ms, m.exposed_port);
        assert(ms[ms.len() - 1] == m);
        assert forall|i: int| 0 <= i < part.len() implies #[trigger] part[i].exposed_port != m.exposed_port by {
            if i < base.len() {
                assert(part[i] == base[i]);
            } else {
                assert(part[i] == rows_of(session, pre)[i - base.len()]);
                assert(pre[i - base.len()] == ms[i - base.len()]);
            }
        }
        assert forall|a: int, b: int| 0 <= a < b < all.len() implies #[trigger] all[a].exposed_port
            != #[trigger] all[b].exposed_port by {
            if b == all.len() - 1 {
                assert(all[a] == part[a]);
            } else {
                assert(all[a] == part[a]);
                assert(all[b] == part[b]);
            }
        }
        assert forall|p: u16| #[trigger] bound_in(all, p) == match claim_in(ms, p) {
            Some(l) => Some(Binding { session, local_port: l }),
            None => bound_in(base, p),
        } by {
            assert(all.last() == r);
            assert(bound_in(part, p) == match claim_in(pre, p) {
                Some(l) => Some(Binding { session, local_port: l }),
                None => bound_in(base, p),
            });
        }
    }
}

/// One public connection spliced to a private-side stream through a session.
#[derive(Clone, Copy, Debug, PartialEq, Eq)]
pub struct RelayPair {
    pub id: u64,
    pub session: u64,
    pub exposed_port: u16,
    pub local_port: u16,
}

/// The pairs that do not run through `session`, in their order.
pub open spec fn pairs_without(ps: Seq<RelayPair>, session: u64) -> Seq<RelayPair>
    decreases ps.len(),
{
    if ps.len() == 0 {
        Seq::empty()
    } else if ps.last().session == session {
        pairs_without(ps.drop_last(), session)
    } else {
        pairs_without(ps.drop_last(), session).push(ps.last())
    }
}

/// The ids of the pairs that run through `session`, in their order.
pub open spec fn pair_ids_of(ps: Seq<RelayPair>, session: u64) -> Seq<u64>
    decreases ps.len(),
{
    if ps.len() == 0 {
        Seq::empty()
    } else if ps.last().session == session {
        pair_ids_of(ps.drop_last(), session).push(ps.last().id)
    } else {
        pair_ids_of(ps.drop_last(), session)
    }
}

/// The pairs whose id is not `id`, in their order.
pub open spec fn pairs_except(ps: Seq<RelayPair>, id: u64) -> Seq<RelayPair>
    decreases ps.len(),
{
    if ps.len() == 0 {
        Seq::empty()
    } else if ps.last().id == id {
        pairs_except(ps.drop_last(), id)
    } else {
        pairs_except(ps.drop_last(), id).push(ps.last())
    }
}

/// Why an announcement was refused.
#[derive(Clone, Copy, Debug, PartialEq, Eq)]
pub enum AnnounceError {
    /// The session lost its ports to a newer announcement and may not claim again.
    Fenced,
    /// The announcement names one exposed port twice.
    DuplicatePort,
}

/// The server's mapping table: which session serves each exposed port, and
/// the relay pairs currently routed through each session. It is the single
/// point of mutation for routing decisions.
pub struct Registry {
    routes: Vec<Route>,
    fenced: Vec<u64>,
    pairs: Vec<RelayPair>,
    next_pair: u64,
}

fn contains_u64(v: &Vec<u64>, x: u64) -> (r: bool)
    ensures
        r == v@.contains(x),
{
    let mut i: usize = 0;
    while i < v.len()
        invariant
            i <= v.len(),
            forall|j: int| 0 <= j < i ==> v@[j] != x,
        decreases v.len() - i,
    {
        if v[i] == x {
            return true;
        }
        i += 1;
    }
    false
}

fn claims_distinct(ms: &Vec<Mapping>) -> (r: bool)
    ensures
        r == claims_unique(ms@),
{
    let mut j: usize = 0;
    while j < ms.len()
        invariant
            j <= ms.len(),
            forall|a: int, b: int| 0 <= a < b < j ==> #[trigger] ms@[a].exposed_port != #[trigger] ms@[b].exposed_port,
        decreases ms.len() - j,
    {
        let mut i: usize = 0;
        while i < j
            invariant
                i <= j < ms.len(),
                forall|a: int| 0 <= a < i ==> ms@[a].exposed_port != ms@[j as int].exposed_port,
            decreases j - i,
        {
            if ms[i].exposed_port == ms[j].exposed_port {
                return false;
            }
            i += 1;
        }
        j += 1;
    }
    true
}

impl Registry {
    /// The mapping table, row by row.
    pub closed spec fn table(&self) -> Seq<Route> {
        self.routes@
    }

    /// Sessions that lost their ports to a newer announcement.
    pub closed spec fn fenced(&self) -> Seq<u64> {
        self.fenced@
    }

    /// The relay pairs currently routed, oldest first.
    pub closed spec fn live_pairs(&self) -> Seq<RelayPair> {
        self.pairs@
    }

    /// The id that the next relay pair will get.
    pub closed spec fn pair_counter(&self) -> u64 {
        self.next_pair
    }

    /// What `port` is bound to.
    pub open spec fn binding(&self, port: u16) -> Option<Binding> {
        bound_in(self.table(), port)
    }

    /// Each exposed port is held by at most one row, and relay pair ids are
    /// below the counter.
    pub closed spec fn wf(&self) -> bool {
        &&& ports_unique(self.routes@)
        &&& forall|i: int| 0 <= i < self.pairs@.len() ==> #[trigger] self.pairs@[i].id < self.next_pair
    }

    pub fn new() -> (r: Registry)
        ensures
            r.wf(),
            r.table().len() == 0,
            forall|p: u16| #[trigger] r.binding(p) is None,
            r.fenced().len() == 0,
            r.live_pairs().len() == 0,
            r.pair_counter() == 0,
    {
        Registry { routes: Vec::new(), fenced: Vec::new(), pairs: Vec::new(), next_pair: 0 }
    }

    /// The session and private port that serve `port`, if any.
    pub fn lookup(&self, port: u16) -> (r: Option<Binding>)
        ensures
            r == self.binding(port),
    {
        let mut found: Option<Binding> = None;
        let mut i: usize = 0;
        while i < self.routes.len()
            invariant
                i <= self.routes@.len(),
                found == bound_in(self.routes@.take(i as int), port),
            decreases self.routes@.len() - i,
        {
            let r = self.routes[i];
            if r.exposed_port == port {
                found = Some(r.binding);
            }
            proof {
                assert(self.routes@.take(i + 1).drop_last() =~= self.routes@.take(i as int));
            }
            i += 1;
        }
        proof {
            assert(self.routes@.take(self.routes@.len() as int) =~= self.routes@);
        }
        found
    }

    /// Binds every port of `ms` to `session`. The newest announcement wins:
    /// each other session that held one of those ports loses all of its
    /// ports, is fenced against claiming again, and is returned so it can be
    /// told of the conflict. A fenced session is refused, and so is an
    /// announcement that names one exposed port twice; neither changes the
    /// table.
    pub fn announce(&mut self, session: u64, ms: &Vec<Mapping>) -> (r: Result<Vec<u64>, AnnounceError>)
        requires
            old(self).wf(),
        ensures
            final(self).wf(),
            old(self).fenced().contains(session) ==> r == Err::<Vec<u64>, AnnounceError>(AnnounceError::Fenced),
            !old(self).fenced().contains(session) && !claims_unique(ms@) ==> r == Err::<Vec<u64>, AnnounceError>(
                AnnounceError::DuplicatePort,
            ),
            !old(self).fenced().contains(session) && claims_unique(ms@) ==> r is Ok,
            r is Err ==> *final(self) == *old(self),
            r matches Ok(d) ==> {
                &&& d@.to_set() == displaced_by(old(self).table(), session, ms@)
                &&& d@.no_duplicates()
                &&& final(self).fenced() == old(self).fenced() + d@
                &&& final(self).live_pairs() == old(self).live_pairs()
                &&& final(self).pair_counter() == old(self).pair_counter()
                &&& forall|p: u16| #[trigger] final(self).binding(p) == after_announce(old(self).table(), session, ms@, p)
            },
    {
        if contains_u64(&self.fenced, session) {
            return Err(AnnounceError::Fenced);
        }
        if !claims_distinct(ms) {
            return Err(AnnounceError::DuplicatePort);
        }
        let ghost rows = self.routes@;
        let ghost disp = displaced_by(rows, session, ms@);
        let mut d: Vec<u64> = Vec::new();
        let mut k: usize = 0;
        while k < ms.len()
            invariant
                k <= ms@.len(),
                rows == self.routes@,
                d@.no_duplicates(),
                forall|x: u64| d@.contains(x) <==> (x != session && exists|j: int|
                    0 <= j < k && #[trigger] holder(rows, ms@[j].exposed_port) == Some(x)),
            decreases ms@.len() - k,
        {
            let b = self.lookup(ms[k].exposed_port);
            proof {
                assert(holder(rows, ms@[k as int].exposed_port) == match b { Some(x) => Some(x.session), None => None::<u64> });
            }
            let ghost d0 = d@;
            assert(forall|x: u64| d0.contains(x) <==> (x != session && exists|j: int|
                    0 <= j < k && #[trigger] holder(rows, ms@[j].exposed_port) == Some(x)));
            let ghost h = holder(rows, ms@[k as int].exposed_port);
            match b {
                Some(x) => {
                    if x.session != session && !contains_u64(&d, x.session) {
                        d.push(x.session);
                        proof {
                            assert forall|y: u64| d@.contains(y) <==> (d0.contains(y) || y == x.session) by {
                                if d@.contains(y) {
                                    let w = choose|w: int| 0 <= w < d@.len() && d@[w] == y;
                                    if w < d0.len() {
                                        assert(d0[w] == y);
                                    }
                                }
                                if d0.contains(y) {
                                    let w = choose|w: int| 0 <= w < d0.len() && d0[w] == y;
                                    assert(d@[w] == y);
                                }
                                assert(d@[d0.len() as int] == x.session);
                            }
                        }
                    }
                },
                None => {},
            }
            proof {
                assert(forall|y: u64| d@.contains(y) <==> (d0.contains(y) || (y != session && h == Some(y))));
                assert forall|x: u64| d@.contains(x) <==> (x != session && exists|j: int|
                    0 <= j < k + 1 && #[trigger] holder(rows, ms@[j].exposed_port) == Some(x)) by {
                    if x != session && h == Some(x) {
                        assert(holder(rows, ms@[k as int].exposed_port) == Some(x));
                    }
                    if d0.contains(x) {
                        let j = choose|j: int| 0 <= j < k && #[trigger] holder(rows, ms@[j].exposed_port) == Some(x);
                        assert(0 <= j < k + 1 && holder(rows, ms@[j].exposed_port) == Some(x));
                    }
                    if exists|j: int| 0 <= j < k + 1 && #[trigger] holder(rows, ms@[j].exposed_port) == Some(x) {
                        let j = choose|j: int| 0 <= j < k + 1 && #[trigger] holder(rows, ms@[j].exposed_port) == Some(x);
                        if j < k {
                            assert(exists|j: int| 0 <= j < k && #[trigger] holder(rows, ms@[j].exposed_port) == Some(x));
                        }
                    }
                }
            }
            k += 1;
        }
        let ghost dead = disp.insert(session);
        proof {
            assert(d@.to_set() =~= disp);
        }
        let mut kept: Vec<Route> = Vec::new();
        let mut i: usize = 0;
        while i < self.routes.len()
            invariant
                i <= self.routes@.len(),
                rows == self.routes@,
                d@.to_set() == disp,
                dead == disp.insert(session),
                kept@ == keep_routes(rows.take(i as int), dead),
            decreases self.routes@.len() - i,
        {
            let r = self.routes[i];
            proof {
                assert(rows.take(i + 1).drop_last() =~= rows.take(i as int));
                assert(rows.take(i + 1).last() == r);
            }
            if r.binding.session != session && !contains_u64(&d, r.binding.session) {
                kept.push(r);
            }
            i += 1;
        }
        proof {
            assert(rows.take(rows.len() as int) =~= rows);
        }
        let ghost base = kept@;
        let mut j: usize = 0;
        while j < ms.len()
            invariant
                j <= ms@.len(),
                kept@ == base + rows_of(session, ms@.take(j as int)),
            decreases ms@.len() - j,
        {
            let m = ms[j];
            kept.push(Route { exposed_port: m.exposed_port, binding: Binding { session, local_port: m.local_port } });
            proof {
                assert(rows_of(session, ms@.take(j + 1)) =~= rows_of(session, ms@.take(j as int)).push(
                    Route { exposed_port: m.exposed_port, binding: Binding { session, local_port: m.local_port } },
                ));
            }
            j += 1;
        }
        proof {
            assert(ms@.take(ms@.len() as int) =~= ms@);
            assert forall|p: u16| true implies bound_in(base, p) == unless_dead(bound_in(rows, p), dead) by {
                lemma_keep_routes(rows, dead, p);
            }
            lemma_keep_routes(rows, dead, 0);
            assert forall|i: int| 0 <= i < base.len() implies claim_in(ms@, #[trigger] base[i].exposed_port) is None by {
                let q = base[i].exposed_port;
                assert(rows.contains(base[i]));
                let t = choose|t: int| 0 <= t < rows.len() && rows[t] == base[i];
                lemma_bound_in_unique(rows, q, t);
                lemma_keep_routes(rows, dead, q);
                lemma_bound_in_unique(base, q, i);
                lemma_claim_in_some(ms@, q);
                if claim_in(ms@, q) is Some {
                    let kk = choose|kk: int| 0 <= kk < ms@.len() && #[trigger] ms@[kk].exposed_port == q;
                    assert(holder(rows, ms@[kk].exposed_port) == Some(base[i].binding.session));
                }
            }
            lemma_append_claims(base, session, ms@);
        }
        let mut t: usize = 0;
        let ghost f0 = self.fenced@;
        while t < d.len()
            invariant
                t <= d@.len(),
                self.fenced@ == f0 + d@.take(t as int),
                self.routes@ == rows,
                self.pairs@ == old(self).pairs@,
                self.next_pair == old(self).next_pair,
                f0 == old(self).fenced@,
            decreases d@.len() - t,
        {
            self.fenced.push(d[t]);
            proof {
                assert(d@.take(t + 1) =~= d@.take(t as int).push(d@[t as int]));
            }
            t += 1;
        }
        proof {
            assert(d@.take(d@.len() as int) =~= d@);
        }
        self.routes = kept;
        Ok(d)
    }

    /// Removes `session` from the table at once, so that no new public
    /// connection is routed into it, and ends every relay pair routed
    /// through it; returns the ids of those pairs, oldest first, so their
    /// sockets can be closed.
    pub fn close_session(&mut self, session: u64) -> (r: Vec<u64>)
        requires
            old(self).wf(),
        ensures
            final(self).wf(),
            forall|p: u16| #[trigger] final(self).binding(p) == unless_dead(old(self).binding(p), set![session]),
            final(self).live_pairs() == pairs_without(old(self).live_pairs(), session),
            r@ == pair_ids_of(old(self).live_pairs(), session),
            final(self).fenced() == old(self).fenced(),
            final(self).pair_counter() == old(self).pair_counter(),
    {
        let ghost rows = self.routes@;
        let ghost dead = set![session];
        let mut kept: Vec<Route> = Vec::new();
        let mut i: usize = 0;
        while i < self.routes.len()
            invariant
                i <= self.routes@.len(),
                rows == self.routes@,
                dead == set![session],
                kept@ == keep_routes(rows.take(i as int), dead),
            decreases self.routes@.len() - i,
        {
            let r = self.routes[i];
            proof {
                assert(rows.take(i + 1).drop_last() =~= rows.take(i as int));
                assert(rows.take(i + 1).last() == r);
            }
            if r.binding.session != session {
                kept.push(r);
            }
            i += 1;
        }
        let ghost ps = self.pairs@;
        let mut rest: Vec<RelayPair> = Vec::new();
        let mut ids: Vec<u64> = Vec::new();
        let mut j: usize = 0;
        while j < self.pairs.len()
            invariant
                j <= self.pairs@.len(),
                ps == self.pairs@,
                rest@ == pairs_without(ps.take(j as int), session),
                ids@ == pair_ids_of(ps.take(j as int), session),
                forall|a: int| 0 <= a < rest@.len() ==> #[trigger] rest@[a].id < self.next_pair,
                forall|a: int| 0 <= a < ps.len() ==> #[trigger] ps[a].id < self.next_pair,
            decreases self.pairs@.len() - j,
        {
            let q = self.pairs[j];
            proof {
                assert(ps.take(j + 1).drop_last() =~= ps.take(j as int));
                assert(ps.take(j + 1).last() == q);
            }
            if q.session == session {
                ids.push(q.id);
            } else {
                rest.push(q);
            }
            j += 1;
        }
        proof {
            assert(rows.take(rows.len() as int) =~= rows);
            assert(ps.take(ps.len() as int) =~= ps);
            assert forall|p: u16| true implies bound_in(kept@, p) == unless_dead(bound_in(rows, p), dead) by {
                lemma_keep_routes(rows, dead, p);
            }
            lemma_keep_routes(rows, dead, 0);
        }
        self.routes = kept;
        self.pairs = rest;
        ids
    }

    /// Routes a new public connection on `port`: records a relay pair with a
    /// fresh id through the session that holds the port. Nothing is recorded
    /// when no session holds it, when `limit` pairs are already live, or when
    /// pair ids are used up.
    pub fn attach(&mut self, port: u16, limit: usize) -> (r: Option<RelayPair>)
        requires
            old(self).wf(),
        ensures
            final(self).wf(),
            final(self).table() == old(self).table(),
            final(self).fenced() == old(self).fenced(),
            match old(self).binding(port) {
                None => r is None && *final(self) == *old(self),
                Some(b) => if old(self).pair_counter() == u64::MAX || old(self).live_pairs().len() >= limit {
                    r is None && *final(self) == *old(self)
                } else {
                    &&& r == Some(
                        RelayPair { id: old(self).pair_counter(), session: b.session, exposed_port: port, local_port: b.local_port },
                    )
                    &&& final(self).live_pairs() == old(self).live_pairs().push(r.unwrap())
                    &&& final(self).pair_counter() == old(self).pair_counter() + 1
                },
            },
    {
        match self.lookup(port) {
            None => None,
            Some(b) => {
                if self.next_pair == u64::MAX || self.pairs.len() >= limit {
                    return None;
                }
                let pair = RelayPair { id: self.next_pair, session: b.session, exposed_port: port, local_port: b.local_port };
                self.pairs.push(pair);
                self.next_pair = self.next_pair + 1;
                Some(pair)
            },
        }
    }

    /// Ends the relay pair `id` once either side of it has closed.
    pub fn close_pair(&mut self, id: u64)
        requires
            old(self).wf(),
        ensures
            final(self).wf(),
            final(self).table() == old(self).table(),
            final(self).fenced() == old(self).fenced(),
            final(self).pair_counter() == old(self).pair_counter(),
            final(self).live_pairs() == pairs_except(old(self).live_pairs(), id),
    {
        let ghost ps = self.pairs@;
        let mut rest: Vec<RelayPair> = Vec::new();
        let mut j: usize = 0;
        while j < self.pairs.len()
            invariant
                j <= self.pairs@.len(),
                ps == self.pairs@,
                rest@ == pairs_except(ps.take(j as int), id),
                forall|a: int| 0 <= a < rest@.len() ==> #[trigger] rest@[a].id < self.next_pair,
                forall|a: int| 0 <= a < ps.len() ==> #[trigger] ps[a].id < self.next_pair,
            decreases self.pairs@.len() - j,
        {
            let q = self.pairs[j];
            proof {
                assert(ps.take(j + 1).drop_last() =~= ps.take(j as int));
                assert(ps.take(j + 1).last() == q);
            }
            if q.id != id {
                rest.push(q);
            }
            j += 1;
        }
        proof {
            assert(ps.take(ps.len() as int) =~= ps);
        }
        self.pairs = rest;
    }
}

/// After `session` announces `ms`, a port that `ms` claims is routed to
/// `session` and to the private port that `ms` gives for it; and a port is
/// routed to `session` only if `ms` claims it, with that private port.
pub proof fn law_routing_follows_announcement(rows: Seq<Route>, session: u64, ms: Seq<Mapping>, port: u16)
    ensures
        claim_in(ms, port) matches Some(l) ==> after_announce(rows, session, ms, port) == Some(
            Binding { session, local_port: l },
        ),
        after_announce(rows, session, ms, port) is Some && after_announce(rows, session, ms, port).unwrap().session
            == session ==> claim_in(ms, port) == Some(after_announce(rows, session, ms, port).unwrap().local_port),
{
}

impl Registry {
    /// The table never holds two rows for one exposed port, so each exposed
    /// port is bound to at most one session.
    pub proof fn law_one_session_per_port(&self, i: int, j: int)
        requires
            self.wf(),
            0 <= i < j < self.table().len(),
        ensures
            self.table()[i].exposed_port != self.table()[j].exposed_port,
    {
    }
}

/// A session that holds a port which a later announcement by another session
/// claims is among the sessions that announcement displaces.
pub proof fn law_earlier_claimant_displaced(rows: Seq<Route>, earlier: u64, later: u64, ms: Seq<Mapping>, port: u16)
    requires
        earlier != later,
        holder(rows, port) == Some(earlier),
        claim_in(ms, port) is Some,
    ensures
        displaced_by(rows, later, ms).contains(earlier),
        after_announce(rows, later, ms, port).unwrap().session == later,
{
    lemma_claim_in_some(ms, port);
    let k = choose|k: int| 0 <= k < ms.len() && #[trigger] ms[k].exposed_port == port;
    assert(holder(rows, ms[k].exposed_port) == Some(earlier));
}

/// Once a session is closed no port is bound to it and no relay pair runs
/// through it.
pub proof fn law_closed_session_leaves_nothing(b: Option<Binding>, ps: Seq<RelayPair>, session: u64)
    ensures
        unless_dead(b, set![session]) is Some ==> unless_dead(b, set![session]).unwrap().session != session,
        forall|i: int| 0 <= i < pairs_without(ps, session).len() ==> #[trigger] pairs_without(ps, session)[i].session
            != session,
    decreases ps.len(),
{
    if ps.len() > 0 {
        law_closed_session_leaves_nothing(b, ps.drop_last(), session);
        let w = pairs_without(ps, session);
        let wp = pairs_without(ps.drop_last(), session);
        assert forall|i: int| 0 <= i < w.len() implies #[trigger] w[i].session != session by {
            if ps.last().session != session && i < w.len() - 1 {
                assert(w[i] == wp[i]);
            }
        }
    }
}

} // verus!
