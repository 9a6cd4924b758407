use vstd::prelude::*;

use crate::chunk::{chunk_entities, spawn_needed, Chunk, ChunkPos};

verus! {

/// Some chunk of `s` sits at `p`.
pub open spec fn has_pos(s: Seq<Chunk>, p: ChunkPos) -> bool {
    exists|i: int| 0 <= i < s.len() && #[trigger] s[i].pos == p
}

/// No two chunks of `s` sit at the same position.
pub open spec fn positions_distinct(s: Seq<Chunk>) -> bool {
    forall|i: int, j: int|
        0 <= i < s.len() && 0 <= j < s.len() && i != j ==> #[trigger] s[i].pos != #[trigger] s[j].pos
}

/// No position occurs twice in `v`.
pub open spec fn distinct_positions(v: Seq<ChunkPos>) -> bool {
    forall|i: int, j: int| 0 <= i < v.len() && 0 <= j < v.len() && i != j ==> v[i] != v[j]
}

/// Showing position `p` takes a new entity: either no chunk of `s` sits
/// there yet, or the one that does shows nothing.
pub open spec fn needs_spawn_at(s: Seq<Chunk>, p: ChunkPos) -> bool {
    forall|i: int| 0 <= i < s.len() && #[trigger] s[i].pos == p ==> spawn_needed(s[i])
}

/// The positions of `view`, in order, that take a new entity when the
/// chunks are `s`.
pub open spec fn spawn_plan(s: Seq<Chunk>, view: Seq<ChunkPos>) -> Seq<ChunkPos>
    decreases view.len(),
{
    if view.len() == 0 {
        Seq::empty()
    } else {
        let rest = spawn_plan(s, view.drop_last());
        if needs_spawn_at(s, view.last()) {
            rest.push(view.last())
        } else {
            rest
        }
    }
}

/// Some chunk of `s` at `p` shows exactly the ground entity `e` and no water.
pub open spec fn shown_at(s: Seq<Chunk>, p: ChunkPos, e: u64) -> bool {
    exists|j: int|
        0 <= j < s.len() && #[trigger] s[j].pos == p && s[j].entity == Some(e) && s[j].water_entity is None
}

/// The entities, in chunk order, of the chunks of `s` that lie outside `view`.
pub open spec fn outside_entities(s: Seq<Chunk>, view: Seq<ChunkPos>) -> Seq<u64>
    decreases s.len(),
{
    if s.len() == 0 {
        Seq::empty()
    } else {
        outside_entities(s.drop_last(), view) + (if view.contains(s.last().pos) {
            Seq::<u64>::empty()
        } else {
            chunk_entities(s.last())
        })
    }
}

/// The ground entities, in chunk order, of the chunks of `s` that have one.
pub open spec fn ground_entities(s: Seq<Chunk>) -> Seq<u64>
    decreases s.len(),
{
    if s.len() == 0 {
        Seq::empty()
    } else {
        ground_entities(s.drop_last()) + (match s.last().entity {
            Some(e) => seq![e],
            None => Seq::<u64>::empty(),
        })
    }
}

/// The chunk shows a ground entity.
pub open spec fn shows_ground() -> spec_fn(Chunk) -> bool {
    |c: Chunk| c.entity is Some
}

/// The ground entity of a chunk that shows one.
pub open spec fn ground_value() -> spec_fn(Chunk) -> u64 {
    |c: Chunk| c.entity.unwrap()
}

/// The chunk lies outside `view` and shows a ground entity.
pub open spec fn outside_with_ground(view: Seq<ChunkPos>) -> spec_fn(Chunk) -> bool {
    |c: Chunk| !view.contains(c.pos) && c.entity is Some
}

/// The chunk lies outside `view` and shows a water entity.
pub open spec fn outside_with_water(view: Seq<ChunkPos>) -> spec_fn(Chunk) -> bool {
    |c: Chunk| !view.contains(c.pos) && c.water_entity is Some
}

/// The spawn plan holds exactly the positions of the view where no chunk
/// shows anything yet (none held there, or the one held shows nothing), in
/// view order: a position is in the plan if and only if it is in the view
/// and needs an entity, and every entry of the plan is such a position.
pub proof fn lemma_spawn_plan_members(s: Seq<Chunk>, view: Seq<ChunkPos>)
    ensures
        forall|p: ChunkPos|
            #[trigger] spawn_plan(s, view).contains(p) <==> (view.contains(p) && (forall|i: int|
                0 <= i < s.len() && s[i].pos == p ==> s[i].entity is None && s[i].water_entity is None)),
        spawn_plan(s, view).len() <= view.len(),
        distinct_positions(view) ==> distinct_positions(spawn_plan(s, view)),
    decreases view.len(),
{
    if view.len() > 0 {
        let t = view.drop_last();
        let l = view.last();
        lemma_spawn_plan_members(s, t);
        let pt = spawn_plan(s, t);
        let pl = spawn_plan(s, view);
        assert forall|p: ChunkPos| view.contains(p) <==> (t.contains(p) || p == l) by {
            if view.contains(p) {
                let i = choose|i: int| 0 <= i < view.len() && view[i] == p;
                if i < view.len() - 1 {
                    assert(t[i] == p);
                }
            }
            if t.contains(p) {
                let i = choose|i: int| 0 <= i < t.len() && t[i] == p;
                assert(view[i] == p);
            }
            if p == l {
                assert(view[view.len() - 1] == p);
            }
        }
        assert forall|p: ChunkPos| #[trigger] pl.contains(p) <==> (pt.contains(p) || (p == l
            && needs_spawn_at(s, l))) by {
            if needs_spawn_at(s, l) {
                assert(pl == pt.push(l));
                if pl.contains(p) {
                    let i = choose|i: int| 0 <= i < pl.len() && pl[i] == p;
                    if i < pt.len() {
                        assert(pt[i] == p);
                    }
                }
                if pt.contains(p) {
                    let i = choose|i: int| 0 <= i < pt.len() && pt[i] == p;
                    assert(pl[i] == p);
                }
                if p == l {
                    assert(pl[pl.len() - 1] == p);
                }
            } else {
                assert(pl == pt);
            }
        }
        if distinct_positions(view) {
            assert(distinct_positions(t)) by {
                assert forall|i: int, j: int| 0 <= i < t.len() && 0 <= j < t.len() && i != j implies t[i]
                    != t[j] by {
                    assert(t[i] == view[i]);
                    assert(t[j] == view[j]);
                }
            }
            if needs_spawn_at(s, l) {
                assert(!pt.contains(l)) by {
                    if pt.contains(l) {
                        assert(t.contains(l));
                        let i = choose|i: int| 0 <= i < t.len() && t[i] == l;
                        assert(view[i] == view[view.len() - 1]);
                    }
                }
                assert forall|i: int, j: int| 0 <= i < pl.len() && 0 <= j < pl.len() && i != j implies pl[i]
                    != pl[j] by {
                    if i == pl.len() - 1 {
                        assert(pt.contains(pl[j]));
                    } else if j == pl.len() - 1 {
                        assert(pt.contains(pl[i]));
                    }
                }
            }
        }
    }
}

/// `e` is the ground or water entity of some chunk of `s` outside `view`.
pub open spec fn shown_outside(s: Seq<Chunk>, view: Seq<ChunkPos>, e: u64) -> bool {
    exists|i: int|
        0 <= i < s.len() && !view.contains(s[i].pos) && (#[trigger] s[i].entity == Some(e)
            || s[i].water_entity == Some(e))
}

/// Clearing the cache hands back the ground entity of every chunk that
/// shows one, in chunk order, and nothing else: the list is the chunks
/// with a ground entity, each replaced by that entity. So its length is
/// the number of such chunks, every such entity is in it, and each of its
/// entries is the ground entity of some chunk.
pub proof fn lemma_ground_entities_are_all_grounds(s: Seq<Chunk>)
    ensures
        ground_entities(s) == s.filter(shows_ground()).map_values(ground_value()),
        ground_entities(s).len() == s.filter(shows_ground()).len(),
        forall|i: int|
            0 <= i < s.len() && (#[trigger] s[i]).entity is Some ==> ground_entities(s).contains(
                s[i].entity.unwrap(),
            ),
        forall|k: int|
            0 <= k < ground_entities(s).len() ==> exists|i: int|
                0 <= i < s.len() && s[i].entity == Some(#[trigger] ground_entities(s)[k]),
    decreases s.len(),
{
    reveal(Seq::filter);
    if s.len() > 0 {
        let t = s.drop_last();
        let l = s.last();
        lemma_ground_entities_are_all_grounds(t);
        let gt = ground_entities(t);
        let g = ground_entities(s);
        let ft = t.filter(shows_ground());
        assert(s.filter(shows_ground()) == if l.entity is Some { ft.push(l) } else { ft });
        if l.entity is Some {
            assert(g =~= gt.push(l.entity.unwrap()));
            assert(ft.push(l).map_values(ground_value()) =~= ft.map_values(ground_value()).push(
                l.entity.unwrap(),
            ));
        } else {
            assert(g =~= gt);
        }
        assert forall|i: int| 0 <= i < s.len() && (#[trigger] s[i]).entity is Some implies g.contains(
            s[i].entity.unwrap(),
        ) by {
            if i == s.len() - 1 {
                assert(g[g.len() - 1] == s[i].entity.unwrap());
            } else {
                assert(t[i] == s[i]);
                assert(gt.contains(t[i].entity.unwrap()));
                let k = choose|k: int| 0 <= k < gt.len() && gt[k] == t[i].entity.unwrap();
                assert(g[k] == gt[k]);
            }
        }
        assert forall|k: int| 0 <= k < g.len() implies exists|i: int|
            0 <= i < s.len() && s[i].entity == Some(#[trigger] g[k]) by {
            if k < gt.len() {
                assert(g[k] == gt[k]);
                let i = choose|i: int| 0 <= i < t.len() && t[i].entity == Some(gt[k]);
                assert(s[i] == t[i]);
            } else {
                assert(s[s.len() - 1].entity == Some(g[k]));
            }
        }
    }
}

/// Unloading hands back every entity of every chunk outside the view and
/// nothing else: its length is the number of ground entities plus the
/// number of water entities shown by chunks outside the view, each of
/// those entities is in it, and each of its entries is the ground or water
/// entity of some chunk outside the view.
pub proof fn lemma_outside_entities_are_all_outside(s: Seq<Chunk>, view: Seq<ChunkPos>)
    ensures
        outside_entities(s, view).len() == s.filter(outside_with_ground(view)).len() + s.filter(
            outside_with_water(view),
        ).len(),
        forall|i: int|
            0 <= i < s.len() && !view.contains((#[trigger] s[i]).pos) && s[i].entity is Some
                ==> outside_entities(s, view).contains(s[i].entity.unwrap()),
        forall|i: int|
            0 <= i < s.len() && !view.contains((#[trigger] s[i]).pos) && s[i].water_entity is Some
                ==> outside_entities(s, view).contains(s[i].water_entity.unwrap()),
        forall|k: int|
            0 <= k < outside_entities(s, view).len() ==> shown_outside(
                s,
                view,
                #[trigger] outside_entities(s, view)[k],
            ),
    decreases s.len(),
{
    reveal(Seq::filter);
    if s.len() > 0 {
        let t = s.drop_last();
        let l = s.last();
        lemma_outside_entities_are_all_outside(t, view);
        let ot = outside_entities(t, view);
        let o = outside_entities(s, view);
        let tail = if view.contains(l.pos) {
            Seq::<u64>::empty()
        } else {
            chunk_entities(l)
        };
        assert(o == ot + tail);
        assert(s.filter(outside_with_ground(view)).len() == t.filter(outside_with_ground(view)).len()
            + if !view.contains(l.pos) && l.entity is Some { 1int } else { 0int });
        assert(s.filter(outside_with_water(view)).len() == t.filter(outside_with_water(view)).len()
            + if !view.contains(l.pos) && l.water_entity is Some { 1int } else { 0int });
        assert forall|i: int|
            0 <= i < s.len() && !view.contains((#[trigger] s[i]).pos) && s[i].entity is Some implies o.contains(
                s[i].entity.unwrap(),
            ) by {
            if i == s.len() - 1 {
                assert(tail[0] == s[i].entity.unwrap());
                assert(o[ot.len() as int] == tail[0]);
            } else {
                assert(t[i] == s[i]);
                let k = choose|k: int| 0 <= k < ot.len() && ot[k] == t[i].entity.unwrap();
                assert(o[k] == ot[k]);
            }
        }
        assert forall|i: int|
            0 <= i < s.len() && !view.contains((#[trigger] s[i]).pos) && s[i].water_entity is Some implies o.contains(
                s[i].water_entity.unwrap(),
            ) by {
            if i == s.len() - 1 {
                assert(tail[tail.len() - 1] == s[i].water_entity.unwrap());
                assert(o[o.len() - 1] == tail[tail.len() - 1]);
            } else {
                assert(t[i] == s[i]);
                let k = choose|k: int| 0 <= k < ot.len() && ot[k] == t[i].water_entity.unwrap();
                assert(o[k] == ot[k]);
            }
        }
        assert forall|k: int| 0 <= k < o.len() implies shown_outside(s, view, #[trigger] o[k]) by {
            if k < ot.len() {
                assert(o[k] == ot[k]);
                assert(shown_outside(t, view, ot[k]));
                let i = choose|i: int|
                    0 <= i < t.len() && !view.contains(t[i].pos) && (#[trigger] t[i].entity == Some(ot[k])
                        || t[i].water_entity == Some(ot[k]));
                assert(s[i] == t[i]);
                assert(s[i].entity == Some(o[k]) || s[i].water_entity == Some(o[k]));
            } else {
                let n = s.len() - 1;
                assert(s[n] == l);
                assert(o[k] == tail[k - ot.len()]);
                assert(s[n].entity == Some(o[k]) || s[n].water_entity == Some(o[k]));
            }
        }
    }
}

proof fn lemma_plan_prefix(s: Seq<Chunk>, v: Seq<ChunkPos>, i: int)
    requires
        0 <= i <= v.len(),
    ensures
        spawn_plan(s, v.take(i)).len() <= spawn_plan(s, v).len(),
        spawn_plan(s, v.take(i)) == spawn_plan(s, v).take(spawn_plan(s, v.take(i)).len() as int),
    decreases v.len(),
{
    if i == v.len() {
        assert(v.take(i) =~= v);
    } else {
        lemma_plan_prefix(s, v.drop_last(), i);
        assert(v.drop_last().take(i) =~= v.take(i));
        let a = spawn_plan(s, v.take(i));
        let b = spawn_plan(s, v.drop_last());
        assert(b.push(v.last()).take(a.len() as int) =~= b.take(a.len() as int));
    }
}

proof fn lemma_plan_in_view(s: Seq<Chunk>, v: Seq<ChunkPos>, m: int)
    requires
        0 <= m < spawn_plan(s, v).len(),
    ensures
        v.contains(spawn_plan(s, v)[m]),
    decreases v.len(),
{
    if v.len() > 0 {
        let rest = spawn_plan(s, v.drop_last());
        if m < rest.len() {
            lemma_plan_in_view(s, v.drop_last(), m);
            let q = choose|q: int| 0 <= q < v.drop_last().len() && v.drop_last()[q] == rest[m];
            assert(v[q] == rest[m]);
        } else {
            assert(v[v.len() - 1] == v.last());
        }
    }
}

proof fn lemma_outside_append_inside(s: Seq<Chunk>, t: Seq<Chunk>, view: Seq<ChunkPos>)
    requires
        forall|j: int| 0 <= j < t.len() ==> view.contains(#[trigger] t[j].pos),
    ensures
        outside_entities(s + t, view) == outside_entities(s, view),
    decreases t.len(),
{
    if t.len() == 0 {
        assert(s + t =~= s);
    } else {
        let t2 = t.drop_last();
        assert((s + t).drop_last() =~= s + t2);
        assert((s + t).last() == t.last());
        assert(view.contains(t[t.len() - 1].pos));
        lemma_outside_append_inside(s, t2, view);
        assert(outside_entities(s + t, view) =~= outside_entities(s + t2, view));
    }
}

proof fn lemma_outside_same(a: Seq<Chunk>, b: Seq<Chunk>, view: Seq<ChunkPos>)
    requires
        a.len() == b.len(),
        forall|j: int| 0 <= j < a.len() ==> #[trigger] a[j].pos == b[j].pos,
        forall|j: int| 0 <= j < a.len() && !view.contains(a[j].pos) ==> #[trigger] a[j] == b[j],
    ensures
        outside_entities(a, view) == outside_entities(b, view),
    decreases a.len(),
{
    if a.len() > 0 {
        let n = a.len() - 1;
        assert(a[n].pos == b[n].pos);
        lemma_outside_same(a.drop_last(), b.drop_last(), view);
    }
}

/// The chunks generated so far, each at its own position.
pub struct ChunkMap {
    chunks: Vec<Chunk>,
}

impl View for ChunkMap {
    type V = Seq<Chunk>;

    closed spec fn view(&self) -> Seq<Chunk> {
        self.chunks@
    }
}

impl ChunkMap {
    #[verifier::type_invariant]
    spec fn inv(self) -> bool {
        positions_distinct(self.chunks@)
    }

    /// A map that holds no chunk.
    pub fn new() -> (m: ChunkMap)
        ensures
            m@ == Seq::<Chunk>::empty(),
    {
        ChunkMap { chunks: Vec::new() }
    }

    /// How many chunks the map holds.
    pub fn len(&self) -> (n: usize)
        ensures
            n == self@.len(),
            positions_distinct(self@),
    {
        proof {
            use_type_invariant(self);
        }
        self.chunks.len()
    }

    fn find(&self, pos: ChunkPos) -> (r: Option<usize>)
        ensures
            match r {
                Some(i) => i < self@.len() && self@[i as int].pos == pos,
                None => !has_pos(self@, pos),
            },
    {
        find_pos(&self.chunks, pos)
    }

    /// The chunk at `pos`, if the map holds one.
    pub fn get(&self, pos: ChunkPos) -> (r: Option<Chunk>)
        ensures
            positions_distinct(self@),
            match r {
                Some(c) => c.pos == pos && exists|i: int| 0 <= i < self@.len() && self@[i] == c,
                None => !has_pos(self@, pos),
            },
    {
        proof {
            use_type_invariant(self);
        }
        match self.find(pos) {
            Some(i) => Some(self.chunks[i]),
            None => None,
        }
    }

    /// The positions of `view`, in order, that take a new entity: those
    /// where the map holds no chunk, or holds one that shows nothing.
    pub fn spawn_plan(&self, view: &Vec<ChunkPos>) -> (plan: Vec<ChunkPos>)
        ensures
            plan@ == spawn_plan(self@, view@),
            positions_distinct(self@),
            forall|p: ChunkPos|
                #[trigger] plan@.contains(p) <==> (view@.contains(p) && (forall|i: int|
                    0 <= i < self@.len() && self@[i].pos == p ==> self@[i].entity is None
                        && self@[i].water_entity is None)),
            distinct_positions(view@) ==> distinct_positions(plan@),
    {
        proof {
            use_type_invariant(self);
        }
        let mut plan: Vec<ChunkPos> = Vec::new();
        let n = view.len();
        let mut i: usize = 0;
        while i < n
            invariant
                n == view@.len(),
                0 <= i <= n,
                positions_distinct(self@),
                plan@ == spawn_plan(self@, view@.take(i as int)),
            decreases n - i,
        {
            let p = view[i];
            let needed = match self.find(p) {
                Some(j) => self.chunks[j].spawn_needed(),
                None => true,
            };
            proof {
                assert(view@.take(i + 1).drop_last() =~= view@.take(i as int));
                assert(view@.take(i + 1).last() == p);
                assert(needed == needs_spawn_at(self@, p));
            }
            if needed {
                plan.push(p);
            }
            i = i + 1;
        }
        proof {
            assert(view@.take(n as int) =~= view@);
            lemma_spawn_plan_members(self@, view@);
        }
        plan
    }

    /// Brings the map in line with the chunks in view. Each position of the
    /// spawn plan gets the matching entity of `new_entities` (which the
    /// caller has spawned for it), a position without a chunk getting a new
    /// one; every chunk outside the view is despawned. Returns the entities
    /// of the despawned chunks, in chunk order, for the caller to remove.
    #[verifier::spinoff_prover]
    pub fn load_unload_chunks(&mut self, view: &Vec<ChunkPos>, new_entities: &Vec<u64>) -> (despawned: Vec<u64>)
        requires
            distinct_positions(view@),
            new_entities@.len() == spawn_plan(old(self)@, view@).len(),
        ensures
            positions_distinct(final(self)@),
            forall|p: ChunkPos|
                #![trigger has_pos(final(self)@, p)]
                #![trigger has_pos(old(self)@, p)]
                #![trigger view@.contains(p)]
                has_pos(final(self)@, p) <==> (has_pos(old(self)@, p) || view@.contains(p)),
            final(self)@.len() >= old(self)@.len(),
            forall|j: int| 0 <= j < old(self)@.len() ==> #[trigger] final(self)@[j].pos == old(self)@[j].pos,
            forall|j: int|
                0 <= j < final(self)@.len() && view@.contains(#[trigger] final(self)@[j].pos)
                    ==> !spawn_needed(final(self)@[j]),
            forall|j: int|
                0 <= j < final(self)@.len() && !view@.contains(#[trigger] final(self)@[j].pos)
                    ==> spawn_needed(final(self)@[j]),
            forall|j: int|
                0 <= j < old(self)@.len() && view@.contains(old(self)@[j].pos) && !spawn_needed(
                    old(self)@[j],
                ) ==> #[trigger] final(self)@[j] == old(self)@[j],
            forall|m: int|
                0 <= m < new_entities@.len() ==> #[trigger] shown_at(
                    final(self)@,
                    spawn_plan(old(self)@, view@)[m],
                    new_entities@[m],
                ),
            despawned@ == outside_entities(old(self)@, view@),
            despawned@.len() == old(self)@.filter(outside_with_ground(view@)).len() + old(self)@.filter(
                outside_with_water(view@),
            ).len(),
            forall|i: int|
                0 <= i < old(self)@.len() && !view@.contains((#[trigger] old(self)@[i]).pos)
                    && old(self)@[i].entity is Some ==> despawned@.contains(old(self)@[i].entity.unwrap()),
            forall|i: int|
                0 <= i < old(self)@.len() && !view@.contains((#[trigger] old(self)@[i]).pos)
                    && old(self)@[i].water_entity is Some ==> despawned@.contains(
                    old(self)@[i].water_entity.unwrap(),
                ),
            forall|k: int|
                0 <= k < despawned@.len() ==> shown_outside(old(self)@, view@, #[trigger] despawned@[k]),
    {
        proof {
            lemma_outside_entities_are_all_outside(old(self)@, view@);
        }
        proof {
            use_type_invariant(&*self);
        }
        let ghost o = self.chunks@;
        let ghost plan = spawn_plan(o, view@);
        let mut chunks: Vec<Chunk> = Vec::new();
        std::mem::swap(&mut chunks, &mut self.chunks);
        assert(chunks@ == o);

        let n = view.len();
        let ne = new_entities.len();
        let mut i: usize = 0;
        let mut k: usize = 0;
        while i < n
            invariant
                n == view@.len(),
                0 <= i <= n,
                distinct_positions(view@),
                plan == spawn_plan(o, view@),
                new_entities@.len() == plan.len(),
                ne == new_entities@.len(),
                positions_distinct(o),
                positions_distinct(chunks@),
                o.len() <= chunks@.len(),
                forall|j: int| 0 <= j < o.len() ==> #[trigger] chunks@[j].pos == o[j].pos,
                forall|j: int|
                    0 <= j < o.len() && (!view@.take(i as int).contains(o[j].pos) || !spawn_needed(
                        o[j],
                    )) ==> #[trigger] chunks@[j] == o[j],
                forall|j: int|
                    o.len() <= j < chunks@.len() ==> view@.take(i as int).contains(
                        #[trigger] chunks@[j].pos,
                    ),
                forall|p: ChunkPos| view@.take(i as int).contains(p) ==> has_pos(chunks@, p),
                forall|j: int|
                    0 <= j < chunks@.len() && view@.take(i as int).contains(#[trigger] chunks@[j].pos)
                        ==> !spawn_needed(chunks@[j]),
                k == spawn_plan(o, view@.take(i as int)).len(),
                k <= plan.len(),
                forall|m: int| 0 <= m < k ==> #[trigger] shown_at(chunks@, plan[m], new_entities@[m]),
            decreases n - i,
        {
            let p = view[i];
            let ghost before = chunks@;
            let ghost take_i = view@.take(i as int);
            proof {
                assert(view@.take(i + 1).drop_last() =~= take_i);
                assert(view@.take(i + 1).last() == p);
                assert(view@.take(i + 1) =~= take_i.push(p));
                assert(!take_i.contains(p)) by {
                    if take_i.contains(p) {
                        let q = choose|q: int| 0 <= q < take_i.len() && take_i[q] == p;
                        assert(view@[q] == view@[i as int]);
                    }
                }
                lemma_plan_prefix(o, view@, i + 1);
            }
            let found = find_pos(&chunks, p);
            match found {
                Some(idx) => {
                    proof {
                        assert(idx < o.len()) by {
                            if idx >= o.len() {
                                assert(take_i.contains(chunks@[idx as int].pos));
                            }
                        }
                        assert(chunks@[idx as int] == o[idx as int]);
                        assert(needs_spawn_at(o, p) == spawn_needed(o[idx as int])) by {
                            assert forall|l: int| 0 <= l < o.len() && o[l].pos == p implies l == idx by {
                                if l != idx {
                                    assert(o[l].pos != o[idx as int].pos);
                                }
                            }
                        }
                    }
                    let mut c = chunks[idx];
                    if c.spawn_needed() {
                        proof {
                            let sp = spawn_plan(o, view@.take(i + 1));
                            assert(sp == spawn_plan(o, take_i).push(p));
                            assert(sp[k as int] == p);
                            assert(plan.take(sp.len() as int)[k as int] == plan[k as int]);
                            assert(k < new_entities@.len());
                        }
                        c.spawn(new_entities[k]);
                        chunks.set(idx, c);
                        proof {
                            assert forall|m: int| 0 <= m < k + 1 implies #[trigger] shown_at(
                                chunks@,
                                plan[m],
                                new_entities@[m],
                            ) by {
                                if m == k {
                                    assert(chunks@[idx as int].pos == plan[m]);
                                } else {
                                    assert(shown_at(before, plan[m], new_entities@[m]));
                                    let j2 = choose|j2: int|
                                        0 <= j2 < before.len() && #[trigger] before[j2].pos == plan[m]
                                            && before[j2].entity == Some(new_entities@[m])
                                            && before[j2].water_entity is None;
                                    assert(j2 != idx);
                                    assert(chunks@[j2] == before[j2]);
                                    assert(chunks@[j2].pos == plan[m]);
                                }
                            }
                        }
                        proof {
                            assert(chunks@[idx as int].pos == p);
                            assert(has_pos(chunks@, p));
                        }
                        k = k + 1;
                    } else {
                        proof {
                            assert(spawn_plan(o, view@.take(i + 1)) == spawn_plan(o, take_i));
                            assert(chunks@[idx as int].pos == p);
                            assert(has_pos(chunks@, p));
                        }
                    }
                },
                None => {
                    proof {
                        assert(needs_spawn_at(o, p)) by {
                            assert forall|l: int| 0 <= l < o.len() && o[l].pos == p implies spawn_needed(o[l]) by {
                                assert(chunks@[l].pos == p);
                            }
                        }
                        let sp = spawn_plan(o, view@.take(i + 1));
                        assert(sp == spawn_plan(o, take_i).push(p));
                        assert(sp[k as int] == p);
                        assert(plan.take(sp.len() as int)[k as int] == plan[k as int]);
                        assert(k < new_entities@.len());
                    }
                    let c = Chunk { pos: p, entity: Some(new_entities[k]), water_entity: None };
                    chunks.push(c);
                    proof {
                        let last = chunks@.len() - 1;
                        assert(chunks@[last] == c);
                        assert forall|a: int, b: int|
                            0 <= a < chunks@.len() && 0 <= b < chunks@.len() && a != b implies #[trigger] chunks@[a].pos
                                != #[trigger] chunks@[b].pos by {
                            if a == last {
                                assert(chunks@[b] == before[b]);
                            } else if b == last {
                                assert(chunks@[a] == before[a]);
                            } else {
                                assert(chunks@[a] == before[a]);
                                assert(chunks@[b] == before[b]);
                            }
                        }
                        assert forall|m: int| 0 <= m < k + 1 implies #[trigger] shown_at(
                            chunks@,
                            plan[m],
                            new_entities@[m],
                        ) by {
                            if m == k {
                                assert(chunks@[last].pos == plan[m]);
                            } else {
                                assert(shown_at(before, plan[m], new_entities@[m]));
                                let j2 = choose|j2: int|
                                    0 <= j2 < before.len() && #[trigger] before[j2].pos == plan[m]
                                        && before[j2].entity == Some(new_entities@[m])
                                        && before[j2].water_entity is None;
                                assert(chunks@[j2] == before[j2]);
                                assert(chunks@[j2].pos == plan[m]);
                            }
                        }
                        assert(chunks@[last].pos == p);
                        assert(has_pos(chunks@, p));
                    }
                    k = k + 1;
                },
            }
            proof {
                assert(forall|l: int| 0 <= l < before.len() ==> #[trigger] chunks@[l].pos == before[l].pos);
                let take_next = view@.take(i + 1);
                assert forall|q: ChunkPos| take_next.contains(q) implies has_pos(chunks@, q) by {
                    if q != p {
                        assert(take_i.contains(q));
                        assert(has_pos(before, q));
                        let l = choose|l: int| 0 <= l < before.len() && #[trigger] before[l].pos == q;
                        assert(chunks@[l].pos == q);
                    }
                }
                assert forall|l: int|
                    0 <= l < chunks@.len() && take_next.contains(#[trigger] chunks@[l].pos)
                        implies !spawn_needed(chunks@[l]) by {
                    if chunks@[l].pos != p {
                        assert(take_i.contains(chunks@[l].pos));
                        assert(l < before.len());
                        assert(chunks@[l] == before[l]);
                    }
                }
            }
            i = i + 1;
        }
        proof {
            assert(view@.take(n as int) =~= view@);
            assert(k == plan.len());
        }

        let ghost mid = chunks@;
        let mut despawned: Vec<u64> = Vec::new();
        let cn = chunks.len();
        let mut j: usize = 0;
        while j < cn
            invariant
                cn == chunks@.len(),
                cn == mid.len(),
                0 <= j <= cn,
                positions_distinct(mid),
                forall|l: int| 0 <= l < cn ==> #[trigger] chunks@[l].pos == mid[l].pos,
                forall|l: int| j <= l < cn ==> #[trigger] chunks@[l] == mid[l],
                forall|l: int|
                    0 <= l < j && view@.contains(mid[l].pos) ==> #[trigger] chunks@[l] == mid[l],
                forall|l: int|
                    0 <= l < j && !view@.contains(mid[l].pos) ==> spawn_needed(#[trigger] chunks@[l]),
                despawned@ == outside_entities(mid.take(j as int), view@),
            decreases cn - j,
        {
            let mut c = chunks[j];
            let inside = contains_pos(view, c.pos);
            proof {
                assert(mid.take(j + 1).drop_last() =~= mid.take(j as int));
                assert(mid.take(j + 1).last() == c);
            }
            if !inside {
                let mut removed = c.despawn();
                despawned.append(&mut removed);
                chunks.set(j, c);
            }
            j = j + 1;
        }
        proof {
            assert(mid.take(cn as int) =~= mid);
            assert(positions_distinct(chunks@)) by {
                assert forall|a: int, b: int|
                    0 <= a < chunks@.len() && 0 <= b < chunks@.len() && a != b implies #[trigger] chunks@[a].pos
                        != #[trigger] chunks@[b].pos by {
                    assert(mid[a].pos != mid[b].pos);
                }
            }
            // the despawned chunks are old chunks, untouched by the first pass
            let ol = o.len() as int;
            assert(mid =~= mid.take(ol) + mid.skip(ol));
            assert forall|l: int| 0 <= l < mid.skip(ol).len() implies view@.contains(
                #[trigger] mid.skip(ol)[l].pos,
            ) by {
                assert(mid.skip(ol)[l] == mid[l + ol]);
            }
            lemma_outside_append_inside(mid.take(ol), mid.skip(ol), view@);
            assert forall|l: int| 0 <= l < ol implies #[trigger] mid.take(ol)[l].pos == o[l].pos by {}
            assert forall|l: int| 0 <= l < ol && !view@.contains(mid.take(ol)[l].pos) implies #[trigger] mid.take(ol)[l] == o[l] by {}
            lemma_outside_same(mid.take(ol), o, view@);
            assert forall|q: ChunkPos| has_pos(chunks@, q) <==> (has_pos(o, q) || view@.contains(q)) by {
                if has_pos(chunks@, q) {
                    let l = choose|l: int| 0 <= l < chunks@.len() && #[trigger] chunks@[l].pos == q;
                    if l >= ol {
                        assert(view@.contains(mid[l].pos));
                    } else {
                        assert(o[l].pos == q);
                    }
                }
                if has_pos(o, q) {
                    let l = choose|l: int| 0 <= l < o.len() && #[trigger] o[l].pos == q;
                    assert(chunks@[l].pos == q);
                }
                if view@.contains(q) {
                    assert(view@.take(n as int).contains(q));
                    assert(has_pos(mid, q));
                    let l = choose|l: int| 0 <= l < mid.len() && #[trigger] mid[l].pos == q;
                    assert(chunks@[l].pos == q);
                }
            }
            assert forall|m: int| 0 <= m < new_entities@.len() implies #[trigger] shown_at(
                chunks@,
                plan[m],
                new_entities@[m],
            ) by {
                assert(shown_at(mid, plan[m], new_entities@[m]));
                let l = choose|l: int|
                    0 <= l < mid.len() && #[trigger] mid[l].pos == plan[m]
                        && mid[l].entity == Some(new_entities@[m])
                        && mid[l].water_entity is None;
                assert(!spawn_needed(mid[l]));
                lemma_plan_in_view(o, view@, m);
                assert(view@.contains(mid[l].pos));
                assert(chunks@[l] == mid[l]);
                assert(chunks@[l].pos == plan[m]);
            }
        }
        self.chunks = chunks;
        proof {
            let old_chunks = old(self)@;
            let out = outside_entities(old_chunks, view@);
            assert(despawned@ == out);
            lemma_outside_entities_are_all_outside(old_chunks, view@);
            assert forall|k: int| 0 <= k < despawned@.len() implies shown_outside(
                old_chunks,
                view@,
                #[trigger] despawned@[k],
            ) by {
                assert(despawned@[k] == out[k]);
            }
        }
        despawned
    }

    /// Forgets every chunk and returns the ground entities that they showed,
    /// in chunk order, for the caller to remove from the world. Water
    /// entities are dropped with their chunks, not returned.
    pub fn clear_chunk_cache(&mut self) -> (entities: Vec<u64>)
        ensures
            final(self)@ == Seq::<Chunk>::empty(),
            entities@ == ground_entities(old(self)@),
            entities@ == old(self)@.filter(shows_ground()).map_values(ground_value()),
            entities@.len() == old(self)@.filter(shows_ground()).len(),
            forall|i: int|
                0 <= i < old(self)@.len() && (#[trigger] old(self)@[i]).entity is Some ==> entities@.contains(
                    old(self)@[i].entity.unwrap(),
                ),
            forall|k: int|
                0 <= k < entities@.len() ==> exists|i: int|
                    0 <= i < old(self)@.len() && old(self)@[i].entity == Some(#[trigger] entities@[k]),
    {
        proof {
            lemma_ground_entities_are_all_grounds(old(self)@);
        }
        let ghost o = self.chunks@;
        let mut entities: Vec<u64> = Vec::new();
        let n = self.chunks.len();
        let mut i: usize = 0;
        while i < n
            invariant
                n == self.chunks@.len(),
                self.chunks@ == o,
                0 <= i <= n,
                entities@ == ground_entities(o.take(i as int)),
            decreases n - i,
        {
            proof {
                assert(o.take(i + 1).drop_last() =~= o.take(i as int));
                assert(o.take(i + 1).last() == o[i as int]);
            }
            if let Some(e) = self.chunks[i].entity {
                entities.push(e);
            }
            i = i + 1;
        }
        proof {
            assert(o.take(n as int) =~= o);
        }
        self.chunks = Vec::new();
        entities
    }
}

fn find_pos(chunks: &Vec<Chunk>, pos: ChunkPos) -> (r: Option<usize>)
    ensures
        match r {
            Some(i) => i < chunks@.len() && chunks@[i as int].pos == pos,
            None => !has_pos(chunks@, pos),
        },
{
    let n = chunks.len();
    let mut i: usize = 0;
    while i < n
        invariant
            n == chunks@.len(),
            0 <= i <= n,
            forall|j: int| 0 <= j < i ==> chunks@[j].pos != pos,
        decreases n - i,
    {
        if chunks[i].pos == pos {
            return Some(i);
        }
        i = i + 1;
    }
    None
}

/// Chunks within this distance of the player are loaded whatever the camera faces.
pub const ALWAYS_LOAD_RADIUS: i32 = 2;

/// Where the cone flag of offset `(x, z)` sits in a mask over the square
/// `[-rd, rd] × [-rd, rd]`, rows by `x`, columns by `z`.
pub open spec fn grid_index(rd: int, x: int, z: int) -> int {
    (x + rd) * (2 * rd + 1) + (z + rd)
}

/// The offset `(x, z)` from the player's chunk is in view: it lies within
/// the render distance, and either within the always-loaded radius or
/// inside the camera's field of view, as `cone` says.
pub open spec fn in_view_offset(rd: int, cone: Seq<bool>, x: int, z: int) -> bool {
    &&& -rd <= x <= rd
    &&& -rd <= z <= rd
    &&& x * x + z * z <= rd * rd
    &&& (x * x + z * z <= ALWAYS_LOAD_RADIUS * ALWAYS_LOAD_RADIUS || cone[grid_index(rd, x, z)])
}

/// The chunk at `p` is in view of a player standing in chunk `player`.
pub open spec fn in_player_view(player: ChunkPos, rd: int, cone: Seq<bool>, p: ChunkPos) -> bool {
    in_view_offset(rd, cone, p.x - player.x, p.z - player.z)
}

spec fn lex_before(a: int, b: int, x: int, z: int) -> bool {
    a < x || (a == x && b < z)
}

proof fn lemma_square_bound(x: int, rd: int)
    requires
        -rd <= x <= rd,
    ensures
        0 <= x * x <= rd * rd,
{
    assert(0 <= x * x <= rd * rd) by (nonlinear_arith)
        requires
            -rd <= x <= rd,
    ;
}

proof fn lemma_grid_index_bound(rd: int, x: int, z: int)
    requires
        0 <= rd,
        -rd <= x <= rd,
        -rd <= z <= rd,
    ensures
        0 <= grid_index(rd, x, z) < (2 * rd + 1) * (2 * rd + 1),
        grid_index(rd, x, z) + 1 == if z < rd { grid_index(rd, x, z + 1) } else { grid_index(rd, x + 1, -rd) },
{
    let w = 2 * rd + 1;
    let a = x + rd;
    let b = z + rd;
    assert(0 <= a * w <= (w - 1) * w) by (nonlinear_arith)
        requires
            0 <= a <= w - 1,
            0 < w,
    ;
    assert((w - 1) * w + w == w * w) by (nonlinear_arith);
    assert(a * w + w == (a + 1) * w) by (nonlinear_arith);
}

/// The chunks in view of a player standing in chunk `player`: every chunk
/// within `render_distance` whose offset is within the always-loaded radius
/// or flagged in `in_cone`, the camera's field-of-view mask over the square
/// of offsets `[-render_distance, render_distance]²` (rows by x offset).
/// Each chunk occurs once.
pub fn calculate_player_view(player: ChunkPos, render_distance: i32, in_cone: &Vec<bool>) -> (chunks: Vec<ChunkPos>)
    requires
        0 <= render_distance,
        2 * render_distance * render_distance <= i32::MAX,
        in_cone@.len() == (2 * render_distance + 1) * (2 * render_distance + 1),
        i32::MIN <= player.x - render_distance,
        player.x + render_distance <= i32::MAX,
        i32::MIN <= player.z - render_distance,
        player.z + render_distance <= i32::MAX,
    ensures
        distinct_positions(chunks@),
        forall|p: ChunkPos|
            #[trigger] chunks@.contains(p) <==> in_player_view(player, render_distance as int, in_cone@, p),
{
    let rd = render_distance;
    let ghost rdi = rd as int;
    let ghost cone = in_cone@;
    proof {
        assert(rd * rd <= 2 * rd * rd && 2 * rd * rd == 2 * (rd * rd)) by (nonlinear_arith)
            requires
                0 <= rd,
        ;
        assert(rd <= 40000) by (nonlinear_arith)
            requires
                0 <= rd,
                2 * rd * rd <= i32::MAX,
        ;
        assert((-rdi + rdi) * (2 * rdi + 1) == 0) by (nonlinear_arith);
    }
    let r2 = rd * rd;
    let always_r2 = ALWAYS_LOAD_RADIUS * ALWAYS_LOAD_RADIUS;
    let mut chunks: Vec<ChunkPos> = Vec::new();
    let cone_len = in_cone.len();
    let mut idx: usize = 0;
    let mut x: i32 = -rd;
    while x <= rd
        invariant
            rd == render_distance,
            rdi == rd as int,
            cone == in_cone@,
            0 <= rd <= 40000,
            2 * rd * rd == 2 * (rd * rd),
            2 * rd * rd <= i32::MAX,
            r2 == rd * rd,
            always_r2 == 4,
            cone.len() == (2 * rdi + 1) * (2 * rdi + 1),
            cone_len == cone.len(),
            i32::MIN <= player.x - rd,
            player.x + rd <= i32::MAX,
            i32::MIN <= player.z - rd,
            player.z + rd <= i32::MAX,
            -rd <= x <= rd + 1,
            x <= rd ==> idx == grid_index(rdi, x as int, -rdi),
            forall|k: int, l: int|
                0 <= k < l < chunks@.len() ==> lex_before(
                    chunks@[k].x - player.x,
                    chunks@[k].z - player.z,
                    chunks@[l].x - player.x,
                    chunks@[l].z - player.z,
                ),
            forall|p: ChunkPos|
                #[trigger] chunks@.contains(p) <==> (in_player_view(player, rdi, cone, p) && p.x - player.x < x),
        decreases rd + 1 - x,
    {
        proof {
            assert forall|k: int| 0 <= k < chunks@.len() implies lex_before(
                #[trigger] chunks@[k].x - player.x,
                chunks@[k].z - player.z,
                x as int,
                -rdi,
            ) by {
                assert(chunks@.contains(chunks@[k]));
            }
        }
        let mut z: i32 = -rd;
        while z <= rd
            invariant
                rd == render_distance,
                rdi == rd as int,
                cone == in_cone@,
                0 <= rd <= 40000,
                2 * rd * rd == 2 * (rd * rd),
                2 * rd * rd <= i32::MAX,
                r2 == rd * rd,
                always_r2 == 4,
                cone.len() == (2 * rdi + 1) * (2 * rdi + 1),
                cone_len == cone.len(),
            cone_len == cone.len(),
                i32::MIN <= player.x - rd,
                player.x + rd <= i32::MAX,
                i32::MIN <= player.z - rd,
                player.z + rd <= i32::MAX,
                -rd <= x <= rd,
                -rd <= z <= rd + 1,
                z <= rd ==> idx == grid_index(rdi, x as int, z as int),
                z == rd + 1 ==> (x < rd ==> idx == grid_index(rdi, x + 1, -rdi)),
                forall|k: int, l: int|
                    0 <= k < l < chunks@.len() ==> lex_before(
                        chunks@[k].x - player.x,
                        chunks@[k].z - player.z,
                        chunks@[l].x - player.x,
                        chunks@[l].z - player.z,
                    ),
                forall|k: int|
                    0 <= k < chunks@.len() ==> lex_before(
                        #[trigger] chunks@[k].x - player.x,
                        chunks@[k].z - player.z,
                        x as int,
                        z as int,
                    ),
                forall|p: ChunkPos|
                    #[trigger] chunks@.contains(p) <==> (in_player_view(player, rdi, cone, p) && lex_before(
                        p.x - player.x,
                        p.z - player.z,
                        x as int,
                        z as int,
                    )),
            decreases rd + 1 - z,
        {
            proof {
                lemma_square_bound(x as int, rdi);
                lemma_square_bound(z as int, rdi);
                lemma_grid_index_bound(rdi, x as int, z as int);
            }
            let dist2 = x * x + z * z;
            let ghost before = chunks@;
            let here = ChunkPos { x: player.x + x, z: player.z + z };
            let take = dist2 <= r2 && (dist2 <= always_r2 || in_cone[idx]);
            proof {
                assert(take == in_player_view(player, rdi, cone, here));
            }
            if take {
                chunks.push(here);
                proof {
                    assert forall|k: int, l: int| 0 <= k < l < chunks@.len() implies lex_before(
                        chunks@[k].x - player.x,
                        chunks@[k].z - player.z,
                        chunks@[l].x - player.x,
                        chunks@[l].z - player.z,
                    ) by {
                        if l == chunks@.len() - 1 {
                            assert(chunks@[k] == before[k]);
                        } else {
                            assert(chunks@[k] == before[k]);
                            assert(chunks@[l] == before[l]);
                        }
                    }
                }
            }
            proof {
                assert forall|p: ChunkPos| #[trigger] chunks@.contains(p) <==> (in_player_view(player, rdi, cone, p)
                    && lex_before(p.x - player.x, p.z - player.z, x as int, z + 1)) by {
                    if p == here {
                        if take {
                            assert(chunks@[chunks@.len() - 1] == here);
                        } else {
                            assert(!before.contains(p));
                        }
                    } else {
                        if chunks@.contains(p) {
                            let k = choose|k: int| 0 <= k < chunks@.len() && chunks@[k] == p;
                            if take && k == chunks@.len() - 1 {
                            } else {
                                assert(before[k] == p);
                                assert(before.contains(p));
                            }
                        }
                        if before.contains(p) {
                            let k = choose|k: int| 0 <= k < before.len() && before[k] == p;
                            assert(chunks@[k] == p);
                        }
                    }
                }
                assert forall|k: int| 0 <= k < chunks@.len() implies lex_before(
                    #[trigger] chunks@[k].x - player.x,
                    chunks@[k].z - player.z,
                    x as int,
                    z + 1,
                ) by {
                    if !(take && k == chunks@.len() - 1) {
                        assert(chunks@[k] == before[k]);
                    }
                }
            }
            z = z + 1;
            idx = idx + 1;
        }
        proof {
            assert forall|p: ChunkPos| #[trigger] chunks@.contains(p) <==> (in_player_view(player, rdi, cone, p)
                && p.x - player.x < x + 1) by {}
        }
        x = x + 1;
    }
    proof {
        assert forall|a: int, b: int| 0 <= a < chunks@.len() && 0 <= b < chunks@.len() && a != b implies chunks@[a]
            != chunks@[b] by {
            if a < b {
                assert(lex_before(chunks@[a].x - player.x, chunks@[a].z - player.z, chunks@[b].x - player.x, chunks@[b].z - player.z));
            } else {
                assert(lex_before(chunks@[b].x - player.x, chunks@[b].z - player.z, chunks@[a].x - player.x, chunks@[a].z - player.z));
            }
        }
    }
    chunks
}

/// A second load with the same view changes nothing: once the map is in
/// line with `view` (every position of the view held and shown, every
/// other chunk hidden), no position of the view needs a new entity and no
/// chunk has anything to despawn.
pub proof fn lemma_reload_same_view_is_noop(s: Seq<Chunk>, view: Seq<ChunkPos>)
    requires
        positions_distinct(s),
        forall|p: ChunkPos| view.contains(p) ==> has_pos(s, p),
        forall|j: int| 0 <= j < s.len() && view.contains(#[trigger] s[j].pos) ==> !spawn_needed(s[j]),
        forall|j: int| 0 <= j < s.len() && !view.contains(#[trigger] s[j].pos) ==> spawn_needed(s[j]),
    ensures
        spawn_plan(s, view) == Seq::<ChunkPos>::empty(),
        outside_entities(s, view) == Seq::<u64>::empty(),
    decreases view.len() + s.len(),
{
    if view.len() > 0 {
        let p = view.last();
        assert(view.contains(p)) by {
            assert(view[view.len() - 1] == p);
        }
        assert(has_pos(s, p));
        let j = choose|j: int| 0 <= j < s.len() && #[trigger] s[j].pos == p;
        assert(!needs_spawn_at(s, p));
        assert forall|q: ChunkPos| view.drop_last().contains(q) implies has_pos(s, q) by {
            let i = choose|i: int| 0 <= i < view.drop_last().len() && view.drop_last()[i] == q;
            assert(view[i] == q);
        }
        lemma_plan_empty(s, view.drop_last(), view);
    }
    lemma_outside_empty(s, view);
}

proof fn lemma_plan_empty(s: Seq<Chunk>, v: Seq<ChunkPos>, view: Seq<ChunkPos>)
    requires
        forall|p: ChunkPos| v.contains(p) ==> has_pos(s, p),
        forall|j: int| 0 <= j < s.len() && view.contains(#[trigger] s[j].pos) ==> !spawn_needed(s[j]),
        forall|p: ChunkPos| v.contains(p) ==> view.contains(p),
    ensures
        spawn_plan(s, v) == Seq::<ChunkPos>::empty(),
    decreases v.len(),
{
    if v.len() > 0 {
        let p = v.last();
        assert(v.contains(p)) by {
            assert(v[v.len() - 1] == p);
        }
        let j = choose|j: int| 0 <= j < s.len() && #[trigger] s[j].pos == p;
        assert(!spawn_needed(s[j]));
        assert(!needs_spawn_at(s, p));
        assert forall|q: ChunkPos| v.drop_last().contains(q) implies has_pos(s, q) && view.contains(q) by {
            let i = choose|i: int| 0 <= i < v.drop_last().len() && v.drop_last()[i] == q;
            assert(v[i] == q);
        }
        lemma_plan_empty(s, v.drop_last(), view);
    }
}

proof fn lemma_outside_empty(s: Seq<Chunk>, view: Seq<ChunkPos>)
    requires
        forall|j: int| 0 <= j < s.len() && !view.contains(#[trigger] s[j].pos) ==> spawn_needed(s[j]),
    ensures
        outside_entities(s, view) == Seq::<u64>::empty(),
    decreases s.len(),
{
    if s.len() > 0 {
        let n = s.len() - 1;
        assert(s.last() == s[n]);
        assert forall|j: int| 0 <= j < s.drop_last().len() && !view.contains(#[trigger] s.drop_last()[j].pos)
            implies spawn_needed(s.drop_last()[j]) by {
            assert(s.drop_last()[j] == s[j]);
        }
        lemma_outside_empty(s.drop_last(), view);
        if !view.contains(s[n].pos) {
            assert(spawn_needed(s[n]));
            assert(chunk_entities(s[n]) =~= Seq::<u64>::empty());
        }
        assert(outside_entities(s, view) =~= Seq::<u64>::empty());
    }
}

/// Chunks within the always-loaded radius of the player, and within the
/// render distance, are in view wherever the camera looks.
pub proof fn lemma_near_chunks_always_in_view(player: ChunkPos, rd: int, cone: Seq<bool>, p: ChunkPos)
    requires
        (p.x - player.x) * (p.x - player.x) + (p.z - player.z) * (p.z - player.z) <= ALWAYS_LOAD_RADIUS
            * ALWAYS_LOAD_RADIUS,
        (p.x - player.x) * (p.x - player.x) + (p.z - player.z) * (p.z - player.z) <= rd * rd,
        0 <= rd,
    ensures
        in_player_view(player, rd, cone, p),
{
    let x = p.x - player.x;
    let z = p.z - player.z;
    assert(-rd <= x <= rd && -rd <= z <= rd) by (nonlinear_arith)
        requires
            x * x + z * z <= rd * rd,
            0 <= rd,
    ;
}

/// Whether the chunks in view are recomputed this frame: the player moved
/// to another chunk, a regeneration was asked for, or the camera turned.
pub fn needs_view_update(player_chunk: ChunkPos, last_player_chunk: ChunkPos, force_reload: bool, camera_turned: bool) -> (b: bool)
    ensures
        b == (player_chunk != last_player_chunk || force_reload || camera_turned),
{
    player_chunk != last_player_chunk || force_reload || camera_turned
}

/// A map regeneration is asked for whenever the render distance differs
/// from the one seen last frame. `last_render_distance` remembers it.
pub fn regenerate_map_observer(render_distance: u32, last_render_distance: &mut u32) -> (regenerate: bool)
    ensures
        regenerate == (render_distance != *old(last_render_distance)),
        *final(last_render_distance) == render_distance,
{
    let regenerate = *last_render_distance != render_distance;
    *last_render_distance = render_distance;
    regenerate
}

/// Whether `pos` occurs in `view`.
pub fn contains_pos(view: &Vec<ChunkPos>, pos: ChunkPos) -> (b: bool)
    ensures
        b == view@.contains(pos),
{
    let n = view.len();
    let mut i: usize = 0;
    while i < n
        invariant
            n == view@.len(),
            0 <= i <= n,
            forall|j: int| 0 <= j < i ==> view@[j] != pos,
        decreases n - i,
    {
        if view[i] == pos {
            return true;
        }
        i = i + 1;
    }
    false
}

} // verus!
