use vstd::prelude::*;
use vstd::multiset::Multiset;
use std::collections::HashMap;
use crate::kind::{Kind, Effect, combination_for, combination_spec, starting_kinds};
use crate::index::{Rect, SpatialIndex, Tup, tup, tup_contains, none_at, is_topmost};
use rand::Rng;

verus! {

broadcast use vstd::std_specs::hash::group_hash_axioms;

/// Half the side of the square that every widget covers.
pub const HALF_SIZE: i64 = 50;

/// Planar coordinates stay within this distance of the origin, so that a
/// widget's rectangle stays within the index's `CORNER_LIMIT`.
pub const COORD_LIMIT: i64 = 99_999_950;

/// Where a widget stands: planar coordinates and a depth that is also its
/// priority when widgets overlap.
#[derive(Clone, Copy, Debug, PartialEq, Eq, Structural)]
pub struct Position {
    pub x: i64,
    pub y: i64,
    pub z: i64,
}

/// A widget on the canvas.
#[derive(Clone, Copy, Debug, PartialEq, Eq, Structural)]
pub struct Widget {
    pub kind: Kind,
    pub pos: Position,
}

/// The drag state: idle, or dragging a widget whose position at grab time is
/// kept, since its index entry still holds that position.
#[derive(Clone, Copy, Debug, PartialEq, Eq, Structural)]
pub enum Interaction {
    Idle,
    Dragging(u64, Position),
}

/// Mutations requested during a frame and applied when it ends.
pub struct MutationQueue {
    pub to_spawn: Vec<(Kind, Position)>,
    pub to_despawn: Vec<u64>,
}

/// The kinds that the `Create` effects of `effects` name, in order.
pub open spec fn created(effects: Seq<Effect>) -> Seq<Kind>
    decreases effects.len(),
{
    if effects.len() == 0 {
        seq![]
    } else {
        let rest = created(effects.drop_last());
        match effects.last() {
            Effect::Create(k) => rest.push(k),
            Effect::Delete(_) => rest,
        }
    }
}

/// The handles that the `Delete` effects of `effects` remove, in order: the
/// dragged widget `this` where the kind is its own, else `other`.
pub open spec fn deleted(effects: Seq<Effect>, this_kind: Kind, this: u64, other: u64) -> Seq<u64>
    decreases effects.len(),
{
    if effects.len() == 0 {
        seq![]
    } else {
        let rest = deleted(effects.drop_last(), this_kind, this, other);
        match effects.last() {
            Effect::Create(_) => rest,
            Effect::Delete(k) => rest.push(if k == this_kind { this } else { other }),
        }
    }
}

pub open spec fn effects_of(c: Option<Seq<Effect>>) -> Seq<Effect> {
    match c {
        Some(s) => s,
        None => seq![],
    }
}

pub open spec fn spawn_kinds(s: Seq<(Kind, Position)>) -> Seq<Kind> {
    s.map_values(|p: (Kind, Position)| p.0)
}

/// A spawn position drawn at random stays in this range.
pub open spec fn random_spot(p: Position) -> bool {
    -100 <= p.x < 100 && -100 <= p.y < 100 && 0 <= p.z < 500
}

pub open spec fn spots_random(s: Seq<(Kind, Position)>, from: int) -> bool {
    forall|i: int| from <= i < s.len() ==> random_spot(#[trigger] s[i].1)
}

/// Relies on `rand::thread_rng` and `Rng::gen_range`: a value drawn from the
/// half-open range `lo..hi`, which must not be empty.
#[verifier::external_body]
fn random_in(lo: i64, hi: i64) -> (r: i64)
    requires
        lo < hi,
    ensures
        lo <= r < hi,
{
    rand::thread_rng().gen_range(lo..hi)
}

/// A position for a new widget, drawn at random near the origin.
pub fn random_position() -> (r: Position)
    ensures
        random_spot(r),
{
    let x = random_in(-100, 100);
    let y = random_in(-100, 100);
    let z = random_in(0, 500);
    Position { x, y, z }
}

impl MutationQueue {
    /// Queues the effects of a combination of the dragged widget `this`, of
    /// kind `this_kind`, with `other`: a spawn at a random position for each
    /// `Create`, and for each `Delete` a despawn of `this` where the kind is
    /// its own, else of `other`.
    pub fn push_effects(&mut self, effects: &Vec<Effect>, this_kind: Kind, this: u64, other: u64)
        ensures
            spawn_kinds(final(self).to_spawn@) == spawn_kinds(old(self).to_spawn@) + created(effects@),
            final(self).to_spawn@.len() == old(self).to_spawn@.len() + created(effects@).len(),
            final(self).to_spawn@.subrange(0, old(self).to_spawn@.len() as int) == old(self).to_spawn@,
            spots_random(final(self).to_spawn@, old(self).to_spawn@.len() as int),
            final(self).to_despawn@ == old(self).to_despawn@ + deleted(effects@, this_kind, this, other),
    {
        let mut i: usize = 0;
        while i < effects.len()
            invariant
                0 <= i <= effects@.len(),
                spawn_kinds(self.to_spawn@) == spawn_kinds(old(self).to_spawn@) + created(effects@.take(i as int)),
                self.to_spawn@.len() == old(self).to_spawn@.len() + created(effects@.take(i as int)).len(),
                self.to_spawn@.subrange(0, old(self).to_spawn@.len() as int) == old(self).to_spawn@,
                spots_random(self.to_spawn@, old(self).to_spawn@.len() as int),
                self.to_despawn@ == old(self).to_despawn@ + deleted(effects@.take(i as int), this_kind, this, other),
            decreases effects@.len() - i,
        {
            assert(effects@.take(i + 1).drop_last() =~= effects@.take(i as int));
            assert(effects@.take(i + 1).last() == effects@[i as int]);
            let ghost before = self.to_spawn@;
            match effects[i] {
                Effect::Create(k) => {
                    let p = random_position();
                    self.to_spawn.push((k, p));
                    assert(spawn_kinds(self.to_spawn@) =~= spawn_kinds(before).push(k));
                    assert(self.to_spawn@.subrange(0, old(self).to_spawn@.len() as int)
                        =~= before.subrange(0, old(self).to_spawn@.len() as int));
                },
                Effect::Delete(k) => {
                    if k == this_kind {
                        self.to_despawn.push(this);
                    } else {
                        self.to_despawn.push(other);
                    }
                },
            }
            i = i + 1;
        }
        assert(effects@.take(effects@.len() as int) =~= effects@);
    }
}

impl MutationQueue {
    /// A queue with nothing in it.
    pub fn new() -> (r: MutationQueue)
        ensures
            r.to_spawn@.len() == 0,
            r.to_despawn@.len() == 0,
    {
        MutationQueue { to_spawn: Vec::new(), to_despawn: Vec::new() }
    }
}

pub open spec fn in_range(v: i64) -> bool {
    -COORD_LIMIT <= v <= COORD_LIMIT
}

pub open spec fn point_ok(x: i64, y: i64) -> bool {
    in_range(x) && in_range(y)
}

pub open spec fn pos_ok(p: Position) -> bool {
    point_ok(p.x, p.y)
}

pub open spec fn spawns_ok(s: Seq<(Kind, Position)>) -> bool {
    forall|i: int| 0 <= i < s.len() ==> pos_ok(#[trigger] s[i].1)
}

/// The widgets of `m` with those of `s` added: the `i`-th of `s` gets handle
/// `start + i`.
pub open spec fn spawned(m: Map<u64, Widget>, start: u64, s: Seq<(Kind, Position)>) -> Map<u64, Widget>
    decreases s.len(),
{
    if s.len() == 0 {
        m
    } else {
        spawned(m, start, s.drop_last()).insert(
            (start + s.len() - 1) as u64,
            Widget { kind: s.last().0, pos: s.last().1 },
        )
    }
}

/// The index entry of widget `h` standing at `p`: a square centred on `p`.
pub open spec fn rect_spec(h: u64, p: Position) -> Tup {
    (
        (p.x - HALF_SIZE) as i64,
        (p.y - HALF_SIZE) as i64,
        (p.x + HALF_SIZE) as i64,
        (p.y + HALF_SIZE) as i64,
        p.z,
        h,
    )
}

/// The rectangle that a widget at `p` covers.
pub fn widget_rect(h: u64, p: Position) -> (r: Rect)
    requires
        pos_ok(p),
    ensures
        tup(r) == rect_spec(h, p),
        r.well_formed(),
        r.bounded(),
{
    Rect {
        min_x: p.x - HALF_SIZE,
        min_y: p.y - HALF_SIZE,
        max_x: p.x + HALF_SIZE,
        max_y: p.y + HALF_SIZE,
        priority: p.z,
        handle: h,
    }
}

/// The whole state of the canvas: the widgets by handle, the index over
/// them, the drag state and the queue of pending mutations.
pub struct Canvas {
    widgets: HashMap<u64, Widget>,
    next_handle: u64,
    index: SpatialIndex,
    state: Interaction,
    queue: MutationQueue,
}

/// The widgets of `c` once its queued mutations are applied: `d`.
pub open spec fn flushed(c: Canvas, d: Canvas) -> bool {
    &&& d.state_spec() == c.state_spec()
    &&& d.spawns().len() == 0
    &&& d.despawns().len() == 0
    &&& d.next_handle_spec() == c.next_handle_spec() + c.spawns().len()
    &&& d.widgets() == spawned(c.widgets(), c.next_handle_spec(), c.spawns()).remove_keys(c.despawns().to_set())
}

/// What a release at `(x, y)` does to canvas `c`, giving `d` and returning
/// `r`: the widgets stay, the state goes idle, and the index and the queue
/// change as follows.
pub open spec fn released(c: Canvas, x: i64, y: i64, r: Option<u64>, d: Canvas) -> bool {
    &&& d.widgets() == c.widgets()
    &&& d.state_spec() == Interaction::Idle
    &&& match c.state_spec() {
        Interaction::Idle => r.is_none() && d.entries() == c.entries()
            && d.spawns() == c.spawns()
            && d.despawns() == c.despawns(),
        Interaction::Dragging(h, start) => {
            let rest = c.entries().remove(rect_spec(h, start));
            if !c.widgets().contains_key(h) {
                r.is_none() && d.entries() == rest
                    && d.spawns() == c.spawns()
                    && d.despawns() == c.despawns()
            } else {
                let w = c.widgets()[h];
                &&& d.entries() == rest.insert(rect_spec(h, w.pos))
                &&& match r {
                    None => none_at(rest, x, y)
                        && d.spawns() == c.spawns()
                        && d.despawns() == c.despawns(),
                    Some(o) => {
                        let effects = effects_of(combination_spec(w.kind, c.widgets()[o].kind));
                        &&& o != h
                        &&& c.widgets().contains_key(o)
                        &&& is_topmost(rest, o, x, y)
                        &&& spawn_kinds(d.spawns()) == spawn_kinds(c.spawns()) + created(effects)
                        &&& d.spawns().subrange(0, c.spawns().len() as int) == c.spawns()
                        &&& spots_random(d.spawns(), c.spawns().len() as int)
                        &&& d.despawns() == c.despawns() + deleted(effects, w.kind, h, o)
                    },
                }
            }
        },
    }
}

impl Canvas {
    /// The widgets alive, by handle.
    pub closed spec fn widgets(&self) -> Map<u64, Widget> {
        self.widgets@
    }

    /// The entries of the spatial index.
    pub closed spec fn entries(&self) -> Multiset<Tup> {
        self.index.entries()
    }

    pub closed spec fn state_spec(&self) -> Interaction {
        self.state
    }

    pub closed spec fn spawns(&self) -> Seq<(Kind, Position)> {
        self.queue.to_spawn@
    }

    pub closed spec fn despawns(&self) -> Seq<u64> {
        self.queue.to_despawn@
    }

    /// The handle that the next spawned widget gets.
    pub closed spec fn next_handle_spec(&self) -> u64 {
        self.next_handle
    }

    /// The entry that the index holds for widget `h`: the grab-time one while
    /// `h` is dragged, else that of its position.
    pub open spec fn expected_entry(&self, h: u64) -> Tup {
        match self.state_spec() {
            Interaction::Dragging(d, start) if d == h => rect_spec(h, start),
            _ => rect_spec(h, self.widgets()[h].pos),
        }
    }

    /// How often the index should hold `t`: once if it is the expected entry
    /// of a widget alive, else never.
    pub open spec fn expected_count(&self, t: Tup) -> nat {
        if self.widgets().contains_key(t.5) && t == self.expected_entry(t.5) { 1nat } else { 0nat }
    }

    /// The index holds exactly one entry for each widget alive, the expected
    /// one, and nothing else.
    pub open spec fn index_matches(&self) -> bool {
        &&& forall|t: Tup| #[trigger] self.entries().count(t) == self.expected_count(t)
        &&& self.entries().len() == self.widgets().len()
    }

    pub open spec fn well_formed(&self) -> bool {
        &&& self.widgets().dom().finite()
        &&& forall|h: u64| #[trigger] self.widgets().contains_key(h) ==> h < self.next_handle_spec()
            && pos_ok(self.widgets()[h].pos)
        &&& match self.state_spec() {
            Interaction::Dragging(d, start) => pos_ok(start) && d < self.next_handle_spec() && (self.widgets().contains_key(d)
                ==> start.z == self.widgets()[d].pos.z),
            Interaction::Idle => true,
        }
        &&& spawns_ok(self.spawns())
        &&& self.index_matches()
    }

    /// An empty canvas, idle, with nothing queued.
    pub fn new() -> (r: Canvas)
        ensures
            r.well_formed(),
            r.widgets() == Map::<u64, Widget>::empty(),
            r.entries() == Multiset::<Tup>::empty(),
            r.state_spec() == Interaction::Idle,
            r.next_handle_spec() == 0,
            r.spawns().len() == 0,
            r.despawns().len() == 0,
    {
        let r = Canvas {
            widgets: HashMap::new(),
            next_handle: 0,
            index: SpatialIndex::new(),
            state: Interaction::Idle,
            queue: MutationQueue::new(),
        };
        assert(r.widgets() =~= Map::<u64, Widget>::empty());
        r
    }

    /// While a widget is dragged, moves it to the pointer `(x, y)`, keeping
    /// its depth. The index is left as it is.
    pub fn follow_pointer(&mut self, x: i64, y: i64)
        requires
            old(self).well_formed(),
            point_ok(x, y),
        ensures
            final(self).well_formed(),
            final(self).entries() == old(self).entries(),
            final(self).state_spec() == old(self).state_spec(),
            final(self).spawns() == old(self).spawns(),
            final(self).despawns() == old(self).despawns(),
            final(self).widgets() == match old(self).state_spec() {
                Interaction::Dragging(d, _) if old(self).widgets().contains_key(d) => old(self).widgets().insert(
                    d,
                    Widget { kind: old(self).widgets()[d].kind, pos: Position { x, y, z: old(self).widgets()[d].pos.z } },
                ),
                _ => old(self).widgets(),
            },
    {
        if let Interaction::Dragging(d, _) = self.state {
            if let Some(w) = self.widgets.get(&d) {
                let moved = Widget { kind: w.kind, pos: Position { x, y, z: w.pos.z } };
                self.widgets.insert(d, moved);
                assert(self.widgets().dom() =~= old(self).widgets().dom());
                assert forall|t: Tup| #[trigger] self.entries().count(t) == self.expected_count(t) by {
                    lemma_entry_count(*old(self), t);
                }
            }
        }
    }

    /// On a press at `(x, y)` while idle, grabs the topmost widget there, if
    /// any. Nothing else changes; while dragging, a press does nothing.
    pub fn press(&mut self, x: i64, y: i64) -> (r: Option<u64>)
        requires
            old(self).well_formed(),
        ensures
            final(self).well_formed(),
            final(self).widgets() == old(self).widgets(),
            final(self).entries() == old(self).entries(),
            final(self).spawns() == old(self).spawns(),
            final(self).despawns() == old(self).despawns(),
            old(self).state_spec() != Interaction::Idle ==> r.is_none() && final(self).state_spec() == old(self).state_spec(),
            old(self).state_spec() == Interaction::Idle ==> match r {
                None => final(self).state_spec() == Interaction::Idle
                    && none_at(old(self).entries(), x, y),
                Some(h) => old(self).topmost_at(h, x, y)
                    && final(self).state_spec() == Interaction::Dragging(h, old(self).widgets()[h].pos),
            },
    {
        if self.state != Interaction::Idle {
            return None;
        }
        let found = self.index.query_topmost_at(x, y);
        match found {
            None => None,
            Some(h) => {
                let ghost e = choose|e: Tup|
                    #![trigger self.entries().count(e)]
                    self.entries().count(e) > 0 && tup_contains(e, x, y) && e.5 == h
                    && (forall|f: Tup| #[trigger] self.entries().count(f) > 0 && tup_contains(f, x, y) ==> f.4 <= e.4);
                assert(self.entries().count(e) > 0);
                let w = *self.widgets.get(&h).unwrap();
                self.state = Interaction::Dragging(h, w.pos);
                assert forall|t: Tup| #[trigger] self.entries().count(t) == self.expected_count(t) by {
                    lemma_entry_count(*old(self), t);
                }
                Some(h)
            }
        }
    }

    /// On a release at `(x, y)` while dragging widget `h`: takes the stale
    /// grab-time entry of `h` out of the index, finds the topmost other widget
    /// at `(x, y)`, queues the effects of the rule for the two kinds, if any,
    /// puts `h` back into the index at its current position, and goes idle.
    /// Returns the widget that `h` was combined with, if one was found.
    pub fn release(&mut self, x: i64, y: i64) -> (r: Option<u64>)
        requires
            old(self).well_formed(),
        ensures
            final(self).well_formed(),
            final(self).state_spec() == Interaction::Idle,
            final(self).widgets() == old(self).widgets(),
            released(*old(self), x, y, r, *final(self)),
    {
        let (h, start) = match self.state {
            Interaction::Idle => return None,
            Interaction::Dragging(h, start) => (h, start),
        };
        let ghost old_entries = self.entries();
        let stale = widget_rect(h, start);
        self.index.remove(stale);
        let ghost rest = self.entries();
        assert(old_entries.count(tup(stale)) == if self.widgets().contains_key(h) { 1nat } else { 0nat });
        let mut other: Option<u64> = None;
        match self.widgets.get(&h) {
            None => {
                assert(rest =~= old_entries);
            },
            Some(w) => {
                let this = *w;
                assert(old_entries =~= rest.insert(tup(stale)));
                let found = self.index.query_topmost_at(x, y);
                if let Some(o) = found {
                    let ghost e = choose|e: Tup|
                        #![trigger rest.count(e)]
                        rest.count(e) > 0 && tup_contains(e, x, y) && e.5 == o
                        && (forall|f: Tup| #[trigger] rest.count(f) > 0 && tup_contains(f, x, y) ==> f.4 <= e.4);
                    assert(old_entries.count(e) > 0);
                    let ow = *self.widgets.get(&o).unwrap();
                    if let Some(effects) = combination_for(this.kind, ow.kind) {
                        self.queue.push_effects(&effects, this.kind, h, o);
                    } else {
                        assert(created(seq![]) =~= seq![]);
                        assert(deleted(seq![], this.kind, h, o) =~= seq![]);
                        assert(spawn_kinds(self.spawns()) + seq![] =~= spawn_kinds(self.spawns()));
                        assert(self.despawns() + seq![] =~= self.despawns());
                        assert(self.spawns().subrange(0, self.spawns().len() as int) =~= self.spawns());
                    }
                    other = Some(o);
                }
                self.index.insert(widget_rect(h, this.pos));
            },
        }
        self.state = Interaction::Idle;
        assert forall|i: int| 0 <= i < self.spawns().len() implies pos_ok(#[trigger] self.spawns()[i].1) by {
            if i < old(self).spawns().len() {
                assert(self.spawns()[i] == self.spawns().subrange(0, old(self).spawns().len() as int)[i]);
            }
        }
        assert forall|t: Tup| #[trigger] self.entries().count(t) == self.expected_count(t) by {
            lemma_entry_count(*old(self), t);
        }
        other
    }

    /// Creates the widgets queued for spawning, in order, each with a fresh
    /// handle and an index entry for its position, and empties that queue.
    pub fn spawn_pending(&mut self)
        requires
            old(self).well_formed(),
            old(self).next_handle_spec() + old(self).spawns().len() <= u64::MAX,
        ensures
            final(self).well_formed(),
            final(self).state_spec() == old(self).state_spec(),
            final(self).spawns().len() == 0,
            final(self).despawns() == old(self).despawns(),
            final(self).next_handle_spec() == old(self).next_handle_spec() + old(self).spawns().len(),
            final(self).widgets() == spawned(old(self).widgets(), old(self).next_handle_spec(), old(self).spawns()),
            final(self).widgets().len() == old(self).widgets().len() + old(self).spawns().len(),
            final(self).entries().len() == old(self).entries().len() + old(self).spawns().len(),
    {
        let n = self.queue.to_spawn.len();
        let mut i: usize = 0;
        while i < n
            invariant
                self.well_formed(),
                n == self.spawns().len(),
                0 <= i <= n,
                self.spawns() == old(self).spawns(),
                self.despawns() == old(self).despawns(),
                self.state_spec() == old(self).state_spec(),
                self.next_handle_spec() == old(self).next_handle_spec() + i,
                old(self).next_handle_spec() + n <= u64::MAX,
                self.widgets() == spawned(old(self).widgets(), old(self).next_handle_spec(), old(self).spawns().take(i as int)),
                self.widgets().len() == old(self).widgets().len() + i,
            decreases n - i,
        {
            let (k, p) = self.queue.to_spawn[i];
            let h = self.next_handle;
            let ghost before = *self;
            assert(!self.widgets().contains_key(h));
            let w = Widget { kind: k, pos: p };
            self.widgets.insert(h, w);
            self.index.insert(widget_rect(h, p));
            self.next_handle = h + 1;
            assert(old(self).spawns().take(i + 1).drop_last() =~= old(self).spawns().take(i as int));
            assert forall|t: Tup| #[trigger] self.entries().count(t) == self.expected_count(t) by {
                lemma_entry_count(before, t);
            }
            assert(self.widgets().dom() =~= before.widgets().dom().insert(h));
            i = i + 1;
        }
        self.queue.to_spawn = Vec::new();
        assert(old(self).spawns().take(n as int) =~= old(self).spawns());
    }

    /// Destroys each widget queued for despawning that is still alive, with
    /// its index entry, and empties that queue.
    pub fn despawn_pending(&mut self)
        requires
            old(self).well_formed(),
        ensures
            final(self).well_formed(),
            final(self).state_spec() == old(self).state_spec(),
            final(self).spawns() == old(self).spawns(),
            final(self).despawns().len() == 0,
            final(self).next_handle_spec() == old(self).next_handle_spec(),
            final(self).widgets() == old(self).widgets().remove_keys(old(self).despawns().to_set()),
    {
        let n = self.queue.to_despawn.len();
        let mut i: usize = 0;
        while i < n
            invariant
                self.well_formed(),
                n == self.despawns().len(),
                0 <= i <= n,
                self.spawns() == old(self).spawns(),
                self.despawns() == old(self).despawns(),
                self.state_spec() == old(self).state_spec(),
                self.next_handle_spec() == old(self).next_handle_spec(),
                self.widgets() == old(self).widgets().remove_keys(old(self).despawns().take(i as int).to_set()),
            decreases n - i,
        {
            let h = self.queue.to_despawn[i];
            let ghost before = *self;
            assert(old(self).despawns().take(i + 1).to_set() =~= old(self).despawns().take(i as int).to_set().insert(h)) by {
                assert(old(self).despawns().take(i + 1)[i as int] == h);
                assert forall|a: u64| old(self).despawns().take(i + 1).contains(a) implies
                    old(self).despawns().take(i as int).to_set().insert(h).contains(a) by {
                    let j = choose|j: int| 0 <= j < i + 1 && #[trigger] old(self).despawns().take(i + 1)[j] == a;
                    if j < i {
                        assert(old(self).despawns().take(i as int)[j] == a);
                    }
                }
                assert forall|a: u64| old(self).despawns().take(i as int).contains(a) implies
                    old(self).despawns().take(i + 1).contains(a) by {
                    let j = choose|j: int| 0 <= j < i && #[trigger] old(self).despawns().take(i as int)[j] == a;
                    assert(old(self).despawns().take(i + 1)[j] == a);
                }
            }
            match self.widgets.get(&h) {
                None => {
                    assert(self.widgets() =~= old(self).widgets().remove_keys(old(self).despawns().take(i + 1).to_set()));
                },
                Some(w) => {
                    let pos = match self.state {
                        Interaction::Dragging(d, start) if d == h => start,
                        _ => w.pos,
                    };
                    let entry = widget_rect(h, pos);
                    self.index.remove(entry);
                    self.widgets.remove(&h);
                    assert(before.entries() =~= self.entries().insert(tup(entry)));
                    assert(self.widgets() =~= old(self).widgets().remove_keys(old(self).despawns().take(i + 1).to_set()));
                    assert forall|t: Tup| #[trigger] self.entries().count(t) == self.expected_count(t) by {
                        lemma_entry_count(before, t);
                    }
                    assert(before.widgets().dom() =~= self.widgets().dom().insert(h));
                },
            }
            i = i + 1;
        }
        self.queue.to_despawn = Vec::new();
        assert(old(self).despawns().take(n as int) =~= old(self).despawns());
    }

    /// Whether handles remain for every widget queued for spawning.
    pub fn can_spawn_pending(&self) -> (r: bool)
        ensures
            r == (self.next_handle_spec() + self.spawns().len() <= u64::MAX),
    {
        self.queue.to_spawn.len() as u64 <= u64::MAX - self.next_handle
    }

    /// Applies the queued mutations at the end of a frame: spawns first,
    /// then despawns. Afterwards the index holds one entry per widget.
    pub fn flush(&mut self)
        requires
            old(self).well_formed(),
            old(self).next_handle_spec() + old(self).spawns().len() <= u64::MAX,
        ensures
            final(self).well_formed(),
            final(self).entries().len() == final(self).widgets().len(),
            final(self).state_spec() == old(self).state_spec(),
            final(self).spawns().len() == 0,
            final(self).despawns().len() == 0,
            final(self).next_handle_spec() == old(self).next_handle_spec() + old(self).spawns().len(),
            flushed(*old(self), *final(self)),
    {
        self.spawn_pending();
        self.despawn_pending();
    }

    /// Queues a widget of kind `kind` to be spawned at `pos` when the frame
    /// ends.
    pub fn enqueue_spawn(&mut self, kind: Kind, pos: Position)
        requires
            old(self).well_formed(),
            pos_ok(pos),
        ensures
            final(self).well_formed(),
            final(self).widgets() == old(self).widgets(),
            final(self).entries() == old(self).entries(),
            final(self).state_spec() == old(self).state_spec(),
            final(self).next_handle_spec() == old(self).next_handle_spec(),
            final(self).spawns() == old(self).spawns().push((kind, pos)),
            final(self).despawns() == old(self).despawns(),
    {
        self.queue.to_spawn.push((kind, pos));
        assert(spawns_ok(self.spawns())) by {
            assert forall|i: int| 0 <= i < self.spawns().len() implies pos_ok(#[trigger] self.spawns()[i].1) by {
                if i < old(self).spawns().len() {
                    assert(self.spawns()[i] == old(self).spawns()[i]);
                }
            }
        }
    }

    /// Queues widget `h` to be despawned when the frame ends; a handle that
    /// is gone by then is passed over.
    pub fn enqueue_despawn(&mut self, h: u64)
        requires
            old(self).well_formed(),
        ensures
            final(self).well_formed(),
            final(self).widgets() == old(self).widgets(),
            final(self).entries() == old(self).entries(),
            final(self).state_spec() == old(self).state_spec(),
            final(self).next_handle_spec() == old(self).next_handle_spec(),
            final(self).spawns() == old(self).spawns(),
            final(self).despawns() == old(self).despawns().push(h),
    {
        self.queue.to_despawn.push(h);
    }

    /// Queues the widgets that the canvas starts with, one of each starting
    /// kind, at random positions near the origin.
    pub fn enqueue_starting_widgets(&mut self)
        requires
            old(self).well_formed(),
        ensures
            final(self).well_formed(),
            final(self).widgets() == old(self).widgets(),
            final(self).entries() == old(self).entries(),
            final(self).state_spec() == old(self).state_spec(),
            final(self).next_handle_spec() == old(self).next_handle_spec(),
            final(self).spawns().subrange(0, old(self).spawns().len() as int) == old(self).spawns(),
            spawn_kinds(final(self).spawns()) == spawn_kinds(old(self).spawns()) + starting_kinds(),
            spots_random(final(self).spawns(), old(self).spawns().len() as int),
            final(self).despawns() == old(self).despawns(),
    {
        let kinds = Kind::starting();
        let mut i: usize = 0;
        while i < kinds.len()
            invariant
                self.well_formed(),
                0 <= i <= kinds@.len(),
                kinds@ == starting_kinds(),
                self.widgets() == old(self).widgets(),
                self.entries() == old(self).entries(),
                self.state_spec() == old(self).state_spec(),
                self.next_handle_spec() == old(self).next_handle_spec(),
                self.despawns() == old(self).despawns(),
                self.spawns().len() == old(self).spawns().len() + i,
                self.spawns().subrange(0, old(self).spawns().len() as int) == old(self).spawns(),
                spawn_kinds(self.spawns()) == spawn_kinds(old(self).spawns()) + kinds@.take(i as int),
                spots_random(self.spawns(), old(self).spawns().len() as int),
            decreases kinds@.len() - i,
        {
            let ghost before = self.spawns();
            let p = random_position();
            self.enqueue_spawn(kinds[i], p);
            assert(spawn_kinds(self.spawns()) =~= spawn_kinds(before).push(kinds@[i as int]));
            assert(kinds@.take(i + 1) =~= kinds@.take(i as int).push(kinds@[i as int]));
            assert(self.spawns().subrange(0, old(self).spawns().len() as int)
                =~= before.subrange(0, old(self).spawns().len() as int));
            i = i + 1;
        }
        assert(kinds@.take(kinds@.len() as int) =~= kinds@);
    }

    /// The handle of the topmost widget whose index entry holds `(x, y)`.
    pub fn query_topmost_at(&self, x: i64, y: i64) -> (r: Option<u64>)
        ensures
            r.is_none() <==> none_at(self.entries(), x, y),
            r.is_some() ==> is_topmost(self.entries(), r.unwrap(), x, y),
    {
        self.index.query_topmost_at(x, y)
    }

    /// The widget with handle `h`, if it is alive.
    pub fn widget(&self, h: u64) -> (r: Option<Widget>)
        ensures
            r == (if self.widgets().contains_key(h) { Some(self.widgets()[h]) } else { None::<Widget> }),
    {
        match self.widgets.get(&h) {
            Some(w) => Some(*w),
            None => None,
        }
    }

    /// The number of widgets alive.
    pub fn widget_count(&self) -> (r: usize)
        ensures
            r == self.widgets().len(),
    {
        self.widgets.len()
    }

    /// The number of entries in the spatial index.
    pub fn index_len(&self) -> (r: usize)
        ensures
            r == self.entries().len(),
    {
        self.index.len()
    }

    /// The drag state.
    pub fn state(&self) -> (r: Interaction)
        ensures
            r == self.state_spec(),
    {
        self.state
    }

    /// The mutations queued for the end of the frame.
    pub fn queue(&self) -> (r: &MutationQueue)
        ensures
            r.to_spawn@ == self.spawns(),
            r.to_despawn@ == self.despawns(),
    {
        &self.queue
    }

    /// The handle that the next spawned widget gets; every handle issued so
    /// far is below it.
    pub fn next_handle(&self) -> (r: u64)
        ensures
            r == self.next_handle_spec(),
    {
        self.next_handle
    }

    /// Widget `h` is alive, its entry holds `(x, y)`, and no entry that holds
    /// `(x, y)` has a higher priority.
    pub open spec fn topmost_at(&self, h: u64, x: i64, y: i64) -> bool {
        &&& self.widgets().contains_key(h)
        &&& self.entries().count(self.expected_entry(h)) > 0
        &&& tup_contains(self.expected_entry(h), x, y)
        &&& forall|f: Tup| #[trigger] self.entries().count(f) > 0 && tup_contains(f, x, y)
            ==> f.4 <= self.expected_entry(h).4
    }
}

/// In a canvas whose index matches its widgets, entry `t` is held as often
/// as expected.
pub proof fn lemma_entry_count(c: Canvas, t: Tup)
    requires
        c.index_matches(),
    ensures
        c.entries().count(t) == c.expected_count(t),
{
}

/// Combining two kinds that have no rule changes nothing: releasing the
/// dragged widget on such a widget, then flushing, leaves the widgets as they
/// were and the index as it was, but for the dragged widget's entry, which
/// moves from its grab-time rectangle to its current one.
pub proof fn lemma_no_rule_no_change(c0: Canvas, x: i64, y: i64, r: Option<u64>, c1: Canvas, c2: Canvas)
    requires
        c0.well_formed(),
        c0.spawns().len() == 0,
        c0.despawns().len() == 0,
        released(c0, x, y, r, c1),
        c1.well_formed(),
        flushed(c1, c2),
        c2.well_formed(),
        match c0.state_spec() {
            Interaction::Dragging(h, _) => c0.widgets().contains_key(h) && match r {
                Some(o) => combination_spec(c0.widgets()[h].kind, c0.widgets()[o].kind).is_none(),
                None => true,
            },
            Interaction::Idle => false,
        },
    ensures
        c2.widgets() == c0.widgets(),
        match c0.state_spec() {
            Interaction::Dragging(h, start) => c2.entries() == c0.entries().remove(rect_spec(h, start)).insert(
                rect_spec(h, c0.widgets()[h].pos),
            ),
            Interaction::Idle => true,
        },
{
    if let Interaction::Dragging(h, start) = c0.state_spec() {
        if let Some(o) = r {
            let w = c0.widgets()[h];
            assert(created(seq![]) =~= seq![]);
            assert(deleted(seq![], w.kind, h, o) =~= seq![]);
            assert(spawn_kinds(c1.spawns()).len() == c1.spawns().len());
        }
        assert(c1.spawns() =~= seq![]);
        assert(c1.despawns() =~= seq![]);
        assert(c1.despawns().to_set() =~= Set::<u64>::empty());
        assert(c2.widgets() =~= c0.widgets());
        assert(c2.entries() =~= c1.entries()) by {
            assert forall|t: Tup| #[trigger] c2.entries().count(t) == c1.entries().count(t) by {
                lemma_entry_count(c1, t);
                lemma_entry_count(c2, t);
            }
        }
    }
}

/// While widget `h` is dragged its index entry stays at its grab-time
/// rectangle: a query at a point outside that rectangle, such as where the
/// pointer has taken `h`, never returns `h`.
pub proof fn lemma_stale_during_drag(c: Canvas, h: u64, start: Position, x: i64, y: i64)
    requires
        c.well_formed(),
        c.state_spec() == Interaction::Dragging(h, start),
        !tup_contains(rect_spec(h, start), x, y),
    ensures
        !is_topmost(c.entries(), h, x, y),
{
    if is_topmost(c.entries(), h, x, y) {
        let e = choose|e: Tup|
            #![trigger c.entries().count(e)]
            c.entries().count(e) > 0 && tup_contains(e, x, y) && e.5 == h
            && (forall|f: Tup| #[trigger] c.entries().count(f) > 0 && tup_contains(f, x, y) ==> f.4 <= e.4);
        assert(e == rect_spec(h, start));
    }
}

} // verus!
