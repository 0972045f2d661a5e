use vstd::prelude::*;
use vstd::seq_lib::*;
use crate::consts::{SCREEN_HALF, PIE_RADIUS, PIE_SPAWN_RATE, DIGITS_LOADED_AT_ONCE, COORD_LIMIT};
use crate::pie::{Pie, PieModel, PiePlate, spec_advance, spec_collides};

verus! {

/// The top-level mode of the simulation.
#[derive(Clone, Copy, PartialEq, Eq, Structural, Debug)]
pub enum Scene {
    Start,
    Game,
    GameOver,
}

/// An input event, as the surrounding shell reports it.
#[derive(Clone, Copy, PartialEq, Eq, Structural, Debug)]
pub enum InputEvent {
    /// The pointer moved to this horizontal position.
    PointerMoved(i64),
    /// The confirm key (Enter).
    Confirm,
    /// The cancel key (Esc).
    Cancel,
}

/// What the shell is asked to do after an input event.
#[derive(Clone, Copy, PartialEq, Eq, Structural, Debug)]
pub enum Action {
    /// Nothing beyond the state change already made.
    Nothing,
    /// Fetch `count` reference digits starting at absolute offset `start`
    /// from the digit source and hand them back through `set_digits`.
    FetchDigits { start: usize, count: usize },
    /// End the process.
    Quit,
}

/// The views of a sequence of pies.
pub open spec fn views(pies: Seq<Pie>) -> Seq<PieModel> {
    pies.map_values(|p: Pie| p@)
}

/// Every pie of a sequence, advanced by one physics tick.
pub open spec fn spec_advance_all(pies: Seq<PieModel>) -> Seq<PieModel> {
    pies.map_values(|p: PieModel| spec_advance(p))
}

/// Bounds that every live pie of a well-formed model satisfies: the digit is
/// a digit, the horizontal position is inside the play area, the pie is not
/// far below it, and the velocity is downward and bounded by what one
/// crossing of the play area can build up.
pub open spec fn pie_wf(p: PieModel) -> bool {
    &&& p.slices <= 9
    &&& -SCREEN_HALF <= p.x <= SCREEN_HALF
    &&& -(2 * SCREEN_HALF + PIE_RADIUS) <= p.velocity <= 0
    &&& -(SCREEN_HALF + PIE_RADIUS) <= p.y <= SCREEN_HALF
}

/// One catch decided by the digit validator: the next cursor position and
/// whether this catch was a mismatch (which ends the game). The cursor
/// advances on every catch the buffer still covers, matched or not; a catch
/// past the end of the buffer is a non-event.
pub open spec fn spec_catch(digits: Seq<u8>, cursor: nat, slices: u8) -> (nat, bool) {
    if cursor < digits.len() {
        ((cursor + 1) as nat, digits[cursor as int] != slices)
    } else {
        (cursor, false)
    }
}

/// One pie resolved against the plate: whether it stays live, the next
/// cursor position, and whether its catch was a mismatch. A pie whose bottom
/// edge is still above the bottom of the play area and which does not touch
/// the plate stays; one that touches the plate is caught and validated; one
/// that fell past the bottom without touching is removed with no effect.
pub open spec fn spec_resolve_one(p: PieModel, digits: Seq<u8>, cursor: nat, plate_x: int) -> (
    bool,
    nat,
    bool,
) {
    let hit = spec_collides(p.x, p.y, plate_x);
    if p.y - PIE_RADIUS > -SCREEN_HALF && !hit {
        (true, cursor, false)
    } else if hit {
        let (c, m) = spec_catch(digits, cursor, p.slices);
        (false, c, m)
    } else {
        (false, cursor, false)
    }
}

/// Every pie of a tick resolved in order, front first, threading the digit
/// cursor: the pies kept live, the final cursor, and whether any catch of
/// the tick was a mismatch.
pub open spec fn spec_resolve(pies: Seq<PieModel>, digits: Seq<u8>, cursor: nat, plate_x: int) -> (
    Seq<PieModel>,
    nat,
    bool,
)
    decreases pies.len(),
{
    if pies.len() == 0 {
        (Seq::<PieModel>::empty(), cursor, false)
    } else {
        let (keep, c1, m1) = spec_resolve_one(pies[0], digits, cursor, plate_x);
        let (rest_kept, c2, m2) = spec_resolve(pies.drop_first(), digits, c1, plate_x);
        ((if keep {
            seq![pies[0]] + rest_kept
        } else {
            rest_kept
        }), c2, m1 || m2)
    }
}

/// Whether a tick spawns a new pie.
pub open spec fn spec_should_spawn(ticks: u64) -> bool {
    ticks % PIE_SPAWN_RATE == 0
}

/// The pie the spawner introduces for the given random draws: at the top
/// edge, at rest.
pub open spec fn spec_new_pie(slices: u8, x: i64) -> PieModel {
    PieModel { slices: slices, velocity: 0, x: x as int, y: SCREEN_HALF as int }
}

/// The whole simulation state: the scene, the live pies, the plate, the
/// digit validator (buffer, cursor and absolute offset), and the tick
/// counter of the current session.
pub struct Model {
    pub pies: Vec<Pie>,
    pub plate: PiePlate,
    pub digit_idx: usize,
    pub abs_digit_idx: usize,
    pub digits: Vec<u8>,
    pub scene: Scene,
    pub ticks: u64,
}

impl Model {
    /// Well-formedness of the whole simulation state.
    pub open spec fn wf(self) -> bool {
        &&& forall|i: int| 0 <= i < self.pies@.len() ==> pie_wf(#[trigger] self.pies@[i]@)
        &&& self.digit_idx <= self.digits@.len()
        &&& forall|i: int| 0 <= i < self.digits@.len() ==> #[trigger] self.digits@[i] <= 9
        &&& -COORD_LIMIT <= self.plate.x <= COORD_LIMIT
    }

    /// The initial state: the start screen, nothing falling, the plate
    /// centred, no digits loaded.
    pub fn new() -> (m: Model)
        ensures
            m.wf(),
            m.scene == Scene::Start,
            m.pies@.len() == 0,
            m.plate.x == 0,
            m.digit_idx == 0,
            m.abs_digit_idx == 0,
            m.digits@.len() == 0,
            m.ticks == 0,
    {
        Model {
            pies: Vec::new(),
            plate: PiePlate { x: 0 },
            digit_idx: 0,
            abs_digit_idx: 0,
            digits: Vec::new(),
            scene: Scene::Start,
            ticks: 0,
        }
    }

    /// Installs a fetched digit buffer; everything else is untouched. It is
    /// issued for the fresh session a confirm begins, whose cursor is 0, so
    /// the new buffer must cover the cursor.
    pub fn set_digits(&mut self, digits: Vec<u8>)
        requires
            old(self).wf(),
            old(self).digit_idx <= digits@.len(),
            forall|i: int| 0 <= i < digits@.len() ==> #[trigger] digits@[i] <= 9,
        ensures
            final(self).wf(),
            final(self).digits == digits,
            final(self).pies == old(self).pies,
            final(self).plate == old(self).plate,
            final(self).digit_idx == old(self).digit_idx,
            final(self).abs_digit_idx == old(self).abs_digit_idx,
            final(self).scene == old(self).scene,
            final(self).ticks == old(self).ticks,
    {
        self.digits = digits;
    }

    /// The digit the validator expects next, if the buffer still holds one;
    /// the shell displays it. With the buffer exhausted there is none.
    pub fn current_digit(&self) -> (d: Option<u8>)
        ensures
            d == (if self.digit_idx < self.digits@.len() {
                Some(self.digits@[self.digit_idx as int])
            } else {
                Option::<u8>::None
            }),
    {
        if self.digit_idx < self.digits.len() {
            Some(self.digits[self.digit_idx])
        } else {
            None
        }
    }

    /// Whether the digit buffer is exhausted: the cursor has consumed all of
    /// it, so further catches are non-events until a new buffer arrives.
    pub fn buffer_exhausted(&self) -> (r: bool)
        ensures
            r == (self.digit_idx >= self.digits@.len()),
    {
        self.digit_idx >= self.digits.len()
    }

    /// Pushes a newly spawned pie; the digit and the horizontal position are
    /// the caller's random draws.
    pub fn spawn_pie(&mut self, slices: u8, x: i64)
        requires
            old(self).wf(),
            slices <= 9,
            -SCREEN_HALF <= x <= SCREEN_HALF,
        ensures
            final(self).wf(),
            views(final(self).pies@) == views(old(self).pies@).push(spec_new_pie(slices, x)),
            final(self).plate == old(self).plate,
            final(self).digit_idx == old(self).digit_idx,
            final(self).abs_digit_idx == old(self).abs_digit_idx,
            final(self).digits == old(self).digits,
            final(self).scene == old(self).scene,
            final(self).ticks == old(self).ticks,
    {
        let p = Pie::new(slices, x);
        self.pies.push(p);
        proof {
            lemma_views_push(old(self).pies@, p);
        }
    }

    /// Inserts a pie directly into the live set. The spawner goes through
    /// `spawn_pie`; this admits any well-formed pie, for instance one
    /// already down at the plate.
    pub fn add_pie(&mut self, pie: Pie)
        requires
            old(self).wf(),
            pie_wf(pie@),
        ensures
            final(self).wf(),
            views(final(self).pies@) == views(old(self).pies@).push(pie@),
            final(self).plate == old(self).plate,
            final(self).digit_idx == old(self).digit_idx,
            final(self).abs_digit_idx == old(self).abs_digit_idx,
            final(self).digits == old(self).digits,
            final(self).scene == old(self).scene,
            final(self).ticks == old(self).ticks,
    {
        self.pies.push(pie);
        proof {
            lemma_views_push(old(self).pies@, pie);
        }
    }

    /// Routes one input event and returns what the shell must do. The
    /// pointer moves the plate in every scene; confirm begins a fresh
    /// session from the start screen or after a lost game, and asks the
    /// shell for the initial digit buffer; cancel after a lost game ends the
    /// process.
    pub fn event(&mut self, e: InputEvent) -> (a: Action)
        requires
            old(self).wf(),
            match e {
                InputEvent::PointerMoved(x) => -COORD_LIMIT <= x <= COORD_LIMIT,
                _ => true,
            },
        ensures
            final(self).wf(),
            match e {
                InputEvent::PointerMoved(x) => {
                    &&& a == Action::Nothing
                    &&& final(self).plate.x == x
                    &&& final(self).pies == old(self).pies
                    &&& final(self).digit_idx == old(self).digit_idx
                    &&& final(self).abs_digit_idx == old(self).abs_digit_idx
                    &&& final(self).digits == old(self).digits
                    &&& final(self).scene == old(self).scene
                    &&& final(self).ticks == old(self).ticks
                },
                InputEvent::Confirm => {
                    if old(self).scene == Scene::Start || old(self).scene == Scene::GameOver {
                        &&& a == (Action::FetchDigits { start: 0, count: DIGITS_LOADED_AT_ONCE })
                        &&& final(self).scene == Scene::Game
                        &&& final(self).pies@.len() == 0
                        &&& final(self).plate.x == 0
                        &&& final(self).digit_idx == 0
                        &&& final(self).abs_digit_idx == 0
                        &&& final(self).digits@.len() == 0
                        &&& final(self).ticks == 0
                    } else {
                        a == Action::Nothing && *final(self) == *old(self)
                    }
                },
                InputEvent::Cancel => {
                    &&& *final(self) == *old(self)
                    &&& a == (if old(self).scene == Scene::GameOver {
                        Action::Quit
                    } else {
                        Action::Nothing
                    })
                },
            },
    {
        match e {
            InputEvent::PointerMoved(x) => {
                self.plate.x = x;
                Action::Nothing
            },
            InputEvent::Confirm => {
                match self.scene {
                    Scene::Start | Scene::GameOver => {
                        self.pies = Vec::new();
                        self.plate = PiePlate { x: 0 };
                        self.digit_idx = 0;
                        self.abs_digit_idx = 0;
                        self.digits = Vec::new();
                        self.ticks = 0;
                        self.scene = Scene::Game;
                        Action::FetchDigits { start: 0, count: DIGITS_LOADED_AT_ONCE }
                    },
                    Scene::Game => Action::Nothing,
                }
            },
            InputEvent::Cancel => {
                match self.scene {
                    Scene::GameOver => Action::Quit,
                    _ => Action::Nothing,
                }
            },
        }
    }

    /// One simulation tick. Outside the Game scene it is a no-op. In the
    /// Game scene it runs, in order: physics for every live pie; resolution
    /// of every pie against the plate, front to back, threading the digit
    /// cursor, with any mismatched catch ending the game this tick; then at
    /// most one spawn, on ticks that are multiples of PIE_SPAWN_RATE, whose
    /// digit and horizontal position are the caller's random draws.
    pub fn update(&mut self, spawn_slices: u8, spawn_x: i64)
        requires
            old(self).wf(),
            spawn_slices <= 9,
            -SCREEN_HALF <= spawn_x <= SCREEN_HALF,
            old(self).ticks < u64::MAX,
        ensures
            final(self).wf(),
            old(self).scene != Scene::Game ==> *final(self) == *old(self),
            old(self).scene == Scene::Game ==> ({
                let moved = spec_advance_all(views(old(self).pies@));
                let (kept, cursor, over) = spec_resolve(
                    moved,
                    old(self).digits@,
                    old(self).digit_idx as nat,
                    old(self).plate.x as int,
                );
                &&& final(self).scene == (if over {
                    Scene::GameOver
                } else {
                    Scene::Game
                })
                &&& final(self).digit_idx == cursor
                &&& views(final(self).pies@) == (if spec_should_spawn(old(self).ticks) {
                    kept.push(spec_new_pie(spawn_slices, spawn_x))
                } else {
                    kept
                })
                &&& final(self).ticks == old(self).ticks + 1
                &&& final(self).plate == old(self).plate
                &&& final(self).digits == old(self).digits
                &&& final(self).abs_digit_idx == old(self).abs_digit_idx
            }),
    {
        if self.scene != Scene::Game {
            return;
        }
        let ghost pies0: Seq<PieModel> = views(self.pies@);
        let ghost digits0: Seq<u8> = self.digits@;
        let ghost cursor0: nat = self.digit_idx as nat;
        let ghost plx: int = self.plate.x as int;

        // Physics: advance every pie by one tick.
        let mut moved_v: Vec<Pie> = Vec::new();
        let mut i: usize = 0;
        while i < self.pies.len()
            invariant
                *self == *old(self),
                old(self).wf(),
                old(self).scene == Scene::Game,
                pies0 == views(old(self).pies@),
                i <= old(self).pies@.len(),
                moved_v@.len() == i,
                forall|k: int|
                    0 <= k < i ==> (#[trigger] moved_v@[k])@ == spec_advance(pies0[k]),
            decreases old(self).pies@.len() - i,
        {
            let mut p = self.pies[i];
            proof {
                assert(views(old(self).pies@)[i as int] == old(self).pies@[i as int]@);
                assert(pie_wf(pies0[i as int]));
            }
            p.advance();
            moved_v.push(p);
            i = i + 1;
        }
        let ghost movedm: Seq<PieModel> = spec_advance_all(pies0);
        proof {
            assert(views(moved_v@) =~= movedm);
        }
        let ghost full = spec_resolve(movedm, digits0, cursor0, plx);

        // Resolution: keep, catch or discard every pie, front to back.
        let mut kept: Vec<Pie> = Vec::new();
        let mut j: usize = 0;
        proof {
            assert(movedm.skip(0) =~= movedm);
            assert(views(kept@) =~= Seq::<PieModel>::empty());
            assert(Seq::<PieModel>::empty() + full.0 =~= full.0);
        }
        while j < moved_v.len()
            invariant
                old(self).wf(),
                old(self).scene == Scene::Game,
                pies0 == views(old(self).pies@),
                digits0 == old(self).digits@,
                cursor0 == old(self).digit_idx as nat,
                plx == old(self).plate.x as int,
                full == spec_resolve(movedm, digits0, cursor0, plx),
                movedm.len() == pies0.len(),
                pies0.len() == old(self).pies@.len(),
                j <= moved_v@.len(),
                moved_v@.len() == movedm.len(),
                forall|k: int|
                    0 <= k < moved_v@.len() ==> (#[trigger] moved_v@[k])@ == movedm[k],
                forall|k: int| 0 <= k < movedm.len() ==> #[trigger] movedm[k] == spec_advance(
                    pies0[k],
                ),
                forall|k: int| 0 <= k < pies0.len() ==> pie_wf(#[trigger] pies0[k]),
                self.pies == old(self).pies,
                self.plate == old(self).plate,
                self.digits == old(self).digits,
                self.abs_digit_idx == old(self).abs_digit_idx,
                self.ticks == old(self).ticks,
                self.digit_idx <= digits0.len(),
                self.scene == Scene::Game || self.scene == Scene::GameOver,
                forall|k: int| 0 <= k < kept@.len() ==> pie_wf((#[trigger] kept@[k])@),
                ({
                    let r = spec_resolve(movedm.skip(j as int), digits0, self.digit_idx as nat, plx);
                    &&& full.0 == views(kept@) + r.0
                    &&& full.1 == r.1
                    &&& full.2 == ((self.scene == Scene::GameOver) || r.2)
                }),
            decreases moved_v@.len() - j,
        {
            let p = moved_v[j];
            proof {
                assert(p@ == movedm[j as int]);
                assert(movedm[j as int] == spec_advance(pies0[j as int]));
                assert(pie_wf(pies0[j as int]));
            }
            let ghost c_pre: nat = self.digit_idx as nat;
            let ghost scene_pre = self.scene;
            let ghost kept_pre = kept@;
            let hit = p.collides(&self.plate);
            if p.y - PIE_RADIUS > -SCREEN_HALF && !hit {
                kept.push(p);
            } else if hit {
                if self.digit_idx < self.digits.len() {
                    if p.slices != self.digits[self.digit_idx] {
                        self.scene = Scene::GameOver;
                    }
                    self.digit_idx = self.digit_idx + 1;
                }
            }
            proof {
                lemma_skip_decompose(movedm, j as int);
                let one = spec_resolve_one(movedm[j as int], digits0, c_pre, plx);
                let r_next = spec_resolve(movedm.skip(j as int + 1), digits0, one.1, plx);
                assert(spec_resolve(movedm.skip(j as int), digits0, c_pre, plx) == ((
                    if one.0 {
                        seq![movedm[j as int]] + r_next.0
                    } else {
                        r_next.0
                    }
                ), r_next.1, (one.2 || r_next.2)));
                if one.0 {
                    assert(views(kept@) =~= views(kept_pre).push(p@));
                    assert(views(kept_pre) + (seq![movedm[j as int]] + r_next.0)
                        =~= views(kept_pre).push(p@) + r_next.0);
                }
            }
            j = j + 1;
        }
        proof {
            assert(movedm.skip(movedm.len() as int) =~= Seq::<PieModel>::empty());
            assert(full.0 == views(kept@) + spec_resolve(
                movedm.skip(movedm.len() as int),
                digits0,
                self.digit_idx as nat,
                plx,
            ).0);
            assert(views(kept@) + Seq::<PieModel>::empty() =~= views(kept@));
        }
        self.pies = kept;

        // Spawn: at most one new pie, on the periodic ticks.
        if self.ticks % PIE_SPAWN_RATE == 0 {
            let ghost before = self.pies@;
            let p = Pie::new(spawn_slices, spawn_x);
            self.pies.push(p);
            proof {
                lemma_views_push(before, p);
            }
        }
        self.ticks = self.ticks + 1;
    }
}

/// Taking the views of a sequence of pies commutes with appending one pie.
pub proof fn lemma_views_push(pies: Seq<Pie>, p: Pie)
    ensures
        views(pies.push(p)) == views(pies).push(p@),
{
    assert(views(pies.push(p)) =~= views(pies).push(p@));
}

/// Catching the expected digits in sequence: when every pie of a tick
/// touches the plate and each one's digit matches the digit under the
/// cursor at its turn, no catch is a mismatch (so the game does not end),
/// every pie is consumed, and the cursor advances by exactly one per catch.
pub proof fn lemma_matching_catches(pies: Seq<PieModel>, digits: Seq<u8>, cursor: nat, plate_x: int)
    requires
        cursor + pies.len() <= digits.len(),
        forall|i: int|
            0 <= i < pies.len() ==> spec_collides((#[trigger] pies[i]).x, pies[i].y, plate_x),
        forall|i: int| 0 <= i < pies.len() ==> (#[trigger] pies[i]).slices == digits[cursor + i],
    ensures
        spec_resolve(pies, digits, cursor, plate_x) == (
            Seq::<PieModel>::empty(),
            (cursor + pies.len()) as nat,
            false,
        ),
    decreases pies.len(),
{
    if pies.len() == 0 {
        assert(spec_resolve(pies, digits, cursor, plate_x) == (
            Seq::<PieModel>::empty(),
            cursor,
            false,
        ));
    } else {
        assert(pies[0].slices == digits[cursor as int]);
        let rest = pies.drop_first();
        assert(forall|i: int|
            0 <= i < rest.len() ==> (#[trigger] rest[i]) == pies[i + 1]);
        lemma_matching_catches(rest, digits, (cursor + 1) as nat, plate_x);
    }
}

/// A single mismatched catch: the pie is consumed, the cursor still advances
/// by one, and the mismatch is signalled, which ends the game that tick.
pub proof fn lemma_mismatched_catch(p: PieModel, digits: Seq<u8>, cursor: nat, plate_x: int)
    requires
        spec_collides(p.x, p.y, plate_x),
        cursor < digits.len(),
        digits[cursor as int] != p.slices,
    ensures
        spec_resolve(seq![p], digits, cursor, plate_x) == (
            Seq::<PieModel>::empty(),
            (cursor + 1) as nat,
            true,
        ),
{
    assert(seq![p].drop_first() =~= Seq::<PieModel>::empty());
    assert(spec_resolve(Seq::<PieModel>::empty(), digits, (cursor + 1) as nat, plate_x) == (
        Seq::<PieModel>::empty(),
        (cursor + 1) as nat,
        false,
    ));
    assert(seq![p][0] == p);
}

/// Missing pies is free: resolving pies none of which touches the plate
/// leaves the digit cursor where it was and never signals a mismatch (so
/// falling past the plate never ends the game).
pub proof fn lemma_missed_pies(pies: Seq<PieModel>, digits: Seq<u8>, cursor: nat, plate_x: int)
    requires
        forall|i: int|
            0 <= i < pies.len() ==> !spec_collides((#[trigger] pies[i]).x, pies[i].y, plate_x),
    ensures
        spec_resolve(pies, digits, cursor, plate_x).1 == cursor,
        !spec_resolve(pies, digits, cursor, plate_x).2,
    decreases pies.len(),
{
    if pies.len() > 0 {
        let rest = pies.drop_first();
        assert(forall|i: int|
            0 <= i < rest.len() ==> (#[trigger] rest[i]) == pies[i + 1]);
        lemma_missed_pies(rest, digits, cursor, plate_x);
    }
}

/// Spawning is exactly periodic: a tick spawns one pie precisely when its
/// counter is a whole multiple of PIE_SPAWN_RATE, and never in between.
pub proof fn lemma_spawn_periodic(ticks: u64)
    ensures
        spec_should_spawn(ticks) <==> (exists|k: nat| ticks == #[trigger] (k * PIE_SPAWN_RATE)),
{
    if spec_should_spawn(ticks) {
        vstd::arithmetic::div_mod::lemma_fundamental_div_mod(
            ticks as int,
            PIE_SPAWN_RATE as int,
        );
        let q = ticks as int / PIE_SPAWN_RATE as int;
        assert(0 <= q) by (nonlinear_arith)
            requires
                ticks as int == PIE_SPAWN_RATE as int * q,
                ticks >= 0,
                PIE_SPAWN_RATE > 0,
        ;
        assert(ticks == (q as nat) * PIE_SPAWN_RATE);
    }
    if exists|k: nat| ticks == #[trigger] (k * PIE_SPAWN_RATE) {
        let k = choose|k: nat| ticks == #[trigger] (k * PIE_SPAWN_RATE);
        vstd::arithmetic::div_mod::lemma_mod_multiples_basic(k as int, PIE_SPAWN_RATE as int);
    }
}

/// Splitting the tail of a sequence one element further.
proof fn lemma_skip_decompose(s: Seq<PieModel>, j: int)
    requires
        0 <= j < s.len(),
    ensures
        s.skip(j).len() == s.len() - j,
        s.skip(j)[0] == s[j],
        s.skip(j).drop_first() == s.skip(j + 1),
{
    assert(s.skip(j).drop_first() =~= s.skip(j + 1));
}

} // verus!
