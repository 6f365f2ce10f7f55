//! The application's solve-and-animate workflow: phases, buttons, and the
//! queue of solution moves waiting to be animated.
use vstd::prelude::*;
use crate::cube::{apply, apply_all, Move, RubiksCube};

verus! {

/// Where the application is in a solve.
#[derive(Debug, Clone, Copy, PartialEq, Eq, Structural)]
pub enum SolvePhase {
    /// No solver running (the cube may be solved or scrambled).
    Idle,
    /// The solver runs in the background.
    Solving,
    /// Solution moves are being animated.
    Animating,
    /// Animation paused; moves wait in the queue.
    Paused,
}

/// Number of buttons: SCRAMBLE, SOLVE, PAUSE/RESUME, STOP, RESET.
pub const BUTTON_COUNT: usize = 5;

/// Which buttons accept clicks: SCRAMBLE and RESET always; SOLVE when idle
/// with an unsolved cube; PAUSE/RESUME while animating or paused; STOP while
/// solving, animating or paused.
pub open spec fn buttons_enabled_of(phase: SolvePhase, cube_solved: bool) -> Seq<bool> {
    seq![
        true,
        phase == SolvePhase::Idle && !cube_solved,
        phase == SolvePhase::Animating || phase == SolvePhase::Paused,
        phase == SolvePhase::Solving || phase == SolvePhase::Animating || phase == SolvePhase::Paused,
        true,
    ]
}

/// The enabled state of each button (see `buttons_enabled_of`).
pub fn buttons_enabled(phase: SolvePhase, cube_solved: bool) -> (e: [bool; 5])
    ensures
        e@ == buttons_enabled_of(phase, cube_solved),
{
    let e = [
        true,
        phase == SolvePhase::Idle && !cube_solved,
        phase == SolvePhase::Animating || phase == SolvePhase::Paused,
        phase == SolvePhase::Solving || phase == SolvePhase::Animating || phase
            == SolvePhase::Paused,
        true,
    ];
    assert(e@ =~= buttons_enabled_of(phase, cube_solved));
    e
}

/// The button labels; the third reads RESUME while paused.
pub fn button_labels(phase: SolvePhase) -> (labels: [&'static str; 5])
    ensures
        labels[0]@ == "SCRAMBLE"@,
        labels[1]@ == "SOLVE"@,
        labels[2]@ == (if phase == SolvePhase::Paused {
            "RESUME"@
        } else {
            "PAUSE"@
        }),
        labels[3]@ == "STOP"@,
        labels[4]@ == "RESET"@,
{
    let pause_label = if phase == SolvePhase::Paused {
        "RESUME"
    } else {
        "PAUSE"
    };
    ["SCRAMBLE", "SOLVE", pause_label, "STOP", "RESET"]
}

/// The phase after PAUSE/RESUME: animating and paused swap; other phases stay.
pub open spec fn pause_resume_of(phase: SolvePhase) -> SolvePhase {
    match phase {
        SolvePhase::Animating => SolvePhase::Paused,
        SolvePhase::Paused => SolvePhase::Animating,
        other => other,
    }
}

/// Pressing PAUSE/RESUME twice leaves the phase as it was.
pub proof fn lemma_pause_resume_twice(phase: SolvePhase)
    ensures
        pause_resume_of(pause_resume_of(phase)) == phase,
{
}

/// The SOLVE button is enabled exactly when SOLVE is allowed to start the
/// solver, so a click on an enabled button always starts it.
pub proof fn lemma_solve_button_matches_guard(phase: SolvePhase, cube_solved: bool)
    ensures
        buttons_enabled_of(phase, cube_solved)[1] == (phase == SolvePhase::Idle && !cube_solved),
{
}

/// Each button is enabled exactly when pressing it does something: SOLVE
/// when it may start the solver, PAUSE/RESUME when it changes the phase, STOP when a solve or an animation
/// is under way (the phase is not idle), SCRAMBLE and RESET always.
pub proof fn lemma_buttons_enabled_when_useful(phase: SolvePhase, cube_solved: bool)
    ensures
        buttons_enabled_of(phase, cube_solved)[1] == solve_allowed_of(phase, cube_solved),
        buttons_enabled_of(phase, cube_solved)[2] == (pause_resume_of(phase) != phase),
        buttons_enabled_of(phase, cube_solved)[3] == (phase != SolvePhase::Idle),
        buttons_enabled_of(phase, cube_solved)[0],
        buttons_enabled_of(phase, cube_solved)[4],
        buttons_enabled_of(phase, cube_solved).len() == BUTTON_COUNT,
{
}

/// The phase after PAUSE/RESUME (see `pause_resume_of`).
pub fn phase_after_pause_resume(phase: SolvePhase) -> (p: SolvePhase)
    ensures
        p == pause_resume_of(phase),
{
    match phase {
        SolvePhase::Animating => SolvePhase::Paused,
        SolvePhase::Paused => SolvePhase::Animating,
        other => other,
    }
}

/// Whether SOLVE starts the solver: only when idle with an unsolved cube.
pub open spec fn solve_allowed_of(phase: SolvePhase, cube_solved: bool) -> bool {
    phase == SolvePhase::Idle && !cube_solved
}

/// Whether SOLVE starts the solver (see `solve_allowed_of`).
pub fn solve_allowed(phase: SolvePhase, cube_solved: bool) -> (ok: bool)
    ensures
        ok == (phase == SolvePhase::Idle && !cube_solved),
        ok == solve_allowed_of(phase, cube_solved),
{
    phase == SolvePhase::Idle && !cube_solved
}

/// The phase after a solution move arrives: the first move ends solving.
pub fn phase_on_move_received(phase: SolvePhase) -> (p: SolvePhase)
    ensures
        p == (if phase == SolvePhase::Solving {
            SolvePhase::Animating
        } else {
            phase
        }),
{
    if phase == SolvePhase::Solving {
        SolvePhase::Animating
    } else {
        phase
    }
}

/// The phase after the solver's channel closes: a solver that sent nothing
/// (and left nothing animating) goes back to idle.
pub fn phase_on_solver_finished(phase: SolvePhase, moves_waiting: bool) -> (p: SolvePhase)
    ensures
        p == (if phase == SolvePhase::Solving {
            if moves_waiting {
                SolvePhase::Animating
            } else {
                SolvePhase::Idle
            }
        } else {
            phase
        }),
{
    if phase == SolvePhase::Solving {
        if moves_waiting {
            SolvePhase::Animating
        } else {
            SolvePhase::Idle
        }
    } else {
        phase
    }
}

/// The phase once the event loop has drained the solver's channel: an
/// animation with nothing left to show and nothing more to come ends.
pub fn phase_when_settled(
    phase: SolvePhase,
    is_animating: bool,
    queue_empty: bool,
    channel_done: bool,
) -> (p: SolvePhase)
    ensures
        p == (if phase == SolvePhase::Animating && !is_animating && queue_empty && channel_done {
            SolvePhase::Idle
        } else {
            phase
        }),
{
    if phase == SolvePhase::Animating && !is_animating && queue_empty && channel_done {
        SolvePhase::Idle
    } else {
        phase
    }
}

/// The cube the animation ends on: the current move (if any) and then the
/// queued moves, applied to `cube`.
pub open spec fn settled_cube(cube: RubiksCube, current: Option<Move>, pending: Seq<Move>) -> RubiksCube {
    let base = match current {
        Some(m) => apply(cube, m),
        None => cube,
    };
    apply_all(base, pending)
}

/// Solution moves waiting to be animated, and the one being animated.
pub struct MoveQueue {
    pending: Vec<Move>,
    current: Option<Move>,
}

impl MoveQueue {
    /// Moves waiting, first to be shown first.
    pub closed spec fn pending_moves(&self) -> Seq<Move> {
        self.pending@
    }

    /// The move being animated, if any.
    pub closed spec fn current_move(&self) -> Option<Move> {
        self.current
    }

    /// An empty queue.
    pub fn new() -> (q: Self)
        ensures
            q.pending_moves() == Seq::<Move>::empty(),
            q.current_move() is None,
    {
        MoveQueue { pending: Vec::new(), current: None }
    }

    /// The move being animated.
    pub fn current(&self) -> (m: Option<Move>)
        ensures
            m == self.current_move(),
    {
        self.current
    }

    /// Number of moves waiting.
    pub fn len(&self) -> (n: usize)
        ensures
            n == self.pending_moves().len(),
    {
        self.pending.len()
    }

    /// Whether no move is waiting.
    pub fn is_empty(&self) -> (e: bool)
        ensures
            e == (self.pending_moves().len() == 0),
    {
        self.pending.len() == 0
    }

    /// Queues a move received from the solver.
    pub fn push(&mut self, m: Move)
        ensures
            final(self).pending_moves() == old(self).pending_moves().push(m),
            final(self).current_move() == old(self).current_move(),
    {
        self.pending.push(m);
    }

    /// Starts animating the first waiting move, if nothing is animating and
    /// the phase is `Animating`; returns whether it did.
    pub fn start_next(&mut self, phase: SolvePhase) -> (started: bool)
        ensures
            started == (old(self).current_move() is None && old(self).pending_moves().len() > 0
                && phase == SolvePhase::Animating),
            started ==> final(self).current_move() == Some(old(self).pending_moves()[0])
                && final(self).pending_moves() == old(self).pending_moves().drop_first(),
            !started ==> *final(self) == *old(self),
    {
        if self.current.is_none() && self.pending.len() > 0 && phase == SolvePhase::Animating {
            let next = self.pending.remove(0);
            self.current = Some(next);
            assert(self.pending@ =~= old(self).pending@.drop_first());
            true
        } else {
            false
        }
    }

    /// Ends the current animation, applying its move to `cube`; returns
    /// whether there was one.
    pub fn finish_current(&mut self, cube: &mut RubiksCube) -> (applied: bool)
        ensures
            applied == (old(self).current_move() is Some),
            final(self).current_move() is None,
            final(self).pending_moves() == old(self).pending_moves(),
            *final(cube) == (match old(self).current_move() {
                Some(m) => apply(*old(cube), m),
                None => *old(cube),
            }),
    {
        match self.current.take() {
            Some(m) => {
                cube.apply_move(m);
                true
            },
            None => false,
        }
    }

    /// Drops the current and waiting moves.
    pub fn clear(&mut self)
        ensures
            final(self).pending_moves() == Seq::<Move>::empty(),
            final(self).current_move() is None,
    {
        self.pending.clear();
        self.current = None;
    }
}

/// Animating never changes where the animation ends: starting the next move
/// or finishing the current one keeps the settled cube, and each received
/// move extends it by that move.
pub proof fn lemma_settled_cube_steps(cube: RubiksCube, current: Option<Move>, pending: Seq<Move>, m: Move)
    ensures
        current is None && pending.len() > 0 ==> settled_cube(cube, Some(pending[0]), pending.drop_first())
            == settled_cube(cube, current, pending),
        settled_cube(
            match current {
                Some(c) => apply(cube, c),
                None => cube,
            },
            None,
            pending,
        ) == settled_cube(cube, current, pending),
        settled_cube(cube, current, pending.push(m)) == apply(settled_cube(cube, current, pending), m),
{
    if current is None && pending.len() > 0 {
        crate::cube::lemma_apply_all_concat(cube, seq![pending[0]], pending.drop_first());
        assert(seq![pending[0]] + pending.drop_first() =~= pending);
        reveal_with_fuel(apply_all, 2);
        assert(seq![pending[0]].drop_last() =~= Seq::<Move>::empty());
    }
    crate::cube::lemma_apply_all_push(
        match current {
            Some(c) => apply(cube, c),
            None => cube,
        },
        pending,
        m,
    );
}

} // verus!
