//! The game loop: show the seed, then generate and show, generation after
//! generation.

use vstd::prelude::*;
use crate::interface::{Board, Frames, Generator, Grid, Renderer};

verus! {

/// Where a run of the game stands.
#[derive(Debug, PartialEq, Eq, Clone, Copy, Structural)]
pub enum Phase {
    /// Nothing has been shown yet.
    Idle,
    /// The seed and this many generations after it have been shown.
    Rendered(u32),
    /// The run is over; the number is that of the last generation.
    Terminal(u32),
}

/// What a run does next.
#[derive(Debug, PartialEq, Eq, Clone, Copy, Structural)]
pub enum Action {
    /// Show the seed.
    ShowSeed,
    /// Generate the next board and show it.
    Advance,
    /// Nothing more.
    Stop,
}

impl Phase {
    /// What a run of `generations` generations does in this phase.
    pub open spec fn action(self, generations: u32) -> Action {
        match self {
            Phase::Idle => Action::ShowSeed,
            Phase::Rendered(done) => if done < generations {
                Action::Advance
            } else {
                Action::Stop
            },
            Phase::Terminal(_) => Action::Stop,
        }
    }

    /// The phase that follows this one in a run of `generations`
    /// generations.
    pub open spec fn successor(self, generations: u32) -> Phase {
        match self {
            Phase::Idle => Phase::Rendered(0),
            Phase::Rendered(done) => if done < generations {
                Phase::Rendered((done + 1) as u32)
            } else {
                Phase::Terminal(done)
            },
            Phase::Terminal(last) => Phase::Terminal(last),
        }
    }

    /// The phase that a run of `generations` generations reaches from this
    /// one in `steps` transitions.
    pub open spec fn after(self, generations: u32, steps: nat) -> Phase
        decreases steps,
    {
        if steps == 0 {
            self
        } else {
            self.after(generations, (steps - 1) as nat).successor(generations)
        }
    }

    /// How many transitions a run of `generations` generations still has
    /// before it is over.
    pub open spec fn remaining(self, generations: u32) -> nat {
        match self {
            Phase::Idle => (generations + 2) as nat,
            Phase::Rendered(done) => if done < generations {
                (generations - done + 1) as nat
            } else {
                1
            },
            Phase::Terminal(_) => 0,
        }
    }

    /// Executable form of [`Phase::action`].
    pub fn next_action(&self, generations: u32) -> (action: Action)
        ensures
            action == self.action(generations),
    {
        match self {
            Phase::Idle => Action::ShowSeed,
            Phase::Rendered(done) => if *done < generations {
                Action::Advance
            } else {
                Action::Stop
            },
            Phase::Terminal(_) => Action::Stop,
        }
    }
}

/// The grid that `generator` reaches from `seed` in `n` steps.
pub open spec fn generation<T: Board, V: Generator<T>>(generator: V, seed: Grid, n: nat) -> Grid
    decreases n,
{
    if n == 0 {
        seed
    } else {
        generator.evolve(generation::<T, V>(generator, seed, (n - 1) as nat))
    }
}

/// The seed and the generations after it, `count` grids in all.
pub open spec fn history<T: Board, V: Generator<T>>(
    generator: V,
    seed: Grid,
    count: nat,
) -> Frames {
    Seq::new(count, |i: int| generation::<T, V>(generator, seed, i as nat))
}

/// The course of a run of `generations` generations: its first transition
/// shows the seed, each of the `generations` transitions after that
/// generates and shows one board, and then the run stops for good. So a run
/// shows `generations + 1` boards and generates `generations`.
pub proof fn lemma_course_of_a_run(generations: u32, done: nat)
    requires
        done <= generations,
    ensures
        Phase::Idle.action(generations) == Action::ShowSeed,
        Phase::Idle.after(generations, done + 1) == Phase::Rendered(done as u32),
        Phase::Idle.after(generations, done + 1).action(generations) == if done < generations {
            Action::Advance
        } else {
            Action::Stop
        },
        Phase::Idle.after(generations, (generations + 2) as nat) == Phase::Terminal(generations),
{
    lemma_rendered_after(generations, done);
    lemma_rendered_after(generations, generations as nat);
}

/// After the seed and `done` generations a run stands in `Rendered(done)`.
proof fn lemma_rendered_after(generations: u32, done: nat)
    requires
        done <= generations,
    ensures
        Phase::Idle.after(generations, done + 1) == Phase::Rendered(done as u32),
    decreases done,
{
    if done == 0 {
        assert(Phase::Idle.after(generations, 0) == Phase::Idle);
    } else {
        lemma_rendered_after(generations, (done - 1) as nat);
    }
}

/// A board with the collaborators that show and step it.
pub struct Game<'a, T, U, V> where T: Board, U: Renderer<T>, V: Generator<T> {
    pub board: T,
    pub renderer: &'a mut U,
    pub generator: &'a V,
}

impl<'a, T, U, V> Game<'a, T, U, V> where T: Board, U: Renderer<T>, V: Generator<T> {
    /// A game that starts from `board`, shows its boards on `renderer` and
    /// steps them with `generator`.
    pub fn new(board: T, renderer: &'a mut U, generator: &'a V) -> (game: Game<'a, T, U, V>)
        ensures
            game.board == board,
            game.generator == generator,
            *game.renderer == *old(renderer),
            *final(game.renderer) == *final(renderer),
    {
        Game { board, renderer, generator }
    }

    /// Plays `generations` generations: the seed is shown, then each
    /// generation is generated from the board before it and shown. Returns
    /// the last board.
    pub fn play(self, generations: u32) -> (last: T)
        ensures
            generations == 0 ==> last == self.board,
            last.cells() == generation::<T, V>(
                *self.generator,
                self.board.cells(),
                generations as nat,
            ),
            final(self.renderer).shown() == old(self.renderer).shown() + history::<T, V>(
                *self.generator,
                self.board.cells(),
                (generations + 1) as nat,
            ),
            final(self.renderer).shown().len() == old(self.renderer).shown().len() + generations
                + 1,
    {
        let mut game = self;
        let mut phase = Phase::Idle;
        let ghost seed = game.board.cells();
        let ghost before = game.renderer.shown();
        proof {
            assert(before + history::<T, V>(*game.generator, seed, 0) =~= before);
        }
        while phase.next_action(generations) != Action::Stop
            invariant
                seed == self.board.cells(),
                before == old(self.renderer).shown(),
                game.generator == self.generator,
                *final(game.renderer) == *final(self.renderer),
                !(phase is Terminal),
                phase is Idle ==> game.board == self.board && game.renderer.shown() == before,
                phase matches Phase::Rendered(done) ==> {
                    &&& done <= generations
                    &&& done == 0 ==> game.board == self.board
                    &&& game.board.cells() == generation::<T, V>(*game.generator, seed, done as nat)
                    &&& game.renderer.shown() == before + history::<T, V>(
                        *game.generator,
                        seed,
                        (done + 1) as nat,
                    )
                },
            decreases phase.remaining(generations),
        {
            let ghost shown = game.renderer.shown();
            let ghost count: nat = match phase {
                Phase::Rendered(done) => (done + 1) as nat,
                _ => 0,
            };
            phase = game.step(phase, generations);
            proof {
                assert(game.renderer.shown() =~= before + history::<T, V>(
                    *game.generator,
                    seed,
                    count + 1,
                )) by {
                    assert(history::<T, V>(*game.generator, seed, count + 1) =~= history::<T, V>(
                        *game.generator,
                        seed,
                        count,
                    ).push(generation::<T, V>(*game.generator, seed, count)));
                }
            }
        }
        game.board
    }

    /// Makes the one transition that a run of `generations` generations
    /// makes in `phase`, and returns the phase that follows.
    ///
    /// From `Idle` the seed is shown. From `Rendered(i)` with generations
    /// still to come, the next board is generated from the current one, shown
    /// and made the current board. Otherwise nothing happens.
    pub fn step(&mut self, phase: Phase, generations: u32) -> (next: Phase)
        ensures
            next == phase.successor(generations),
            final(self).generator == old(self).generator,
            *final(final(self).renderer) == *final(old(self).renderer),
            match phase.action(generations) {
                Action::ShowSeed => {
                    &&& final(self).board == old(self).board
                    &&& final(self).renderer.shown() == old(self).renderer.shown().push(
                        old(self).board.cells(),
                    )
                },
                Action::Advance => {
                    &&& final(self).board.cells() == old(self).generator.evolve(
                        old(self).board.cells(),
                    )
                    &&& final(self).renderer.shown() == old(self).renderer.shown().push(
                        final(self).board.cells(),
                    )
                },
                Action::Stop => {
                    &&& final(self).board == old(self).board
                    &&& final(self).renderer.shown() == old(self).renderer.shown()
                },
            },
    {
        match phase {
            Phase::Idle => {
                self.renderer.render(&self.board);
                Phase::Rendered(0)
            },
            Phase::Rendered(done) => {
                if done < generations {
                    let next = self.generator.generate(&self.board);
                    self.renderer.render(&next);
                    self.board = next;
                    Phase::Rendered(done + 1)
                } else {
                    Phase::Terminal(done)
                }
            },
            Phase::Terminal(last) => Phase::Terminal(last),
        }
    }

    /// Ends the game and hands out its current board.
    pub fn into_board(self) -> (board: T)
        ensures
            board == self.board,
    {
        self.board
    }
}

} // verus!
