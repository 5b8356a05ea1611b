//! The game as a whole: not yet loaded, or playing a level.
use vstd::prelude::*;
use crate::math::{Rect, UNIT};
use crate::engine::{KeyState, DrawCommand, Color};
use crate::level::{Level, enemies_commands, bullets_commands, is_opening_scene};
use crate::player::machine_commands;

verus! {

/// The whole canvas, 600 pixels square.
pub open spec fn canvas() -> Rect {
    Rect { x: 0, y: 0, width: 600_000, height: 600_000 }
}

/// The drawn outline of the play field.
pub open spec fn field_frame() -> Rect {
    Rect { x: 50_000, y: 30_000, width: 500_000, height: 540_000 }
}

/// Why the game could not start.
#[derive(Clone, Copy, PartialEq, Eq, Structural, Debug)]
pub enum GameError {
    AlreadyInitialized,
}

/// The game: waiting to be loaded, or playing a level.
#[derive(Clone, Debug)]
pub enum StgGame {
    Loading,
    Loaded(Level),
}

impl GameError {
    /// A message for the person reading the log.
    pub fn message(&self) -> (r: &'static str)
        ensures
            r@ == "Error: Game is already initialized!"@,
    {
        "Error: Game is already initialized!"
    }
}

impl StgGame {
    pub open spec fn wf(&self) -> bool {
        match self {
            StgGame::Loaded(l) => l.wf(),
            StgGame::Loading => true,
        }
    }

    /// The next update stays within range.
    pub open spec fn ready(&self) -> bool {
        match self {
            StgGame::Loaded(l) => l.ready(),
            StgGame::Loading => true,
        }
    }

    pub fn new() -> (r: StgGame)
        ensures
            r is Loading,
    {
        StgGame::Loading
    }

    /// Loads the level; a game already loaded is refused.
    pub fn initialize(&self) -> (r: Result<StgGame, GameError>)
        ensures
            r is Ok <==> self is Loading,
            r is Err ==> r == Err::<StgGame, GameError>(GameError::AlreadyInitialized),
            r matches Ok(g) ==> g is Loaded && g.wf() && g.ready() && is_opening_scene(
                g->Loaded_0,
            ),
    {
        match self {
            StgGame::Loading => Ok(StgGame::Loaded(Level::new())),
            StgGame::Loaded(_) => Err(GameError::AlreadyInitialized),
        }
    }

    /// Whether the next update stays within range; see `ready`.
    pub fn can_update(&self) -> (r: bool)
        ensures
            r == self.ready(),
    {
        match self {
            StgGame::Loaded(level) => level.can_update(),
            StgGame::Loading => true,
        }
    }

    /// One logical tick of the level, if one is loaded.
    pub fn update(&mut self, keystate: &KeyState)
        requires
            old(self).wf(),
            old(self).ready(),
        ensures
            final(self).wf(),
            match *old(self) {
                StgGame::Loading => *final(self) is Loading,
                StgGame::Loaded(l) => match *final(self) {
                    StgGame::Loaded(l2) => Level::ticked(l, l2, *keystate),
                    StgGame::Loading => false,
                },
            },
    {
        match self {
            StgGame::Loaded(level) => level.update(keystate),
            StgGame::Loading => {},
        }
    }

    /// Clears the canvas; with a level loaded, outlines the play field in
    /// gray and draws the level.
    pub fn draw(&self, out: &mut Vec<DrawCommand>)
        requires
            self.wf(),
        ensures
            match self {
                StgGame::Loading => final(out)@ == old(out)@.push(DrawCommand::Clear(canvas())),
                StgGame::Loaded(l) => final(out)@ == old(out)@ + seq![
                    DrawCommand::Clear(canvas()),
                    DrawCommand::SetColor(Color::Gray),
                    DrawCommand::StrokeRect(field_frame()),
                ] + machine_commands(l.player.state_machine) + enemies_commands(l.enemies@)
                    + bullets_commands(l.bullets@),
            },
    {
        out.push(DrawCommand::Clear(Rect { x: 0, y: 0, width: 600 * UNIT, height: 600 * UNIT }));
        match self {
            StgGame::Loaded(level) => {
                out.push(DrawCommand::SetColor(Color::Gray));
                out.push(
                    DrawCommand::StrokeRect(
                        Rect { x: 50 * UNIT, y: 30 * UNIT, width: 500 * UNIT, height: 540 * UNIT },
                    ),
                );
                let ghost mid = out@;
                level.draw(out);
                assert(out@ =~= old(out)@ + seq![
                    DrawCommand::Clear(canvas()),
                    DrawCommand::SetColor(Color::Gray),
                    DrawCommand::StrokeRect(field_frame()),
                ] + machine_commands(level.player.state_machine) + enemies_commands(level.enemies@)
                    + bullets_commands(level.bullets@));
            },
            StgGame::Loading => {},
        }
    }
}

} // verus!
