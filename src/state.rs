//! Saved progress with a restorable checkpoint.
use vstd::prelude::*;

verus! {

/// Progress of a run, with the checkpoint it can go back to.
#[derive(Debug)]
pub struct GameState {
    pub tutorial: bool,
    pub checkpoint_notification: bool,
    pub level: u32,
    pub checkpoint: Option<Box<GameState>>,
}

impl GameState {
    /// A deep copy, checkpoints included.
    pub fn snapshot(&self) -> (r: GameState)
        ensures
            r == *self,
        decreases self,
    {
        let checkpoint = match &self.checkpoint {
            None => None,
            Some(c) => Some(Box::new(c.snapshot())),
        };
        GameState {
            tutorial: self.tutorial,
            checkpoint_notification: self.checkpoint_notification,
            level: self.level,
            checkpoint,
        }
    }
}

impl Clone for GameState {
    fn clone(&self) -> (r: GameState)
        ensures
            r == *self,
    {
        self.snapshot()
    }
}

impl Default for GameState {
    fn default() -> (r: GameState)
        ensures
            r == (GameState {
                tutorial: false,
                checkpoint_notification: false,
                level: 1,
                checkpoint: None,
            }),
    {
        GameState { tutorial: false, level: 1, checkpoint_notification: false, checkpoint: None }
    }
}

impl GameState {
    /// Saves the current progress, notification flag raised, as the
    /// checkpoint; the checkpoint holds the one before it.
    pub fn checkpoint(&mut self)
        ensures
            ({
                let raised = GameState { checkpoint_notification: true, ..*old(self) };
                *final(self) == GameState { checkpoint: Some(Box::new(raised)), ..raised }
            }),
    {
        self.checkpoint_notification = true;
        let saved = self.snapshot();
        self.checkpoint = Some(Box::new(saved));
    }

    /// Goes back to the checkpoint, keeping the current level, the
    /// checkpoint itself and a lowered notification flag. Returns false,
    /// changing nothing, when there is no checkpoint.
    pub fn restore_checkpoint(&mut self) -> (r: bool)
        ensures
            r == old(self).checkpoint.is_some(),
            match old(self).checkpoint {
                None => *final(self) == *old(self),
                Some(c) => *final(self) == GameState {
                    checkpoint: Some(c),
                    checkpoint_notification: false,
                    level: old(self).level,
                    ..*c
                },
            },
    {
        match self.checkpoint.take() {
            None => false,
            Some(c) => {
                let level = self.level;
                let mut restored = c.snapshot();
                restored.checkpoint = Some(c);
                restored.checkpoint_notification = false;
                restored.level = level;
                *self = restored;
                true
            },
        }
    }
}

} // verus!
