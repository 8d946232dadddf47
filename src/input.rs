use crate::geometry::Location;
use crate::world::{Bullet, World, WorldModel};
use vstd::prelude::*;

verus! {

/// A key as the game sees it.
#[derive(Clone, Copy, Debug, PartialEq, Eq, Structural)]
pub enum Key {
    Char(char),
    Up,
    Down,
    Left,
    Right,
    Other,
}

/// A key event; `press` is false for releases and repeats.
#[derive(Clone, Copy, Debug, PartialEq, Eq, Structural)]
pub struct KeyStroke {
    pub key: Key,
    pub press: bool,
}

/// What the player asks for in one tick.
#[derive(Clone, Copy, Debug, PartialEq, Eq, Structural)]
pub enum Intent {
    Up,
    Down,
    Left,
    Right,
    Fire,
    Quit,
}

pub open spec fn intent_spec(k: KeyStroke) -> Option<Intent> {
    if !k.press {
        None
    } else {
        match k.key {
            Key::Char(c) => if c == 'q' {
                Some(Intent::Quit)
            } else if c == 'w' {
                Some(Intent::Up)
            } else if c == 's' {
                Some(Intent::Down)
            } else if c == 'a' {
                Some(Intent::Left)
            } else if c == 'd' {
                Some(Intent::Right)
            } else if c == ' ' {
                Some(Intent::Fire)
            } else {
                None
            },
            Key::Up => Some(Intent::Up),
            Key::Down => Some(Intent::Down),
            Key::Left => Some(Intent::Left),
            Key::Right => Some(Intent::Right),
            Key::Other => None,
        }
    }
}

/// The intent of the most recent stroke that has one.
pub open spec fn latest(ks: Seq<KeyStroke>) -> Option<Intent>
    decreases ks.len(),
{
    if ks.len() == 0 {
        None
    } else {
        match intent_spec(ks.last()) {
            Some(i) => Some(i),
            None => latest(ks.drop_last()),
        }
    }
}

/// The world after the player's intent; moves that would leave the
/// playfield and a shot while one is in flight change nothing.
pub open spec fn applied(w: WorldModel, i: Intent) -> WorldModel {
    let p = w.player;
    match i {
        Intent::Up => if p.l > 1 {
            WorldModel { player: Location { l: (p.l - 1) as u16, c: p.c }, ..w }
        } else {
            w
        },
        Intent::Down => if p.l + 1 < w.maxl {
            WorldModel { player: Location { l: (p.l + 1) as u16, c: p.c }, ..w }
        } else {
            w
        },
        Intent::Left => if p.c > 1 {
            WorldModel { player: Location { l: p.l, c: (p.c - 1) as u16 }, ..w }
        } else {
            w
        },
        Intent::Right => if p.c + 1 < w.maxc {
            WorldModel { player: Location { l: p.l, c: (p.c + 1) as u16 }, ..w }
        } else {
            w
        },
        Intent::Fire => if w.bullets.len() == 0 {
            WorldModel {
                bullets: seq![Bullet { location: p, energy: (w.maxl / 2) as u16 }],
                ..w
            }
        } else {
            w
        },
        Intent::Quit => w,
    }
}

/// The intent that a key stroke carries: only presses count.
pub fn intent_of(k: &KeyStroke) -> (r: Option<Intent>)
    ensures
        r == intent_spec(*k),
{
    if !k.press {
        return None;
    }
    match k.key {
        Key::Char(c) => {
            if c == 'q' {
                Some(Intent::Quit)
            } else if c == 'w' {
                Some(Intent::Up)
            } else if c == 's' {
                Some(Intent::Down)
            } else if c == 'a' {
                Some(Intent::Left)
            } else if c == 'd' {
                Some(Intent::Right)
            } else if c == ' ' {
                Some(Intent::Fire)
            } else {
                None
            }
        },
        Key::Up => Some(Intent::Up),
        Key::Down => Some(Intent::Down),
        Key::Left => Some(Intent::Left),
        Key::Right => Some(Intent::Right),
        Key::Other => None,
    }
}

/// Of a batch of buffered strokes, keeps only the intent of the most recent
/// one that has an intent.
pub fn latest_intent(ks: &Vec<KeyStroke>) -> (r: Option<Intent>)
    ensures
        r == latest(ks@),
{
    let mut i: usize = ks.len();
    assert(ks@.take(ks@.len() as int) == ks@);
    while i > 0
        invariant
            i <= ks@.len(),
            latest(ks@) == latest(ks@.take(i as int)),
        decreases i,
    {
        assert(ks@.take(i as int).drop_last() == ks@.take(i - 1));
        let found = intent_of(&ks[i - 1]);
        if found.is_some() {
            return found;
        }
        i = i - 1;
    }
    None
}

impl World {
    /// Applies one intent; returns false when the player quits.
    pub fn apply_intent(&mut self, i: Intent) -> (running: bool)
        requires
            old(self)@.wf(),
        ensures
            final(self)@ == applied(old(self)@, i),
            final(self)@.wf(),
            running == (i != Intent::Quit),
    {
        match i {
            Intent::Up => {
                if self.player_location.l > 1 {
                    self.player_location.l = self.player_location.l - 1;
                }
            },
            Intent::Down => {
                if self.player_location.l < self.maxl - 1 {
                    self.player_location.l = self.player_location.l + 1;
                }
            },
            Intent::Left => {
                if self.player_location.c > 1 {
                    self.player_location.c = self.player_location.c - 1;
                }
            },
            Intent::Right => {
                if self.player_location.c < self.maxc - 1 {
                    self.player_location.c = self.player_location.c + 1;
                }
            },
            Intent::Fire => {
                if self.bullet.len() == 0 {
                    let b = Bullet::new(self);
                    self.bullet.push(b);
                    assert(self.bullet@ == seq![b]);
                }
            },
            Intent::Quit => {
                return false;
            },
        }
        true
    }
}

} // verus!
