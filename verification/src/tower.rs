//! Towers: fixed placements that, when triggered, shoot along a set of
//! directions or explode, according to their kind's action table.

use vstd::prelude::*;
use crate::hex::EdgeDirection;

verus! {

/// The closed set of tower kinds: bullet towers shooting in 2, 3, 4 or 6
/// directions, and explosion towers of growing range.
#[derive(Clone, Copy, Debug, PartialEq, Eq, Structural)]
pub enum TowerKind {
    Bullet2,
    Bullet3,
    Bullet4,
    Bullet6,
    Explosion1,
    Explosion2,
    Explosion3,
}

/// A placed tower: its kind, and how many sixths of a turn clockwise its
/// shooting directions are rotated.
#[derive(Clone, Copy, Debug, PartialEq, Eq, Structural)]
pub struct Tower {
    pub kind: TowerKind,
    pub rotation: u8,
}

/// One entry of a tower kind's action table: shoot a projectile along a base
/// direction, or explode with a damage area of the given hex range.
#[derive(Clone, Copy, Debug, PartialEq, Eq, Structural)]
pub enum TowerAction {
    Shoot(EdgeDirection),
    Explode(u32),
}

impl TowerKind {
    /// The ordered action table of each kind.
    pub open spec fn spec_actions(self) -> Seq<TowerAction> {
        match self {
            TowerKind::Bullet2 => seq![
                TowerAction::Shoot(EdgeDirection::FlatTop),
                TowerAction::Shoot(EdgeDirection::FlatBottom),
            ],
            TowerKind::Bullet3 => seq![
                TowerAction::Shoot(EdgeDirection::FlatTop),
                TowerAction::Shoot(EdgeDirection::FlatBottomLeft),
                TowerAction::Shoot(EdgeDirection::FlatBottomRight),
            ],
            TowerKind::Bullet4 => seq![
                TowerAction::Shoot(EdgeDirection::FlatTopLeft),
                TowerAction::Shoot(EdgeDirection::FlatTopRight),
                TowerAction::Shoot(EdgeDirection::FlatBottomLeft),
                TowerAction::Shoot(EdgeDirection::FlatBottomRight),
            ],
            TowerKind::Bullet6 => seq![
                TowerAction::Shoot(EdgeDirection::FlatTop),
                TowerAction::Shoot(EdgeDirection::FlatBottom),
                TowerAction::Shoot(EdgeDirection::FlatTopLeft),
                TowerAction::Shoot(EdgeDirection::FlatTopRight),
                TowerAction::Shoot(EdgeDirection::FlatBottomLeft),
                TowerAction::Shoot(EdgeDirection::FlatBottomRight),
            ],
            TowerKind::Explosion1 => seq![TowerAction::Explode(1u32)],
            TowerKind::Explosion2 => seq![TowerAction::Explode(2u32)],
            TowerKind::Explosion3 => seq![TowerAction::Explode(3u32)],
        }
    }

    /// The ordered list of actions this kind performs when triggered.
    pub fn actions(&self) -> (acts: Vec<TowerAction>)
        ensures
            acts@ == self.spec_actions(),
    {
        let acts: Vec<TowerAction> = match *self {
            TowerKind::Bullet2 => vec![
                TowerAction::Shoot(EdgeDirection::FlatTop),
                TowerAction::Shoot(EdgeDirection::FlatBottom),
            ],
            TowerKind::Bullet3 => vec![
                TowerAction::Shoot(EdgeDirection::FlatTop),
                TowerAction::Shoot(EdgeDirection::FlatBottomLeft),
                TowerAction::Shoot(EdgeDirection::FlatBottomRight),
            ],
            TowerKind::Bullet4 => vec![
                TowerAction::Shoot(EdgeDirection::FlatTopLeft),
                TowerAction::Shoot(EdgeDirection::FlatTopRight),
                TowerAction::Shoot(EdgeDirection::FlatBottomLeft),
                TowerAction::Shoot(EdgeDirection::FlatBottomRight),
            ],
            TowerKind::Bullet6 => vec![
                TowerAction::Shoot(EdgeDirection::FlatTop),
                TowerAction::Shoot(EdgeDirection::FlatBottom),
                TowerAction::Shoot(EdgeDirection::FlatTopLeft),
                TowerAction::Shoot(EdgeDirection::FlatTopRight),
                TowerAction::Shoot(EdgeDirection::FlatBottomLeft),
                TowerAction::Shoot(EdgeDirection::FlatBottomRight),
            ],
            TowerKind::Explosion1 => vec![TowerAction::Explode(1u32)],
            TowerKind::Explosion2 => vec![TowerAction::Explode(2u32)],
            TowerKind::Explosion3 => vec![TowerAction::Explode(3u32)],
        };
        proof {
            assert(acts@ =~= self.spec_actions());
        }
        acts
    }
}

} // verus!
