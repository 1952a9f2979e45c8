//! The output unit of the layout engine: a fully placed comment, ready for
//! serialization.

use vstd::prelude::*;

use crate::danmu::DanmuType;

verus! {

/// How a placed comment appears on screen: moving linearly between two
/// points over its whole display window, or pinned at one point.
pub enum DrawEffect {
    Move { start_x: i64, start_y: i64, end_x: i64, end_y: i64 },
    Pos { x: i64, y: i64 },
}

/// The mathematical image of a [`DrawEffect`].
#[verifier::ext_equal]
pub ghost enum DrawEffectModel {
    Move { start_x: int, start_y: int, end_x: int, end_y: int },
    Pos { x: int, y: int },
}

impl View for DrawEffect {
    type V = DrawEffectModel;

    open spec fn view(&self) -> DrawEffectModel {
        match *self {
            DrawEffect::Move { start_x, start_y, end_x, end_y } => DrawEffectModel::Move {
                start_x: start_x as int,
                start_y: start_y as int,
                end_x: end_x as int,
                end_y: end_y as int,
            },
            DrawEffect::Pos { x, y } => DrawEffectModel::Pos { x: x as int, y: y as int },
        }
    }
}

/// One placed comment: style category, absolute display window (after the
/// global time offset), screen effect, color, and the unescaped text.
pub struct Drawable {
    pub kind: DanmuType,
    pub start_cs: i64,
    pub end_cs: i64,
    pub effect: DrawEffect,
    pub rgb: (u8, u8, u8),
    pub content: String,
}

/// The mathematical image of a [`Drawable`].
#[verifier::ext_equal]
pub ghost struct DrawableModel {
    pub kind: DanmuType,
    pub start_cs: int,
    pub end_cs: int,
    pub effect: DrawEffectModel,
    pub rgb: (u8, u8, u8),
    pub content: Seq<char>,
}

impl View for Drawable {
    type V = DrawableModel;

    open spec fn view(&self) -> DrawableModel {
        DrawableModel {
            kind: self.kind,
            start_cs: self.start_cs as int,
            end_cs: self.end_cs as int,
            effect: self.effect@,
            rgb: self.rgb,
            content: self.content@,
        }
    }
}

} // verus!
