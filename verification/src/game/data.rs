//! Tuning constants, and the clips of the player's character.

use crate::graphics::animation::Animation;
use crate::graphics::animation::Animations;
use crate::graphics::animation::Clip;
use crate::graphics::image::cells_in_order;
use crate::graphics::image::Image;
use crate::graphics::image::Picture;
use vstd::prelude::*;

verus! {

/// Window width in pixels.
pub const WIDTH: u32 = 384;

/// Window height in pixels.
pub const HEIGHT: u32 = 288;

/// Window title.
pub const TITLE: &'static str = "Platform Game";

/// Whether the window can be resized.
pub const RESIZABLE: bool = false;

/// Whether the window filters what it scales.
pub const FILTER: bool = false;

/// Window scale, fixed-point.
pub const SCALE: i64 = 1_000_000;

/// Physics ticks to the second, fixed-point.
pub const FPS: i64 = 60_000_000;

/// The length of a physics tick in seconds, fixed-point: a sixtieth.
pub const STEP: i64 = 16_666;

/// Reference frames to the physics tick, fixed-point.
pub const RATIO: i64 = 1_000_000;

/// The longest frame time that one update takes in, fixed-point seconds.
pub const MAX: i64 = 62_500;

/// The pull downward.
pub const GRAVITY: i64 = 40_000_000;

/// The share of speed that sliding along a tile takes away in a tick.
pub const FRICTION: i64 = 0;

/// The share of speed that the air takes away in a tick.
pub const RESISTANCE: i64 = 50_000;

/// The share of horizontal speed that is lost in every tick.
pub const DISSIPATION: i64 = 75_000;

/// The player's mass before it is worked out from its size.
pub const MASS: i64 = 64_000_000;

/// The player's mass for each unit of area.
pub const DENSITY: i64 = 250_000;

/// The push of a held direction key.
pub const IMPULSE: i64 = 36_000_000;

/// The kick of a jump.
pub const JUMP: i64 = 16_000_000;

/// The size of a tile, in pixels and in whole units of the world.
pub const TILE_WIDTH: u32 = 16;

pub const TILE_HEIGHT: u32 = 16;

/// Where the camera starts, and the size of the level.
pub const ENV_X: i32 = 0;

pub const ENV_Y: i32 = 0;

pub const ENV_WIDTH: u32 = 768;

pub const ENV_HEIGHT: u32 = 576;

/// Where the player starts, and its size.
pub const SUB_X: i32 = 32;

pub const SUB_Y: i32 = 32;

pub const SUB_WIDTH: u32 = 16;

pub const SUB_HEIGHT: u32 = 32;

/// Where the character's sprite is drawn, counted from the character's box.
pub const SPRITE_X: i32 = -4;

pub const SPRITE_Y: i32 = 0;

/// The size of a cell of the character sheet.
pub const SPRITE_WIDTH: u32 = 24;

pub const SPRITE_HEIGHT: u32 = 32;

/// The clips of the player's character.
#[derive(Debug, Copy, Clone, PartialEq, Eq, Structural)]
pub enum Sprite {
    FacingLeft,
    FacingRight,
    FacingUp,
    FacingDown,
    RunningLeft,
    RunningRight,
    RunningUp,
    RunningDown,
    AirLeft,
    AirRight,
    AirUp,
    AirDown,
}

impl Sprite {
    /// The name under which the clip is filed.
    pub open spec fn name(self) -> Seq<char> {
        match self {
            Sprite::FacingLeft => "FacingLeft"@,
            Sprite::FacingRight => "FacingRight"@,
            Sprite::FacingUp => "FacingUp"@,
            Sprite::FacingDown => "FacingDown"@,
            Sprite::RunningLeft => "RunningLeft"@,
            Sprite::RunningRight => "RunningRight"@,
            Sprite::RunningUp => "RunningUp"@,
            Sprite::RunningDown => "RunningDown"@,
            Sprite::AirLeft => "AirLeft"@,
            Sprite::AirRight => "AirRight"@,
            Sprite::AirUp => "AirUp"@,
            Sprite::AirDown => "AirDown"@,
        }
    }

    /// Which cells of the character sheet make up the clip.
    pub open spec fn cells(self) -> Seq<u32> {
        match self {
            Sprite::FacingLeft => seq![16u32],
            Sprite::FacingRight => seq![24u32],
            Sprite::FacingUp => seq![8u32],
            Sprite::FacingDown => seq![0u32],
            Sprite::AirLeft => seq![22u32],
            Sprite::AirRight => seq![30u32],
            Sprite::AirUp => seq![14u32],
            Sprite::AirDown => seq![2u32],
            Sprite::RunningLeft => seq![16u32, 17, 18, 19, 20, 21, 22, 23],
            Sprite::RunningRight => seq![24u32, 25, 26, 27, 28, 29, 30, 31],
            Sprite::RunningUp => seq![8u32, 9, 10, 11, 12, 13, 14, 15],
            Sprite::RunningDown => seq![0u32, 1, 3, 4, 5, 6, 7],
        }
    }

    /// The clip's name as text.
    pub fn name_str(&self) -> (name: &'static str)
        ensures
            name@ == self.name(),
    {
        match self {
            Sprite::FacingLeft => "FacingLeft",
            Sprite::FacingRight => "FacingRight",
            Sprite::FacingUp => "FacingUp",
            Sprite::FacingDown => "FacingDown",
            Sprite::RunningLeft => "RunningLeft",
            Sprite::RunningRight => "RunningRight",
            Sprite::RunningUp => "RunningUp",
            Sprite::RunningDown => "RunningDown",
            Sprite::AirLeft => "AirLeft",
            Sprite::AirRight => "AirRight",
            Sprite::AirUp => "AirUp",
            Sprite::AirDown => "AirDown",
        }
    }

    /// The clip's name as an owned string.
    pub fn str(&self) -> (name: String)
        ensures
            name@ == self.name(),
    {
        self.name_str().to_owned()
    }
}

/// Whether `clip` is the fresh clip of `sprite` cut from `sheet`: its frames
/// are the sprite's cells, from the lowest index up.
pub open spec fn is_clip_of(clip: Clip, sheet: Picture, sprite: Sprite) -> bool {
    &&& clip == Clip::fresh(clip.frames)
    &&& cells_in_order(clip.frames, sheet, SPRITE_WIDTH, SPRITE_HEIGHT, sprite.cells())
}

/// The twelve names differ from each other.
pub proof fn lemma_names_differ(a: Sprite, b: Sprite)
    ensures
        a.name() == b.name() ==> a == b,
{
    reveal_strlit("FacingLeft");
    reveal_strlit("FacingRight");
    reveal_strlit("FacingUp");
    reveal_strlit("FacingDown");
    reveal_strlit("RunningLeft");
    reveal_strlit("RunningRight");
    reveal_strlit("RunningUp");
    reveal_strlit("RunningDown");
    reveal_strlit("AirLeft");
    reveal_strlit("AirRight");
    reveal_strlit("AirUp");
    reveal_strlit("AirDown");
    if a != b && a.name() == b.name() {
        assert(a.name().len() == b.name().len());
        assert(a.name()[0] == b.name()[0]);
        assert(a.name()[3] == b.name()[3]);
        assert(a.name()[6] == b.name()[6]);
        assert(a.name()[7] == b.name()[7]);
    }
}

/// Cuts the clip of `sprite` out of the sheet and files it under its name.
fn add_clip(animations: &mut Animations, sheet: &mut Image, sprite: Sprite, indices: Vec<u32>)
    requires
        indices@ =~= sprite.cells(),
    ensures
        final(sheet)@ == old(sheet)@,
        final(animations)@.selected == old(animations)@.selected,
        final(animations)@.clips.dom() == old(animations)@.clips.dom().insert(sprite.name()),
        forall|k: Seq<char>|
            k != sprite.name() && old(animations)@.clips.contains_key(k)
                ==> final(animations)@.clips[k] == old(animations)@.clips[k],
        is_clip_of(final(animations)@.clips[sprite.name()], old(sheet)@, sprite),
{
    let frames: Vec<Image> = Image::sprite_to_texture_list(
        sheet,
        SPRITE_WIDTH,
        SPRITE_HEIGHT,
        indices.as_slice(),
    );
    proof {
        let list = crate::graphics::image::pictures(frames@);
        let keys = choose|keys: Seq<u32>|
            {
                &&& crate::graphics::image::rising(keys)
                &&& keys.to_set() == indices@.to_set()
                &&& #[trigger] keys.len() == list.len()
                &&& forall|i: int|
                    0 <= i < keys.len() ==> #[trigger] list[i] == crate::graphics::image::cell(
                        old(sheet)@,
                        SPRITE_WIDTH,
                        SPRITE_HEIGHT,
                        keys[i],
                    )
            };
        assert(indices@.contains(indices@[0]));
        assert(keys.to_set().contains(indices@[0]));
        assert(keys.contains(indices@[0]));
    }
    let clip: Animation = Animation::of(frames);
    animations.add(sprite.name_str(), clip);
}

/// Cuts the twelve clips of the player's character out of its sprite sheet,
/// which is laid out in cells of [`SPRITE_WIDTH`] by [`SPRITE_HEIGHT`]
/// pixels. The sheet is handed back with the set. No clip is selected yet.
pub fn subject_animations(spritesheet: Image) -> (made: (Image, Animations))
    ensures
        made.0@ == spritesheet@,
        made.1@.selected == Seq::<char>::empty(),
        forall|k: Seq<char>|
            made.1@.clips.contains_key(k) <==> exists|sprite: Sprite| #[trigger] sprite.name() == k,
        forall|sprite: Sprite|
            is_clip_of(#[trigger] made.1@.clips[sprite.name()], spritesheet@, sprite),
{
    let mut animations = Animations::new();
    let mut spritesheet = spritesheet;
    let ghost sheet = spritesheet@;
    add_clip(&mut animations, &mut spritesheet, Sprite::FacingLeft, vec![16]);
    add_clip(&mut animations, &mut spritesheet, Sprite::FacingRight, vec![24]);
    add_clip(&mut animations, &mut spritesheet, Sprite::FacingUp, vec![8]);
    add_clip(&mut animations, &mut spritesheet, Sprite::FacingDown, vec![0]);
    add_clip(&mut animations, &mut spritesheet, Sprite::AirLeft, vec![22]);
    add_clip(&mut animations, &mut spritesheet, Sprite::AirRight, vec![30]);
    add_clip(&mut animations, &mut spritesheet, Sprite::AirUp, vec![14]);
    add_clip(&mut animations, &mut spritesheet, Sprite::AirDown, vec![2]);
    add_clip(
        &mut animations,
        &mut spritesheet,
        Sprite::RunningLeft,
        vec![16, 17, 18, 19, 20, 21, 22, 23],
    );
    add_clip(
        &mut animations,
        &mut spritesheet,
        Sprite::RunningRight,
        vec![24, 25, 26, 27, 28, 29, 30, 31],
    );
    add_clip(
        &mut animations,
        &mut spritesheet,
        Sprite::RunningUp,
        vec![8, 9, 10, 11, 12, 13, 14, 15],
    );
    add_clip(&mut animations, &mut spritesheet, Sprite::RunningDown, vec![0, 1, 3, 4, 5, 6, 7]);
    proof {
        assert forall|a: Sprite, b: Sprite| a.name() == b.name() implies a == b by {
            lemma_names_differ(a, b);
        }
        assert forall|k: Seq<char>| animations@.clips.contains_key(k) implies exists|
            sprite: Sprite,
        | #[trigger] sprite.name() == k by {
            if k == Sprite::FacingLeft.name() {
            } else if k == Sprite::FacingRight.name() {
            } else if k == Sprite::FacingUp.name() {
            } else if k == Sprite::FacingDown.name() {
            } else if k == Sprite::AirLeft.name() {
            } else if k == Sprite::AirRight.name() {
            } else if k == Sprite::AirUp.name() {
            } else if k == Sprite::AirDown.name() {
            } else if k == Sprite::RunningLeft.name() {
            } else if k == Sprite::RunningRight.name() {
            } else if k == Sprite::RunningUp.name() {
            } else if k == Sprite::RunningDown.name() {
            }
        }
    }
    (spritesheet, animations)
}

} // verus!
