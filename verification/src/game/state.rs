//! The world: configuration, level and player.

use crate::fixed::power;
use crate::fixed::times;
use crate::fixed::minus;
use crate::fixed::ONE;
use crate::game::logic::frame_drawn;
use crate::game::logic::render_graphics;
use crate::game::logic::renderable;
use crate::game::logic::sprite_corner;
use crate::game::logic::texture_placed;
use crate::game::logic::backdrop;
use crate::game::logic::update_state;
use crate::game::logic::updated;
use crate::game::logic::updated_album;
use crate::game::logic::with_animations;
use crate::game::data::is_clip_of;
use crate::game::data::subject_animations;
use crate::game::data::Sprite;
use crate::game::data::DENSITY;
use crate::game::data::DISSIPATION;
use crate::game::data::ENV_HEIGHT;
use crate::game::data::ENV_WIDTH;
use crate::game::data::ENV_X;
use crate::game::data::ENV_Y;
use crate::game::data::SPRITE_X;
use crate::game::data::SPRITE_Y;
use crate::game::data::SUB_HEIGHT;
use crate::game::data::SUB_WIDTH;
use crate::game::data::SUB_X;
use crate::game::data::SUB_Y;
use crate::game::data::FPS;
use crate::game::data::FRICTION;
use crate::game::data::GRAVITY;
use crate::game::data::HEIGHT;
use crate::game::data::IMPULSE;
use crate::game::data::JUMP;
use crate::game::data::MASS;
use crate::game::data::MAX;
use crate::game::data::RATIO;
use crate::game::data::RESISTANCE;
use crate::game::data::STEP;
use crate::game::data::TILE_HEIGHT;
use crate::game::data::TILE_WIDTH;
use crate::game::data::TITLE;
use crate::game::data::WIDTH;
use crate::graphics::animation::Animations;
use crate::graphics::image::cell;
use crate::graphics::image::Image;
use crate::graphics::image::Picture;
use crate::graphics::point::Point;
use crate::graphics::rectangle::Rectangle;
use crate::graphics::tile::tiles_of;
use crate::graphics::tile::MapError;
use crate::graphics::tile::Tile;
use std::collections::BTreeMap;
use vstd::prelude::*;
use vstd::string::StringSliceAdditionalSpecFns;

verus! {

/// The whole mutable world.
#[derive(Debug, Default)]
pub struct State {
    /// The game.
    pub conf: Configuration,
    /// The level.
    pub env: Environment,
    /// The player.
    pub sub: Subject,
}

/// Timing and input. Times are in seconds, fixed-point.
#[derive(Debug, Default)]
pub struct Configuration {
    /// Window title.
    pub title: String,
    /// Window width.
    pub width: i64,
    /// Window height.
    pub height: i64,
    /// The length of a physics tick.
    pub step: i64,
    /// Reference frames to the physics tick.
    pub ratio: i64,
    /// The time that the last update took in.
    pub delta: i64,
    /// The frame rate that the last update reported.
    pub fps: i64,
    /// The longest time that one update takes in.
    pub max: i64,
    /// The wall time of the last update.
    pub time: i64,
    /// Time taken in and not yet spent on ticks.
    pub accumulator: i64,
    /// Key up.
    pub up: bool,
    /// Key down.
    pub down: bool,
    /// Key left.
    pub left: bool,
    /// Key right.
    pub right: bool,
    /// Key jump.
    pub jump: bool,
}

/// The level and the camera.
#[derive(Debug, Default)]
pub struct Environment {
    /// The camera's left edge in the world.
    pub x: i64,
    /// The camera's top edge in the world.
    pub y: i64,
    /// Level width.
    pub width: i64,
    /// Level height.
    pub height: i64,
    pub gravity: i64,
    /// The share of speed along a tile that is kept in a tick of contact.
    pub friction: i64,
    /// The share of speed that is kept in a tick in the air.
    pub resistance: i64,
    /// The share of speed that is kept in every tick, for each axis.
    pub dissipation: Point,
    /// The tile that repeats behind everything.
    pub pattern: Image,
    /// The full-size backdrop.
    pub background: Image,
    /// The sheet that the tile textures were cut from.
    pub spritesheet: Image,
    /// The tile textures by tile id.
    pub textures: BTreeMap<u32, Image>,
    pub tiles: Vec<Tile>,
}

/// The player's character.
#[derive(Debug, Default)]
pub struct Subject {
    pub x: i64,
    pub y: i64,
    pub width: i64,
    pub height: i64,
    pub force: Point,
    pub velocity: Point,
    pub acceleration: Point,
    /// Which way the held keys point, each axis -1, 0 or 1.
    pub direction: Point,
    /// The position at the last update.
    pub previous: Point,
    pub impulse: Point,
    /// The position blended between the last two updates, for drawing.
    pub interpolation: Point,
    pub mass: i64,
    pub density: i64,
    /// The kick of a jump.
    pub jump: i64,
    /// Whether a jump was triggered in this tick.
    pub contact: bool,
    /// Whether the held jump key has had its jump.
    pub lock: bool,
    /// The sheet that the clips were cut from.
    pub spritesheet: Image,
    pub animations: Animations,
    /// Where the sprite is drawn, counted from the character's box.
    pub offset: Point,
}

impl Configuration {
    /// Whether `self` is the configuration at start.
    pub open spec fn fresh(self) -> bool {
        &&& self.title@ == TITLE@
        &&& self.width == WIDTH * ONE
        &&& self.height == HEIGHT * ONE
        &&& self.step == STEP
        &&& self.ratio == RATIO
        &&& self.delta == STEP
        &&& self.fps == FPS
        &&& self.max == MAX
        &&& self.time == 0
        &&& self.accumulator == 0
        &&& !self.up
        &&& !self.down
        &&& !self.left
        &&& !self.right
        &&& !self.jump
    }

    /// The configuration at start, from the constants of the game.
    pub fn new() -> (conf: Self)
        ensures
            conf.fresh(),
    {
        Self {
            title: TITLE.to_owned(),
            width: WIDTH as i64 * ONE,
            height: HEIGHT as i64 * ONE,
            step: STEP,
            ratio: RATIO,
            delta: STEP,
            fps: FPS,
            max: MAX,
            time: 0,
            accumulator: 0,
            up: false,
            right: false,
            down: false,
            left: false,
            jump: false,
        }
    }
}

impl Environment {
    /// Whether `self` is the level at start, made of the given pictures and
    /// tiles: the camera at the corner, the constants of the game, and a
    /// texture for each of the sixteen cells of the tile sheet.
    pub open spec fn fresh(
        self,
        pattern: Picture,
        background: Picture,
        spritesheet: Picture,
        tiles: Seq<Tile>,
    ) -> bool {
        &&& self.x == ENV_X * ONE
        &&& self.y == ENV_Y * ONE
        &&& self.width == ENV_WIDTH * ONE
        &&& self.height == ENV_HEIGHT * ONE
        &&& self.gravity == GRAVITY
        &&& self.friction == FRICTION
        &&& self.resistance == RESISTANCE
        &&& self.dissipation == (Point { x: DISSIPATION, y: 0 })
        &&& self.pattern@ == pattern
        &&& self.background@ == background
        &&& self.spritesheet@ == spritesheet
        &&& self.tiles@ == tiles
        &&& forall|id: u32| self.textures@.contains_key(id) <==> id < 16
        &&& forall|id: u32|
            id < 16 ==> (#[trigger] self.textures@[id])@ == cell(
                spritesheet,
                TILE_WIDTH,
                TILE_HEIGHT,
                id,
            )
    }

    /// The level at start. The tile textures are cut from `spritesheet`, and
    /// the tiles are read from `map`; a map that cannot be read fails it.
    pub fn new(pattern: Image, background: Image, spritesheet: Image, map: &str) -> (made: Result<
        Self,
        MapError,
    >)
        ensures
            match made {
                Ok(env) => tiles_of(map.spec_bytes(), TILE_WIDTH, TILE_HEIGHT) is Ok && env.fresh(
                    pattern@,
                    background@,
                    spritesheet@,
                    tiles_of(map.spec_bytes(), TILE_WIDTH, TILE_HEIGHT)->Ok_0,
                ),
                Err(e) => tiles_of(map.spec_bytes(), TILE_WIDTH, TILE_HEIGHT) == Err::<
                    Seq<Tile>,
                    MapError,
                >(e),
            },
    {
        let mut spritesheet = spritesheet;
        let indices: Vec<u32> = vec![0, 1, 2, 3, 4, 5, 6, 7, 8, 9, 10, 11, 12, 13, 14, 15];
        let textures: BTreeMap<u32, Image> = Image::sprite_to_texture_map(
            &mut spritesheet,
            TILE_WIDTH,
            TILE_HEIGHT,
            indices.as_slice(),
        );
        let tiles: Vec<Tile> = match Tile::map_to_tiles(map, TILE_WIDTH, TILE_HEIGHT) {
            Ok(tiles) => tiles,
            Err(e) => {
                return Err(e);
            },
        };
        proof {
            assert forall|id: u32| textures@.contains_key(id) <==> id < 16 by {
                if id < 16 {
                    assert(indices@[id as int] == id);
                    assert(indices@.contains(id));
                }
            }
            assert forall|id: u32| id < 16 implies (#[trigger] textures@[id])@ == cell(
                spritesheet@,
                TILE_WIDTH,
                TILE_HEIGHT,
                id,
            ) by {
                assert(textures@.contains_key(id));
            }
        }
        Ok(
            Self {
                x: ENV_X as i64 * ONE,
                y: ENV_Y as i64 * ONE,
                width: ENV_WIDTH as i64 * ONE,
                height: ENV_HEIGHT as i64 * ONE,
                gravity: GRAVITY,
                friction: FRICTION,
                resistance: RESISTANCE,
                dissipation: Point { x: DISSIPATION, y: 0 },
                pattern,
                background,
                spritesheet,
                textures,
                tiles,
            },
        )
    }
}

impl Subject {
    /// Whether `self` is the player at start, with the clips cut from the
    /// given sheet.
    pub open spec fn fresh(self, spritesheet: Picture) -> bool {
        &&& self.x == SUB_X * ONE
        &&& self.y == SUB_Y * ONE
        &&& self.width == SUB_WIDTH * ONE
        &&& self.height == SUB_HEIGHT * ONE
        &&& self.force == (Point { x: 0, y: 0 })
        &&& self.velocity == (Point { x: 0, y: 0 })
        &&& self.acceleration == (Point { x: 0, y: 0 })
        &&& self.direction == (Point { x: 0, y: 0 })
        &&& self.previous == (Point { x: 0, y: 0 })
        &&& self.impulse == (Point { x: IMPULSE, y: 0 })
        &&& self.interpolation == (Point { x: 0, y: 0 })
        &&& self.mass == MASS
        &&& self.density == DENSITY
        &&& self.jump == JUMP
        &&& !self.contact
        &&& !self.lock
        &&& self.spritesheet@ == spritesheet
        &&& self.offset.x == SPRITE_X * ONE
        &&& self.offset.y == SPRITE_Y * ONE
        &&& self.animations@.selected == "run_right"@
        &&& forall|k: Seq<char>|
            self.animations@.clips.contains_key(k) <==> exists|sprite: Sprite| #[trigger]
                sprite.name() == k
        &&& forall|sprite: Sprite|
            is_clip_of(#[trigger] self.animations@.clips[sprite.name()], spritesheet, sprite)
    }

    /// The player at start, with the twelve clips cut from `spritesheet`. The
    /// name selected at start is the name of no clip: the first physics tick
    /// selects one.
    pub fn new(spritesheet: Image) -> (sub: Self)
        ensures
            sub.fresh(spritesheet@),
    {
        let made: (Image, Animations) = subject_animations(spritesheet);
        let spritesheet: Image = made.0;
        let mut animations: Animations = made.1;
        animations.set("run_right");
        Self {
            x: SUB_X as i64 * ONE,
            y: SUB_Y as i64 * ONE,
            width: SUB_WIDTH as i64 * ONE,
            height: SUB_HEIGHT as i64 * ONE,
            force: Point::new(0, 0),
            velocity: Point::new(0, 0),
            acceleration: Point::new(0, 0),
            direction: Point::new(0, 0),
            previous: Point::new(0, 0),
            impulse: Point::new(IMPULSE, 0),
            interpolation: Point::new(0, 0),
            mass: MASS,
            density: DENSITY,
            jump: JUMP,
            contact: false,
            lock: false,
            spritesheet,
            animations,
            offset: Point::new(SPRITE_X as i64 * ONE, SPRITE_Y as i64 * ONE),
        }
    }
}

/// The configuration after the key named by `key` went down (`active`) or
/// up. The keys are the single letters `s` for left, `f` for right, `e` for
/// up, `d` for down and `j` for jump; every other name changes nothing.
pub open spec fn keyed(conf: Configuration, active: bool, key: Seq<u8>) -> Configuration {
    if key == seq![0x73u8] {
        Configuration { left: active, ..conf }
    } else if key == seq![0x66u8] {
        Configuration { right: active, ..conf }
    } else if key == seq![0x65u8] {
        Configuration { up: active, ..conf }
    } else if key == seq![0x64u8] {
        Configuration { down: active, ..conf }
    } else if key == seq![0x6au8] {
        Configuration { jump: active, ..conf }
    } else {
        conf
    }
}

impl State {
    /// Notes that a key went down or up, see [`keyed`].
    pub fn input(&mut self, active: bool, key: &str)
        ensures
            *final(self) == (State {
                conf: keyed(old(self).conf, active, key.spec_bytes()),
                ..*old(self)
            }),
    {
        let name: &[u8] = key.as_bytes();
        if name.len() != 1 {
            proof {
                assert(name@.len() != 1);
            }
            return ;
        }
        let letter: u8 = name[0];
        proof {
            assert(name@ =~= seq![letter]);
            assert(seq![0x73u8][0] == 0x73u8);
            assert(seq![0x66u8][0] == 0x66u8);
            assert(seq![0x65u8][0] == 0x65u8);
            assert(seq![0x64u8][0] == 0x64u8);
            assert(seq![0x6au8][0] == 0x6au8);
        }
        if letter == 0x73 {
            self.conf.left = active;
        } else if letter == 0x66 {
            self.conf.right = active;
        } else if letter == 0x65 {
            self.conf.up = active;
        } else if letter == 0x64 {
            self.conf.down = active;
        } else if letter == 0x6a {
            self.conf.jump = active;
        }
    }

    /// Takes in the time of one frame, see [`update_state`]. The step has to
    /// be longer than nothing.
    pub fn update(&mut self, time: i64, delta: i64, fps: i64)
        requires
            old(self).conf.step > 0,
        ensures
            *final(self) == with_animations(
                updated(*old(self), time, delta, fps),
                final(self).sub.animations,
            ),
            final(self).sub.animations@ == updated_album(*old(self), time, delta, fps),
    {
        update_state(self, time, delta, fps);
    }

    /// Draws a frame, see [`render_graphics`]. A clip has to be selected, and
    /// every tile that is not culled has to have a texture.
    pub fn render(&mut self, buffer: &mut [u8], width: u32, height: u32)
        requires
            renderable(*old(self)),
        ensures
            final(buffer)@ == frame_drawn(*old(self), old(buffer)@, width, height),
            *final(self) == (State {
                env: Environment {
                    background: final(self).env.background,
                    textures: final(self).env.textures,
                    ..old(self).env
                },
                sub: Subject { animations: final(self).sub.animations, ..old(self).sub },
                ..*old(self)
            }),
            final(self).env.background@ == backdrop(*old(self)),
            final(self).env.textures@.dom() == old(self).env.textures@.dom(),
            forall|id: u32| #[trigger]
                final(self).env.textures@.contains_key(id) ==> final(self).env.textures@[id]@
                    == texture_placed(*old(self), id, old(self).env.tiles@.len()),
            final(self).sub.animations@ == old(self).sub.animations@.shown(
                sprite_corner(*old(self)).x,
                sprite_corner(*old(self)).y,
            ),
    {
        render_graphics(self, buffer, width, height);
    }

    /// The world made ready from its three parts: the player's mass is its
    /// area times its density, and each loss per tick of the level becomes
    /// the share that is kept, raised to the frame ratio.
    pub open spec fn initialized(self) -> State {
        State {
            env: Environment {
                friction: power(minus(ONE, self.env.friction), self.conf.ratio),
                resistance: power(minus(ONE, self.env.resistance), self.conf.ratio),
                dissipation: Point {
                    x: power(minus(ONE, self.env.dissipation.x), self.conf.ratio),
                    y: power(minus(ONE, self.env.dissipation.y), self.conf.ratio),
                },
                ..self.env
            },
            sub: Subject {
                mass: times(times(self.sub.width, self.sub.height), self.sub.density),
                ..self.sub
            },
            ..self
        }
    }

    /// The camera's box in the world.
    pub open spec fn viewport(self) -> Rectangle {
        Rectangle {
            x: self.env.x,
            y: self.env.y,
            width: self.conf.width,
            height: self.conf.height,
        }
    }

    /// The world at start. The four images are the repeating pattern, the
    /// backdrop, the tile sheet and the character sheet; `map` lists the
    /// tiles. A map that cannot be read fails it.
    pub fn new(
        pattern: Image,
        background: Image,
        environment: Image,
        character: Image,
        map: &str,
    ) -> (made: Result<Self, MapError>)
        ensures
            match made {
                Ok(state) => tiles_of(map.spec_bytes(), TILE_WIDTH, TILE_HEIGHT) is Ok
                    && exists|parts: State|
                    {
                        &&& parts.conf.fresh()
                        &&& parts.env.fresh(
                            pattern@,
                            background@,
                            environment@,
                            tiles_of(map.spec_bytes(), TILE_WIDTH, TILE_HEIGHT)->Ok_0,
                        )
                        &&& parts.sub.fresh(character@)
                        &&& state == #[trigger] parts.initialized()
                    },
                Err(e) => tiles_of(map.spec_bytes(), TILE_WIDTH, TILE_HEIGHT) == Err::<
                    Seq<Tile>,
                    MapError,
                >(e),
            },
    {
        let env: Environment = match Environment::new(pattern, background, environment, map) {
            Ok(env) => env,
            Err(e) => {
                return Err(e);
            },
        };
        let mut state = Self { conf: Configuration::new(), env, sub: Subject::new(character) };
        let ghost parts = state;
        state.initialize();
        proof {
            assert(state == parts.initialized());
        }
        Ok(state)
    }

    fn initialize(&mut self)
        ensures
            *final(self) == old(self).initialized(),
    {
        self.sub.mass = times(times(self.sub.width, self.sub.height), self.sub.density);
        self.env.friction = power(minus(ONE, self.env.friction), self.conf.ratio);
        self.env.resistance = power(minus(ONE, self.env.resistance), self.conf.ratio);
        self.env.dissipation.x = power(minus(ONE, self.env.dissipation.x), self.conf.ratio);
        self.env.dissipation.y = power(minus(ONE, self.env.dissipation.y), self.conf.ratio);
    }

    /// The camera's box in the world.
    pub fn view(&self) -> (r: Rectangle)
        ensures
            r == self.viewport(),
    {
        Rectangle::new(self.env.x, self.env.y, self.conf.width, self.conf.height)
    }
}

} // verus!
