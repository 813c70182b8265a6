//! The player character: its state machine, the projectiles around it, the
//! score and the lives, and the three maps of a session.
//!
//! Key events move the state machine at once; `update` advances the game
//! by one tick. What a tick does is stated by `CharacterView::ticked`, a
//! function from the state before the tick, and the numbers drawn for the
//! projectiles launched in it, to the state after it.

use crate::bitmap::{mirrored, rotated};
use crate::direction::Direction;
use crate::gamemap::{GameMap, GameMapView};
use crate::gamestate::GameState;
use crate::bitmap::{codes_in_range, is_grid, lemma_view_is_grid, low_codes};
use crate::projectile::{
    can_step, launch, stays_inside, stepped, Projectile, ProjectileCoord, Roll,
};
use crate::sprite::{Sprite, SpriteView};
use crate::state::State;
use vstd::hash_map::StringHashMap;
use vstd::prelude::*;
use vstd::string::StringExecFns;

verus! {

/// A cell of the field: column, then row.
#[derive(Debug, Copy, Clone, Eq, PartialEq, Structural)]
pub struct Coord(pub u32, pub u32);

/// The mathematical model of a projectile.
pub struct ProjectileView {
    pub coord: ProjectileCoord,
    pub x_max: int,
    pub y_max: int,
    pub sprite: SpriteView,
}

impl View for Projectile {
    type V = ProjectileView;

    open spec fn view(&self) -> ProjectileView {
        ProjectileView {
            coord: self.coord,
            x_max: self.x_max as int,
            y_max: self.y_max as int,
            sprite: self.spte@,
        }
    }
}

/// The views of a list of projectiles.
pub open spec fn projectile_views(v: Seq<Projectile>) -> Seq<ProjectileView> {
    Seq::new(v.len(), |k: int| v[k]@)
}

/// The sprite mirrored left to right.
pub open spec fn flipped(s: SpriteView) -> SpriteView {
    SpriteView { grid: mirrored(s.grid), ..s }
}

/// The sprite turned a quarter turn to the right.
pub open spec fn turned(s: SpriteView) -> SpriteView {
    SpriteView { grid: rotated(s.grid), ..s }
}

/// Every sprite of the list mirrored.
pub open spec fn all_flipped(v: Seq<SpriteView>) -> Seq<SpriteView> {
    Seq::new(v.len(), |k: int| flipped(v[k]))
}

/// Every sprite of every track mirrored.
pub open spec fn tracks_flipped(t: Seq<Seq<SpriteView>>) -> Seq<Seq<SpriteView>> {
    Seq::new(t.len(), |k: int| all_flipped(t[k]))
}

/// The animation track of a state: standing, walking, in the air (jumping
/// or falling), meteor, crouching.
pub open spec fn track_of(s: State) -> int {
    match s {
        State::Stand => 0,
        State::Walk(_) => 1,
        State::Jump(_) => 2,
        State::Fall(_) => 2,
        State::Meteor => 3,
        State::Crouch => 4,
    }
}

/// The map cell value that is solid ground.
pub const FLOOR_TILE: u8 = 2;

/// The map cell value of an extra life waiting to be picked up.
pub const LIFE_TILE: u8 = 6;

/// The map cell value of a life shown in the top row.
pub const LIFE_ICON: u8 = 5;

/// The mathematical model of the character and everything it owns.
pub struct CharacterView {
    pub coord: Coord,
    /// The five animation tracks.
    pub tracks: Seq<Seq<SpriteView>>,
    pub state: State,
    pub last_state: State,
    /// The animation track in use.
    pub track: int,
    pub height: int,
    pub width: int,
    pub dir: Direction,
    /// The direction the sprites face.
    pub last_dir: Direction,
    pub game_state: GameState,
    /// The tick counter, from 0 to `max_it - 1`.
    pub it: int,
    pub max_it: int,
    pub map_start: GameMapView,
    pub map: GameMapView,
    pub map_end: GameMapView,
    pub jump_h: int,
    pub max_jump_h: int,
    pub left_key: bool,
    pub right_key: bool,
    pub down_key: bool,
    /// The hostile projectiles in flight.
    pub ices: Seq<ProjectileView>,
    /// The benign projectiles in flight.
    pub apples: Seq<ProjectileView>,
    pub score: int,
    pub lifes: int,
    /// The picture of a hostile projectile.
    pub lava_ball: SpriteView,
    /// The picture of a benign projectile.
    pub apple: SpriteView,
}

/// The target of a key event in a state, if the event fires a transition.
pub open spec fn on_left_down(s: State) -> Option<State> {
    match s {
        State::Stand => Some(State::Walk(Direction::Left)),
        State::Jump(_) => Some(State::Jump(Direction::Left)),
        State::Fall(_) => Some(State::Fall(Direction::Left)),
        State::Walk(_) => Some(State::Walk(Direction::Left)),
        _ => None,
    }
}

/// See `on_left_down`.
pub open spec fn on_right_down(s: State) -> Option<State> {
    match s {
        State::Stand => Some(State::Walk(Direction::Right)),
        State::Jump(_) => Some(State::Jump(Direction::Right)),
        State::Fall(_) => Some(State::Fall(Direction::Right)),
        State::Walk(_) => Some(State::Walk(Direction::Right)),
        _ => None,
    }
}

/// See `on_left_down`.
pub open spec fn on_down_down(s: State) -> Option<State> {
    match s {
        State::Stand => Some(State::Crouch),
        State::Jump(_) => Some(State::Meteor),
        State::Fall(_) => Some(State::Meteor),
        _ => None,
    }
}

/// See `on_left_down`.
pub open spec fn on_up_down(s: State) -> Option<State> {
    match s {
        State::Stand => Some(State::Jump(Direction::Neither)),
        State::Walk(d) => Some(State::Jump(d)),
        _ => None,
    }
}

/// The target when the key of side `side` is released. Walking towards
/// that side ends, unless the key of the other side is held; a jump or a
/// fall towards that side loses its direction.
pub open spec fn on_side_up(s: State, side: Direction, other_held: bool) -> Option<State> {
    match s {
        State::Walk(d) => if d == side && !other_held {
            Some(State::Stand)
        } else {
            None
        },
        State::Jump(d) => if d == side {
            Some(State::Jump(Direction::Neither))
        } else {
            None
        },
        State::Fall(d) => if d == side {
            Some(State::Fall(Direction::Neither))
        } else {
            None
        },
        _ => None,
    }
}

/// See `on_left_down`.
pub open spec fn on_down_up(s: State) -> Option<State> {
    match s {
        State::Crouch => Some(State::Stand),
        _ => None,
    }
}

impl CharacterView {
    /// The model after a transition to `state`: the state before becomes
    /// the last state, and the animation track follows the new one.
    pub open spec fn with_state(self, state: State) -> CharacterView {
        CharacterView { last_state: self.state, state: state, track: track_of(state), ..self }
    }

    /// The model after a transition to `target`, if there is one.
    pub open spec fn moved_to(self, target: Option<State>) -> CharacterView {
        match target {
            Some(s) => self.with_state(s),
            None => self,
        }
    }

    /// Whether heading in `dir` turns the sprites round: it names a side,
    /// and not the one they face.
    pub open spec fn turns_round(self, dir: Direction) -> bool {
        self.last_dir != dir && dir != Direction::Neither
    }

    /// The model after heading in `dir`: where that turns the sprites
    /// round, every sprite of every track is mirrored once and the new side
    /// is recorded.
    pub open spec fn heading(self, dir: Direction) -> CharacterView {
        if self.turns_round(dir) {
            CharacterView { tracks: tracks_flipped(self.tracks), last_dir: dir, dir: dir, ..self }
        } else {
            CharacterView { dir: dir, ..self }
        }
    }
}

/// The player at `c` and a projectile at `p` are in the same cell. The
/// projectile's coordinates are taken as unsigned numbers of 32 bits.
pub open spec fn hits(c: Coord, p: ProjectileCoord) -> bool {
    c.0 == p.x as u32 && c.1 == p.y as u32
}

/// The projectile after a tracking pass: one step further where the pass
/// moves the projectiles.
pub open spec fn after_pass(p: ProjectileView, move_b: bool) -> ProjectileView {
    if move_b {
        ProjectileView { coord: stepped(p.coord, p.x_max, p.y_max), ..p }
    } else {
        p
    }
}

/// The projectile is in the player's cell after the pass.
pub open spec fn hit_in_pass(p: ProjectileView, c: Coord, move_b: bool) -> bool {
    hits(c, after_pass(p, move_b).coord)
}

/// The projectile is taken off the list in the pass: its step left the
/// field, or it is in the player's cell after the pass.
pub open spec fn leaves(p: ProjectileView, c: Coord, move_b: bool) -> bool {
    (move_b && !stays_inside(p.coord, p.x_max, p.y_max)) || hit_in_pass(p, c, move_b)
}

/// The projectiles that a tracking pass keeps, in their order, each as it
/// is after the pass.
pub open spec fn survivors(ps: Seq<ProjectileView>, c: Coord, move_b: bool) -> Seq<ProjectileView>
    decreases ps.len(),
{
    if ps.len() == 0 {
        Seq::empty()
    } else {
        let rest = survivors(ps.drop_last(), c, move_b);
        if leaves(ps.last(), c, move_b) {
            rest
        } else {
            rest.push(after_pass(ps.last(), move_b))
        }
    }
}

/// Some projectile of the list is in the player's cell after the pass.
pub open spec fn any_hit(ps: Seq<ProjectileView>, c: Coord, move_b: bool) -> bool {
    exists|k: int| 0 <= k < ps.len() && hit_in_pass(#[trigger] ps[k], c, move_b)
}

/// The column reached from column `x` by one step in direction `dir`, in a
/// field of `width` columns whose two side edges are joined.
pub open spec fn beside(x: int, dir: Direction, width: int) -> int {
    match dir {
        Direction::Right => (x + 1) % width,
        Direction::Left => (x + width - 1) % width,
        Direction::Neither => x % width,
    }
}

impl CharacterView {
    /// The model after a hostile projectile hit the player: one life
    /// less, or, with no life left, the end of the game.
    pub open spec fn struck(self) -> CharacterView {
        if self.lifes > 0 {
            CharacterView { lifes: self.lifes - 1, ..self }
        } else {
            CharacterView { game_state: GameState::GameOver, ..self }
        }
    }

    /// The model after the player collected a benign projectile: one
    /// point more, up to the highest score that can be counted.
    pub open spec fn scored(self) -> CharacterView {
        if self.score < u16::MAX {
            CharacterView { score: self.score + 1, ..self }
        } else {
            self
        }
    }

    /// The model after a tracking pass over the hostile projectiles.
    pub open spec fn hazards_tracked(self, move_b: bool) -> CharacterView {
        let kept = CharacterView { ices: survivors(self.ices, self.coord, move_b), ..self };
        if any_hit(self.ices, self.coord, move_b) {
            kept.struck()
        } else {
            kept
        }
    }

    /// The model after a tracking pass over the benign projectiles.
    pub open spec fn collectibles_tracked(self, move_b: bool) -> CharacterView {
        let kept = CharacterView { apples: survivors(self.apples, self.coord, move_b), ..self };
        if any_hit(self.apples, self.coord, move_b) {
            kept.scored()
        } else {
            kept
        }
    }

    /// The model after the side keys were looked at: with neither held,
    /// both count as released, the left one first.
    pub open spec fn keys_settled(self) -> CharacterView {
        if !self.left_key && !self.right_key {
            let a = self.moved_to(on_side_up(self.state, Direction::Left, false));
            a.moved_to(on_side_up(a.state, Direction::Right, false))
        } else {
            self
        }
    }

    /// The model after the crouching character was looked at: it stands up
    /// unless the down key is held, and picks up an extra life lying in its
    /// cell if it has fewer than four.
    pub open spec fn crouch_settled(self) -> CharacterView {
        if self.state == State::Crouch {
            let a = if !self.down_key {
                self.with_state(State::Stand)
            } else {
                self
            };
            let x = a.coord.0 as int;
            let y = a.coord.1 as int;
            if a.map.cells[y][x] == LIFE_TILE && a.lifes < 4 {
                CharacterView { lifes: a.lifes + 1, map: a.map.with_cell(y, x, 0), ..a }
            } else {
                a
            }
        } else {
            self
        }
    }

    /// There is no floor under the character: the cell below it is in
    /// the field and is not a floor tile. Under the lowest row there is
    /// nothing to fall to.
    pub open spec fn no_floor(self) -> bool {
        self.coord.1 + 1 < self.height && self.map.cells[self.coord.1 + 1][self.coord.0 as int]
            != FLOOR_TILE
    }

    /// The model with the character moved to column `x` and row `y`.
    pub open spec fn placed(self, x: int, y: int) -> CharacterView {
        CharacterView { coord: Coord(x as u32, y as u32), ..self }
    }

    /// The model after a step of a walk towards `dir`: one column
    /// further, and falling where there is no floor under the new cell.
    pub open spec fn walked(self, dir: Direction) -> CharacterView {
        let a = self.heading(dir).placed(
            beside(self.coord.0 as int, dir, self.width),
            self.coord.1 as int,
        );
        if a.no_floor() {
            a.with_state(State::Fall(dir))
        } else {
            a
        }
    }

    /// The model after a step of a jump towards `dir`: below the height
    /// cap one column further and one row up (not above row 0); at the cap
    /// the jump turns into a fall and the height counter starts again.
    pub open spec fn jumped(self, dir: Direction) -> CharacterView {
        let a = self.heading(dir);
        let y = self.coord.1 as int;
        if a.jump_h < a.max_jump_h {
            CharacterView {
                jump_h: a.jump_h + 1,
                ..a.placed(beside(self.coord.0 as int, dir, self.width), if y == 0 { 0 } else { y - 1 })
            }
        } else {
            CharacterView { jump_h: 0, ..a.with_state(State::Fall(dir)) }
        }
    }

    /// The model after a step of a fall towards `dir`: with no floor below
    /// one column further and one row down, falling on; on a floor the
    /// character walks on towards `dir`, or stands if that is no side.
    pub open spec fn fallen(self, dir: Direction) -> CharacterView {
        let a = self.heading(dir);
        if a.no_floor() {
            a.placed(beside(self.coord.0 as int, dir, self.width), self.coord.1 + 1).with_state(
                State::Fall(dir),
            )
        } else if dir == Direction::Neither {
            a.with_state(State::Stand)
        } else {
            a.with_state(State::Walk(dir))
        }
    }

    /// The model after a step of the meteor: straight down one row while
    /// there is no floor below, then crouching. The height counter of the
    /// jump starts again.
    pub open spec fn plunged(self) -> CharacterView {
        let a = CharacterView { jump_h: 0, ..self };
        if a.no_floor() {
            a.placed(beside(self.coord.0 as int, Direction::Neither, self.width), self.coord.1 + 1).with_state(
                State::Meteor,
            )
        } else {
            a.with_state(State::Crouch)
        }
    }

    /// The model after the movement of one tick. Walking, jumping, falling
    /// and standing act on even ticks only; the meteor acts on every tick.
    pub open spec fn moved(self) -> CharacterView {
        let even = self.it % 2 == 0;
        match self.state {
            State::Walk(dir) => if even {
                self.walked(dir)
            } else {
                self
            },
            State::Jump(dir) => if even {
                self.jumped(dir)
            } else {
                self
            },
            State::Fall(dir) => if even {
                self.fallen(dir)
            } else {
                self
            },
            State::Meteor => self.plunged(),
            State::Stand => if even && self.no_floor() {
                self.with_state(State::Fall(Direction::Neither))
            } else {
                self
            },
            State::Crouch => self,
        }
    }
}

/// The projectiles with every sprite turned a quarter turn to the right.
pub open spec fn all_turned(ps: Seq<ProjectileView>) -> Seq<ProjectileView> {
    Seq::new(ps.len(), |k: int| ProjectileView { sprite: turned(ps[k].sprite), ..ps[k] })
}

/// The projectiles with every sprite mirrored.
pub open spec fn all_mirrored(ps: Seq<ProjectileView>) -> Seq<ProjectileView> {
    Seq::new(ps.len(), |k: int| ProjectileView { sprite: flipped(ps[k].sprite), ..ps[k] })
}

impl CharacterView {
    /// The model with the projectiles animated: the hostile ones turn a
    /// quarter turn, the benign ones are mirrored.
    pub open spec fn projectiles_animated(self) -> CharacterView {
        CharacterView { ices: all_turned(self.ices), apples: all_mirrored(self.apples), ..self }
    }

    /// The model with the fast scenery of the play map animated: on even
    /// ticks sprite 6 is mirrored.
    pub open spec fn fast_scenery_animated(self) -> CharacterView {
        if self.it % 2 == 0 {
            CharacterView { map: self.map.with_sprite_flipped(6), ..self }
        } else {
            self
        }
    }

    /// The model after the projectiles flew: on every fourth tick both
    /// lists get a tracking pass that moves them, the hostile one first.
    pub open spec fn projectiles_flown(self) -> CharacterView {
        if self.it % 4 == 0 {
            self.hazards_tracked(true).collectibles_tracked(true)
        } else {
            self
        }
    }

    /// The model with the slow scenery of the play map animated: on every
    /// tenth tick sprites 2 and 0 are mirrored.
    pub open spec fn slow_scenery_animated(self) -> CharacterView {
        if self.it % 10 == 0 {
            CharacterView { map: self.map.with_sprite_flipped(2).with_sprite_flipped(0), ..self }
        } else {
            self
        }
    }

    /// The hostile projectile launched at the player for the roll.
    pub open spec fn hostile_shot(self, roll: Roll) -> ProjectileView {
        ProjectileView {
            coord: launch(
                self.coord.0 as int,
                self.coord.1 as int,
                self.width,
                true,
                roll.dir as int,
                roll.row as int,
            ),
            x_max: self.width,
            y_max: self.height,
            sprite: flipped(self.lava_ball),
        }
    }

    /// The benign projectile launched for the roll.
    pub open spec fn benign_shot(self, roll: Roll) -> ProjectileView {
        ProjectileView {
            coord: launch(
                self.coord.0 as int,
                self.coord.1 as int,
                self.width,
                false,
                roll.dir as int,
                roll.row as int,
            ),
            x_max: self.width,
            y_max: self.height,
            sprite: self.apple,
        }
    }

    /// The model after the launches: on every twentieth tick one hostile
    /// and one benign projectile join their lists.
    pub open spec fn launched(self, hostile: Roll, benign: Roll) -> CharacterView {
        if self.it % 20 == 0 {
            CharacterView {
                ices: self.ices.push(self.hostile_shot(hostile)),
                apples: self.apples.push(self.benign_shot(benign)),
                ..self
            }
        } else {
            self
        }
    }

    /// The model with the tick counter advanced; after `max_it - 1` it
    /// starts again at 0.
    pub open spec fn counted(self) -> CharacterView {
        CharacterView { it: if self.it < self.max_it - 1 { self.it + 1 } else { 0 }, ..self }
    }

    /// The model after one tick outside play: the scenery of the opening
    /// and closing maps is animated, and the tick is counted.
    pub open spec fn idled(self) -> CharacterView {
        let a = if self.it % 2 == 0 {
            CharacterView {
                map_start: self.map_start.with_sprite_flipped(14),
                map_end: self.map_end.with_sprite_flipped(23).with_sprite_flipped(7),
                ..self
            }
        } else {
            self
        };
        let b = if a.it % 10 == 0 {
            CharacterView {
                map_start: a.map_start.with_sprite_flipped(15).with_sprite_flipped(12),
                map_end: a.map_end.with_sprite_flipped(9).with_sprite_flipped(24),
                ..a
            }
        } else {
            a
        };
        b.counted()
    }

    /// The model after one tick of play.
    pub open spec fn played(self, hostile: Roll, benign: Roll) -> CharacterView {
        self.with_hud().hazards_tracked(false).collectibles_tracked(false).keys_settled()
            .crouch_settled().moved().projectiles_animated().fast_scenery_animated()
            .projectiles_flown().slow_scenery_animated().launched(hostile, benign).counted()
    }

    /// The model after one tick.
    pub open spec fn ticked(self, hostile: Roll, benign: Roll) -> CharacterView {
        if self.game_state == GameState::Play {
            self.played(hostile, benign)
        } else {
            self.idled()
        }
    }

    /// The state display is due for a character that was in phase `phase`
    /// and in state `state` before a key event or a tick: play went on, and
    /// the state is another one.
    pub open spec fn shows_change_since(self, phase: GameState, state: State) -> bool {
        phase == GameState::Play && self.game_state == GameState::Play && self.state != state
    }
}

/// Why a character could not be set up.
#[derive(Debug, PartialEq, Eq, Copy, Clone, Structural)]
pub enum SetupError {
    /// The field is not as high as the maps, is wider than they are, or
    /// does not hold the start cell.
    FieldSize,
    /// A sprite that the game draws is not in the table.
    MissingSprite,
    /// A map refers to a sprite it does not have, or lacks sprites that
    /// the game animates or writes into it.
    MapTiles,
}

/// A field of this size fits the maps and holds the start cell: it is as
/// high as a map, so that its lowest row is the lowest row of the map, and
/// between 10 and 20 columns wide.
pub open spec fn field_fits(width: int, height: int) -> bool {
    9 < width <= 20 && height == 10
}

/// The table holds every sprite that the game draws.
pub open spec fn has_sprites(table: Map<Seq<char>, Sprite>) -> bool {
    &&& table.contains_key("Stand1"@)
    &&& table.contains_key("Stand2"@)
    &&& table.contains_key("Walk1"@)
    &&& table.contains_key("Walk2"@)
    &&& table.contains_key("Jump"@)
    &&& table.contains_key("Meteor"@)
    &&& table.contains_key("Crouch"@)
    &&& table.contains_key("LavaBall"@)
    &&& table.contains_key("Apple"@)
}

/// The three maps are well formed and have the sprites that the game
/// animates and the ones it writes into their top rows.
pub open spec fn maps_fit(start: GameMapView, play: GameMapView, end: GameMapView) -> bool {
    &&& start.well_formed()
    &&& play.well_formed()
    &&& end.well_formed()
    &&& start.sprites.len() >= 16
    &&& play.sprites.len() >= 17
    &&& end.sprites.len() >= 35
}

/// The copy that `Sprite::deref` makes of a sprite.
pub open spec fn copy_of(s: SpriteView) -> SpriteView {
    SpriteView { grid: low_codes(s.grid), ..s }
}

/// The five animation tracks built from the sprites of the table.
pub open spec fn initial_tracks(table: Map<Seq<char>, Sprite>) -> Seq<Seq<SpriteView>> {
    let jump = copy_of(table["Jump"@]@);
    let meteor = copy_of(table["Meteor"@]@);
    seq![
        seq![copy_of(table["Stand1"@]@), copy_of(table["Stand2"@]@)],
        seq![copy_of(table["Walk1"@]@), copy_of(table["Walk2"@]@)],
        seq![jump, turned(jump), turned(turned(jump)), turned(turned(turned(jump))), jump],
        seq![meteor, flipped(meteor)],
        seq![copy_of(table["Crouch"@]@)],
    ]
}

/// The character at the start of a session.
pub open spec fn initial(
    width: int,
    height: int,
    table: Map<Seq<char>, Sprite>,
    start: GameMapView,
    play: GameMapView,
    end: GameMapView,
) -> CharacterView {
    CharacterView {
        coord: Coord(9, 8),
        tracks: initial_tracks(table),
        state: State::Stand,
        last_state: State::Stand,
        track: 0,
        height: height,
        width: width,
        dir: Direction::Right,
        last_dir: Direction::Right,
        game_state: GameState::Start,
        it: 0,
        max_it: 200,
        map_start: start,
        map: play,
        map_end: end,
        jump_h: 0,
        max_jump_h: 4,
        left_key: false,
        right_key: false,
        down_key: false,
        ices: Seq::empty(),
        apples: Seq::empty(),
        score: 0,
        lifes: 2,
        lava_ball: copy_of(table["LavaBall"@]@),
        apple: copy_of(table["Apple"@]@),
    }
}

/// The name of a state, as the state display shows it.
pub open spec fn state_name(s: State) -> Seq<char> {
    match s {
        State::Stand => "Stand"@,
        State::Jump(_) => "Jump"@,
        State::Walk(_) => "Walk"@,
        State::Crouch => "Crouch"@,
        State::Fall(_) => "Fall"@,
        State::Meteor => "Meteor"@,
    }
}

impl CharacterView {
    /// The model after the start signal: from the opening screen play
    /// begins; after a lost game a new session begins, with the sprites
    /// facing right again; in play nothing changes.
    pub open spec fn started(self) -> CharacterView {
        match self.game_state {
            GameState::Start => CharacterView {
                game_state: GameState::Play,
                state: State::Stand,
                last_state: State::Stand,
                ..self
            },
            GameState::GameOver => CharacterView {
                tracks: if self.dir == Direction::Left {
                    tracks_flipped(self.tracks)
                } else {
                    self.tracks
                },
                game_state: GameState::Play,
                coord: Coord(9, 8),
                state: State::Stand,
                last_state: State::Stand,
                track: 0,
                dir: Direction::Right,
                last_dir: Direction::Right,
                jump_h: 0,
                ices: Seq::empty(),
                apples: Seq::empty(),
                score: 0,
                lifes: 2,
                ..self
            },
            GameState::Play => self,
        }
    }

    /// The map on show: the opening map before play, the closing map
    /// after a lost game, the play map in between.
    pub open spec fn active_map(self) -> GameMapView {
        match self.game_state {
            GameState::Start => self.map_start,
            GameState::GameOver => self.map_end,
            GameState::Play => self.map,
        }
    }

    /// The sprite of the character in this tick: the tracks' frames take
    /// turns, one per tick.
    pub open spec fn frame(self) -> SpriteView {
        self.tracks[self.track][self.it % (self.tracks[self.track].len() as int)]
    }
}

/// A tracking pass keeps projectiles in flight in flight.
pub proof fn lemma_survivors_in_flight(
    ps: Seq<ProjectileView>,
    c: Coord,
    move_b: bool,
    width: int,
    height: int,
)
    requires
        width <= i32::MAX,
        height <= i32::MAX,
        forall|k: int| 0 <= k < ps.len() ==> in_flight(#[trigger] ps[k], width, height),
    ensures
        forall|k: int|
            0 <= k < survivors(ps, c, move_b).len() ==> in_flight(
                #[trigger] survivors(ps, c, move_b)[k],
                width,
                height,
            ),
    decreases ps.len(),
{
    if ps.len() > 0 {
        let p = ps.last();
        assert(in_flight(p, width, height));
        assert forall|k: int| 0 <= k < ps.drop_last().len() implies in_flight(
            #[trigger] ps.drop_last()[k],
            width,
            height,
        ) by {
            assert(ps.drop_last()[k] == ps[k]);
        }
        lemma_survivors_in_flight(ps.drop_last(), c, move_b, width, height);
        let rest = survivors(ps.drop_last(), c, move_b);
        let all = survivors(ps, c, move_b);
        assert forall|k: int| 0 <= k < all.len() implies in_flight(#[trigger] all[k], width, height) by {
            if k < rest.len() {
                assert(all[k] == rest[k]);
            } else {
                assert(all[k] == after_pass(p, move_b));
            }
        }
    }
}

/// After a tracking pass no projectile of the list is in the player's
/// cell, and none was added.
pub proof fn lemma_survivors_miss(ps: Seq<ProjectileView>, c: Coord, move_b: bool)
    ensures
        survivors(ps, c, move_b).len() <= ps.len(),
        forall|k: int|
            0 <= k < survivors(ps, c, move_b).len() ==> !hits(
                c,
                (#[trigger] survivors(ps, c, move_b)[k]).coord,
            ),
    decreases ps.len(),
{
    if ps.len() > 0 {
        lemma_survivors_miss(ps.drop_last(), c, move_b);
    }
}

/// The decimal digits of the score, the highest first: four of them, with
/// leading zeros, and five from 10000 on.
pub open spec fn score_digits(score: int) -> Seq<int> {
    if score < 10000 {
        seq![score / 1000, score / 100 % 10, score / 10 % 10, score % 10]
    } else {
        seq![score / 10000, score / 1000 % 10, score / 100 % 10, score / 10 % 10, score % 10]
    }
}

/// The top row of the play map with the lives and the score written into
/// it: columns 1 to 18 cleared, one life icon per life from column 1 on,
/// and the digits of the score from column 15 on, digit `d` as cell `d + 8`.
pub open spec fn hud_row(row: Seq<u8>, lifes: int, score: int) -> Seq<u8> {
    let d = score_digits(score);
    Seq::new(
        20,
        |c: int|
            if 15 <= c < 15 + d.len() {
                (d[c - 15] + 8) as u8
            } else if 1 <= c <= lifes {
                LIFE_ICON
            } else if 1 <= c < 19 {
                0u8
            } else {
                row[c]
            },
    )
}

/// The top row of the closing map with the score written into it: its
/// digits from column 8 on, digit `d` as cell `d + 26`.
pub open spec fn score_row(row: Seq<u8>, score: int) -> Seq<u8> {
    let d = score_digits(score);
    Seq::new(
        20,
        |c: int|
            if 8 <= c < 8 + d.len() {
                (d[c - 8] + 26) as u8
            } else {
                row[c]
            },
    )
}

impl CharacterView {
    /// The model with the lives and the score written into the top rows of
    /// the play map and of the closing map.
    pub open spec fn with_hud(self) -> CharacterView {
        CharacterView {
            map: self.map.with_row(0, hud_row(self.map.cells[0], self.lifes, self.score)),
            map_end: self.map_end.with_row(0, score_row(self.map_end.cells[0], self.score)),
            ..self
        }
    }
}

/// The decimal digits of a score.
fn digits_of(score: u16) -> (d: Vec<u8>)
    ensures
        d@.len() == score_digits(score as int).len(),
        forall|k: int| 0 <= k < d@.len() ==> #[trigger] d@[k] == score_digits(score as int)[k],
        forall|k: int| 0 <= k < d@.len() ==> 0 <= #[trigger] score_digits(score as int)[k] <= 9,
{
    let mut d: Vec<u8> = Vec::new();
    if score >= 10000 {
        d.push((score / 10000) as u8);
        d.push((score / 1000 % 10) as u8);
    } else {
        d.push((score / 1000) as u8);
    }
    d.push((score / 100 % 10) as u8);
    d.push((score / 10 % 10) as u8);
    d.push((score % 10) as u8);
    d
}

/// Writes lives and score into the top rows of the two maps.
fn write_hud(map: &mut GameMap, map_end: &mut GameMap, lifes: u8, score: u16)
    requires
        lifes <= 4,
    ensures
        final(map)@ == old(map)@.with_row(0, hud_row(old(map)@.cells[0], lifes as int, score as int)),
        final(map_end)@ == old(map_end)@.with_row(
            0,
            score_row(old(map_end)@.cells[0], score as int),
        ),
{
    assert(map@.cells =~= old(map)@.with_row(0, map@.cells[0]).cells);
    assert(map_end@.cells =~= old(map_end)@.with_row(0, map_end@.cells[0]).cells);
    let mut i: usize = 1;
    while i < 19
        invariant
            1 <= i <= 19,
            map@ == old(map)@.with_row(0, map@.cells[0]),
            map@.cells[0].len() == 20,
            forall|c: int| 1 <= c < i ==> #[trigger] map@.cells[0][c] == 0,
            forall|c: int| 0 <= c < 20 && !(1 <= c < i) ==> #[trigger] map@.cells[0][c] == old(map)@.cells[0][c],
        decreases 19 - i,
    {
        map.set_cell(0, i, 0);
        assert(map@.cells =~= old(map)@.with_row(0, map@.cells[0]).cells);
        i += 1;
    }
    let mut i: usize = 0;
    while i < lifes as usize
        invariant
            lifes <= 4,
            i <= lifes,
            map@ == old(map)@.with_row(0, map@.cells[0]),
            map@.cells[0].len() == 20,
            forall|c: int| 1 <= c <= i ==> #[trigger] map@.cells[0][c] == LIFE_ICON,
            forall|c: int| i < c < 19 ==> #[trigger] map@.cells[0][c] == 0,
            forall|c: int| 0 <= c < 20 && !(1 <= c < 19) ==> #[trigger] map@.cells[0][c] == old(map)@.cells[0][c],
        decreases lifes - i,
    {
        map.set_cell(0, i + 1, LIFE_ICON);
        assert(map@.cells =~= old(map)@.with_row(0, map@.cells[0]).cells);
        i += 1;
    }
    let d = digits_of(score);
    let n = d.len();
    let ghost digits = score_digits(score as int);
    let mut i: usize = 0;
    while i < n
        invariant
            lifes <= 4,
            i <= n,
            n == d@.len(),
            n == digits.len(),
            4 <= n <= 5,
            digits == score_digits(score as int),
            forall|k: int| 0 <= k < n ==> #[trigger] d@[k] == digits[k],
            forall|k: int| 0 <= k < n ==> 0 <= #[trigger] digits[k] <= 9,
            map@ == old(map)@.with_row(0, map@.cells[0]),
            map_end@ == old(map_end)@.with_row(0, map_end@.cells[0]),
            map@.cells[0].len() == 20,
            map_end@.cells[0].len() == 20,
            forall|c: int| 15 <= c < 15 + i ==> #[trigger] map@.cells[0][c] == digits[c - 15] + 8,
            forall|c: int| 1 <= c <= lifes ==> #[trigger] map@.cells[0][c] == LIFE_ICON,
            forall|c: int| lifes < c < 19 && !(15 <= c < 15 + i) ==> #[trigger] map@.cells[0][c] == 0,
            forall|c: int| 0 <= c < 20 && !(1 <= c < 19) && !(15 <= c < 15 + i) ==> #[trigger] map@.cells[0][c] == old(map)@.cells[0][c],
            forall|c: int| 8 <= c < 8 + i ==> #[trigger] map_end@.cells[0][c] == digits[c - 8] + 26,
            forall|c: int| 0 <= c < 20 && !(8 <= c < 8 + i) ==> #[trigger] map_end@.cells[0][c] == old(map_end)@.cells[0][c],
        decreases n - i,
    {
        map.set_cell(0, 15 + i, d[i] + 8);
        map_end.set_cell(0, 8 + i, d[i] + 26);
        assert(map@.cells =~= old(map)@.with_row(0, map@.cells[0]).cells);
        assert(map_end@.cells =~= old(map_end)@.with_row(0, map_end@.cells[0]).cells);
        i += 1;
    }
    assert(map@.cells[0] =~= hud_row(old(map)@.cells[0], lifes as int, score as int));
    assert(map_end@.cells[0] =~= score_row(old(map_end)@.cells[0], score as int));
}

/// The player character and the game around it.
#[derive(Debug)]
pub struct Character {
    coord: Coord,
    sprites: [Vec<Sprite>; 5],
    state: State,
    last_state: State,
    stt_ix: usize,
    height: u32,
    width: u32,
    dir: Direction,
    last_dir: Direction,
    game_state: GameState,
    it: usize,
    max_it: usize,
    map_start: GameMap,
    map: GameMap,
    map_end: GameMap,
    jump_h: u8,
    max_jump_h: u8,
    left_key: bool,
    right_key: bool,
    down_key: bool,
    ices: Vec<Projectile>,
    apples: Vec<Projectile>,
    score: u16,
    lifes: u8,
    lava_ball: Sprite,
    apple: Sprite,
}

/// The views of the sprites of a list.
pub open spec fn views_of(v: Seq<Sprite>) -> Seq<SpriteView> {
    Seq::new(v.len(), |k: int| v[k]@)
}

/// A projectile of the character lies in the field it was launched in,
/// or one column beyond its right edge.
pub open spec fn in_flight(p: ProjectileView, width: int, height: int) -> bool {
    &&& p.x_max == width
    &&& p.y_max == height
    &&& 0 <= p.coord.x <= width
    &&& 0 <= p.coord.y < height
}

impl CharacterView {
    /// What holds of the character between any two calls.
    pub open spec fn well_formed(self) -> bool {
        &&& 9 < self.width <= 20
        &&& self.height == 10
        &&& self.coord.0 < self.width
        &&& self.coord.1 < self.height
        &&& self.tracks.len() == 5
        &&& forall|t: int| 0 <= t < 5 ==> (#[trigger] self.tracks[t]).len() > 0
        &&& 0 <= self.track < 5
        &&& self.max_it == 200
        &&& 0 <= self.it < self.max_it
        &&& self.max_jump_h == 4
        &&& 0 <= self.jump_h <= self.max_jump_h
        &&& 0 <= self.lifes <= 4
        &&& 0 <= self.score <= u16::MAX
        &&& self.map_start.sprites.len() >= 16
        &&& self.map.sprites.len() >= 17
        &&& self.map_end.sprites.len() >= 35
        &&& self.map_start.well_formed()
        &&& self.map.well_formed()
        &&& self.map_end.well_formed()
        &&& is_grid(self.lava_ball.grid)
        &&& codes_in_range(self.lava_ball.grid)
        &&& is_grid(self.apple.grid)
        &&& codes_in_range(self.apple.grid)
        &&& forall|k: int|
            0 <= k < self.ices.len() ==> in_flight(#[trigger] self.ices[k], self.width, self.height)
        &&& forall|k: int|
            0 <= k < self.apples.len() ==> in_flight(
                #[trigger] self.apples[k],
                self.width,
                self.height,
            )
    }
}

impl View for Character {
    type V = CharacterView;

    closed spec fn view(&self) -> CharacterView {
        CharacterView {
            coord: self.coord,
            tracks: Seq::new(5, |t: int| views_of(self.sprites[t]@)),
            state: self.state,
            last_state: self.last_state,
            track: self.stt_ix as int,
            height: self.height as int,
            width: self.width as int,
            dir: self.dir,
            last_dir: self.last_dir,
            game_state: self.game_state,
            it: self.it as int,
            max_it: self.max_it as int,
            map_start: self.map_start@,
            map: self.map@,
            map_end: self.map_end@,
            jump_h: self.jump_h as int,
            max_jump_h: self.max_jump_h as int,
            left_key: self.left_key,
            right_key: self.right_key,
            down_key: self.down_key,
            ices: projectile_views(self.ices@),
            apples: projectile_views(self.apples@),
            score: self.score as int,
            lifes: self.lifes as int,
            lava_ball: self.lava_ball@,
            apple: self.apple@,
        }
    }
}

/// Mirrors one sprite in place.
fn flip_sprite(s: &mut Sprite)
    ensures
        final(s)@ == flipped(old(s)@),
{
    s.map.invert_side();
}

/// Mirrors every sprite of a list in place.
fn flip_sprites(v: &mut Vec<Sprite>)
    ensures
        views_of(final(v)@) == all_flipped(views_of(old(v)@)),
{
    let n = v.len();
    let mut i: usize = 0;
    while i < n
        invariant
            i <= n,
            n == v@.len(),
            n == old(v)@.len(),
            forall|k: int| 0 <= k < i ==> (#[trigger] v@[k])@ == flipped(old(v)@[k]@),
            forall|k: int| i <= k < n ==> #[trigger] v@[k] == old(v)@[k],
        decreases n - i,
    {
        flip_sprite(&mut v[i]);
        i += 1;
    }
}

/// Turns the sprite of every projectile a quarter turn to the right.
fn turn_projectiles(v: &mut Vec<Projectile>)
    ensures
        projectile_views(final(v)@) == all_turned(projectile_views(old(v)@)),
{
    let n = v.len();
    let mut i: usize = 0;
    while i < n
        invariant
            i <= n,
            n == v@.len(),
            n == old(v)@.len(),
            forall|k: int|
                0 <= k < i ==> (#[trigger] v@[k])@ == (ProjectileView {
                    sprite: turned(old(v)@[k]@.sprite),
                    ..old(v)@[k]@
                }),
            forall|k: int| i <= k < n ==> #[trigger] v@[k] == old(v)@[k],
        decreases n - i,
    {
        v[i].spte.map.right_rotate();
        i += 1;
    }
}

/// Mirrors the sprite of every projectile.
fn mirror_projectiles(v: &mut Vec<Projectile>)
    ensures
        projectile_views(final(v)@) == all_mirrored(projectile_views(old(v)@)),
{
    let n = v.len();
    let mut i: usize = 0;
    while i < n
        invariant
            i <= n,
            n == v@.len(),
            n == old(v)@.len(),
            forall|k: int|
                0 <= k < i ==> (#[trigger] v@[k])@ == (ProjectileView {
                    sprite: flipped(old(v)@[k]@.sprite),
                    ..old(v)@[k]@
                }),
            forall|k: int| i <= k < n ==> #[trigger] v@[k] == old(v)@[k],
        decreases n - i,
    {
        v[i].spte.map.invert_side();
        i += 1;
    }
}

/// Mirroring keeps colour codes in range.
proof fn lemma_flipped_in_range(s: SpriteView)
    requires
        is_grid(s.grid),
        codes_in_range(s.grid),
    ensures
        is_grid(flipped(s).grid),
        codes_in_range(flipped(s).grid),
{
    assert forall|r: int, c: int| 0 <= r < 8 && 0 <= c < 8 implies #[trigger] flipped(s).grid[r][c]
        <= 7 by {}
}

/// Writing the display of lives and score keeps the character well
/// formed.
proof fn lemma_hud_keeps_well_formed(v: CharacterView)
    requires
        v.well_formed(),
    ensures
        v.with_hud().well_formed(),
{
    let w = v.with_hud();
    assert forall|r: int, c: int| 0 <= r < 10 && 0 <= c < 20 implies #[trigger] w.map.cells[r][c]
        <= w.map.sprites.len() by {}
    assert forall|r: int, c: int| 0 <= r < 10 && 0 <= c < 20 implies #[trigger] w.map_end.cells[r][c]
        <= w.map_end.sprites.len() by {}
}

/// The name of a state.
fn name_of(s: State) -> (n: &'static str)
    ensures
        n@ == state_name(s),
{
    match s {
        State::Stand => "Stand",
        State::Jump(_dir) => "Jump",
        State::Walk(_dir) => "Walk",
        State::Crouch => "Crouch",
        State::Fall(_dir) => "Fall",
        State::Meteor => "Meteor",
    }
}

/// A copy of the sprite of that name, if the table has one.
fn copy_named(table: &StringHashMap<Sprite>, name: &str) -> (r: Option<Sprite>)
    ensures
        r is Some <==> table@.contains_key(name@),
        r is Some ==> r->0@ == copy_of(table@[name@]@) && codes_in_range(r->0@.grid),
{
    match table.get(name) {
        Some(s) => Some(s.deref()),
        None => None,
    }
}

/// Turns one sprite a quarter turn to the right, in place.
fn turn_sprite(s: &mut Sprite)
    ensures
        final(s)@ == turned(old(s)@),
{
    s.map.right_rotate();
}

/// Whether every projectile of the list is in flight in a field of
/// `width` by `height` cells.
fn all_in_flight(v: &Vec<Projectile>, width: u32, height: u32) -> (ok: bool)
    requires
        width <= 20,
        height <= 10,
    ensures
        ok == (forall|k: int|
            0 <= k < projectile_views(v@).len() ==> in_flight(
                #[trigger] projectile_views(v@)[k],
                width as int,
                height as int,
            )),
{
    let n = v.len();
    let mut i: usize = 0;
    while i < n
        invariant
            i <= n,
            n == v@.len(),
            width <= 20,
            height <= 10,
            forall|k: int|
                0 <= k < i ==> in_flight(
                    #[trigger] projectile_views(v@)[k],
                    width as int,
                    height as int,
                ),
        decreases n - i,
    {
        let p = &v[i];
        if !(p.x_max == width as i32 && p.y_max == height as i32 && 0 <= p.coord.x && p.coord.x
            <= width as i32 && 0 <= p.coord.y && p.coord.y < height as i32) {
            assert(!in_flight(projectile_views(v@)[i as int], width as int, height as int));
            return false;
        }
        i += 1;
    }
    true
}

impl Character {
    /// Sets up the character for a field of `width` by `height` cells,
    /// with copies of the sprites it draws, taken from the table by name,
    /// and with the three maps of a session. The character stands in cell
    /// (9, 8), facing right, with two lives, on the opening screen.
    pub fn new(
        width: u32,
        height: u32,
        sprites: &StringHashMap<Sprite>,
        map_start: GameMap,
        map: GameMap,
        map_end: GameMap,
    ) -> (r: Result<Character, SetupError>)
        ensures
            match r {
                Ok(c) => {
                    &&& field_fits(width as int, height as int)
                    &&& has_sprites(sprites@)
                    &&& maps_fit(map_start@, map@, map_end@)
                    &&& c@ == initial(
                        width as int,
                        height as int,
                        sprites@,
                        map_start@,
                        map@,
                        map_end@,
                    )
                    &&& c@.well_formed()
                },
                Err(SetupError::FieldSize) => !field_fits(width as int, height as int),
                Err(SetupError::MissingSprite) => field_fits(width as int, height as int)
                    && !has_sprites(sprites@),
                Err(SetupError::MapTiles) => field_fits(width as int, height as int) && has_sprites(
                    sprites@,
                ) && !maps_fit(map_start@, map@, map_end@),
            },
    {
        if !(9 < width && width <= 20 && height == 10) {
            return Err(SetupError::FieldSize);
        }
        let stand1 = copy_named(sprites, "Stand1");
        let stand2 = copy_named(sprites, "Stand2");
        let walk1 = copy_named(sprites, "Walk1");
        let walk2 = copy_named(sprites, "Walk2");
        let jump0 = copy_named(sprites, "Jump");
        let jump1 = copy_named(sprites, "Jump");
        let jump2 = copy_named(sprites, "Jump");
        let jump3 = copy_named(sprites, "Jump");
        let jump4 = copy_named(sprites, "Jump");
        let meteor0 = copy_named(sprites, "Meteor");
        let meteor1 = copy_named(sprites, "Meteor");
        let crouch = copy_named(sprites, "Crouch");
        let lava_ball = copy_named(sprites, "LavaBall");
        let apple = copy_named(sprites, "Apple");
        match (
            stand1,
            stand2,
            walk1,
            walk2,
            jump0,
            jump1,
            jump2,
            jump3,
            jump4,
            meteor0,
            meteor1,
            crouch,
            lava_ball,
            apple,
        ) {
            (
                Some(stand1),
                Some(stand2),
                Some(walk1),
                Some(walk2),
                Some(jump0),
                Some(mut jump1),
                Some(mut jump2),
                Some(mut jump3),
                Some(jump4),
                Some(meteor0),
                Some(mut meteor1),
                Some(crouch),
                Some(lava_ball),
                Some(apple),
            ) => {
                if !(map_start.is_well_formed() && map.is_well_formed() && map_end.is_well_formed()
                    && map_start.sprites.len() >= 16 && map.sprites.len() >= 17
                    && map_end.sprites.len() >= 35) {
                    return Err(SetupError::MapTiles);
                }
                let mut standing: Vec<Sprite> = Vec::new();
                standing.push(stand1);
                standing.push(stand2);
                let mut walking: Vec<Sprite> = Vec::new();
                walking.push(walk1);
                walking.push(walk2);
                turn_sprite(&mut jump1);
                turn_sprite(&mut jump2);
                turn_sprite(&mut jump2);
                turn_sprite(&mut jump3);
                turn_sprite(&mut jump3);
                turn_sprite(&mut jump3);
                let mut jumping: Vec<Sprite> = Vec::new();
                jumping.push(jump0);
                jumping.push(jump1);
                jumping.push(jump2);
                jumping.push(jump3);
                jumping.push(jump4);
                flip_sprite(&mut meteor1);
                let mut plunging: Vec<Sprite> = Vec::new();
                plunging.push(meteor0);
                plunging.push(meteor1);
                let mut crouching: Vec<Sprite> = Vec::new();
                crouching.push(crouch);
                let c = Character {
                    coord: Coord(9, 8),
                    sprites: [standing, walking, jumping, plunging, crouching],
                    state: State::Stand,
                    last_state: State::Stand,
                    stt_ix: 0,
                    game_state: GameState::Start,
                    height,
                    width,
                    dir: Direction::Right,
                    last_dir: Direction::Right,
                    it: 0,
                    max_it: 200,
                    map_start,
                    map,
                    map_end,
                    jump_h: 0,
                    max_jump_h: 4,
                    left_key: false,
                    right_key: false,
                    down_key: false,
                    ices: Vec::new(),
                    apples: Vec::new(),
                    score: 0,
                    lifes: 2,
                    lava_ball,
                    apple,
                };
                proof {
                    let want = initial_tracks(sprites@);
                    assert forall|t: int| 0 <= t < 5 implies #[trigger] c@.tracks[t] == want[t] by {}
                    assert(c@.tracks =~= want);
                    assert(c@.ices =~= Seq::empty());
                }
                Ok(c)
            },
            _ => Err(SetupError::MissingSprite),
        }
    }

    /// Whether the character is well formed. It is after `new`, and every
    /// function of the character keeps it so.
    pub fn is_well_formed(&self) -> (ok: bool)
        ensures
            ok == self@.well_formed(),
    {
        proof {
            lemma_view_is_grid(self.lava_ball.map);
            lemma_view_is_grid(self.apple.map);
        }
        let field = 9 < self.width && self.width <= 20 && self.height == 10;
        if !field {
            return false;
        }
        let tracks = self.sprites[0].len() > 0 && self.sprites[1].len() > 0 && self.sprites[2].len()
            > 0 && self.sprites[3].len() > 0 && self.sprites[4].len() > 0;
        proof {
            if tracks {
                assert forall|t: int| 0 <= t < 5 implies (#[trigger] self@.tracks[t]).len() > 0 by {}
            } else {
                let t = if self.sprites[0].len() == 0 {
                    0int
                } else if self.sprites[1].len() == 0 {
                    1int
                } else if self.sprites[2].len() == 0 {
                    2int
                } else if self.sprites[3].len() == 0 {
                    3int
                } else {
                    4int
                };
                assert(self@.tracks[t].len() == self.sprites[t]@.len());
            }
        }
        let counters = self.stt_ix < 5 && self.max_it == 200 && self.it < self.max_it
            && self.max_jump_h == 4 && self.jump_h <= self.max_jump_h && self.lifes <= 4;
        let place = self.coord.0 < self.width && self.coord.1 < self.height;
        let maps = self.map_start.sprites.len() >= 16 && self.map.sprites.len() >= 17
            && self.map_end.sprites.len() >= 35 && self.map_start.is_well_formed()
            && self.map.is_well_formed() && self.map_end.is_well_formed();
        let pictures = self.lava_ball.map.is_in_range() && self.apple.map.is_in_range();
        let hostile = all_in_flight(&self.ices, self.width, self.height);
        let benign = all_in_flight(&self.apples, self.width, self.height);
        let flying = hostile && benign;
        proof {
            let v = self@;
            assert(v.ices == projectile_views(self.ices@));
            assert(v.apples == projectile_views(self.apples@));
        }
        tracks && counters && place && maps && pictures && flying
    }

    /// The state of the state machine.
    pub fn get_state(&self) -> (s: State)
        ensures
            s == self@.state,
    {
        self.state
    }

    /// The state before the last transition.
    pub fn last_state(&self) -> (s: State)
        ensures
            s == self@.last_state,
    {
        self.last_state
    }

    /// The direction of the last movement.
    pub fn get_dir(&self) -> (d: Direction)
        ensures
            d == self@.dir,
    {
        self.dir
    }

    /// The phase of the session.
    pub fn game_state(&self) -> (g: GameState)
        ensures
            g == self@.game_state,
    {
        self.game_state
    }

    /// Records whether the left key is held.
    pub fn set_left_key(&mut self, press: bool)
        ensures
            final(self)@ == (CharacterView { left_key: press, ..old(self)@ }),
            old(self)@.well_formed() ==> final(self)@.well_formed(),
    {
        self.left_key = press;
    }

    /// Records whether the right key is held.
    pub fn set_right_key(&mut self, press: bool)
        ensures
            final(self)@ == (CharacterView { right_key: press, ..old(self)@ }),
            old(self)@.well_formed() ==> final(self)@.well_formed(),
    {
        self.right_key = press;
    }

    /// Moves the state machine to `state`. The state before becomes the
    /// last state, and the animation track follows the new state.
    pub fn set_state(&mut self, state: State)
        ensures
            final(self)@ == old(self)@.with_state(state),
            old(self)@.well_formed() ==> final(self)@.well_formed(),
    {
        self.last_state = self.state;
        self.state = state;
        self.stt_ix = match state {
            State::Stand => 0,
            State::Walk(_d) => 1,
            State::Jump(_d) => 2,
            State::Fall(_d) => 2,
            State::Meteor => 3,
            State::Crouch => 4,
        };
    }

    /// Mirrors every sprite of every animation track.
    pub fn invert_side(&mut self)
        ensures
            final(self)@ == (CharacterView { tracks: tracks_flipped(old(self)@.tracks), ..old(self)@ }),
            old(self)@.well_formed() ==> final(self)@.well_formed(),
    {
        let mut t: usize = 0;
        while t < 5
            invariant
                t <= 5,
                self@ == (CharacterView { tracks: self@.tracks, ..old(self)@ }),
                self@.tracks.len() == 5,
                forall|k: int|
                    0 <= k < t ==> views_of((#[trigger] self.sprites[k])@) == all_flipped(
                        views_of(old(self).sprites[k]@),
                    ),
                forall|k: int| t <= k < 5 ==> #[trigger] self.sprites[k] == old(self).sprites[k],
            decreases 5 - t,
        {
            flip_sprites(&mut self.sprites[t]);
            t += 1;
        }
        assert(self@.tracks =~= tracks_flipped(old(self)@.tracks));
    }

    /// Heads in `dir`. Where `dir` names a side other than the one the
    /// sprites face, they are all mirrored, once, and face that side from
    /// then on.
    pub fn change_dir(&mut self, dir: Direction)
        ensures
            final(self)@ == old(self)@.heading(dir),
            old(self)@.well_formed() ==> final(self)@.well_formed(),
    {
        if self.last_dir != dir && dir != Direction::Neither {
            self.invert_side();
            self.last_dir = dir;
        }
        self.dir = dir;
    }

    /// The left key went down.
    pub fn arrow_left_down(&mut self)
        ensures
            final(self)@ == old(self)@.moved_to(on_left_down(old(self)@.state)),
            old(self)@.well_formed() ==> final(self)@.well_formed(),
    {
        match self.get_state() {
            State::Stand => self.set_state(State::Walk(Direction::Left)),
            State::Jump(_d) => self.set_state(State::Jump(Direction::Left)),
            State::Fall(_d) => self.set_state(State::Fall(Direction::Left)),
            State::Walk(_d) => self.set_state(State::Walk(Direction::Left)),
            _ => {},
        }
    }

    /// The right key went down.
    pub fn arrow_right_down(&mut self)
        ensures
            final(self)@ == old(self)@.moved_to(on_right_down(old(self)@.state)),
            old(self)@.well_formed() ==> final(self)@.well_formed(),
    {
        match self.get_state() {
            State::Stand => self.set_state(State::Walk(Direction::Right)),
            State::Jump(_d) => self.set_state(State::Jump(Direction::Right)),
            State::Fall(_d) => self.set_state(State::Fall(Direction::Right)),
            State::Walk(_d) => self.set_state(State::Walk(Direction::Right)),
            _ => {},
        }
    }

    /// The down key went down.
    pub fn arrow_down_down(&mut self)
        ensures
            final(self)@ == (CharacterView { down_key: true, ..old(self)@ }).moved_to(
                on_down_down(old(self)@.state),
            ),
            old(self)@.well_formed() ==> final(self)@.well_formed(),
    {
        self.down_key = true;
        match self.get_state() {
            State::Stand => self.set_state(State::Crouch),
            State::Jump(_d) => self.set_state(State::Meteor),
            State::Fall(_d) => self.set_state(State::Meteor),
            _ => {},
        }
    }

    /// The up key went down.
    pub fn arrow_up_down(&mut self)
        ensures
            final(self)@ == old(self)@.moved_to(on_up_down(old(self)@.state)),
            old(self)@.well_formed() ==> final(self)@.well_formed(),
    {
        match self.get_state() {
            State::Stand => self.set_state(State::Jump(Direction::Neither)),
            State::Walk(dir) => self.set_state(State::Jump(dir)),
            _ => {},
        }
    }

    /// The left key went up.
    pub fn arrow_left_up(&mut self)
        ensures
            final(self)@ == old(self)@.moved_to(
                on_side_up(old(self)@.state, Direction::Left, old(self)@.right_key),
            ),
            old(self)@.well_formed() ==> final(self)@.well_formed(),
    {
        match self.get_state() {
            State::Walk(dir) => {
                if dir == Direction::Left && !self.right_key {
                    self.set_state(State::Stand);
                }
            },
            State::Jump(dir) => {
                if dir == Direction::Left {
                    self.set_state(State::Jump(Direction::Neither));
                }
            },
            State::Fall(dir) => {
                if dir == Direction::Left {
                    self.set_state(State::Fall(Direction::Neither));
                }
            },
            _ => {},
        }
    }

    /// The right key went up.
    pub fn arrow_right_up(&mut self)
        ensures
            final(self)@ == old(self)@.moved_to(
                on_side_up(old(self)@.state, Direction::Right, old(self)@.left_key),
            ),
            old(self)@.well_formed() ==> final(self)@.well_formed(),
    {
        match self.get_state() {
            State::Walk(dir) => {
                if dir == Direction::Right && !self.left_key {
                    self.set_state(State::Stand);
                }
            },
            State::Jump(dir) => {
                if dir == Direction::Right {
                    self.set_state(State::Jump(Direction::Neither));
                }
            },
            State::Fall(dir) => {
                if dir == Direction::Right {
                    self.set_state(State::Fall(Direction::Neither));
                }
            },
            _ => {},
        }
    }

    /// The down key went up.
    pub fn arrow_down_up(&mut self)
        ensures
            final(self)@ == (CharacterView { down_key: false, ..old(self)@ }).moved_to(
                on_down_up(old(self)@.state),
            ),
            old(self)@.well_formed() ==> final(self)@.well_formed(),
    {
        self.down_key = false;
        match self.get_state() {
            State::Crouch => self.set_state(State::Stand),
            _ => {},
        }
    }

    /// Whether the projectile is in the cell `coord`.
    pub fn crash(coord: &Coord, proj: &Projectile) -> (hit: bool)
        ensures
            hit == hits(*coord, proj.coord),
    {
        coord.0 == #[verifier::truncate] (proj.coord.x as u32) && coord.1
            == #[verifier::truncate] (proj.coord.y as u32)
    }

    /// One tracking pass over a list of projectiles, for a player at
    /// `coord`. With `move_b` every projectile first takes a step. A
    /// projectile whose step left the field, or that is in the player's
    /// cell, is taken off the list; the others stay in their order. Tells
    /// whether any projectile was in the player's cell.
    pub fn keep_track(projectiles: &mut Vec<Projectile>, coord: &Coord, move_b: bool) -> (result:
        bool)
        requires
            move_b ==> forall|k: int|
                0 <= k < old(projectiles)@.len() ==> can_step((#[trigger] old(projectiles)@[k]).coord),
        ensures
            projectile_views(final(projectiles)@) == survivors(
                projectile_views(old(projectiles)@),
                *coord,
                move_b,
            ),
            result == any_hit(projectile_views(old(projectiles)@), *coord, move_b),
    {
        let mut result = false;
        let mut i: usize = 0;
        let ghost all = projectile_views(old(projectiles)@);
        let ghost mut done: int = 0;
        while i < projectiles.len()
            invariant
                0 <= done <= all.len(),
                i <= projectiles@.len(),
                all == projectile_views(old(projectiles)@),
                projectiles@.len() - i == all.len() - done,
                projectile_views(projectiles@).subrange(0, i as int) == survivors(
                    all.subrange(0, done),
                    *coord,
                    move_b,
                ),
                forall|k: int| 0 <= k < all.len() - done ==> #[trigger] projectiles@[i + k] == old(
                    projectiles,
                )@[done + k],
                result == any_hit(all.subrange(0, done), *coord, move_b),
                move_b ==> forall|k: int|
                    0 <= k < old(projectiles)@.len() ==> can_step(
                        (#[trigger] old(projectiles)@[k]).coord,
                    ),
            decreases all.len() - done,
        {
            let ghost before = projectiles@;
            assert(projectiles@[i + 0] == old(projectiles)@[done + 0]);
            let inside = if move_b {
                projectiles[i].next_coord()
            } else {
                true
            };
            let hit = Character::crash(coord, &projectiles[i]);
            proof {
                let head = all.subrange(0, done + 1);
                assert(head.drop_last() =~= all.subrange(0, done));
            }
            if hit {
                result = true;
            }
            if !inside || hit {
                projectiles.remove(i);
                proof {
                    assert forall|k: int| 0 <= k < all.len() - (done + 1) implies #[trigger] projectiles@[i
                        + k] == old(projectiles)@[done + 1 + k] by {
                        assert(before[i + (k + 1)] == old(projectiles)@[done + (k + 1)]);
                    }
                }
            } else {
                proof {
                    assert forall|k: int| 0 <= k < all.len() - (done + 1) implies #[trigger] projectiles@[i
                        + 1 + k] == old(projectiles)@[done + 1 + k] by {
                        assert(before[i + (k + 1)] == old(projectiles)@[done + (k + 1)]);
                    }
                }
                i += 1;
            }
            proof {
                done = done + 1;
            }
        }
        assert(all.subrange(0, done) =~= all);
        result
    }

    /// Writes the lives and the score into the top row of the play map,
    /// and the score into the top row of the closing map.
    pub fn load_hud(&mut self)
        requires
            old(self)@.lifes <= 4,
        ensures
            final(self)@ == old(self)@.with_hud(),
            old(self)@.well_formed() ==> final(self)@.well_formed(),
    {
        write_hud(&mut self.map, &mut self.map_end, self.lifes, self.score);
        proof {
            if old(self)@.well_formed() {
                lemma_hud_keeps_well_formed(old(self)@);
            }
        }
    }

    /// Whether there is no floor under the character. In the lowest row
    /// of the field the answer is no: the row below it is never read.
    pub fn no_floor(&mut self) -> (r: bool)
        requires
            old(self)@.well_formed(),
        ensures
            r == old(self)@.no_floor(),
            final(self)@ == old(self)@,
    {
        self.coord.1 + 1 < self.height && self.map.cell(
            self.coord.1 as usize + 1,
            self.coord.0 as usize,
        ) != FLOOR_TILE
    }

    /// A tracking pass over the hostile projectiles; a hit costs a life
    /// or, with none left, ends the game.
    fn track_hazards(&mut self, move_b: bool)
        requires
            old(self)@.well_formed(),
        ensures
            final(self)@ == old(self)@.hazards_tracked(move_b),
            final(self)@.well_formed(),
    {
        let coord = self.coord;
        proof {
            lemma_survivors_in_flight(self@.ices, coord, move_b, self@.width, self@.height);
            assert forall|k: int| 0 <= k < self.ices@.len() implies can_step(
                (#[trigger] self.ices@[k]).coord,
            ) by {
                assert(in_flight(self@.ices[k], self@.width, self@.height));
            }
        }
        if Character::keep_track(&mut self.ices, &coord, move_b) {
            if self.lifes > 0 {
                self.lifes -= 1;
            } else {
                self.game_state = GameState::GameOver;
            }
        }
    }

    /// A tracking pass over the benign projectiles; a hit scores a point.
    fn track_collectibles(&mut self, move_b: bool)
        requires
            old(self)@.well_formed(),
        ensures
            final(self)@ == old(self)@.collectibles_tracked(move_b),
            final(self)@.well_formed(),
    {
        let coord = self.coord;
        proof {
            lemma_survivors_in_flight(self@.apples, coord, move_b, self@.width, self@.height);
            assert forall|k: int| 0 <= k < self.apples@.len() implies can_step(
                (#[trigger] self.apples@[k]).coord,
            ) by {
                assert(in_flight(self@.apples[k], self@.width, self@.height));
            }
        }
        if Character::keep_track(&mut self.apples, &coord, move_b) {
            if self.score < u16::MAX {
                self.score += 1;
            }
        }
    }

    /// With neither side key held, both count as released.
    fn settle_keys(&mut self)
        requires
            old(self)@.well_formed(),
        ensures
            final(self)@ == old(self)@.keys_settled(),
            final(self)@.well_formed(),
    {
        if !self.left_key && !self.right_key {
            self.arrow_left_up();
            self.arrow_right_up();
        }
    }

    /// Lets a crouching character stand up and pick up an extra life.
    fn settle_crouch(&mut self)
        requires
            old(self)@.well_formed(),
        ensures
            final(self)@ == old(self)@.crouch_settled(),
            final(self)@.well_formed(),
    {
        if self.get_state() == State::Crouch {
            if !self.down_key {
                self.set_state(State::Stand);
            }
            let x = self.coord.0 as usize;
            let y = self.coord.1 as usize;
            if self.map.cell(y, x) == LIFE_TILE && self.lifes < 4 {
                self.lifes += 1;
                self.map.set_cell(y, x, 0);
            }
        }
    }

    /// The column one step from the character's in direction `dir`.
    fn column_beside(&self, dir: Direction) -> (x: u32)
        requires
            self@.well_formed(),
        ensures
            x == beside(self@.coord.0 as int, dir, self@.width),
            x < self@.width,
    {
        match dir {
            Direction::Right => (self.coord.0 + 1) % self.width,
            Direction::Left => (self.coord.0 + self.width - 1) % self.width,
            Direction::Neither => self.coord.0 % self.width,
        }
    }

    /// A step of a walk.
    fn step_walk(&mut self, dir: Direction)
        requires
            old(self)@.well_formed(),
        ensures
            final(self)@ == old(self)@.walked(dir),
            final(self)@.well_formed(),
    {
        self.change_dir(dir);
        let new_coord = Coord(self.column_beside(dir), self.coord.1);
        self.coord = new_coord;
        if self.no_floor() {
            self.set_state(State::Fall(dir));
        }
    }

    /// A step of a jump.
    fn step_jump(&mut self, dir: Direction)
        requires
            old(self)@.well_formed(),
        ensures
            final(self)@ == old(self)@.jumped(dir),
            final(self)@.well_formed(),
    {
        self.change_dir(dir);
        if self.jump_h < self.max_jump_h {
            let coord_y = if self.coord.1 + self.height - 1 < self.height {
                self.coord.1
            } else {
                self.coord.1 - 1
            };
            let new_coord = Coord(self.column_beside(dir), coord_y);
            self.coord = new_coord;
            self.jump_h += 1;
        } else {
            self.set_state(State::Fall(self.dir));
            self.jump_h = 0;
        }
    }

    /// A step of a fall.
    fn step_fall(&mut self, dir: Direction)
        requires
            old(self)@.well_formed(),
        ensures
            final(self)@ == old(self)@.fallen(dir),
            final(self)@.well_formed(),
    {
        self.change_dir(dir);
        if self.no_floor() {
            let new_coord = Coord(self.column_beside(dir), self.coord.1 + 1);
            self.coord = new_coord;
            self.set_state(State::Fall(self.dir));
        } else {
            if self.get_dir() == Direction::Neither {
                self.set_state(State::Stand);
            } else {
                self.set_state(State::Walk(self.get_dir()));
            }
        }
    }

    /// A step of the meteor.
    fn step_meteor(&mut self)
        requires
            old(self)@.well_formed(),
        ensures
            final(self)@ == old(self)@.plunged(),
            final(self)@.well_formed(),
    {
        self.jump_h = 0;
        if self.no_floor() {
            self.coord = Coord(self.coord.0 % self.width, self.coord.1 + 1);
            self.set_state(State::Meteor);
        } else {
            self.set_state(State::Crouch);
        }
    }

    /// The movement of one tick.
    fn step(&mut self)
        requires
            old(self)@.well_formed(),
        ensures
            final(self)@ == old(self)@.moved(),
            final(self)@.well_formed(),
    {
        match self.state {
            State::Walk(dir) => {
                if self.it % 2 == 0 {
                    self.step_walk(dir);
                }
            },
            State::Jump(dir) => {
                if self.it % 2 == 0 {
                    self.step_jump(dir);
                }
            },
            State::Fall(dir) => {
                if self.it % 2 == 0 {
                    self.step_fall(dir);
                }
            },
            State::Meteor => {
                self.step_meteor();
            },
            State::Stand => {
                if self.it % 2 == 0 && self.no_floor() {
                    self.set_state(State::Fall(Direction::Neither));
                }
            },
            _ => (),
        }
    }

    /// Animates the projectiles.
    fn animate_projectiles(&mut self)
        requires
            old(self)@.well_formed(),
        ensures
            final(self)@ == old(self)@.projectiles_animated(),
            final(self)@.well_formed(),
    {
        turn_projectiles(&mut self.ices);
        mirror_projectiles(&mut self.apples);
    }

    /// Animates the scenery of the play map that moves on even ticks.
    fn animate_fast_scenery(&mut self)
        requires
            old(self)@.well_formed(),
        ensures
            final(self)@ == old(self)@.fast_scenery_animated(),
            final(self)@.well_formed(),
    {
        if self.it % 2 == 0 {
            self.map.flip_sprite(6);
        }
    }

    /// Lets the projectiles fly on every fourth tick.
    fn fly_projectiles(&mut self)
        requires
            old(self)@.well_formed(),
        ensures
            final(self)@ == old(self)@.projectiles_flown(),
            final(self)@.well_formed(),
    {
        if self.it % 4 == 0 {
            self.track_hazards(true);
            self.track_collectibles(true);
        }
    }

    /// Animates the scenery of the play map that moves on every tenth tick.
    fn animate_slow_scenery(&mut self)
        requires
            old(self)@.well_formed(),
        ensures
            final(self)@ == old(self)@.slow_scenery_animated(),
            final(self)@.well_formed(),
    {
        if self.it % 10 == 0 {
            self.map.flip_sprite(2);
            self.map.flip_sprite(0);
        }
    }

    /// Launches one hostile and one benign projectile on every twentieth
    /// tick.
    fn launch_projectiles(&mut self, hostile: Roll, benign: Roll)
        requires
            old(self)@.well_formed(),
            0 <= benign.row < 6,
        ensures
            final(self)@ == old(self)@.launched(hostile, benign),
            final(self)@.well_formed(),
    {
        if self.it % 20 == 0 {
            let mut lball = self.lava_ball.deref();
            flip_sprite(&mut lball);
            let mut proj = Projectile::new(&lball);
            proj.shoot_at(
                self.coord.0,
                self.coord.1,
                self.width,
                self.height,
                true,
                hostile.dir,
                hostile.row,
            );
            proof {
                lemma_flipped_in_range(self.lava_ball@);
                assert(low_codes(lball@.grid) =~~= lball@.grid);
            }
            self.ices.push(proj);
            let apl = self.apple.deref();
            let mut proj = Projectile::new(&apl);
            proj.shoot_at(
                self.coord.0,
                self.coord.1,
                self.width,
                self.height,
                false,
                benign.dir,
                benign.row,
            );
            self.apples.push(proj);
            proof {
                assert(self@.ices =~= old(self)@.ices.push(old(self)@.hostile_shot(hostile)));
                assert(self@.apples =~= old(self)@.apples.push(old(self)@.benign_shot(benign)));
            }
        }
    }

    /// Counts the tick.
    fn count_tick(&mut self)
        requires
            old(self)@.well_formed(),
        ensures
            final(self)@ == old(self)@.counted(),
            final(self)@.well_formed(),
    {
        self.it = if self.it < self.max_it - 1 {
            self.it + 1
        } else {
            0
        };
    }

    /// One tick outside play.
    fn idle(&mut self)
        requires
            old(self)@.well_formed(),
        ensures
            final(self)@ == old(self)@.idled(),
            final(self)@.well_formed(),
    {
        if self.it % 2 == 0 {
            self.map_start.flip_sprite(14);
            self.map_end.flip_sprite(23);
            self.map_end.flip_sprite(7);
        }
        if self.it % 10 == 0 {
            self.map_start.flip_sprite(15);
            self.map_start.flip_sprite(12);
            self.map_end.flip_sprite(9);
            self.map_end.flip_sprite(24);
        }
        self.count_tick();
    }

    /// Advances the game by one tick. Outside play only the scenery of
    /// the opening and closing maps moves. In play the tick writes the
    /// display of lives and score, checks both lists of projectiles for a
    /// hit, lets the state machine move the character, animates sprites,
    /// lets the projectiles fly on every fourth tick and launches two new
    /// ones on every twentieth, for which `hostile` and `benign` hold the
    /// numbers drawn. Tells whether the state display is due: whether play
    /// went on and the tick changed the state.
    pub fn update(&mut self, hostile: Roll, benign: Roll) -> (redraw: bool)
        requires
            old(self)@.well_formed(),
            0 <= benign.row < 6,
        ensures
            final(self)@ == old(self)@.ticked(hostile, benign),
            final(self)@.well_formed(),
            redraw == final(self)@.shows_change_since(old(self)@.game_state, old(self)@.state),
    {
        if self.game_state == GameState::Start || self.game_state == GameState::GameOver {
            self.idle();
            return false;
        }
        let phase = self.game_state;
        let before = self.state;
        self.load_hud();
        self.track_hazards(false);
        self.track_collectibles(false);
        self.settle_keys();
        self.settle_crouch();
        self.step();
        self.animate_projectiles();
        self.animate_fast_scenery();
        self.fly_projectiles();
        self.animate_slow_scenery();
        self.launch_projectiles(hostile, benign);
        self.count_tick();
        self.display_due_since(phase, before)
    }

    /// Whether the state display is due, for a character that was in phase
    /// `phase` and in state `state` before the key event or the tick just
    /// done: only if play went on and the state changed.
    pub fn display_due_since(&self, phase: GameState, state: State) -> (due: bool)
        ensures
            due == self@.shows_change_since(phase, state),
    {
        phase == GameState::Play && self.game_state == GameState::Play && self.state != state
    }

    /// The start signal.
    pub fn start(&mut self)
        requires
            old(self)@.well_formed(),
        ensures
            final(self)@ == old(self)@.started(),
            final(self)@.well_formed(),
    {
        if self.game_state == GameState::Start {
            self.game_state = GameState::Play;
            self.state = State::Stand;
            self.last_state = State::Stand;
        } else if self.game_state == GameState::GameOver {
            if self.dir == Direction::Left {
                self.invert_side();
            }
            self.game_state = GameState::Play;
            self.coord = Coord(9, 8);
            self.state = State::Stand;
            self.last_state = State::Stand;
            self.stt_ix = 0;
            self.dir = Direction::Right;
            self.last_dir = Direction::Right;
            self.jump_h = 0;
            self.ices.clear();
            self.apples.clear();
            self.score = 0;
            self.lifes = 2;
            proof {
                assert(self@.ices =~= Seq::empty());
            }
        }
    }

    /// The text of the last transition: the names of the last state and
    /// of the state, with an arrow between them.
    pub fn get_transition(&self) -> (t: String)
        ensures
            t@ == state_name(self@.last_state) + " -> "@ + state_name(self@.state),
    {
        let mut t = String::from_str(name_of(self.last_state));
        t.append(" -> ");
        t.append(name_of(self.state));
        t
    }

    /// The cell of the character.
    pub fn position(&self) -> (c: Coord)
        ensures
            c == self@.coord,
    {
        self.coord
    }

    /// The score.
    pub fn score(&self) -> (n: u16)
        ensures
            n == self@.score,
    {
        self.score
    }

    /// The lives left.
    pub fn lives(&self) -> (n: u8)
        ensures
            n == self@.lifes,
    {
        self.lifes
    }

    /// The map on show.
    pub fn active_map(&self) -> (m: &GameMap)
        ensures
            m@ == self@.active_map(),
    {
        match self.game_state {
            GameState::Start => &self.map_start,
            GameState::GameOver => &self.map_end,
            GameState::Play => &self.map,
        }
    }

    /// The sprite of the character in this tick.
    pub fn frame(&self) -> (s: &Sprite)
        requires
            self@.well_formed(),
        ensures
            s@ == self@.frame(),
    {
        let track = &self.sprites[self.stt_ix];
        assert(track@.len() == self@.tracks[self.stt_ix as int].len());
        &track[self.it % track.len()]
    }

    /// The hostile projectiles in flight, the oldest first.
    pub fn hazards(&self) -> (v: &Vec<Projectile>)
        ensures
            projectile_views(v@) == self@.ices,
    {
        &self.ices
    }

    /// The benign projectiles in flight, the oldest first.
    pub fn collectibles(&self) -> (v: &Vec<Projectile>)
        ensures
            projectile_views(v@) == self@.apples,
    {
        &self.apples
    }
}

/// The sprites turn round at most once for a heading: heading the same
/// way again changes nothing.
pub proof fn lemma_heading_again(v: CharacterView, dir: Direction)
    ensures
        !v.heading(dir).turns_round(dir),
        v.heading(dir).heading(dir) == v.heading(dir),
{
}

/// Heading towards the side that the sprites face, or towards no side,
/// leaves every sprite as it is; heading towards the other side mirrors
/// every sprite exactly once.
pub proof fn lemma_heading_sprites(v: CharacterView, dir: Direction)
    ensures
        (dir == v.last_dir || dir == Direction::Neither) ==> v.heading(dir).tracks == v.tracks,
        (dir != v.last_dir && dir != Direction::Neither) ==> v.heading(dir).tracks
            == tracks_flipped(v.tracks),
{
}

/// A walk that goes on in the direction the sprites face does not mirror
/// them; a walk that turns round mirrors them in its first step and never
/// in the next one.
pub proof fn lemma_walk_turns_sprites_once(v: CharacterView, dir: Direction)
    requires
        dir != Direction::Neither,
    ensures
        v.last_dir == dir ==> v.walked(dir).tracks == v.tracks,
        v.last_dir != dir ==> v.walked(dir).tracks == tracks_flipped(v.tracks),
        v.walked(dir).walked(dir).tracks == v.walked(dir).tracks,
{
}

/// In the lowest row of the field there is a floor under the character,
/// whatever the map holds: the row below the field is never looked at.
pub proof fn lemma_floor_under_lowest_row(v: CharacterView)
    requires
        v.coord.1 + 1 >= v.height,
    ensures
        !v.no_floor(),
{
}

/// The movement of a tick keeps the character in the field.
pub proof fn lemma_moved_stays_in_field(v: CharacterView)
    requires
        v.well_formed(),
    ensures
        v.moved().coord.0 < v.width,
        v.moved().coord.1 < v.height,
        v.moved().width == v.width,
        v.moved().height == v.height,
{
    let x = v.coord.0 as int;
}

/// A projectile in the player's cell is taken off the list by a tracking
/// pass that does not move, and the pass reports the hit.
pub proof fn lemma_hit_is_reported(ps: Seq<ProjectileView>, c: Coord, k: int)
    requires
        0 <= k < ps.len(),
        hits(c, ps[k].coord),
    ensures
        any_hit(ps, c, false),
        survivors(ps, c, false).len() < ps.len(),
    decreases ps.len(),
{
    lemma_survivors_miss(ps.drop_last(), c, false);
    if k < ps.len() - 1 {
        lemma_hit_is_reported(ps.drop_last(), c, k);
    }
}

/// For a projectile in the field, being in the player's cell means having
/// the player's coordinates.
pub proof fn lemma_hits_in_field(c: Coord, p: ProjectileCoord)
    requires
        0 <= p.x,
        0 <= p.y,
    ensures
        hits(c, p) <==> (c.0 == p.x && c.1 == p.y),
{
}

/// A tracking pass over the hostile projectiles keeps the character well
/// formed.
pub proof fn lemma_hazards_tracked_well_formed(v: CharacterView, move_b: bool)
    requires
        v.well_formed(),
    ensures
        v.hazards_tracked(move_b).well_formed(),
{
    lemma_survivors_in_flight(v.ices, v.coord, move_b, v.width, v.height);
}

/// A tracking pass over the benign projectiles keeps the character well
/// formed.
pub proof fn lemma_collectibles_tracked_well_formed(v: CharacterView, move_b: bool)
    requires
        v.well_formed(),
    ensures
        v.collectibles_tracked(move_b).well_formed(),
{
    lemma_survivors_in_flight(v.apples, v.coord, move_b, v.width, v.height);
}

/// The movement of a tick keeps the character well formed.
pub proof fn lemma_moved_well_formed(v: CharacterView)
    requires
        v.well_formed(),
    ensures
        v.moved().well_formed(),
{
    lemma_moved_stays_in_field(v);
    let m = v.moved();
    assert forall|t: int| 0 <= t < 5 implies (#[trigger] m.tracks[t]).len() > 0 by {}
}

/// A launch puts both new projectiles in the field.
pub proof fn lemma_launched_well_formed(v: CharacterView, hostile: Roll, benign: Roll)
    requires
        v.well_formed(),
        0 <= benign.row < 6,
    ensures
        v.launched(hostile, benign).well_formed(),
{
    let w = v.launched(hostile, benign);
    if v.it % 20 == 0 {
        assert forall|k: int| 0 <= k < w.ices.len() implies in_flight(
            #[trigger] w.ices[k],
            w.width,
            w.height,
        ) by {
            if k < v.ices.len() {
                assert(w.ices[k] == v.ices[k]);
            }
        }
        assert forall|k: int| 0 <= k < w.apples.len() implies in_flight(
            #[trigger] w.apples[k],
            w.width,
            w.height,
        ) by {
            if k < v.apples.len() {
                assert(w.apples[k] == v.apples[k]);
            }
        }
    }
}

/// Settling the side keys and the crouch keeps the character well formed.
pub proof fn lemma_settled_well_formed(v: CharacterView)
    requires
        v.well_formed(),
    ensures
        v.keys_settled().well_formed(),
        v.crouch_settled().well_formed(),
{
    let x = v.coord.0 as int;
    let y = v.coord.1 as int;
    let m = v.map.with_cell(y, x, 0);
    assert forall|r: int, c: int| 0 <= r < 10 && 0 <= c < 20 implies #[trigger] m.cells[r][c]
        <= m.sprites.len() by {}
}

/// Animating sprites keeps the character well formed.
pub proof fn lemma_animated_well_formed(v: CharacterView)
    requires
        v.well_formed(),
    ensures
        v.projectiles_animated().well_formed(),
        v.fast_scenery_animated().well_formed(),
        v.slow_scenery_animated().well_formed(),
{
    let w = v.projectiles_animated();
    assert forall|k: int| 0 <= k < w.ices.len() implies in_flight(
        #[trigger] w.ices[k],
        w.width,
        w.height,
    ) by {}
    assert forall|k: int| 0 <= k < w.apples.len() implies in_flight(
        #[trigger] w.apples[k],
        w.width,
        w.height,
    ) by {}
    lemma_flip_keeps_map(v.map, 6);
    lemma_flip_keeps_map(v.map, 2);
    lemma_flip_keeps_map(v.map.with_sprite_flipped(2), 0);
}

/// Mirroring a sprite of a well-formed map leaves the map well formed,
/// with as many sprites.
pub proof fn lemma_flip_keeps_map(m: GameMapView, k: int)
    requires
        m.well_formed(),
        0 <= k < m.sprites.len(),
    ensures
        m.with_sprite_flipped(k).well_formed(),
        m.with_sprite_flipped(k).sprites.len() == m.sprites.len(),
{
    let w = m.with_sprite_flipped(k);
    assert forall|r: int, c: int| 0 <= r < 10 && 0 <= c < 20 implies #[trigger] w.cells[r][c]
        <= w.sprites.len() by {}
}

/// The flight of the projectiles keeps the character well formed.
pub proof fn lemma_flown_well_formed(v: CharacterView)
    requires
        v.well_formed(),
    ensures
        v.projectiles_flown().well_formed(),
{
    lemma_hazards_tracked_well_formed(v, true);
    lemma_collectibles_tracked_well_formed(v.hazards_tracked(true), true);
}

/// A tick outside play keeps the character well formed.
pub proof fn lemma_idled_well_formed(v: CharacterView)
    requires
        v.well_formed(),
    ensures
        v.idled().well_formed(),
{
    lemma_flip_keeps_map(v.map_start, 14);
    lemma_flip_keeps_map(v.map_end, 23);
    lemma_flip_keeps_map(v.map_end.with_sprite_flipped(23), 7);
    let a = if v.it % 2 == 0 {
        CharacterView {
            map_start: v.map_start.with_sprite_flipped(14),
            map_end: v.map_end.with_sprite_flipped(23).with_sprite_flipped(7),
            ..v
        }
    } else {
        v
    };
    lemma_flip_keeps_map(a.map_start, 15);
    lemma_flip_keeps_map(a.map_start.with_sprite_flipped(15), 12);
    lemma_flip_keeps_map(a.map_end, 9);
    lemma_flip_keeps_map(a.map_end.with_sprite_flipped(9), 24);
}

/// A tick keeps the character well formed: in particular it stays in the
/// field, every projectile stays in the field, and the maps refer to
/// sprites they have.
pub proof fn lemma_ticked_well_formed(v: CharacterView, hostile: Roll, benign: Roll)
    requires
        v.well_formed(),
        0 <= benign.row < 6,
    ensures
        v.ticked(hostile, benign).well_formed(),
{
    if v.game_state == GameState::Play {
        let a = v.with_hud();
        lemma_hud_keeps_well_formed(v);
        let b = a.hazards_tracked(false);
        lemma_hazards_tracked_well_formed(a, false);
        let c = b.collectibles_tracked(false);
        lemma_collectibles_tracked_well_formed(b, false);
        let d = c.keys_settled();
        lemma_settled_well_formed(c);
        let e = d.crouch_settled();
        lemma_settled_well_formed(d);
        let f = e.moved();
        lemma_moved_well_formed(e);
        let g = f.projectiles_animated();
        lemma_animated_well_formed(f);
        let h = g.fast_scenery_animated();
        lemma_animated_well_formed(g);
        let i = h.projectiles_flown();
        lemma_flown_well_formed(h);
        let j = i.slow_scenery_animated();
        lemma_animated_well_formed(i);
        let k = j.launched(hostile, benign);
        lemma_launched_well_formed(j, hostile, benign);
        lemma_counted_well_formed(k);
    } else {
        lemma_idled_well_formed(v);
    }
}

/// Counting the tick keeps the character well formed.
pub proof fn lemma_counted_well_formed(v: CharacterView)
    requires
        v.well_formed(),
    ensures
        v.counted().well_formed(),
{
}

/// A tracking pass in which a hostile projectile is in the player's cell
/// costs exactly one life while there is one; with none left it ends the
/// game and the lives stay at 0. A pass without a hit changes neither.
pub proof fn lemma_hazard_hit_costs_a_life(v: CharacterView, move_b: bool)
    requires
        0 <= v.lifes,
    ensures
        any_hit(v.ices, v.coord, move_b) && v.lifes > 0 ==> v.hazards_tracked(move_b).lifes
            == v.lifes - 1 && v.hazards_tracked(move_b).game_state == v.game_state,
        any_hit(v.ices, v.coord, move_b) && v.lifes == 0 ==> v.hazards_tracked(move_b).lifes == 0
            && v.hazards_tracked(move_b).game_state == GameState::GameOver,
        !any_hit(v.ices, v.coord, move_b) ==> v.hazards_tracked(move_b).lifes == v.lifes
            && v.hazards_tracked(move_b).game_state == v.game_state,
        v.hazards_tracked(move_b).score == v.score,
{
}

/// A tracking pass in which a benign projectile is in the player's cell
/// scores exactly one point, unless the score is at its highest; a pass
/// without a hit scores none. The lives are not touched.
pub proof fn lemma_collected_scores_a_point(v: CharacterView, move_b: bool)
    ensures
        any_hit(v.apples, v.coord, move_b) && v.score < u16::MAX ==> v.collectibles_tracked(
            move_b,
        ).score == v.score + 1,
        !any_hit(v.apples, v.coord, move_b) ==> v.collectibles_tracked(move_b).score == v.score,
        v.collectibles_tracked(move_b).lifes == v.lifes,
        v.collectibles_tracked(move_b).game_state == v.game_state,
{
}

} // verus!
