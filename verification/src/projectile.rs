//! Projectiles: where one is launched from and how it flies.
//!
//! A hostile projectile comes down on the player, straight or along a
//! diagonal; a benign one crosses the field horizontally. After the launch
//! the direction never changes: every step moves one cell along it, until
//! the projectile reaches the edge of the field.

use crate::sprite::Sprite;
use vstd::prelude::*;

verus! {

/// The direction of a flight.
#[derive(Debug, PartialEq, Eq, Copy, Clone, Structural)]
pub enum ProjectileDirection {
    Down,
    Left,
    Right,
    DownLeft,
    DownRight,
}

/// Where a projectile is and where it is heading.
#[derive(Debug, PartialEq, Eq, Copy, Clone, Structural)]
pub struct ProjectileCoord {
    pub x: i32,
    pub y: i32,
    pub dir: ProjectileDirection,
}

/// A projectile: its place, its picture and the size of the field it was
/// launched in.
#[derive(Debug)]
pub struct Projectile {
    pub coord: ProjectileCoord,
    pub spte: Sprite,
    pub x_max: i32,
    pub y_max: i32,
}

/// The two numbers drawn for a launch: `dir` (0, 1 or 2) picks the path,
/// `row` (0 to 5) the row of a benign projectile.
#[derive(Debug, PartialEq, Eq, Copy, Clone, Structural)]
pub struct Roll {
    pub dir: i8,
    pub row: i32,
}

/// The horizontal part of a direction: -1, 0 or 1.
pub open spec fn dx(dir: ProjectileDirection) -> int {
    match dir {
        ProjectileDirection::Left | ProjectileDirection::DownLeft => -1,
        ProjectileDirection::Right | ProjectileDirection::DownRight => 1,
        ProjectileDirection::Down => 0,
    }
}

/// The vertical part of a direction: 1 where it goes down, else 0.
pub open spec fn dy(dir: ProjectileDirection) -> int {
    match dir {
        ProjectileDirection::Down | ProjectileDirection::DownLeft | ProjectileDirection::DownRight => 1,
        _ => 0,
    }
}

/// The machine's numbers have room for the next step: for the column
/// before `x` where the direction goes left, for the one after it where it
/// goes right, and for the row below `y` where it goes down.
pub open spec fn can_step(c: ProjectileCoord) -> bool {
    &&& dx(c.dir) == -1 ==> c.x > i32::MIN
    &&& dx(c.dir) == 1 ==> c.x < i32::MAX
    &&& dy(c.dir) == 1 ==> c.y < i32::MAX
}

/// The next step would leave the field sideways: below column 0 going
/// left, beyond column `x_max` going right.
pub open spec fn x_blocked(c: ProjectileCoord, x_max: int) -> bool {
    (dx(c.dir) == -1 && c.x - 1 < 0) || (dx(c.dir) == 1 && c.x + 1 > x_max)
}

/// The next step would land on row `y_max`, the first one below the field.
pub open spec fn y_blocked(c: ProjectileCoord, y_max: int) -> bool {
    dy(c.dir) == 1 && c.y + 1 == y_max
}

/// The projectile is still in the field after its next step.
pub open spec fn stays_inside(c: ProjectileCoord, x_max: int, y_max: int) -> bool {
    !x_blocked(c, x_max) && !y_blocked(c, y_max)
}

/// The place after one step: each coordinate moves along the direction
/// unless that would leave the field, in which case it stays.
pub open spec fn stepped(c: ProjectileCoord, x_max: int, y_max: int) -> ProjectileCoord {
    ProjectileCoord {
        x: if x_blocked(c, x_max) { c.x } else { (c.x + dx(c.dir)) as i32 },
        y: if y_blocked(c, y_max) { c.y } else { (c.y + dy(c.dir)) as i32 },
        dir: c.dir,
    }
}

/// The place after `n` steps.
pub open spec fn stepped_times(c: ProjectileCoord, x_max: int, y_max: int, n: nat) -> ProjectileCoord
    decreases n,
{
    if n == 0 {
        c
    } else {
        stepped(stepped_times(c, x_max, y_max, (n - 1) as nat), x_max, y_max)
    }
}

/// How far a diagonal launch point lies from the player: the first offset,
/// counted from 0, at which the point reaches the side edge (`side` cells
/// away) or comes within the two top rows.
pub open spec fn diagonal_reach(side: int, y: int) -> int {
    let up = if y - 1 > 0 { y - 1 } else { 0 };
    if side < up { side } else { up }
}

/// The launch point of a hostile projectile aimed at the player at
/// `(x, y)`: straight above in row 1, or up to nine cells away along a
/// diagonal, from the left for path 1 and from the right for path 2. A
/// diagonal that would need ten cells or more starts at the origin.
pub open spec fn hostile_launch(x: int, y: int, x_max: int, rand_dir: int) -> ProjectileCoord {
    if rand_dir == 1 {
        let k = diagonal_reach(x, y);
        if k < 10 {
            ProjectileCoord { x: (x - k) as i32, y: (y - k) as i32, dir: ProjectileDirection::DownRight }
        } else {
            ProjectileCoord { x: 0, y: 0, dir: ProjectileDirection::DownRight }
        }
    } else if rand_dir == 2 {
        let k = diagonal_reach(x_max - 1 - x, y);
        if k < 10 {
            ProjectileCoord { x: (x + k) as i32, y: (y - k) as i32, dir: ProjectileDirection::DownLeft }
        } else {
            ProjectileCoord { x: 0, y: 0, dir: ProjectileDirection::DownLeft }
        }
    } else {
        ProjectileCoord { x: x as i32, y: 1, dir: ProjectileDirection::Down }
    }
}

/// The launch point of a benign projectile: in row `rand_y + 2`, at the
/// left edge flying right for path 1, else at the right edge flying left.
pub open spec fn benign_launch(x_max: int, rand_dir: int, rand_y: int) -> ProjectileCoord {
    if rand_dir == 1 {
        ProjectileCoord { x: 0, y: (rand_y + 2) as i32, dir: ProjectileDirection::Right }
    } else {
        ProjectileCoord { x: (x_max - 1) as i32, y: (rand_y + 2) as i32, dir: ProjectileDirection::Left }
    }
}

/// The launch point that `shoot_at` chooses.
pub open spec fn launch(
    x: int,
    y: int,
    x_max: int,
    kill: bool,
    rand_dir: int,
    rand_y: int,
) -> ProjectileCoord {
    if kill {
        hostile_launch(x, y, x_max, rand_dir)
    } else {
        benign_launch(x_max, rand_dir, rand_y)
    }
}

impl Projectile {
    /// A projectile at the origin, heading down, in a field of size zero,
    /// with its own copy of the sprite.
    pub fn new(spte: &Sprite) -> (p: Projectile)
        ensures
            p.coord == (ProjectileCoord { x: 0, y: 0, dir: ProjectileDirection::Down }),
            p.x_max == 0,
            p.y_max == 0,
            p.spte@.colors == spte@.colors,
            p.spte@.grid == crate::bitmap::low_codes(spte@.grid),
    {
        let spte = spte.deref();
        let coord = ProjectileCoord { x: 0, y: 0, dir: ProjectileDirection::Down };
        Projectile { coord, spte, x_max: 0, y_max: 0 }
    }

    /// Launches the projectile in a field of `x_max` by `y_max` cells, for a
    /// player at `(x, y)`. `kill` tells a hostile from a benign one;
    /// `rand_dir` (0, 1 or 2) picks the path and `rand_y` (0 to 5) the row
    /// of a benign one.
    pub fn shoot_at(
        &mut self,
        x: u32,
        y: u32,
        x_max: u32,
        y_max: u32,
        kill: bool,
        rand_dir: i8,
        rand_y: i32,
    )
        requires
            x < x_max <= i32::MAX,
            y < y_max <= i32::MAX,
            !kill ==> 0 <= rand_y < 6,
        ensures
            final(self).coord == launch(x as int, y as int, x_max as int, kill, rand_dir as int, rand_y as int),
            final(self).x_max == x_max,
            final(self).y_max == y_max,
            final(self).spte == old(self).spte,
    {
        let x_max = x_max as i32;
        let y_max = y_max as i32;
        let x = x as i32;
        let y = y as i32;
        self.x_max = x_max;
        self.y_max = y_max;
        self.coord = if kill {
            match rand_dir {
                1 => {
                    let mut x_in: i32 = 0;
                    let mut y_in: i32 = 0;
                    let mut i: i32 = 0;
                    while i < 10
                        invariant_except_break
                            0 <= i <= 10,
                            x_in == 0,
                            y_in == 0,
                            i <= diagonal_reach(x as int, y as int),
                        invariant
                            0 <= x,
                            0 <= y,
                        ensures
                            (ProjectileCoord { x: x_in, y: y_in, dir: ProjectileDirection::DownRight })
                                == hostile_launch(x as int, y as int, x_max as int, 1),
                        decreases 10 - i,
                    {
                        if x - i < 1 || y - i < 2 {
                            x_in = x - i;
                            y_in = y - i;
                            break ;
                        }
                        i += 1;
                    }
                    ProjectileCoord { x: x_in, y: y_in, dir: ProjectileDirection::DownRight }
                },
                2 => {
                    let mut x_in: i32 = 0;
                    let mut y_in: i32 = 0;
                    let mut i: i32 = 0;
                    while i < 10
                        invariant_except_break
                            0 <= i <= 10,
                            x_in == 0,
                            y_in == 0,
                            i <= diagonal_reach(x_max - 1 - x, y as int),
                        invariant
                            0 <= x < x_max,
                            0 <= y,
                        ensures
                            (ProjectileCoord { x: x_in, y: y_in, dir: ProjectileDirection::DownLeft })
                                == hostile_launch(x as int, y as int, x_max as int, 2),
                        decreases 10 - i,
                    {
                        if x + i == x_max - 1 || y - i < 2 {
                            x_in = x + i;
                            y_in = y - i;
                            break ;
                        }
                        i += 1;
                    }
                    ProjectileCoord { x: x_in, y: y_in, dir: ProjectileDirection::DownLeft }
                },
                _ => ProjectileCoord { x: x, y: 1, dir: ProjectileDirection::Down },
            }
        } else {
            match rand_dir {
                1 => ProjectileCoord { x: 0, y: rand_y + 2, dir: ProjectileDirection::Right },
                _ => ProjectileCoord { x: x_max - 1, y: rand_y + 2, dir: ProjectileDirection::Left },
            }
        }
    }

    /// Moves the projectile one step along its direction and tells whether
    /// it is still in the field. A coordinate that would leave the field
    /// stays as it is.
    pub fn next_coord(&mut self) -> (result: bool)
        requires
            can_step(old(self).coord),
        ensures
            final(self).coord == stepped(old(self).coord, old(self).x_max as int, old(self).y_max as int),
            result == stays_inside(old(self).coord, old(self).x_max as int, old(self).y_max as int),
            final(self).x_max == old(self).x_max,
            final(self).y_max == old(self).y_max,
            final(self).spte == old(self).spte,
    {
        let mut result = true;
        match self.coord.dir {
            ProjectileDirection::Down => {
                if self.coord.y + 1 == self.y_max {
                    result = false;
                } else {
                    self.coord.y = self.coord.y + 1;
                }
            },
            ProjectileDirection::Left => {
                if self.coord.x - 1 < 0 {
                    result = false;
                } else {
                    self.coord.x = self.coord.x - 1;
                }
            },
            ProjectileDirection::Right => {
                if self.coord.x + 1 > self.x_max {
                    result = false;
                } else {
                    self.coord.x = self.coord.x + 1;
                }
            },
            ProjectileDirection::DownLeft => {
                if self.coord.x - 1 < 0 {
                    result = false;
                } else {
                    self.coord.x = self.coord.x - 1;
                }
                if self.coord.y + 1 == self.y_max {
                    result = false;
                } else {
                    self.coord.y = self.coord.y + 1;
                }
            },
            ProjectileDirection::DownRight => {
                if self.coord.x + 1 > self.x_max {
                    result = false;
                } else {
                    self.coord.x = self.coord.x + 1;
                }
                if self.coord.y + 1 == self.y_max {
                    result = false;
                } else {
                    self.coord.y = self.coord.y + 1;
                }
            },
        };
        result
    }
}

/// A projectile flying left reports that it left the field exactly when
/// its next step would take it below column 0, and never before. A step
/// that stays inside takes it one column to the left; the row is kept.
pub proof fn lemma_left_leaves_below_zero(c: ProjectileCoord, x_max: int, y_max: int)
    requires
        c.dir == ProjectileDirection::Left,
        can_step(c),
    ensures
        stays_inside(c, x_max, y_max) <==> c.x - 1 >= 0,
        stepped(c, x_max, y_max).x == if stays_inside(c, x_max, y_max) {
            c.x - 1
        } else {
            c.x as int
        },
        stepped(c, x_max, y_max).y == c.y,
        stepped(c, x_max, y_max).dir == c.dir,
{
}

/// A projectile flying straight down reports that it left the field
/// exactly when its next step would take it to row `y_max`. A step that
/// stays inside takes it one row down and keeps it above row `y_max`; the
/// column is kept.
pub proof fn lemma_down_leaves_at_the_last_row(c: ProjectileCoord, x_max: int, y_max: int)
    requires
        c.dir == ProjectileDirection::Down,
        can_step(c),
    ensures
        stays_inside(c, x_max, y_max) <==> c.y + 1 != y_max,
        stepped(c, x_max, y_max).y == if stays_inside(c, x_max, y_max) {
            c.y + 1
        } else {
            c.y as int
        },
        stepped(c, x_max, y_max).x == c.x,
        stepped(c, x_max, y_max).dir == c.dir,
        c.y < y_max ==> stepped(c, x_max, y_max).y < y_max,
{
}

/// A projectile on a diagonal reports that it left the field exactly when
/// its next step would take it beyond a side edge or to row `y_max`. Each
/// coordinate moves unless its own move would leave the field.
pub proof fn lemma_diagonal_step(c: ProjectileCoord, x_max: int, y_max: int)
    requires
        c.dir == ProjectileDirection::DownLeft || c.dir == ProjectileDirection::DownRight,
        can_step(c),
    ensures
        c.dir == ProjectileDirection::DownLeft ==> (stays_inside(c, x_max, y_max) <==> c.x - 1 >= 0
            && c.y + 1 != y_max),
        c.dir == ProjectileDirection::DownRight ==> (stays_inside(c, x_max, y_max) <==> c.x + 1
            <= x_max && c.y + 1 != y_max),
        c.dir == ProjectileDirection::DownLeft ==> stepped(c, x_max, y_max).x == if c.x >= 1 {
            c.x - 1
        } else {
            c.x as int
        },
        c.dir == ProjectileDirection::DownRight ==> stepped(c, x_max, y_max).x == if c.x + 1
            <= x_max {
            c.x + 1
        } else {
            c.x as int
        },
        stepped(c, x_max, y_max).y == if c.y + 1 != y_max { c.y + 1 } else { c.y as int },
        stepped(c, x_max, y_max).dir == c.dir,
{
}

/// The room that a step needs depends on the direction alone: a
/// projectile flying left may be at the highest column and in the highest
/// row, one flying straight down in any column.
pub proof fn lemma_room_by_direction(c: ProjectileCoord)
    ensures
        c.dir == ProjectileDirection::Left ==> (can_step(c) <==> c.x > i32::MIN),
        c.dir == ProjectileDirection::Right ==> (can_step(c) <==> c.x < i32::MAX),
        c.dir == ProjectileDirection::Down ==> (can_step(c) <==> c.y < i32::MAX),
        c.dir == ProjectileDirection::DownLeft ==> (can_step(c) <==> c.x > i32::MIN && c.y
            < i32::MAX),
        c.dir == ProjectileDirection::DownRight ==> (can_step(c) <==> c.x < i32::MAX && c.y
            < i32::MAX),
{
}

/// A projectile flying left from column `c.x` of the field is one column
/// further left after each of its first `c.x` steps, in the same row, and
/// every one of those steps stays inside; the step after them is the first
/// that reports it outside.
pub proof fn lemma_left_flight(c: ProjectileCoord, x_max: int, y_max: int, n: nat)
    requires
        c.dir == ProjectileDirection::Left,
        0 <= c.x,
        n <= c.x,
    ensures
        stepped_times(c, x_max, y_max, n) == (ProjectileCoord { x: (c.x - n) as i32, ..c }),
        stays_inside(stepped_times(c, x_max, y_max, n), x_max, y_max) <==> n < c.x,
    decreases n,
{
    if n > 0 {
        lemma_left_flight(c, x_max, y_max, (n - 1) as nat);
    }
}

} // verus!
