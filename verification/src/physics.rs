//! The simulation: steering, collision and gravity.
//!
//! These systems run while the level is played and stand still while it is
//! edited.

use crate::components::{
    EditState, FallingBlock, Hitbox, Moveable, PlatformController, Position, Rectangle, Triggerbox,
};
use crate::fixed::{fx_add, fx_add_spec, fx_mul, fx_mul_spec, fx_sub, fx_sub_spec, UNIT};
use crate::world::{ComponentsView, Entity, EntityView, World, WorldView};
use vstd::prelude::*;

verus! {

/// Frames after leaving the ground during which a jump is still granted.
pub const MAX_COYOTE_TIME: i64 = 15 * UNIT;

/// Seconds a jump takes to reach its top.
pub const TIME_TO_JUMP_HEIGHT: i64 = 550;

/// Height of a jump, in world units.
pub const JUMP_HEIGHT: i64 = 66 * UNIT;

/// Horizontal speed of a steered body, in world units per second.
pub const HOZ_SPEED: i64 = 200 * UNIT;

/// Downward acceleration, in world units per second squared:
/// `2 * JUMP_HEIGHT / TIME_TO_JUMP_HEIGHT^2`, so that a jump reaches
/// `JUMP_HEIGHT` after `TIME_TO_JUMP_HEIGHT`.
pub const GRAVITY: i64 = 436_363;

/// Upward speed at the start of a jump: `GRAVITY * TIME_TO_JUMP_HEIGHT`.
pub const JUMP_VELOCITY: i64 = 239_999;

/// Gap left between a body and the obstacle it was stopped by.
pub const PADDING: i64 = 50;

/// The derived constants are what their formulas give, rounded toward zero to
/// whole thousandths.
pub proof fn lemma_constants()
    ensures
        GRAVITY == (2 * JUMP_HEIGHT * UNIT * UNIT) / (TIME_TO_JUMP_HEIGHT * TIME_TO_JUMP_HEIGHT),
        JUMP_VELOCITY == (GRAVITY * TIME_TO_JUMP_HEIGHT) / (UNIT as int),
{
    assert(2 * JUMP_HEIGHT * UNIT * UNIT == 132_000_000_000);
    assert(TIME_TO_JUMP_HEIGHT * TIME_TO_JUMP_HEIGHT == 302_500);
    assert(132_000_000_000int / 302_500 == 436_363);
    assert(GRAVITY * TIME_TO_JUMP_HEIGHT == 239_999_650);
}

/// What one body carries through the obstacles of a frame.
#[derive(Debug, Clone, Copy, PartialEq, Eq, Structural)]
pub struct Body {
    pub velocity: Position,
    /// Vertical position of the body's top edge.
    pub y: i64,
    pub controller: Option<PlatformController>,
    /// Whether the horizontal move was blocked.
    pub hit_x: bool,
    /// Whether the vertical move was blocked.
    pub hit_y: bool,
}

/// Where the body would be after moving along X alone.
pub open spec fn candidate_x(h: Hitbox, m: Moveable, dt: i64) -> Rectangle {
    Rectangle {
        x: fx_add_spec(h.position.x, fx_mul_spec(m.velocity.x, dt)),
        y: h.position.y,
        width: h.width,
        height: h.height,
    }
}

/// Where the body would be after moving along Y alone.
pub open spec fn candidate_y(h: Hitbox, m: Moveable, dt: i64) -> Rectangle {
    Rectangle {
        x: h.position.x,
        y: fx_add_spec(h.position.y, fx_mul_spec(m.velocity.y, dt)),
        width: h.width,
        height: h.height,
    }
}

/// A controller that has just touched ground.
pub open spec fn grounded() -> PlatformController {
    PlatformController { can_jump: true, coyote_time: 0 }
}

/// A controller after one more frame in the air.
pub open spec fn airborne(c: PlatformController) -> PlatformController {
    PlatformController { can_jump: false, coyote_time: fx_add_spec(c.coyote_time, UNIT) }
}

impl Body {
    /// The body before it has met any obstacle.
    pub open spec fn start(h: Hitbox, m: Moveable, c: Option<PlatformController>) -> Body {
        Body { velocity: m.velocity, y: h.position.y, controller: c, hit_x: false, hit_y: false }
    }

    /// Whether the vertical candidate lies below the body, so that a blocked
    /// vertical move is a landing.
    pub open spec fn lands(self, cand_y: Rectangle) -> bool {
        cand_y.y > self.y
    }

    /// The body after it has been held against one obstacle. An overlap of the
    /// horizontal candidate stops the body along X. An overlap of the vertical
    /// candidate stops it along Y and moves it clear of the obstacle: on top of
    /// it when the body was on its way down, which is a landing, and below it
    /// otherwise.
    pub open spec fn collide_spec(
        self,
        cand_x: Rectangle,
        cand_y: Rectangle,
        height: i64,
        obstacle: Rectangle,
    ) -> Body {
        let along_x = if cand_x.overlaps(obstacle) {
            Body { hit_x: true, velocity: Position { x: 0, y: self.velocity.y }, ..self }
        } else {
            self
        };
        if cand_y.overlaps(obstacle) {
            if self.lands(cand_y) {
                Body {
                    hit_y: true,
                    velocity: Position { x: along_x.velocity.x, y: 0 },
                    y: fx_sub_spec(fx_sub_spec(obstacle.y, height), PADDING),
                    controller: if self.controller is Some {
                        Some(grounded())
                    } else {
                        None
                    },
                    ..along_x
                }
            } else {
                Body {
                    hit_y: true,
                    velocity: Position { x: along_x.velocity.x, y: 0 },
                    y: fx_add_spec(fx_add_spec(obstacle.y, obstacle.height), PADDING),
                    ..along_x
                }
            }
        } else {
            along_x
        }
    }

    /// Holds the body against one obstacle.
    pub fn collide(
        self,
        cand_x: &Rectangle,
        cand_y: &Rectangle,
        height: i64,
        obstacle: &Rectangle,
    ) -> (body: Body)
        ensures
            body == self.collide_spec(*cand_x, *cand_y, height, *obstacle),
    {
        let mut body = self;
        if cand_x.check_collision_recs(obstacle) {
            body.hit_x = true;
            body.velocity.x = 0;
        }
        if cand_y.check_collision_recs(obstacle) {
            body.hit_y = true;
            body.velocity.y = 0;
            if cand_y.y > self.y {
                body.y = fx_sub(fx_sub(obstacle.y, height), PADDING);
                if body.controller.is_some() {
                    body.controller = Some(PlatformController { can_jump: true, coyote_time: 0 });
                }
            } else {
                body.y = fx_add(fx_add(obstacle.y, obstacle.height), PADDING);
            }
        }
        body
    }
}

/// Whether row `j` stands in the way of the body in row `i`.
pub open spec fn is_obstacle(w: WorldView, i: int, j: int) -> bool {
    j != i && w.visible(j) && w.get(j).data.hitbox is Some
}

/// Whether row `i` is a body: a visible entity that moves and has a hitbox.
pub open spec fn is_body(w: WorldView, i: int) -> bool {
    w.visible(i) && w.get(i).data.moveable is Some && w.get(i).data.hitbox is Some
}

/// Every visible entity that moves has a hitbox.
pub open spec fn bodies_have_hitboxes(w: WorldView) -> bool {
    forall|i: int|
        0 <= i < w.entities.len() && (#[trigger] w.entities[i]).visible()
            && w.entities[i].data.moveable is Some ==> w.entities[i].data.hitbox is Some
}

/// The body of row `i` after it has been held against the obstacles among the
/// first `n` rows.
pub open spec fn resolve_upto(w: WorldView, i: int, dt: i64, n: int) -> Body
    decreases n,
{
    let h = w.get(i).data.hitbox->0;
    let m = w.get(i).data.moveable->0;
    if n <= 0 {
        Body::start(h, m, w.get(i).data.controller)
    } else {
        let before = resolve_upto(w, i, dt, n - 1);
        if is_obstacle(w, i, n - 1) {
            before.collide_spec(
                candidate_x(h, m, dt),
                candidate_y(h, m, dt),
                h.height,
                w.get(n - 1).data.hitbox->0.rectangle(),
            )
        } else {
            before
        }
    }
}

/// The hitbox of a body at the end of its frame. An axis that was not blocked
/// takes its candidate position.
pub open spec fn moved_hitbox(body: Body, h: Hitbox, m: Moveable, dt: i64) -> Hitbox {
    Hitbox {
        position: Position {
            x: if body.hit_x {
                h.position.x
            } else {
                candidate_x(h, m, dt).x
            },
            y: if body.hit_y {
                body.y
            } else {
                fx_add_spec(body.y, fx_mul_spec(body.velocity.y, dt))
            },
        },
        ..h
    }
}

/// The velocity of a body at the end of its frame. A body that was not blocked
/// along Y is pulled down by gravity.
pub open spec fn moved_velocity(body: Body, dt: i64) -> Position {
    Position {
        x: body.velocity.x,
        y: if body.hit_y {
            body.velocity.y
        } else {
            fx_add_spec(body.velocity.y, fx_mul_spec(GRAVITY, dt))
        },
    }
}

/// The controller of a body at the end of its frame. A body that was not
/// blocked along Y is in the air.
pub open spec fn moved_controller(body: Body) -> Option<PlatformController> {
    match body.controller {
        Some(c) => if body.hit_y {
            Some(c)
        } else {
            Some(airborne(c))
        },
        None => None,
    }
}

/// The world after the body in row `i`, if there is one, has made its move.
pub open spec fn step_body(w: WorldView, i: int, dt: i64) -> WorldView {
    if is_body(w, i) {
        let h = w.get(i).data.hitbox->0;
        let m = w.get(i).data.moveable->0;
        let body = resolve_upto(w, i, dt, w.entities.len() as int);
        w.with_hitbox(i, Some(moved_hitbox(body, h, m, dt))).with_moveable(
            i,
            Some(Moveable { velocity: moved_velocity(body, dt), ..m }),
        ).with_controller(i, moved_controller(body))
    } else {
        w
    }
}

/// The world after the bodies among the first `n` rows have made their moves,
/// one after the other.
pub open spec fn collision_pass(w: WorldView, dt: i64, n: int) -> WorldView
    decreases n,
{
    if n <= 0 {
        w
    } else {
        step_body(collision_pass(w, dt, n - 1), n - 1, dt)
    }
}

/// Whether row `j` is an obstacle that the horizontal candidate of body `i`
/// runs into.
pub open spec fn hits_x(w: WorldView, i: int, dt: i64, j: int) -> bool {
    is_obstacle(w, i, j) && candidate_x(
        w.get(i).data.hitbox->0,
        w.get(i).data.moveable->0,
        dt,
    ).overlaps(w.get(j).data.hitbox->0.rectangle())
}

/// Whether row `j` is an obstacle that the vertical candidate of body `i`
/// runs into.
pub open spec fn hits_y(w: WorldView, i: int, dt: i64, j: int) -> bool {
    is_obstacle(w, i, j) && candidate_y(
        w.get(i).data.hitbox->0,
        w.get(i).data.moveable->0,
        dt,
    ).overlaps(w.get(j).data.hitbox->0.rectangle())
}

/// Whether body `i` lands on row `j`: it runs into it from above, as the body
/// stands when it gets to that row.
pub open spec fn lands_on(w: WorldView, i: int, dt: i64, j: int) -> bool {
    hits_y(w, i, dt, j) && resolve_upto(w, i, dt, j).lands(
        candidate_y(w.get(i).data.hitbox->0, w.get(i).data.moveable->0, dt),
    )
}

/// Whether the horizontal move of body `i` is blocked within the first `n`
/// rows.
pub open spec fn blocked_x(w: WorldView, i: int, dt: i64, n: int) -> bool {
    exists|j: int| 0 <= j < n && hits_x(w, i, dt, j)
}

/// Whether the vertical move of body `i` is blocked within the first `n`
/// rows.
pub open spec fn blocked_y(w: WorldView, i: int, dt: i64, n: int) -> bool {
    exists|j: int| 0 <= j < n && hits_y(w, i, dt, j)
}

/// Whether body `i` lands on one of the first `n` rows.
pub open spec fn landed(w: WorldView, i: int, dt: i64, n: int) -> bool {
    exists|j: int| 0 <= j < n && lands_on(w, i, dt, j)
}

proof fn lemma_blocked_step(w: WorldView, i: int, dt: i64, n: int)
    requires
        n > 0,
    ensures
        blocked_x(w, i, dt, n) == (blocked_x(w, i, dt, n - 1) || hits_x(w, i, dt, n - 1)),
        blocked_y(w, i, dt, n) == (blocked_y(w, i, dt, n - 1) || hits_y(w, i, dt, n - 1)),
        landed(w, i, dt, n) == (landed(w, i, dt, n - 1) || lands_on(w, i, dt, n - 1)),
{
    if blocked_x(w, i, dt, n) {
        let j = choose|j: int| 0 <= j < n && hits_x(w, i, dt, j);
        if j < n - 1 {
            assert(blocked_x(w, i, dt, n - 1));
        }
    }
    if blocked_x(w, i, dt, n - 1) {
        let j = choose|j: int| 0 <= j < n - 1 && hits_x(w, i, dt, j);
        assert(hits_x(w, i, dt, j));
    }
    if blocked_y(w, i, dt, n) {
        let j = choose|j: int| 0 <= j < n && hits_y(w, i, dt, j);
        if j < n - 1 {
            assert(blocked_y(w, i, dt, n - 1));
        }
    }
    if blocked_y(w, i, dt, n - 1) {
        let j = choose|j: int| 0 <= j < n - 1 && hits_y(w, i, dt, j);
        assert(hits_y(w, i, dt, j));
    }
    if landed(w, i, dt, n) {
        let j = choose|j: int| 0 <= j < n && lands_on(w, i, dt, j);
        if j < n - 1 {
            assert(landed(w, i, dt, n - 1));
        }
    }
    if landed(w, i, dt, n - 1) {
        let j = choose|j: int| 0 <= j < n - 1 && lands_on(w, i, dt, j);
        assert(lands_on(w, i, dt, j));
    }
}

/// What the body of row `i` has become after the first `n` rows, told by
/// which rows its candidates ran into.
pub proof fn lemma_resolve(w: WorldView, i: int, dt: i64, n: int)
    requires
        0 <= n,
    ensures
        ({
            let body = resolve_upto(w, i, dt, n);
            let h = w.get(i).data.hitbox->0;
            let m = w.get(i).data.moveable->0;
            let c = w.get(i).data.controller;
            &&& body.hit_x == blocked_x(w, i, dt, n)
            &&& body.hit_y == blocked_y(w, i, dt, n)
            &&& body.velocity.x == if body.hit_x {
                0
            } else {
                m.velocity.x
            }
            &&& body.velocity.y == if body.hit_y {
                0
            } else {
                m.velocity.y
            }
            &&& !body.hit_y ==> body.y == h.position.y
            &&& landed(w, i, dt, n) ==> body.hit_y
            &&& body.controller == if landed(w, i, dt, n) && c is Some {
                Some(grounded())
            } else {
                c
            }
        }),
    decreases n,
{
    if n > 0 {
        lemma_resolve(w, i, dt, n - 1);
        lemma_blocked_step(w, i, dt, n);
    } else {
        assert(!blocked_x(w, i, dt, n));
        assert(!blocked_y(w, i, dt, n));
        assert(!landed(w, i, dt, n));
    }
}

/// Each axis is resolved on its own. A body is stopped along X exactly when
/// its horizontal candidate overlaps an obstacle, and along Y exactly when its
/// vertical candidate does. Along an axis that is not blocked the body takes
/// its candidate position, whatever happens along the other axis; along a
/// blocked axis its velocity is zero, and along X it stays where it was.
pub proof fn law_axes_resolve_apart(w: WorldView, i: int, dt: i64)
    requires
        is_body(w, i),
    ensures
        ({
            let n = w.entities.len() as int;
            let h = w.get(i).data.hitbox->0;
            let m = w.get(i).data.moveable->0;
            let after = step_body(w, i, dt).get(i).data;
            &&& after.hitbox is Some && after.moveable is Some
            &&& blocked_x(w, i, dt, n) ==> after.moveable->0.velocity.x == 0
                && after.hitbox->0.position.x == h.position.x
            &&& !blocked_x(w, i, dt, n) ==> after.moveable->0.velocity.x == m.velocity.x
                && after.hitbox->0.position.x == candidate_x(h, m, dt).x
            &&& blocked_y(w, i, dt, n) ==> after.moveable->0.velocity.y == 0
            &&& !blocked_y(w, i, dt, n) ==> after.moveable->0.velocity.y == fx_add_spec(
                m.velocity.y,
                fx_mul_spec(GRAVITY, dt),
            ) && after.hitbox->0.position.y == candidate_y(h, m, dt).y
        }),
{
    lemma_resolve(w, i, dt, w.entities.len() as int);
}

/// A controller is set to "may jump, no coyote time" in exactly the frames in
/// which its body lands on an obstacle. A frame in which the body only bumps
/// its head leaves the controller as it was, and a frame without a vertical
/// collision counts as one more frame in the air.
pub proof fn law_landing_grants_jump(w: WorldView, i: int, dt: i64)
    requires
        is_body(w, i),
        w.get(i).data.controller is Some,
    ensures
        ({
            let n = w.entities.len() as int;
            let c = w.get(i).data.controller->0;
            let after = step_body(w, i, dt).get(i).data.controller;
            &&& landed(w, i, dt, n) ==> after == Some(grounded())
            &&& blocked_y(w, i, dt, n) && !landed(w, i, dt, n) ==> after == Some(c)
            &&& !blocked_y(w, i, dt, n) ==> after == Some(airborne(c))
        }),
{
    lemma_resolve(w, i, dt, w.entities.len() as int);
}

/// Moves the bodies and resolves their collisions.
pub struct CollisionHandling;

impl CollisionHandling {
    /// Moves the body `entity` by one frame of `dt` seconds.
    pub fn step(world: &mut World, entity: Entity, dt: i64)
        requires
            old(world).wf(),
        ensures
            final(world).wf(),
            final(world)@ == step_body(old(world)@, entity.index as int, dt),
    {
        if !world.is_visible(entity) {
            return ;
        }
        let (m, h) = match (world.moveable(entity), world.hitbox(entity)) {
            (Some(m), Some(h)) => (m, h),
            _ => {
                return ;
            },
        };
        let cand_x = Rectangle {
            x: fx_add(h.position.x, fx_mul(m.velocity.x, dt)),
            y: h.position.y,
            width: h.width,
            height: h.height,
        };
        let cand_y = Rectangle {
            x: h.position.x,
            y: fx_add(h.position.y, fx_mul(m.velocity.y, dt)),
            width: h.width,
            height: h.height,
        };
        let mut body = Body {
            velocity: m.velocity,
            y: h.position.y,
            controller: world.controller(entity),
            hit_x: false,
            hit_y: false,
        };
        let n = world.len();
        let mut j: usize = 0;
        while j < n
            invariant
                j <= n,
                n == world@.entities.len(),
                world@ == old(world)@,
                world@.get(entity.index as int).data.hitbox == Some(h),
                world@.get(entity.index as int).data.moveable == Some(m),
                cand_x == candidate_x(h, m, dt),
                cand_y == candidate_y(h, m, dt),
                body == resolve_upto(world@, entity.index as int, dt, j as int),
            decreases n - j,
        {
            let other = Entity { index: j };
            if j != entity.index && world.is_visible(other) {
                if let Some(o) = world.hitbox(other) {
                    body = body.collide(&cand_x, &cand_y, h.height, &o.to_rectangle());
                }
            }
            j = j + 1;
        }
        let x = if body.hit_x {
            h.position.x
        } else {
            cand_x.x
        };
        let mut velocity = body.velocity;
        let mut y = body.y;
        let mut controller = body.controller;
        if !body.hit_y {
            if let Some(c) = controller {
                controller = Some(
                    PlatformController { can_jump: false, coyote_time: fx_add(c.coyote_time, UNIT) },
                );
            }
            y = fx_add(y, fx_mul(velocity.y, dt));
            velocity.y = fx_add(velocity.y, fx_mul(GRAVITY, dt));
        }
        world.set_hitbox(
            entity,
            Some(Hitbox { position: Position { x, y }, width: h.width, height: h.height }),
        );
        world.set_moveable(entity, Some(Moveable { velocity, width: m.width, height: m.height }));
        world.set_controller(entity, controller);
    }

    /// Whether every visible entity that moves has a hitbox, as `run` asks.
    pub fn ready(world: &World) -> (ready: bool)
        ensures
            ready == bodies_have_hitboxes(world@),
    {
        let n = world.len();
        let mut i: usize = 0;
        while i < n
            invariant
                i <= n,
                n == world@.entities.len(),
                forall|j: int|
                    0 <= j < i && (#[trigger] world@.entities[j]).visible()
                        && world@.entities[j].data.moveable is Some
                        ==> world@.entities[j].data.hitbox is Some,
            decreases n - i,
        {
            let entity = Entity { index: i };
            if world.is_visible(entity) && world.moveable(entity).is_some() && world.hitbox(
                entity,
            ).is_none() {
                assert(world@.entities[i as int].visible());
                return false;
            }
            i = i + 1;
        }
        true
    }

    /// Runs one frame of `dt` seconds: every body moves, in the order of the
    /// rows, against the hitboxes of all other entities as they stand at its
    /// turn. While the level is edited nothing moves.
    ///
    /// An entity that moves but has no hitbox is a fault of the caller, who
    /// has to rule it out; `ready` tells whether there is one.
    pub fn run(&mut self, edit_state: &EditState, world: &mut World, dt: i64)
        requires
            old(world).wf(),
            bodies_have_hitboxes(old(world)@),
        ensures
            final(world).wf(),
            edit_state.editing ==> final(world)@ == old(world)@,
            !edit_state.editing ==> final(world)@ == collision_pass(
                old(world)@,
                dt,
                old(world)@.entities.len() as int,
            ),
    {
        if edit_state.editing {
            return ;
        }
        let n = world.len();
        let mut i: usize = 0;
        while i < n
            invariant
                i <= n,
                n == old(world)@.entities.len(),
                world.wf(),
                world@.entities.len() == n,
                world@ == collision_pass(old(world)@, dt, i as int),
            decreases n - i,
        {
            Self::step(world, Entity { index: i }, dt);
            i = i + 1;
        }
    }
}

/// How a steered body is driven by the keys.
pub open spec fn steer(row: EntityView, left: bool, right: bool, jump: bool) -> EntityView {
    if row.visible() && row.data.controller is Some && row.data.moveable is Some {
        let c = row.data.controller->0;
        let m = row.data.moveable->0;
        let jumping = jump && (c.can_jump || c.coyote_time < MAX_COYOTE_TIME);
        EntityView {
            data: ComponentsView {
                moveable: Some(
                    Moveable {
                        velocity: Position {
                            x: if left {
                                (-HOZ_SPEED) as i64
                            } else if right {
                                HOZ_SPEED
                            } else {
                                0
                            },
                            y: if jumping {
                                (-JUMP_VELOCITY) as i64
                            } else {
                                m.velocity.y
                            },
                        },
                        ..m
                    },
                ),
                controller: Some(
                    if jumping {
                        PlatformController { can_jump: false, coyote_time: MAX_COYOTE_TIME }
                    } else {
                        c
                    },
                ),
                ..row.data
            },
            ..row
        }
    } else {
        row
    }
}

/// The world after every steered body has taken the keys of this frame.
pub open spec fn steer_all(w: WorldView, left: bool, right: bool, jump: bool) -> WorldView {
    WorldView {
        entities: Seq::new(w.entities.len(), |i: int| steer(w.entities[i], left, right, jump)),
        ..w
    }
}

/// Steering takes no hitbox away from a body.
pub proof fn lemma_steering_keeps_hitboxes(w: WorldView, left: bool, right: bool, jump: bool)
    requires
        bodies_have_hitboxes(w),
    ensures
        bodies_have_hitboxes(steer_all(w, left, right, jump)),
{
    let after = steer_all(w, left, right, jump);
    assert forall|i: int|
        0 <= i < after.entities.len() && (#[trigger] after.entities[i]).visible()
            && after.entities[i].data.moveable is Some implies after.entities[i].data.hitbox is Some by {
        assert(w.entities[i].visible());
    }
}

/// Turns the keys into the velocity of the steered bodies.
pub struct InputHandling;

impl InputHandling {
    /// Takes the keys of one frame: `left` and `right` set the horizontal
    /// speed, and `jump` starts a jump for a body that may jump or whose
    /// coyote time has not run out. While the level is edited nothing happens.
    pub fn run(
        &mut self,
        edit_state: &EditState,
        world: &mut World,
        left: bool,
        right: bool,
        jump: bool,
    )
        requires
            old(world).wf(),
        ensures
            final(world).wf(),
            edit_state.editing ==> final(world)@ == old(world)@,
            !edit_state.editing ==> final(world)@ == steer_all(old(world)@, left, right, jump),
    {
        if edit_state.editing {
            return ;
        }
        let n = world.len();
        let mut i: usize = 0;
        while i < n
            invariant
                i <= n,
                n == old(world)@.entities.len(),
                world.wf(),
                world@.entities.len() == n,
                world@.next_marker == old(world)@.next_marker,
                forall|j: int|
                    0 <= j < i ==> (#[trigger] world@.entities[j]) == steer(
                        old(world)@.entities[j],
                        left,
                        right,
                        jump,
                    ),
                forall|j: int|
                    i <= j < n ==> (#[trigger] world@.entities[j]) == old(world)@.entities[j],
            decreases n - i,
        {
            let entity = Entity { index: i };
            let ghost before = world@;
            if world.is_visible(entity) {
                if let (Some(c), Some(m)) = (world.controller(entity), world.moveable(entity)) {
                    let mut velocity = m.velocity;
                    velocity.x = if left {
                        -HOZ_SPEED
                    } else if right {
                        HOZ_SPEED
                    } else {
                        0
                    };
                    let mut controller = c;
                    if jump && (c.can_jump || c.coyote_time < MAX_COYOTE_TIME) {
                        velocity.y = -JUMP_VELOCITY;
                        controller.can_jump = false;
                        controller.coyote_time = MAX_COYOTE_TIME;
                    }
                    world.set_moveable(
                        entity,
                        Some(Moveable { velocity, width: m.width, height: m.height }),
                    );
                    world.set_controller(entity, Some(controller));
                }
            }
            assert(world@.entities[i as int] == steer(before.entities[i as int], left, right, jump));
            assert(forall|j: int|
                0 <= j < n && j != i ==> (#[trigger] world@.entities[j]) == before.entities[j]);
            i = i + 1;
        }
        assert(world@.entities =~= steer_all(old(world)@, left, right, jump).entities);
    }
}

/// Frames a falling block waits, once triggered, before it drops.
pub const MAX_FALL_COUNT: u32 = 80;

/// Whether row `j` is a player whose hitbox reaches into `trigger`.
pub open spec fn touches(w: WorldView, trigger: Triggerbox, j: int) -> bool {
    &&& w.visible(j)
    &&& w.get(j).data.controller is Some
    &&& w.get(j).data.hitbox matches Some(h)
    &&& h.rectangle().overlaps(trigger.rectangle())
}

/// Whether some player reaches into `trigger`.
pub open spec fn triggered(w: WorldView, trigger: Triggerbox) -> bool {
    exists|j: int| 0 <= j < w.entities.len() && touches(w, trigger, j)
}

/// Whether the row is a falling block that has not dropped yet.
pub open spec fn is_waiting_block(row: EntityView) -> bool {
    &&& row.visible()
    &&& row.data.triggerbox is Some
    &&& row.data.falling_block is Some
    &&& row.data.moveable is None
}

/// One frame in the life of a falling block. At rest, it is set off when a
/// player touches its trigger. Once set off, it counts the frames up to
/// `MAX_FALL_COUNT`, and then becomes a body that gravity takes hold of.
pub open spec fn fall_step(row: EntityView, touched: bool) -> EntityView {
    if is_waiting_block(row) {
        let block = row.data.falling_block->0;
        if !block.should_fall {
            if touched {
                EntityView {
                    data: ComponentsView {
                        falling_block: Some(FallingBlock { should_fall: true, ..block }),
                        ..row.data
                    },
                    ..row
                }
            } else {
                row
            }
        } else if block.count <= MAX_FALL_COUNT {
            EntityView {
                data: ComponentsView {
                    falling_block: Some(FallingBlock { count: (block.count + 1) as u32, ..block }),
                    ..row.data
                },
                ..row
            }
        } else {
            EntityView {
                data: ComponentsView { moveable: Some(Moveable::fresh()), ..row.data },
                ..row
            }
        }
    } else {
        row
    }
}

/// Whether the block in row `i`, if it is one, has a player at its trigger.
pub open spec fn touched_at(w: WorldView, i: int) -> bool {
    w.get(i).data.triggerbox matches Some(t) && triggered(w, t)
}

/// The world after every falling block has lived through one frame.
pub open spec fn fall_all(w: WorldView) -> WorldView {
    WorldView {
        entities: Seq::new(w.entities.len(), |i: int| fall_step(w.entities[i], touched_at(w, i))),
        ..w
    }
}

/// A block is set off only by a player at its trigger, and once set off it
/// stays so.
pub proof fn law_set_off_by_player(w: WorldView, i: int)
    requires
        0 <= i < w.entities.len(),
        w.entities[i].data.falling_block is Some,
    ensures
        ({
            let before = w.entities[i].data.falling_block->0;
            let after = fall_all(w).entities[i].data.falling_block;
            &&& after is Some
            &&& before.should_fall ==> after->0.should_fall
            &&& !before.should_fall && after->0.should_fall ==> is_waiting_block(w.entities[i])
                && triggered(w, w.entities[i].data.triggerbox->0)
        }),
{
}

/// The row after `frames` frames, given for each frame whether a player was
/// at the trigger.
pub open spec fn fall_steps(row: EntityView, touched: spec_fn(int) -> bool, frames: int) -> EntityView
    decreases frames,
{
    if frames <= 0 {
        row
    } else {
        fall_step(fall_steps(row, touched, frames - 1), touched(frames - 1))
    }
}

/// Once set off, a block counts one frame after the other, whoever stands at
/// its trigger. While it counts it is no body. In the frame after its count
/// has passed `MAX_FALL_COUNT` it becomes a body, and from then on it is left
/// alone: it is made a body exactly once.
pub proof fn law_countdown_then_drop(row: EntityView, touched: spec_fn(int) -> bool, frames: int)
    requires
        is_waiting_block(row),
        row.data.falling_block->0.should_fall,
        row.data.falling_block->0.count <= MAX_FALL_COUNT,
        0 <= frames,
    ensures
        ({
            let start = row.data.falling_block->0.count;
            let left = MAX_FALL_COUNT + 1 - start;
            let after = fall_steps(row, touched, frames);
            &&& frames <= left ==> is_waiting_block(after) && after.data.falling_block->0.count
                == start + frames && after.data.falling_block->0.should_fall
            &&& frames > left ==> after == fall_steps(row, touched, left + 1)
                && after.data.moveable == Some(Moveable::fresh())
                && after.data.falling_block->0.count == MAX_FALL_COUNT + 1
        }),
    decreases frames,
{
    if frames > 0 {
        law_countdown_then_drop(row, touched, frames - 1);
        let left = MAX_FALL_COUNT + 1 - row.data.falling_block->0.count;
        if frames == left + 1 {
        } else if frames > left + 1 {
            let before = fall_steps(row, touched, frames - 1);
            assert(!is_waiting_block(before));
            assert(fall_step(before, touched(frames - 1)) == before);
        }
    }
}

proof fn lemma_triggered_same(a: WorldView, b: WorldView, trigger: Triggerbox)
    requires
        a.entities.len() == b.entities.len(),
        forall|j: int|
            0 <= j < a.entities.len() ==> (#[trigger] a.entities[j]).life == b.entities[j].life
                && a.entities[j].data.controller == b.entities[j].data.controller
                && a.entities[j].data.hitbox == b.entities[j].data.hitbox,
    ensures
        triggered(a, trigger) == triggered(b, trigger),
{
    if triggered(a, trigger) {
        let j = choose|j: int| 0 <= j < a.entities.len() && touches(a, trigger, j);
        assert(a.entities[j].life == b.entities[j].life);
        assert(touches(b, trigger, j));
    }
    if triggered(b, trigger) {
        let j = choose|j: int| 0 <= j < b.entities.len() && touches(b, trigger, j);
        assert(a.entities[j].life == b.entities[j].life);
        assert(touches(a, trigger, j));
    }
}

/// Sets off the falling blocks and lets them drop.
pub struct FallingBlockHandling;

impl FallingBlockHandling {
    /// Whether some player reaches into `trigger`.
    pub fn player_at(world: &World, trigger: &Triggerbox) -> (touched: bool)
        ensures
            touched == triggered(world@, *trigger),
    {
        let area = trigger.to_rectangle();
        let n = world.len();
        let mut j: usize = 0;
        while j < n
            invariant
                j <= n,
                n == world@.entities.len(),
                area == trigger.rectangle(),
                forall|k: int| 0 <= k < j ==> !touches(world@, *trigger, k),
            decreases n - j,
        {
            let other = Entity { index: j };
            if world.is_visible(other) && world.controller(other).is_some() {
                if let Some(h) = world.hitbox(other) {
                    if h.to_rectangle().check_collision_recs(&area) {
                        assert(touches(world@, *trigger, j as int));
                        return true;
                    }
                }
            }
            j = j + 1;
        }
        false
    }

    /// Runs one frame. While the level is edited nothing happens.
    pub fn run(&mut self, edit_state: &EditState, world: &mut World)
        requires
            old(world).wf(),
        ensures
            final(world).wf(),
            edit_state.editing ==> final(world)@ == old(world)@,
            !edit_state.editing ==> final(world)@ == fall_all(old(world)@),
    {
        if edit_state.editing {
            return ;
        }
        let n = world.len();
        let mut i: usize = 0;
        while i < n
            invariant
                i <= n,
                n == old(world)@.entities.len(),
                world.wf(),
                world@.entities.len() == n,
                world@.next_marker == old(world)@.next_marker,
                forall|j: int|
                    0 <= j < i ==> (#[trigger] world@.entities[j]) == fall_step(
                        old(world)@.entities[j],
                        touched_at(old(world)@, j),
                    ),
                forall|j: int|
                    i <= j < n ==> (#[trigger] world@.entities[j]) == old(world)@.entities[j],
            decreases n - i,
        {
            let entity = Entity { index: i };
            let ghost before = world@;
            if world.is_visible(entity) && world.moveable(entity).is_none() {
                if let (Some(trigger), Some(block)) = (
                    world.triggerbox(entity),
                    world.falling_block(entity),
                ) {
                    if !block.should_fall {
                        let touched = Self::player_at(world, &trigger);
                        proof {
                            lemma_triggered_same(before, old(world)@, trigger);
                        }
                        if touched {
                            world.set_falling_block(
                                entity,
                                Some(FallingBlock { count: block.count, should_fall: true }),
                            );
                        }
                    } else if block.count <= MAX_FALL_COUNT {
                        world.set_falling_block(
                            entity,
                            Some(FallingBlock { count: block.count + 1, should_fall: true }),
                        );
                    } else {
                        world.set_moveable(entity, Some(Moveable::new()));
                    }
                }
            }
            assert(world@.entities[i as int] == fall_step(
                old(world)@.entities[i as int],
                touched_at(old(world)@, i as int),
            ));
            assert(forall|j: int|
                0 <= j < n && j != i ==> (#[trigger] world@.entities[j]) == before.entities[j]);
            i = i + 1;
        }
        assert(world@.entities =~= fall_all(old(world)@).entities);
    }
}

} // verus!
