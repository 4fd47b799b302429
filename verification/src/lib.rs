pub mod diagnostics;
pub mod graphics;
pub mod keyboard;
pub mod pointer;
pub mod time;

use vstd::prelude::*;

use crate::graphics::{black, composited_pixel, lemma_index_bound, pixel_at, Buffer, Rgb, Sprite};
use crate::keyboard::{net_dx, net_dy, KeyEvent};

verus! {

/// An entity's position on the surface, in pixels from the top-left corner.
#[derive(Clone, Copy, PartialEq, Eq, Structural, Debug)]
pub struct Position(pub usize, pub usize);

/// An entity's velocity, in pixels per tick on each axis.
#[derive(Clone, Copy, PartialEq, Eq, Structural, Debug)]
pub struct Velocity(pub isize, pub isize);

/// One entity: a position, and optional attribute slots — a velocity for
/// moving entities, a raster asset (an index into the world's sprite
/// store, so assets can be shared), and the player-controlled role marker.
#[derive(Clone, Copy, PartialEq, Debug)]
pub struct Entity {
    pub position: Position,
    pub velocity: Option<Velocity>,
    pub sprite: Option<usize>,
    pub player: bool,
}

/// Everything the frame pipeline owns: the off-screen buffer, the decoded
/// raster assets, and the entities composited onto the buffer each tick.
pub struct World {
    pub buffer: Buffer,
    pub sprites: Vec<Sprite>,
    pub entities: Vec<Entity>,
}

impl World {
    pub open spec fn wf(&self) -> bool {
        &&& self.buffer.wf()
        &&& forall|i: int| 0 <= i < self.sprites@.len() ==> self.sprites@[i].wf()
        &&& forall|i: int|
            0 <= i < self.entities@.len() ==> ((#[trigger] self.entities@[i]).sprite matches Some(s) ==> s
                < self.sprites@.len())
    }
}

/// The entity after the tick's input translation: a player-controlled
/// entity with a velocity absorbs the drained events' net delta, every
/// other entity is unchanged.
pub open spec fn translated_entity(e: Entity, dx: int, dy: int) -> Entity {
    match e.velocity {
        Some(v) => if e.player {
            Entity {
                position: e.position,
                velocity: Some(Velocity((v.0 + dx) as isize, (v.1 + dy) as isize)),
                sprite: e.sprite,
                player: e.player,
            }
        } else {
            e
        },
        None => e,
    }
}

/// Input translation applied across the entity store.
pub open spec fn translate_step(s: Seq<Entity>, dx: int, dy: int) -> Seq<Entity> {
    Seq::new(s.len(), |i: int| translated_entity(s[i], dx, dy))
}

/// Whether the net delta can be added to an entity's velocity without
/// leaving the machine range.
pub open spec fn vel_fits(e: Entity, dx: int, dy: int) -> bool {
    e.player && e.velocity is Some ==> {
        let v = e.velocity->Some_0;
        &&& isize::MIN <= v.0 + dx <= isize::MAX
        &&& isize::MIN <= v.1 + dy <= isize::MAX
    }
}

/// The position on one axis after integrating a velocity component:
/// `p + v`, saturating so that it never wraps and never goes negative,
/// clamped to the addressable range `[0, dim - 1]`.
pub open spec fn integrate_axis(p: int, v: int, dim: int) -> int {
    let hi = if dim == 0 {
        0
    } else {
        dim - 1
    };
    let moved = p + v;
    if moved < 0 {
        0
    } else if moved > hi {
        hi
    } else {
        moved
    }
}

/// The entity after motion integration: entities without a velocity do
/// not move.
pub open spec fn integrated_entity(e: Entity, w: int, h: int) -> Entity {
    match e.velocity {
        Some(v) => Entity {
            position: Position(
                integrate_axis(e.position.0 as int, v.0 as int, w) as usize,
                integrate_axis(e.position.1 as int, v.1 as int, h) as usize,
            ),
            velocity: e.velocity,
            sprite: e.sprite,
            player: e.player,
        },
        None => e,
    }
}

/// Motion integration applied across the entity store.
pub open spec fn integrate_step(s: Seq<Entity>, w: int, h: int) -> Seq<Entity> {
    Seq::new(s.len(), |i: int| integrated_entity(s[i], w, h))
}

/// The velocity on one axis after bounce resolution. First rule: when the
/// entity's trailing edge (`p + extent`) passes the surface's extent while
/// the velocity points toward it, the velocity is negated. Second rule,
/// checked on the possibly already negated value: when the entity sits at
/// the origin while the velocity points negative, it is negated. Both
/// rules run every pass, whether or not a collision is new.
pub open spec fn bounce_axis(p: int, extent: int, max: int, v: int) -> int {
    let v1 = if p + extent > max && v > 0 {
        -v
    } else {
        v
    };
    if p == 0 && v1 < 0 {
        -v1
    } else {
        v1
    }
}

/// The entity after bounce resolution: only entities that carry both a
/// velocity and a raster asset bounce, each axis independently against
/// the asset's extent on that axis.
pub open spec fn bounced_entity(e: Entity, sprites: Seq<Sprite>, w: int, h: int) -> Entity {
    if e.velocity is Some && e.sprite is Some {
        let v = e.velocity->Some_0;
        let sp = sprites[e.sprite->Some_0 as int];
        Entity {
            position: e.position,
            velocity: Some(
                Velocity(
                    bounce_axis(e.position.0 as int, sp.width as int, w, v.0 as int) as isize,
                    bounce_axis(e.position.1 as int, sp.height as int, h, v.1 as int) as isize,
                ),
            ),
            sprite: e.sprite,
            player: e.player,
        }
    } else {
        e
    }
}

/// Bounce resolution applied across the entity store.
pub open spec fn bounce_step(s: Seq<Entity>, sprites: Seq<Sprite>, w: int, h: int) -> Seq<Entity> {
    Seq::new(s.len(), |i: int| bounced_entity(s[i], sprites, w, h))
}

/// Whether a bounce pass over the entity can negate its velocity without
/// leaving the machine range: negating the most negative value is the one
/// step the machine cannot take.
pub open spec fn bounce_safe(e: Entity) -> bool {
    e.velocity is Some && e.sprite is Some ==> {
        let v = e.velocity->Some_0;
        &&& e.position.0 == 0 ==> v.0 != isize::MIN
        &&& e.position.1 == 0 ==> v.1 != isize::MIN
    }
}

/// The pixel at `(x, y)` after the first `n` entities are composited in
/// entity-store order over a surface whose pixel there held `base`.
pub open spec fn rendered_pixel(
    base: Rgb,
    sprites: Seq<Sprite>,
    entities: Seq<Entity>,
    n: int,
    x: int,
    y: int,
) -> Rgb
    decreases n,
{
    if n <= 0 {
        base
    } else {
        let prev = rendered_pixel(base, sprites, entities, n - 1, x, y);
        let e = entities[n - 1];
        match e.sprite {
            Some(si) => composited_pixel(
                prev,
                sprites[si as int],
                (e.position.0, e.position.1),
                x,
                y,
            ),
            None => prev,
        }
    }
}

/// Law: a bounce-resolution pass negates the velocity of an entity whose
/// trailing edge passes the far boundary while moving toward it; a second
/// pass, with the entity clear of both boundaries and the velocity now
/// negative, leaves the velocity unchanged.
pub proof fn lemma_bounce_reverses_then_rests(p1: int, extent: int, max: int, v: int, p2: int)
    requires
        0 < p1,
        p1 + extent > max,
        v > 0,
        0 < p2,
        p2 + extent <= max,
    ensures
        bounce_axis(p1, extent, max, v) == -v,
        bounce_axis(p2, extent, max, -v) == -v,
{
}

/// Step two of the tick: drain the tick's input events and add their net
/// delta to every player-controlled entity's velocity.
pub fn move_player(entities: &mut Vec<Entity>, events: &Vec<KeyEvent>)
    requires
        events@.len() <= isize::MAX,
        forall|i: int|
            0 <= i < old(entities)@.len() ==> vel_fits(
                old(entities)@[i],
                net_dx(events@),
                net_dy(events@),
            ),
    ensures
        final(entities)@ == translate_step(old(entities)@, net_dx(events@), net_dy(events@)),
{
    let (dx, dy) = crate::keyboard::net_delta(events);
    let ghost orig: Seq<Entity> = entities@;
    let n: usize = entities.len();
    let mut i: usize = 0;
    while i < n
        invariant
            i <= n,
            n == entities@.len(),
            n == orig.len(),
            dx == net_dx(events@),
            dy == net_dy(events@),
            forall|j: int| 0 <= j < orig.len() ==> vel_fits(orig[j], dx as int, dy as int),
            forall|j: int| i <= j < n ==> entities@[j] == orig[j],
            forall|j: int|
                0 <= j < i ==> entities@[j] == translated_entity(orig[j], dx as int, dy as int),
        decreases n - i,
    {
        let e: Entity = entities[i];
        if e.player {
            match e.velocity {
                Some(v) => {
                    let nv = Velocity(v.0 + dx, v.1 + dy);
                    entities.set(
                        i,
                        Entity {
                            position: e.position,
                            velocity: Some(nv),
                            sprite: e.sprite,
                            player: e.player,
                        },
                    );
                },
                None => {},
            }
        }
        i = i + 1;
    }
    proof {
        assert(entities@ =~= translate_step(orig, dx as int, dy as int));
    }
}

/// The position on one axis after integration, as executed: saturating
/// arithmetic, then the clamp to the addressable range.
fn integrate_axis_exec(p: usize, v: isize, dim: usize) -> (r: usize)
    ensures
        r == integrate_axis(p as int, v as int, dim as int),
{
    let hi: usize = if dim == 0 {
        0
    } else {
        dim - 1
    };
    let moved: usize = if v >= 0 {
        p.saturating_add(v as usize)
    } else {
        let mag: usize = ((-(v + 1)) as usize) + 1;
        p.saturating_sub(mag)
    };
    if moved > hi {
        hi
    } else {
        moved
    }
}

/// Step three of the tick: integrate every moving entity's position.
pub fn apply_velocity(entities: &mut Vec<Entity>, width: usize, height: usize)
    ensures
        final(entities)@ == integrate_step(old(entities)@, width as int, height as int),
{
    let ghost orig: Seq<Entity> = entities@;
    let n: usize = entities.len();
    let mut i: usize = 0;
    while i < n
        invariant
            i <= n,
            n == entities@.len(),
            n == orig.len(),
            forall|j: int| i <= j < n ==> entities@[j] == orig[j],
            forall|j: int|
                0 <= j < i ==> entities@[j] == integrated_entity(
                    orig[j],
                    width as int,
                    height as int,
                ),
        decreases n - i,
    {
        let e: Entity = entities[i];
        match e.velocity {
            Some(v) => {
                let px: usize = integrate_axis_exec(e.position.0, v.0, width);
                let py: usize = integrate_axis_exec(e.position.1, v.1, height);
                entities.set(
                    i,
                    Entity {
                        position: Position(px, py),
                        velocity: e.velocity,
                        sprite: e.sprite,
                        player: e.player,
                    },
                );
            },
            None => {},
        }
        i = i + 1;
    }
    proof {
        assert(entities@ =~= integrate_step(orig, width as int, height as int));
    }
}

/// The velocity on one axis after bounce resolution, as executed.
fn bounce_axis_exec(p: usize, extent: usize, max: usize, v: isize) -> (r: isize)
    requires
        p == 0 ==> v != isize::MIN,
    ensures
        r == bounce_axis(p as int, extent as int, max as int, v as int),
{
    let mut r: isize = v;
    if (extent > max || p > max - extent) && v > 0 {
        r = -r;
    }
    if p == 0 && r < 0 {
        r = -r;
    }
    r
}

/// Step four of the tick: resolve boundary bounce for every entity that
/// carries both a velocity and a raster asset, each axis independently.
pub fn bounce_sprites(entities: &mut Vec<Entity>, sprites: &Vec<Sprite>, max_x: usize, max_y: usize)
    requires
        forall|i: int|
            0 <= i < old(entities)@.len() ==> ((#[trigger] old(entities)@[i]).sprite matches Some(s) ==> s
                < sprites@.len()),
        forall|i: int| 0 <= i < old(entities)@.len() ==> bounce_safe(old(entities)@[i]),
    ensures
        final(entities)@ == bounce_step(old(entities)@, sprites@, max_x as int, max_y as int),
{
    let ghost orig: Seq<Entity> = entities@;
    let n: usize = entities.len();
    let mut i: usize = 0;
    while i < n
        invariant
            i <= n,
            n == entities@.len(),
            n == orig.len(),
            forall|j: int|
                0 <= j < orig.len() ==> ((#[trigger] orig[j]).sprite matches Some(s) ==> s < sprites@.len()),
            forall|j: int| 0 <= j < orig.len() ==> bounce_safe(orig[j]),
            forall|j: int| i <= j < n ==> entities@[j] == orig[j],
            forall|j: int|
                0 <= j < i ==> entities@[j] == bounced_entity(
                    orig[j],
                    sprites@,
                    max_x as int,
                    max_y as int,
                ),
        decreases n - i,
    {
        let e: Entity = entities[i];
        match (e.velocity, e.sprite) {
            (Some(v), Some(si)) => {
                let spw: usize = sprites[si].width;
                let sph: usize = sprites[si].height;
                let vx: isize = bounce_axis_exec(e.position.0, spw, max_x, v.0);
                let vy: isize = bounce_axis_exec(e.position.1, sph, max_y, v.1);
                entities.set(
                    i,
                    Entity {
                        position: e.position,
                        velocity: Some(Velocity(vx, vy)),
                        sprite: e.sprite,
                        player: e.player,
                    },
                );
            },
            _ => {},
        }
        i = i + 1;
    }
    proof {
        assert(entities@ =~= bounce_step(orig, sprites@, max_x as int, max_y as int));
    }
}

/// Step six of the tick: composite every entity that carries a raster
/// asset onto the buffer, in entity-store order.
pub fn render_sprites(buffer: &mut Buffer, sprites: &Vec<Sprite>, entities: &Vec<Entity>)
    requires
        old(buffer).wf(),
        forall|i: int| 0 <= i < sprites@.len() ==> sprites@[i].wf(),
        forall|i: int|
            0 <= i < entities@.len() ==> ((#[trigger] entities@[i]).sprite matches Some(s) ==> s
                < sprites@.len()),
    ensures
        final(buffer).wf(),
        final(buffer).width == old(buffer).width,
        final(buffer).height == old(buffer).height,
        forall|x: int, y: int|
            0 <= x < old(buffer).width && 0 <= y < old(buffer).height ==> pixel_at(
                final(buffer).pixels@,
                old(buffer).width as int,
                x,
                y,
            ) == rendered_pixel(
                pixel_at(old(buffer).pixels@, old(buffer).width as int, x, y),
                sprites@,
                entities@,
                entities@.len() as int,
                x,
                y,
            ),
{
    let ghost orig: Buffer = *buffer;
    let ghost bw: int = orig.width as int;
    let ghost bh: int = orig.height as int;
    let n: usize = entities.len();
    let mut i: usize = 0;
    while i < n
        invariant
            i <= n,
            n == entities@.len(),
            buffer.wf(),
            buffer.width == orig.width,
            buffer.height == orig.height,
            bw == orig.width as int,
            bh == orig.height as int,
            orig.wf(),
            forall|j: int| 0 <= j < sprites@.len() ==> sprites@[j].wf(),
            forall|j: int|
                0 <= j < entities@.len() ==> ((#[trigger] entities@[j]).sprite matches Some(s) ==> s
                    < sprites@.len()),
            forall|x: int, y: int|
                0 <= x < bw && 0 <= y < bh ==> pixel_at(buffer.pixels@, bw, x, y)
                    == rendered_pixel(
                    pixel_at(orig.pixels@, bw, x, y),
                    sprites@,
                    entities@,
                    i as int,
                    x,
                    y,
                ),
        decreases n - i,
    {
        let e: Entity = entities[i];
        match e.sprite {
            Some(si) => {
                buffer.draw_sprite(&sprites[si], (e.position.0, e.position.1));
            },
            None => {},
        }
        i = i + 1;
    }
}

/// One tick of the frame pipeline, in its fixed, non-reorderable order:
/// the drained input events are translated into velocity adjustments,
/// motion is integrated, bounce is resolved, the buffer is cleared, and
/// every visible entity is composited in entity-store order. Committing
/// the finished buffer to the display hardware is the caller's step.
pub fn tick(world: &mut World, events: &Vec<KeyEvent>)
    requires
        old(world).wf(),
        events@.len() <= isize::MAX,
        forall|i: int|
            0 <= i < old(world).entities@.len() ==> vel_fits(
                old(world).entities@[i],
                net_dx(events@),
                net_dy(events@),
            ),
        forall|i: int|
            0 <= i < old(world).entities@.len() ==> bounce_safe(
                integrate_step(
                    translate_step(old(world).entities@, net_dx(events@), net_dy(events@)),
                    old(world).buffer.width as int,
                    old(world).buffer.height as int,
                )[i],
            ),
    ensures
        final(world).wf(),
        final(world).buffer.width == old(world).buffer.width,
        final(world).buffer.height == old(world).buffer.height,
        final(world).sprites@ == old(world).sprites@,
        final(world).entities@ == bounce_step(
            integrate_step(
                translate_step(old(world).entities@, net_dx(events@), net_dy(events@)),
                old(world).buffer.width as int,
                old(world).buffer.height as int,
            ),
            old(world).sprites@,
            old(world).buffer.width as int,
            old(world).buffer.height as int,
        ),
        forall|x: int, y: int|
            0 <= x < old(world).buffer.width && 0 <= y < old(world).buffer.height ==> pixel_at(
                final(world).buffer.pixels@,
                old(world).buffer.width as int,
                x,
                y,
            ) == rendered_pixel(
                black(),
                old(world).sprites@,
                final(world).entities@,
                final(world).entities@.len() as int,
                x,
                y,
            ),
{
    let ghost orig_e: Seq<Entity> = world.entities@;
    let ghost ndx: int = net_dx(events@);
    let ghost ndy: int = net_dy(events@);
    let w: usize = world.buffer.width;
    let h: usize = world.buffer.height;

    move_player(&mut world.entities, events);
    let ghost s1: Seq<Entity> = world.entities@;

    apply_velocity(&mut world.entities, w, h);
    let ghost s2: Seq<Entity> = world.entities@;
    proof {
        assert forall|i: int| 0 <= i < s2.len() implies ((#[trigger] s2[i]).sprite matches Some(s) ==> s
            < world.sprites@.len()) && bounce_safe(s2[i]) by {
            assert(s1[i] == translated_entity(orig_e[i], ndx, ndy));
            assert(s2[i] == integrated_entity(s1[i], w as int, h as int));
        }
    }

    bounce_sprites(&mut world.entities, &world.sprites, w, h);
    let ghost s3: Seq<Entity> = world.entities@;
    proof {
        assert forall|i: int| 0 <= i < s3.len() implies ((#[trigger] s3[i]).sprite matches Some(s) ==> s
            < world.sprites@.len()) by {
            assert(s3[i] == bounced_entity(s2[i], world.sprites@, w as int, h as int));
            assert(s2[i] == integrated_entity(s1[i], w as int, h as int));
            assert(s1[i] == translated_entity(orig_e[i], ndx, ndy));
        }
    }

    world.buffer.clear();
    let ghost cleared: Seq<Rgb> = world.buffer.pixels@;

    render_sprites(&mut world.buffer, &world.sprites, &world.entities);
    proof {
        assert forall|x: int, y: int| 0 <= x < w && 0 <= y < h implies pixel_at(
            world.buffer.pixels@,
            w as int,
            x,
            y,
        ) == rendered_pixel(black(), world.sprites@, s3, s3.len() as int, x, y) by {
            lemma_index_bound(x, y, w as int, h as int);
            assert(pixel_at(cleared, w as int, x, y) == black());
        }
    }
}

} // verus!
