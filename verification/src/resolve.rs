//! The collision resolver: for each particle embedded in solid ground,
//! walk backward along the negated velocity direction, cell by cell,
//! until the position either leaves the grid or lands on an empty cell;
//! paint that cell with the particle's color and remove the particle.
//!
//! Policy for degenerate geometry: a particle embedded with exactly zero
//! velocity has no stable direction to back away along; it is removed
//! without painting. A particle outside the grid, or over an empty cell,
//! is not in contact and is left alone.

use vstd::prelude::*;

use crate::geom::step_of;
use crate::grid::cell_index;
use crate::grid::paint_buffer;
use crate::grid::paint_cells;
use crate::grid::Cell;
use crate::grid::GroundGrid;
use crate::grid::SCALE;
use crate::particle::Particle;
use crate::counter::DebugInfo;

verus! {

/// What the resolver decided for one particle.
#[derive(Clone, Copy, Debug, PartialEq, Eq, Structural)]
pub enum Resolution {
    /// The particle does not overlap solid ground; it stays alive.
    NoContact,
    /// The particle was embedded but nothing was painted (zero velocity,
    /// or the backward walk left the grid); it is removed.
    RemovedUnpainted,
    /// The backward walk found the nearest free cell at this index; it
    /// was painted and the particle is removed.
    Painted(usize),
}

/// A particle's grid-local x position: world x shifted by half the grid
/// width, in `SCALE` subcell units.
pub open spec fn local_x(width: int, p: Particle) -> int {
    p.x + width * ((SCALE as int) / 2)
}

/// A particle's grid-local y position: world y shifted by half the grid
/// height, in `SCALE` subcell units.
pub open spec fn local_y(height: int, p: Particle) -> int {
    p.y + height * ((SCALE as int) / 2)
}

/// Whether a grid-local position lies inside the grid rectangle.
pub open spec fn in_grid(width: int, height: int, x: int, y: int) -> bool {
    &&& 0 <= x < width * (SCALE as int)
    &&& 0 <= y < height * (SCALE as int)
}

/// How far the backward walk can still travel along one axis before it
/// leaves the grid extent, against step component `d`.
pub open spec fn axis_measure(c: int, d: int, extent: int) -> int {
    if d > 0 {
        c
    } else if d < 0 {
        extent - 1 - c
    } else {
        0
    }
}

/// Termination measure of the backward walk: zero once the position has
/// left the grid, otherwise one more than the remaining travel room.
pub open spec fn march_measure(width: int, height: int, x: int, y: int, dx: int, dy: int) -> int {
    if in_grid(width, height, x, y) {
        1 + axis_measure(x, dx, width * (SCALE as int)) + axis_measure(
            y,
            dy,
            height * (SCALE as int),
        )
    } else {
        0
    }
}

/// A position maps to a cell exactly when it lies inside the grid
/// rectangle.
pub proof fn lemma_in_grid_iff_some(width: int, height: int, x: int, y: int)
    requires
        1 <= width,
        1 <= height,
    ensures
        in_grid(width, height, x, y) <==> cell_index(width, height, x, y) is Some,
{
    let s = SCALE as int;
    assert((0 <= x ==> ((x / s < width) <==> (x < width * s))) && (0 <= y ==> ((y / s < height)
        <==> (y < height * s)))) by (nonlinear_arith)
        requires
            s == 65536,
    ;
}

/// Stepping backward once from an in-grid position strictly shrinks the
/// walk's measure, which never goes negative.
pub proof fn lemma_march_measure_decreases(
    width: int,
    height: int,
    x: int,
    y: int,
    dx: int,
    dy: int,
)
    requires
        dx != 0 || dy != 0,
        cell_index(width, height, x, y) is Some,
    ensures
        0 <= march_measure(width, height, x - dx, y - dy, dx, dy) < march_measure(
            width,
            height,
            x,
            y,
            dx,
            dy,
        ),
{
    let s = SCALE as int;
    assert(0 <= x / s && 0 <= y / s && x < width * s && y < height * s) by (nonlinear_arith)
        requires
            0 <= x,
            0 <= y,
            x / s < width,
            y / s < height,
            s == 65536,
    ;
    assert(in_grid(width, height, x, y));
}

/// The walk itself: from a grid-local position, step by `(-dx, -dy)`
/// while the position still maps to a solid cell; the result is the
/// index of the first empty cell found, or `None` when the position left
/// the grid first. Meaningful only for a nonzero step.
pub open spec fn march_index(
    cells: Seq<Cell>,
    width: int,
    height: int,
    x: int,
    y: int,
    dx: int,
    dy: int,
) -> Option<int>
    decreases march_measure(width, height, x, y, dx, dy),
        when dx != 0 || dy != 0
        via march_index_decreases
{
    match cell_index(width, height, x, y) {
        Option::None => None,
        Option::Some(i) => if cells[i] is Solid {
            march_index(cells, width, height, x - dx, y - dy, dx, dy)
        } else {
            Some(i)
        },
    }
}

#[via_fn]
proof fn march_index_decreases(
    cells: Seq<Cell>,
    width: int,
    height: int,
    x: int,
    y: int,
    dx: int,
    dy: int,
) {
    if (dx != 0 || dy != 0) && cell_index(width, height, x, y) is Some {
        lemma_march_measure_decreases(width, height, x, y, dx, dy);
    }
}

/// Whether a particle currently overlaps solid ground: its grid-local
/// position maps to a cell, and that cell is solid.
pub open spec fn in_contact(width: int, height: int, cells: Seq<Cell>, p: Particle) -> bool {
    match cell_index(width, height, local_x(width, p), local_y(height, p)) {
        Option::Some(i) => cells[i] is Solid,
        Option::None => false,
    }
}

/// The cell a particle's resolution paints, if any: the first empty cell
/// the backward walk reaches, provided the particle is in contact and
/// has a nonzero velocity.
pub open spec fn paint_target(width: int, height: int, cells: Seq<Cell>, p: Particle) -> Option<
    int,
> {
    if in_contact(width, height, cells, p) && !(p.vx == 0 && p.vy == 0) {
        let d = step_of(p.vx as int, p.vy as int);
        march_index(cells, width, height, local_x(width, p), local_y(height, p), d.0, d.1)
    } else {
        None
    }
}

/// The cells after resolving one particle.
pub open spec fn cells_after_particle(
    width: int,
    height: int,
    cells: Seq<Cell>,
    p: Particle,
) -> Seq<Cell> {
    match paint_target(width, height, cells, p) {
        Option::Some(j) => paint_cells(cells, j, p.color),
        Option::None => cells,
    }
}

/// The pixel buffer after resolving one particle: the four bytes of the
/// painted cell change in the same step as the cell itself, or nothing
/// changes.
pub open spec fn buffer_after_particle(
    width: int,
    height: int,
    cells: Seq<Cell>,
    buf: Seq<u8>,
    p: Particle,
) -> Seq<u8> {
    match paint_target(width, height, cells, p) {
        Option::Some(j) => paint_buffer(buf, j, p.color),
        Option::None => buf,
    }
}

/// The resolution the resolver reports for one particle.
pub open spec fn resolution_of(width: int, height: int, cells: Seq<Cell>, p: Particle)
    -> Resolution {
    if !in_contact(width, height, cells, p) {
        Resolution::NoContact
    } else {
        match paint_target(width, height, cells, p) {
            Option::Some(j) => Resolution::Painted(j as usize),
            Option::None => Resolution::RemovedUnpainted,
        }
    }
}

/// Whether a grid-local position maps to a solid cell.
pub open spec fn solid_pos(cells: Seq<Cell>, width: int, height: int, x: int, y: int) -> bool {
    match cell_index(width, height, x, y) {
        Option::Some(i) => cells[i] is Solid,
        Option::None => false,
    }
}

/// The cell under the position reached after `m` backward steps of
/// `(dx, dy)` from `(x, y)`.
pub open spec fn index_after_steps(
    width: int,
    height: int,
    x: int,
    y: int,
    dx: int,
    dy: int,
    m: int,
) -> Option<int> {
    cell_index(width, height, x - m * dx, y - m * dy)
}

/// Whether the position reached after `m` backward steps of `(dx, dy)`
/// from `(x, y)` still lies on solid ground.
pub open spec fn solid_after_steps(
    cells: Seq<Cell>,
    width: int,
    height: int,
    x: int,
    y: int,
    dx: int,
    dy: int,
    m: int,
) -> bool {
    solid_pos(cells, width, height, x - m * dx, y - m * dy)
}

/// Law: the backward walk only ever commits to a reachable cell. When
/// the walk from `(x, y)` against step `(dx, dy)` yields cell `j`, that
/// cell is empty, it is reached after some number `n` of backward steps,
/// and every strictly earlier step still lay on solid ground — so no
/// empty cell outside the walked ray is ever painted.
pub proof fn lemma_march_reachable(
    cells: Seq<Cell>,
    width: int,
    height: int,
    x: int,
    y: int,
    dx: int,
    dy: int,
    j: int,
)
    requires
        dx != 0 || dy != 0,
        march_index(cells, width, height, x, y, dx, dy) == Some(j),
    ensures
        !(cells[j] is Solid),
        exists|n: int|
            {
                &&& 0 <= n
                &&& #[trigger] index_after_steps(width, height, x, y, dx, dy, n) == Some(j)
                &&& forall|m: int|
                    0 <= m < n ==> #[trigger] solid_after_steps(
                        cells,
                        width,
                        height,
                        x,
                        y,
                        dx,
                        dy,
                        m,
                    )
            },
    decreases march_measure(width, height, x, y, dx, dy),
{
    match cell_index(width, height, x, y) {
        Option::None => {},
        Option::Some(i) => {
            if cells[i] is Solid {
                lemma_march_measure_decreases(width, height, x, y, dx, dy);
                lemma_march_reachable(cells, width, height, x - dx, y - dy, dx, dy, j);
                let n0 = choose|n: int|
                    {
                        &&& 0 <= n
                        &&& #[trigger] index_after_steps(width, height, x - dx, y - dy, dx, dy, n)
                            == Some(j)
                        &&& forall|m: int|
                            0 <= m < n ==> #[trigger] solid_after_steps(
                                cells,
                                width,
                                height,
                                x - dx,
                                y - dy,
                                dx,
                                dy,
                                m,
                            )
                    };
                assert((x - dx) - n0 * dx == x - (n0 + 1) * dx && (y - dy) - n0 * dy == y - (n0
                    + 1) * dy) by (nonlinear_arith);
                assert(index_after_steps(width, height, x, y, dx, dy, n0 + 1) == Some(j));
                assert forall|m: int| 0 <= m < n0 + 1 implies #[trigger] solid_after_steps(
                    cells,
                    width,
                    height,
                    x,
                    y,
                    dx,
                    dy,
                    m,
                ) by {
                    if m == 0 {
                        assert(x - 0 * dx == x && y - 0 * dy == y) by (nonlinear_arith);
                    } else {
                        assert(solid_after_steps(cells, width, height, x - dx, y - dy, dx, dy, m
                            - 1));
                        assert((x - dx) - (m - 1) * dx == x - m * dx && (y - dy) - (m - 1) * dy
                            == y - m * dy) by (nonlinear_arith);
                    }
                }
                assert({
                    &&& 0 <= n0 + 1
                    &&& index_after_steps(width, height, x, y, dx, dy, n0 + 1) == Some(j)
                    &&& forall|m: int|
                        0 <= m < n0 + 1 ==> #[trigger] solid_after_steps(
                            cells,
                            width,
                            height,
                            x,
                            y,
                            dx,
                            dy,
                            m,
                        )
                });
            } else {
                assert(x - 0 * dx == x && y - 0 * dy == y) by (nonlinear_arith);
                assert({
                    &&& 0 <= 0
                    &&& index_after_steps(width, height, x, y, dx, dy, 0) == Some(j)
                    &&& forall|m: int|
                        0 <= m < 0 ==> #[trigger] solid_after_steps(
                            cells,
                            width,
                            height,
                            x,
                            y,
                            dx,
                            dy,
                            m,
                        )
                });
            }
        },
    }
}

/// The cells after resolving a whole sequence of particles, in order:
/// each particle is resolved against the cells its predecessors left.
pub open spec fn cells_after(width: int, height: int, cells: Seq<Cell>, ps: Seq<Particle>) -> Seq<
    Cell,
>
    decreases ps.len(),
{
    if ps.len() == 0 {
        cells
    } else {
        cells_after(width, height, cells_after_particle(width, height, cells, ps[0]), ps.skip(1))
    }
}

/// The particles that survive resolving a sequence in order: exactly
/// those that were not in contact with the grid state they were resolved
/// against, in their original order.
pub open spec fn kept_after(width: int, height: int, cells: Seq<Cell>, ps: Seq<Particle>) -> Seq<
    Particle,
>
    decreases ps.len(),
{
    if ps.len() == 0 {
        Seq::empty()
    } else {
        let rest = kept_after(
            width,
            height,
            cells_after_particle(width, height, cells, ps[0]),
            ps.skip(1),
        );
        if in_contact(width, height, cells, ps[0]) {
            rest
        } else {
            seq![ps[0]] + rest
        }
    }
}

/// How many particles of a sequence are removed (absorbed) when it is
/// resolved in order.
pub open spec fn removed_count(width: int, height: int, cells: Seq<Cell>, ps: Seq<Particle>) -> int
    decreases ps.len(),
{
    if ps.len() == 0 {
        0
    } else {
        (if in_contact(width, height, cells, ps[0]) {
            1int
        } else {
            0int
        }) + removed_count(
            width,
            height,
            cells_after_particle(width, height, cells, ps[0]),
            ps.skip(1),
        )
    }
}

impl GroundGrid {
    /// Resolves one particle against the grid: skips it when it is not
    /// in contact; otherwise removes it, painting the first empty cell
    /// the backward walk along its negated velocity direction reaches
    /// (no paint when the walk leaves the grid, or when the velocity is
    /// exactly zero).
    pub fn resolve_particle(&mut self, p: &Particle) -> (r: Resolution)
        requires
            old(self).wf(),
            p.bounded(),
        ensures
            final(self).wf(),
            final(self).width == old(self).width,
            final(self).height == old(self).height,
            final(self).cells@ == cells_after_particle(
                old(self).width as int,
                old(self).height as int,
                old(self).cells@,
                *p,
            ),
            final(self).buffer@ == buffer_after_particle(
                old(self).width as int,
                old(self).height as int,
                old(self).cells@,
                old(self).buffer@,
                *p,
            ),
            r == resolution_of(
                old(self).width as int,
                old(self).height as int,
                old(self).cells@,
                *p,
            ),
            (r is NoContact) == !in_contact(
                old(self).width as int,
                old(self).height as int,
                old(self).cells@,
                *p,
            ),
    {
        let ghost w = self.width as int;
        let ghost h = self.height as int;
        let ghost cells0 = self.cells@;
        let gx: i64 = p.x + (self.width as i64) * (SCALE / 2);
        let gy: i64 = p.y + (self.height as i64) * (SCALE / 2);
        let start = self.index_of(gx, gy);
        match start {
            Option::None => Resolution::NoContact,
            Option::Some(i0) => {
                if !self.is_solid(i0) {
                    Resolution::NoContact
                } else if p.vx == 0 && p.vy == 0 {
                    Resolution::RemovedUnpainted
                } else {
                    let (dx, dy) = crate::geom::step_direction(p.vx, p.vy);
                    proof {
                        lemma_in_grid_iff_some(w, h, gx as int, gy as int);
                    }
                    let mut x = gx;
                    let mut y = gy;
                    let mut cur: Option<usize> = Some(i0);
                    loop
                        invariant
                            self.wf(),
                            self == old(self),
                            self.width as int == w,
                            self.height as int == h,
                            self.cells@ == cells0,
                            dx as int == step_of(p.vx as int, p.vy as int).0,
                            dy as int == step_of(p.vx as int, p.vy as int).1,
                            dx != 0 || dy != 0,
                            -SCALE <= dx <= SCALE,
                            -SCALE <= dy <= SCALE,
                            -(SCALE as int) <= x as int <= w * (SCALE as int) + SCALE,
                            -(SCALE as int) <= y as int <= h * (SCALE as int) + SCALE,
                            match cur {
                                Option::Some(i) => cell_index(w, h, x as int, y as int) == Some(
                                    i as int,
                                ) && i < self.width * self.height,
                                Option::None => cell_index(w, h, x as int, y as int) is None,
                            },
                            march_index(cells0, w, h, x as int, y as int, dx as int, dy as int)
                                == march_index(
                                cells0,
                                w,
                                h,
                                gx as int,
                                gy as int,
                                dx as int,
                                dy as int,
                            ),
                        ensures
                            match cur {
                                Option::Some(j) => march_index(
                                    cells0,
                                    w,
                                    h,
                                    gx as int,
                                    gy as int,
                                    dx as int,
                                    dy as int,
                                ) == Some(j as int) && j < self.width * self.height && !(
                                cells0[j as int] is Solid),
                                Option::None => march_index(
                                    cells0,
                                    w,
                                    h,
                                    gx as int,
                                    gy as int,
                                    dx as int,
                                    dy as int,
                                ) is None,
                            },
                        decreases march_measure(w, h, x as int, y as int, dx as int, dy as int),
                    {
                        match cur {
                            Option::Some(i) => {
                                if self.is_solid(i) {
                                    proof {
                                        lemma_march_measure_decreases(
                                            w,
                                            h,
                                            x as int,
                                            y as int,
                                            dx as int,
                                            dy as int,
                                        );
                                        lemma_in_grid_iff_some(w, h, x as int, y as int);
                                    }
                                    x = x - dx;
                                    y = y - dy;
                                    cur = self.index_of(x, y);
                                } else {
                                    break ;
                                }
                            },
                            Option::None => {
                                break ;
                            },
                        }
                    }
                    match cur {
                        Option::None => Resolution::RemovedUnpainted,
                        Option::Some(j) => {
                            self.paint(j, p.color);
                            Resolution::Painted(j)
                        },
                    }
                }
            },
        }
    }

    /// Resolves all live particles against the grid, in sequence order
    /// (a stable, deterministic order, so results are reproducible when
    /// several particles compete for nearby cells). Returns the
    /// particles that stay alive; every removal is recorded in the
    /// live-particle counter, clamped at zero.
    pub fn resolve_all(&mut self, particles: &Vec<Particle>, info: &mut DebugInfo) -> (kept: Vec<
        Particle,
    >)
        requires
            old(self).wf(),
            forall|i: int| 0 <= i < particles@.len() ==> (#[trigger] particles@[i]).bounded(),
        ensures
            final(self).wf(),
            final(self).width == old(self).width,
            final(self).height == old(self).height,
            final(self).cells@ == cells_after(
                old(self).width as int,
                old(self).height as int,
                old(self).cells@,
                particles@,
            ),
            kept@ == kept_after(
                old(self).width as int,
                old(self).height as int,
                old(self).cells@,
                particles@,
            ),
            ({
                let k = removed_count(
                    old(self).width as int,
                    old(self).height as int,
                    old(self).cells@,
                    particles@,
                );
                &&& (old(info).entity_count >= k ==> final(info).entity_count == old(info).entity_count
                    - k && final(info).underflow_flagged == old(info).underflow_flagged)
                &&& (old(info).entity_count < k ==> final(info).entity_count == 0
                    && final(info).underflow_flagged)
            }),
            final(info).mouse_x == old(info).mouse_x,
            final(info).mouse_y == old(info).mouse_y,
    {
        let ghost w = self.width as int;
        let ghost h = self.height as int;
        let ghost cells0 = self.cells@;
        let ghost ps = particles@;
        let ghost count0 = old(info).entity_count as int;
        let ghost flag0 = old(info).underflow_flagged;
        let mut kept: Vec<Particle> = Vec::new();
        let ghost mut removed_so_far: int = 0;
        let n = particles.len();
        let mut i: usize = 0;
        proof {
            assert(ps.skip(0) =~= ps);
            assert(kept@ + kept_after(w, h, cells0, ps) =~= kept_after(w, h, cells0, ps));
        }
        while i < n
            invariant
                i <= n,
                n == ps.len(),
                ps == particles@,
                forall|k: int| 0 <= k < ps.len() ==> (#[trigger] ps[k]).bounded(),
                self.wf(),
                self.width as int == w,
                self.height as int == h,
                cells_after(w, h, self.cells@, ps.skip(i as int)) == cells_after(
                    w,
                    h,
                    cells0,
                    ps,
                ),
                kept@ + kept_after(w, h, self.cells@, ps.skip(i as int)) == kept_after(
                    w,
                    h,
                    cells0,
                    ps,
                ),
                removed_so_far + removed_count(w, h, self.cells@, ps.skip(i as int))
                    == removed_count(w, h, cells0, ps),
                0 <= removed_so_far <= i,
                count0 >= removed_so_far ==> info.entity_count == count0 - removed_so_far
                    && info.underflow_flagged == flag0,
                count0 < removed_so_far ==> info.entity_count == 0 && info.underflow_flagged,
                info.mouse_x == old(info).mouse_x,
                info.mouse_y == old(info).mouse_y,
            decreases n - i,
        {
            let p = particles[i];
            let ghost cells_cur = self.cells@;
            proof {
                assert(ps.skip(i as int)[0] == ps[i as int]);
                assert(ps.skip(i as int).skip(1) =~= ps.skip(i as int + 1));
            }
            let r = self.resolve_particle(&p);
            match r {
                Resolution::NoContact => {
                    let ghost kept_before = kept@;
                    kept.push(p);
                    proof {
                        assert(kept@ =~= kept_before + seq![p]);
                        assert((kept_before + seq![p]) + kept_after(
                            w,
                            h,
                            self.cells@,
                            ps.skip(i as int + 1),
                        ) =~= kept_before + (seq![p] + kept_after(
                            w,
                            h,
                            self.cells@,
                            ps.skip(i as int + 1),
                        )));
                    }
                },
                _ => {
                    info.record_removal();
                    proof {
                        removed_so_far = removed_so_far + 1;
                    }
                },
            }
            i = i + 1;
        }
        proof {
            assert(ps.skip(n as int) =~= Seq::<Particle>::empty());
            assert(kept@ + Seq::<Particle>::empty() =~= kept@);
        }
        kept
    }
}

} // verus!
