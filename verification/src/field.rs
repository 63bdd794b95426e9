use vstd::prelude::*;
use vstd::pervasive::VecAdditionalExecFns;
use crate::palette::color_component;
use crate::palette::color_of;
use crate::rng::rng_from_entropy;
use crate::rng::rng_from_seed;
use crate::rng::sample_below_six;

verus! {

/// The hottest intensity level, the palette's last index.
pub const MAX_LEVEL: usize = 36;

/// A freshly built grid: `w * h` cells, all cold.
pub open spec fn cold_grid(w: int, h: int) -> Seq<usize> {
    Seq::new((w * h) as nat, |i: int| 0usize)
}

/// A grid after ignition: the bottom row forced to the hottest level, every
/// other cell untouched.
pub open spec fn ignited_grid(g: Seq<usize>, w: int, h: int) -> Seq<usize> {
    Seq::new(g.len(), |i: int| if i >= (h - 1) * w { 36usize } else { g[i] })
}

/// The grid of burning intensity levels together with its random source.
///
/// Row-major layout: flat index `y * width + x`, row 0 at the top, row
/// `height - 1` at the bottom. Every cell always lies in `0..=36`; the update
/// rule's arithmetic maintains this, nothing is clamped at color lookup.
pub struct Doomfire {
    width: usize,
    height: usize,
    /// Whether the fire is fed: true after `ignite`, false after `extinguish`.
    /// Only selects which transition rule `update` applies; `update` never
    /// changes it.
    pub is_lit: bool,
    fire_pixels: Vec<usize>,
    rng: rand::rngs::StdRng,
}

impl Doomfire {
    /// The grid width the field was built with.
    pub closed spec fn spec_width(self) -> int {
        self.width as int
    }

    /// The grid height the field was built with.
    pub closed spec fn spec_height(self) -> int {
        self.height as int
    }

    /// The current intensity levels, row-major.
    pub closed spec fn grid(self) -> Seq<usize> {
        self.fire_pixels@
    }

    /// Whether the fire is currently fed, as seen by contracts.
    pub closed spec fn lit(self) -> bool {
        self.is_lit
    }

    /// Well-formedness: positive dimensions, a grid of exactly
    /// `width * height` cells, every cell at most the hottest level.
    pub open spec fn wf(self) -> bool {
        &&& self.spec_width() >= 1
        &&& self.spec_height() >= 1
        &&& self.grid().len() == self.spec_width() * self.spec_height()
        &&& forall|i: int| 0 <= i < self.grid().len() ==> self.grid()[i] <= 36
    }

    /// Builds a cold, unlit field of the given dimensions, with a random
    /// source seeded from the operating system.
    pub fn new(width: usize, height: usize) -> (r: Doomfire)
        requires
            width >= 1,
            height >= 1,
            width * height <= usize::MAX,
        ensures
            r.wf(),
            r.spec_width() == width,
            r.spec_height() == height,
            !r.lit(),
            r.grid() == cold_grid(width as int, height as int),
    {
        Doomfire {
            width,
            height,
            is_lit: false,
            fire_pixels: zero_vec(width * height),
            rng: rng_from_entropy(),
        }
    }

    /// Builds a cold, unlit field whose random source starts from an explicit
    /// seed, so a whole run of the simulation can be reproduced exactly.
    pub fn new_seeded(width: usize, height: usize, seed: u64) -> (r: Doomfire)
        requires
            width >= 1,
            height >= 1,
            width * height <= usize::MAX,
        ensures
            r.wf(),
            r.spec_width() == width,
            r.spec_height() == height,
            !r.lit(),
            r.grid() == cold_grid(width as int, height as int),
    {
        Doomfire {
            width,
            height,
            is_lit: false,
            fire_pixels: zero_vec(width * height),
            rng: rng_from_seed(seed),
        }
    }

    /// Builds an unlit field over a caller-supplied grid, seeded like
    /// `new_seeded`. Returns `None` exactly when the dimensions are invalid,
    /// the cell count does not match them, or some cell exceeds the hottest
    /// level.
    pub fn from_grid(width: usize, height: usize, cells: Vec<usize>, seed: u64) -> (r: Option<
        Doomfire,
    >)
        ensures
            match r {
                Some(f) => {
                    &&& width >= 1
                    &&& height >= 1
                    &&& cells@.len() == width * height
                    &&& forall|i: int| 0 <= i < cells@.len() ==> cells@[i] <= 36
                    &&& f.wf()
                    &&& f.spec_width() == width
                    &&& f.spec_height() == height
                    &&& !f.lit()
                    &&& f.grid() == cells@
                },
                None => !(width >= 1 && height >= 1 && cells@.len() == width * height
                    && (forall|i: int| 0 <= i < cells@.len() ==> cells@[i] <= 36)),
            },
    {
        let len = cells.len();
        if width == 0 || height == 0 {
            return None;
        }
        let n = match width.checked_mul(height) {
            Some(n) => n,
            None => {
                return None;
            },
        };
        if len != n {
            return None;
        }
        let mut i: usize = 0;
        while i < n
            invariant
                i <= n,
                n == cells@.len(),
                forall|j: int| 0 <= j < i ==> cells@[j] <= 36,
            decreases n - i,
        {
            if cells[i] > MAX_LEVEL {
                return None;
            }
            i = i + 1;
        }
        Some(
            Doomfire {
                width,
                height,
                is_lit: false,
                fire_pixels: cells,
                rng: rng_from_seed(seed),
            },
        )
    }

    /// Feeds the fire: forces every bottom-row cell to the hottest level and
    /// turns `is_lit` on. Idempotent: while already lit it only re-asserts the
    /// bottom row.
    pub fn ignite(&mut self)
        requires
            old(self).wf(),
        ensures
            final(self).wf(),
            final(self).spec_width() == old(self).spec_width(),
            final(self).spec_height() == old(self).spec_height(),
            final(self).lit(),
            final(self).grid() == ignited_grid(old(self).grid(), old(self).spec_width(), old(self).spec_height()),
    {
        let w = self.width;
        let len = self.fire_pixels.len();
        proof {
            let ghost wd = old(self).spec_width();
            let ghost ht = old(self).spec_height();
            assert((ht - 1) * wd + wd == wd * ht) by (nonlinear_arith);
            assert((ht - 1) * wd >= 0) by (nonlinear_arith)
                requires
                    ht >= 1,
                    wd >= 0,
            ;
        }
        let base = (self.height - 1) * self.width;
        let mut i: usize = 0;
        while i < w
            invariant
                i <= w,
                w == self.width,
                base == (self.spec_height() - 1) * self.spec_width(),
                base + w == self.grid().len(),
                base + w <= usize::MAX,
                self.width == old(self).width,
                self.height == old(self).height,
                self.is_lit == old(self).is_lit,
                self.grid().len() == old(self).grid().len(),
                forall|j: int| 0 <= j < self.grid().len() ==> self.grid()[j] == (
                    if base <= j < base + i { 36usize } else { old(self).grid()[j] }),
            decreases w - i,
        {
            self.fire_pixels.set(base + i, MAX_LEVEL);
            i = i + 1;
        }
        self.is_lit = true;
        proof {
            assert(self.grid() =~= ignited_grid(old(self).grid(), old(self).spec_width(),
                old(self).spec_height()));
            assert(forall|i: int| 0 <= i < self.grid().len() ==> self.grid()[i] <= 36);
        }
    }

    /// Cuts the fire's feed: turns `is_lit` off and touches nothing else.
    /// Deliberately asymmetric with `ignite`: the heat already in the grid,
    /// bottom row included, keeps propagating and fading over later `update`
    /// calls; only the top-up source is gone.
    pub fn extinguish(&mut self)
        requires
            old(self).wf(),
        ensures
            final(self).wf(),
            final(self).spec_width() == old(self).spec_width(),
            final(self).spec_height() == old(self).spec_height(),
            !final(self).lit(),
            final(self).grid() == old(self).grid(),
    {
        self.is_lit = false;
    }

    /// Renders the grid through the palette into `frame`: cell `i` becomes
    /// bytes `4 * i .. 4 * i + 4`. Pure with respect to the field. Rejects,
    /// without touching a byte, any buffer whose length is not exactly
    /// `width * height * 4`.
    pub fn draw(&self, frame: &mut Vec<u8>) -> (ok: bool)
        requires
            self.wf(),
        ensures
            ok <==> old(frame)@.len() == self.grid().len() * 4,
            ok ==> final(frame)@ == render_bytes(self.grid()),
            !ok ==> final(frame)@ == old(frame)@,
    {
        let n = self.fire_pixels.len();
        if frame.len() % 4 != 0 || frame.len() / 4 != n {
            return false;
        }
        let mut i: usize = 0;
        while i < n
            invariant
                i <= n,
                n == self.grid().len(),
                self.wf(),
                frame@.len() == n * 4,
                n * 4 <= usize::MAX,
                forall|j: int| 0 <= j < 4 * i ==> frame@[j] == render_bytes(self.grid())[j],
            decreases n - i,
        {
            let c = color_of(self.fire_pixels[i]);
            frame.set(4 * i, c.0);
            frame.set(4 * i + 1, c.1);
            frame.set(4 * i + 2, c.2);
            frame.set(4 * i + 3, c.3);
            i = i + 1;
        }
        proof {
            assert(frame@ =~= render_bytes(self.grid()));
        }
        true
    }

    /// Advances the simulation one tick, drawing afresh from the random
    /// source. The tick never changes the dimensions or `is_lit`, keeps every
    /// cell at most the hottest level, and is exactly one run of the cell
    /// rule `run_from` for some sequence of in-range drift draws; once the
    /// grid is entirely cold it stays, bit for bit, entirely cold.
    pub fn update(&mut self)
        requires
            old(self).wf(),
        ensures
            final(self).wf(),
            final(self).spec_width() == old(self).spec_width(),
            final(self).spec_height() == old(self).spec_height(),
            final(self).lit() == old(self).lit(),
            exists|rs: Seq<int>|
                valid_draws(rs) && final(self).grid() == run_from(
                    old(self).grid(),
                    old(self).spec_width(),
                    old(self).spec_height(),
                    old(self).lit(),
                    0,
                    1,
                    rs,
                ),
            (forall|i: int| 0 <= i < old(self).grid().len() ==> old(self).grid()[i] == 0)
                ==> final(self).grid() == old(self).grid(),
    {
        let w = self.width;
        let h = self.height;
        let len = self.fire_pixels.len();
        proof {
            let ghost a = old(self).spec_width();
            let ghost b = old(self).spec_height();
            assert(a * b >= 1) by (nonlinear_arith)
                requires
                    a >= 1,
                    b >= 1,
            ;
        }
        let max_idx = len - 1;
        let lit = self.is_lit;
        let ghost gw = w as int;
        let ghost gh = h as int;
        let ghost g0 = self.fire_pixels@;
        let ghost mut draws: Seq<int> = Seq::empty();
        proof {
            assert forall|rest: Seq<int>|
                #[trigger] run_from(self.fire_pixels@, gw, gh, lit, 0, 1, rest) == run_from(
                    g0,
                    gw,
                    gh,
                    lit,
                    0,
                    1,
                    draws + rest,
                ) by {
                assert(draws + rest =~= rest);
            }
        }
        let mut x: usize = 0;
        while x < w
            invariant
                x <= w,
                w == self.width,
                h == self.height,
                lit == self.is_lit,
                gw == w as int,
                gh == h as int,
                self.width == old(self).width,
                self.height == old(self).height,
                self.is_lit == old(self).is_lit,
                g0 == old(self).grid(),
                g0.len() == gw * gh,
                w >= 1,
                h >= 1,
                len == g0.len(),
                max_idx + 1 == len,
                self.fire_pixels@.len() == len,
                forall|i: int| 0 <= i < self.fire_pixels@.len() ==> self.fire_pixels@[i] <= 36,
                valid_draws(draws),
                forall|rest: Seq<int>|
                    #[trigger] run_from(self.fire_pixels@, gw, gh, lit, x as int, 1, rest)
                        == run_from(g0, gw, gh, lit, 0, 1, draws + rest),
            decreases w - x,
        {
            let mut y: usize = 1;
            while y < h
                invariant
                    x < w,
                    1 <= y <= h,
                    w == self.width,
                    h == self.height,
                    lit == self.is_lit,
                    gw == w as int,
                    gh == h as int,
                    self.width == old(self).width,
                    self.height == old(self).height,
                    self.is_lit == old(self).is_lit,
                    g0 == old(self).grid(),
                    g0.len() == gw * gh,
                    w >= 1,
                    h >= 1,
                    len == g0.len(),
                    max_idx + 1 == len,
                    self.fire_pixels@.len() == len,
                    forall|i: int| 0 <= i < self.fire_pixels@.len() ==> self.fire_pixels@[i] <= 36,
                    valid_draws(draws),
                    forall|rest: Seq<int>|
                        #[trigger] run_from(self.fire_pixels@, gw, gh, lit, x as int, y as int, rest)
                            == run_from(g0, gw, gh, lit, 0, 1, draws + rest),
                decreases h - y,
            {
                proof {
                    assert(gw <= (y as int) * gw + (x as int) && (y as int) * gw + (x as int)
                        < gw * gh) by (nonlinear_arith)
                        requires
                            0 <= x as int,
                            (x as int) < gw,
                            1 <= y as int,
                            (y as int) < gh,
                    ;
                }
                let src_idx = y * w + x;
                let src = self.fire_pixels[src_idx];
                let ghost pre = self.fire_pixels@;
                let ghost predraws = draws;
                if src == 0 {
                    self.fire_pixels.set(src_idx - w, 0);
                    proof {
                        assert(self.fire_pixels@ == step_cell(pre, gw, src_idx as int, 0, 0));
                        assert forall|rest: Seq<int>|
                            #[trigger] run_from(
                                self.fire_pixels@,
                                gw,
                                gh,
                                lit,
                                x as int,
                                y as int + 1,
                                rest,
                            ) == run_from(g0, gw, gh, lit, 0, 1, draws + rest) by {
                            assert(run_from(pre, gw, gh, lit, x as int, y as int, rest)
                                == run_from(g0, gw, gh, lit, 0, 1, predraws + rest));
                        }
                    }
                } else if lit {
                    let r1 = draw_drift(&mut self.rng);
                    let dst = compute_dst(src_idx, r1, w, 1, max_idx);
                    self.fire_pixels.set(dst, src - (r1 % 2));
                    proof {
                        let added = seq![r1 as int];
                        draws = predraws + added;
                        assert(valid_draws(draws));
                        assert(self.fire_pixels@ == step_cell(pre, gw, src_idx as int, r1 as int, 1));
                        assert forall|rest: Seq<int>|
                            #[trigger] run_from(
                                self.fire_pixels@,
                                gw,
                                gh,
                                lit,
                                x as int,
                                y as int + 1,
                                rest,
                            ) == run_from(g0, gw, gh, lit, 0, 1, draws + rest) by {
                            let full = added + rest;
                            assert(run_from(pre, gw, gh, lit, x as int, y as int, full)
                                == run_from(g0, gw, gh, lit, 0, 1, predraws + full));
                            assert(predraws + full =~= draws + rest);
                            assert(full[0] == r1 as int);
                            assert(full.skip(1) =~= rest);
                        }
                    }
                } else {
                    let r1 = draw_drift(&mut self.rng);
                    let r2 = draw_drift(&mut self.rng);
                    let dst = compute_dst(src_idx, r1, w, r2, max_idx);
                    self.fire_pixels.set(dst, src - (r1 % 2));
                    proof {
                        let added = seq![r1 as int, r2 as int];
                        draws = predraws + added;
                        assert(valid_draws(draws));
                        assert(self.fire_pixels@ == step_cell(
                            pre,
                            gw,
                            src_idx as int,
                            r1 as int,
                            r2 as int,
                        ));
                        assert forall|rest: Seq<int>|
                            #[trigger] run_from(
                                self.fire_pixels@,
                                gw,
                                gh,
                                lit,
                                x as int,
                                y as int + 1,
                                rest,
                            ) == run_from(g0, gw, gh, lit, 0, 1, draws + rest) by {
                            let full = added + rest;
                            assert(run_from(pre, gw, gh, lit, x as int, y as int, full)
                                == run_from(g0, gw, gh, lit, 0, 1, predraws + full));
                            assert(predraws + full =~= draws + rest);
                            assert(full[0] == r1 as int);
                            assert(full[1] == r2 as int);
                            assert(full.skip(2) =~= rest);
                        }
                    }
                }
                y = y + 1;
            }
            proof {
                assert forall|rest: Seq<int>|
                    #[trigger] run_from(self.fire_pixels@, gw, gh, lit, x as int + 1, 1, rest)
                        == run_from(g0, gw, gh, lit, 0, 1, draws + rest) by {
                    assert(run_from(self.fire_pixels@, gw, gh, lit, x as int, y as int, rest)
                        == run_from(g0, gw, gh, lit, 0, 1, draws + rest));
                }
            }
            x = x + 1;
        }
        proof {
            assert(run_from(self.fire_pixels@, gw, gh, lit, w as int, 1, Seq::empty())
                == run_from(g0, gw, gh, lit, 0, 1, draws + Seq::empty()));
            assert(draws + Seq::empty() =~= draws);
            assert(self.fire_pixels@ == run_from(g0, gw, gh, lit, 0, 1, draws));
            if forall|i: int| 0 <= i < g0.len() ==> g0[i] == 0 {
                lemma_run_all_zero(g0, gw, gh, lit, 0, 1, draws);
            }
        }
    }
}

/// The rendered form of a grid: four bytes per cell, each cell's color taken
/// from the palette at that cell's intensity.
pub open spec fn render_bytes(g: Seq<usize>) -> Seq<u8> {
    Seq::new(g.len() * 4, |i: int| color_component(g[i / 4], i % 4))
}

/// Builds a field of the default demo size, 600 by 400, cold and unlit.
impl Default for Doomfire {
    fn default() -> (r: Doomfire)
        ensures
            r.wf(),
            r.spec_width() == 600,
            r.spec_height() == 400,
            !r.lit(),
            r.grid() == cold_grid(600, 400),
    {
        Doomfire::new(600, 400)
    }
}

/// Draw values the update rule consumes: each drift draw lies in 0..=3.
pub open spec fn valid_draws(rs: Seq<int>) -> bool {
    forall|k: int| 0 <= k < rs.len() ==> 0 <= #[trigger] rs[k] <= 3
}

/// Where one burning cell's heat lands: one row up per vertical step
/// (`rand2` rows; a single row while lit), drifted `1 - rand` columns
/// sideways. The index is formed by unsigned subtraction, so a step past the
/// low edge wraps and is clamped, like any overshoot, to the last cell of the
/// grid rather than trapping.
pub open spec fn cell_target(w: int, max_idx: int, src_idx: int, rand: int, rand2: int) -> int {
    let d = src_idx + 1 - rand - w * rand2;
    if 0 <= d <= max_idx {
        d
    } else {
        max_idx
    }
}

/// One cell of the update rule applied to a grid. A cold source writes cold
/// straight up, so heat never reappears above a dead cell; a burning source
/// moves its intensity, decayed by `rand % 2`, to `cell_target`.
pub open spec fn step_cell(g: Seq<usize>, w: int, src_idx: int, rand: int, rand2: int) -> Seq<usize> {
    if g[src_idx] == 0 {
        g.update(src_idx - w, 0usize)
    } else {
        g.update(
            cell_target(w, g.len() - 1, src_idx, rand, rand2),
            ((g[src_idx] - (rand % 2)) as usize),
        )
    }
}

/// One whole tick of the automaton as a function of the drift draws alone,
/// starting at cell `(x, y)`: columns are visited left to right and, inside a
/// column, rows top to bottom, row 0 only ever receiving heat. A burning cell
/// consumes one draw while lit and two while unlit (the second being the
/// extra vertical jump of a dying flame); later cells may overwrite earlier
/// targets, so the visiting order is part of the rule.
pub open spec fn run_from(
    g: Seq<usize>,
    w: int,
    h: int,
    lit: bool,
    x: int,
    y: int,
    rs: Seq<int>,
) -> Seq<usize>
    decreases w - x, h - y,
{
    if x < 0 || x >= w || y < 1 {
        g
    } else if y >= h {
        run_from(g, w, h, lit, x + 1, 1, rs)
    } else {
        let src_idx = y * w + x;
        if g[src_idx] == 0 {
            run_from(step_cell(g, w, src_idx, 0, 0), w, h, lit, x, y + 1, rs)
        } else if lit {
            run_from(step_cell(g, w, src_idx, rs[0], 1), w, h, lit, x, y + 1, rs.skip(1))
        } else {
            run_from(step_cell(g, w, src_idx, rs[0], rs[1]), w, h, lit, x, y + 1, rs.skip(2))
        }
    }
}

/// Once every cell is cold the tick is the identity, whatever the draws:
/// a dead fire never reignites on its own.
pub proof fn lemma_run_all_zero(
    g: Seq<usize>,
    w: int,
    h: int,
    lit: bool,
    x: int,
    y: int,
    rs: Seq<int>,
)
    requires
        w >= 1,
        h >= 1,
        g.len() == w * h,
        forall|i: int| 0 <= i < g.len() ==> g[i] == 0,
    ensures
        run_from(g, w, h, lit, x, y, rs) == g,
    decreases w - x, h - y,
{
    if x < 0 || x >= w || y < 1 {
    } else if y >= h {
        lemma_run_all_zero(g, w, h, lit, x + 1, 1, rs);
    } else {
        let src_idx = y * w + x;
        assert(w <= y * w + x && y * w + x < w * h) by (nonlinear_arith)
            requires
                0 <= x,
                x < w,
                1 <= y,
                y < h,
        ;
        let g2 = step_cell(g, w, src_idx, 0, 0);
        assert(g2 =~= g);
        lemma_run_all_zero(g, w, h, lit, x, y + 1, rs);
    }
}

/// No rule increases intensity: a tick keeps every cell at or below any
/// level that already bounded every cell, whatever the draws. With the
/// hottest level as the bound this is the grid invariant; with the grid's
/// own maximum it says heat only ever decays.
pub proof fn lemma_run_bounded(
    g: Seq<usize>,
    w: int,
    h: int,
    lit: bool,
    x: int,
    y: int,
    rs: Seq<int>,
    b: int,
)
    requires
        w >= 1,
        h >= 1,
        g.len() == w * h,
        0 <= b,
        forall|i: int| 0 <= i < g.len() ==> g[i] <= b,
    ensures
        run_from(g, w, h, lit, x, y, rs).len() == g.len(),
        forall|i: int| 0 <= i < g.len() ==> run_from(g, w, h, lit, x, y, rs)[i] <= b,
    decreases w - x, h - y,
{
    if x < 0 || x >= w || y < 1 {
    } else if y >= h {
        lemma_run_bounded(g, w, h, lit, x + 1, 1, rs, b);
    } else {
        assert(w <= y * w + x && y * w + x < w * h) by (nonlinear_arith)
            requires
                0 <= x,
                x < w,
                1 <= y,
                y < h,
        ;
        let src_idx = y * w + x;
        if g[src_idx] == 0 {
            lemma_run_bounded(step_cell(g, w, src_idx, 0, 0), w, h, lit, x, y + 1, rs, b);
        } else if lit {
            lemma_run_bounded(step_cell(g, w, src_idx, rs[0], 1), w, h, lit, x, y + 1, rs.skip(1), b);
        } else {
            lemma_run_bounded(
                step_cell(g, w, src_idx, rs[0], rs[1]),
                w,
                h,
                lit,
                x,
                y + 1,
                rs.skip(2),
                b,
            );
        }
    }
}

/// Igniting a freshly built field touches nothing but the bottom row: every
/// cell of row `h - 1` ends at the hottest level and every cell of the rows
/// above it stays cold.
pub proof fn lemma_ignite_from_cold(w: int, h: int)
    requires
        w >= 1,
        h >= 1,
    ensures
        ignited_grid(cold_grid(w, h), w, h).len() == w * h,
        forall|i: int| (h - 1) * w <= i < w * h
            ==> ignited_grid(cold_grid(w, h), w, h)[i] == 36,
        forall|i: int| 0 <= i < (h - 1) * w ==> ignited_grid(cold_grid(w, h), w, h)[i] == 0,
{
    assert((h - 1) * w + w == w * h) by (nonlinear_arith);
    assert((h - 1) * w >= 0) by (nonlinear_arith)
        requires
            h >= 1,
            w >= 0,
    ;
}

/// Igniting is idempotent on the grid: a second ignition writes the bottom
/// row to the level it already has and touches nothing else.
pub proof fn lemma_ignite_idempotent(g: Seq<usize>, w: int, h: int)
    ensures
        ignited_grid(ignited_grid(g, w, h), w, h) == ignited_grid(g, w, h),
{
    assert(ignited_grid(ignited_grid(g, w, h), w, h) =~= ignited_grid(g, w, h));
}

/// One drift draw: a uniform value below six folded to 0..=3, hitting 1 and 2
/// twice as often as 0 and 3 — the middle-heavy bias that gives the flame its
/// characteristic lean.
fn draw_drift(rng: &mut rand::rngs::StdRng) -> (r: usize)
    ensures
        r <= 3,
{
    let raw = sample_below_six(rng);
    ((raw + 1) / 2) as usize
}

/// Computes `cell_target` executably: the unsigned-wraparound destination,
/// clamped to the last cell whenever the ideal index falls outside the grid.
fn compute_dst(src_idx: usize, rand: usize, w: usize, rand2: usize, max_idx: usize) -> (dst: usize)
    requires
        rand <= 3,
        rand2 <= 3,
        w >= 1,
        src_idx <= max_idx,
        max_idx < usize::MAX,
    ensures
        dst == cell_target(w as int, max_idx as int, src_idx as int, rand as int, rand2 as int),
        dst <= max_idx,
{
    proof {
        assert((w as int) * (rand2 as int) >= 0) by (nonlinear_arith)
            requires
                w as int >= 0,
                rand2 as int >= 0,
        ;
    }
    let base = src_idx + 1;
    if base < rand {
        return max_idx;
    }
    let b = base - rand;
    match w.checked_mul(rand2) {
        None => max_idx,
        Some(off) => {
            if b < off {
                max_idx
            } else {
                let d = b - off;
                if d > max_idx {
                    max_idx
                } else {
                    d
                }
            }
        },
    }
}

/// A vector of `n` zeroed cells.
fn zero_vec(n: usize) -> (v: Vec<usize>)
    ensures
        v@ == Seq::new(n as nat, |i: int| 0usize),
{
    let mut v: Vec<usize> = Vec::new();
    let mut i: usize = 0;
    while i < n
        invariant
            i <= n,
            v@ == Seq::new(i as nat, |j: int| 0usize),
        decreases n - i,
    {
        v.push(0);
        i = i + 1;
        proof {
            assert(v@ =~= Seq::new(i as nat, |j: int| 0usize));
        }
    }
    v
}

} // verus!
