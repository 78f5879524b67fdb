//! The search engine: greedy, stochastic local search over image space.
//!
//! Each try samples `K` candidate mutations of the working canvas, scores
//! every candidate against the target, and commits the best candidate only
//! when it strictly improves the current score. The whole run is pinned to
//! a pure function of the seed, the configuration, the painter and the two
//! starting canvases, so identical inputs always produce the identical
//! trajectory, whatever order candidates are evaluated in.

use vstd::prelude::*;

use crate::canvas::{Canvas, CanvasModel};
use crate::diff::{diff_den_spec, diff_num_spec, diff_sum_spec, DiffScore};
use crate::error::ProcessError;
use crate::paint::composite_model_spec;
use crate::painter::Painter;
use crate::units::UNIT;

verus! {

/// The configuration of one search run. Bounds set to zero are disabled;
/// the target difference is in millionths of the whole diff unit.
#[derive(Clone, Copy, Debug, PartialEq, Eq, Structural)]
pub struct ProcessConfig {
    pub target_tries: u32,
    pub target_generations: u32,
    pub target_diff: i64,
    pub num_candidates: u32,
}

/// What the engine reports after each try.
#[derive(Clone, Copy, Debug, PartialEq, Eq, Structural)]
pub struct ProcessCallbackResult {
    pub is_success: bool,
    pub is_final: bool,
    pub num_tries: u32,
    pub num_generations: u32,
    pub diff: DiffScore,
}

/// What a finished run hands back.
#[derive(Debug, PartialEq, Eq)]
pub struct ProcessResult {
    pub num_tries: u32,
    pub num_generations: u32,
    pub final_diff: DiffScore,
    pub events: Vec<ProcessCallbackResult>,
}

/// The spec-level view of a finished run.
pub struct ResultModel {
    pub num_tries: u32,
    pub num_generations: u32,
    pub final_diff: DiffScore,
    pub events: Seq<ProcessCallbackResult>,
}

/// The spec-level summed difference between a candidate canvas and the
/// target.
pub open spec fn model_diff_num(a: CanvasModel, target: Canvas) -> int {
    diff_sum_spec(a.data, target.data@, a.pixel_count())
}

/// The best candidate (index, canvas, difference) and the failure count
/// among the first `k` candidates of one try: candidates are scored in
/// index order and a later candidate wins only by a strictly smaller
/// difference, so ties fall to the earliest index.
pub open spec fn candidates_spec<P: Painter>(
    p: &P,
    target: Canvas,
    current: CanvasModel,
    total: u32,
    k: int,
) -> (Option<(int, CanvasModel, int)>, int)
    decreases k,
{
    if k <= 0 {
        (None, 0)
    } else {
        let prev = candidates_spec(p, target, current, total, k - 1);
        let c = k - 1;
        let iter = ((total + c) % 0x1_0000_0000) as u32;
        match p.paint_model_spec(current.width, current.height, iter, target) {
            Result::Err(_) => (prev.0, prev.1 + 1),
            Result::Ok(im) => {
                let painted = composite_model_spec(current, im);
                let dn = model_diff_num(painted, target);
                match prev.0 {
                    None => (Some((c, painted, dn)), prev.1),
                    Some(best) => if dn < best.2 {
                        (Some((c, painted, dn)), prev.1)
                    } else {
                        (prev.0, prev.1)
                    },
                }
            },
        }
    }
}

/// The best candidate's recorded difference is the difference of its
/// canvas.
pub proof fn lemma_candidates_best_diff<P: Painter>(
    p: &P,
    target: Canvas,
    current: CanvasModel,
    total: u32,
    k: int,
)
    ensures
        match candidates_spec(p, target, current, total, k).0 {
            Some(t) => t.2 == model_diff_num(t.1, target),
            None => true,
        },
    decreases k,
{
    if k > 0 {
        lemma_candidates_best_diff(p, target, current, total, k - 1);
    }
}

/// The state of the search after some tries, as the recursive run spec
/// threads it.
pub struct RunState {
    pub current: CanvasModel,
    pub diff_num: int,
    pub tries: u32,
    pub generations: u32,
    pub total: u32,
    pub events: Seq<ProcessCallbackResult>,
}

/// The rest of a run from a given state with `fuel` tries left: each step
/// evaluates `K` candidates, commits the best strictly improving one,
/// records one event, and stops when a configured bound is reached (or
/// when the fuel, the engine's absolute cap on tries, runs out).
pub open spec fn run_spec<P: Painter>(
    p: &P,
    cfg: ProcessConfig,
    target: Canvas,
    st: RunState,
    fuel: nat,
) -> (Result<ResultModel, ProcessError>, CanvasModel)
    decreases fuel,
{
    let den = diff_den_spec(target);
    if fuel == 0 {
        (
            Ok(
                ResultModel {
                    num_tries: st.tries,
                    num_generations: st.generations,
                    final_diff: DiffScore { num: st.diff_num as u64, den: den as u64 },
                    events: st.events,
                },
            ),
            st.current,
        )
    } else {
        let k = cfg.num_candidates as int;
        let cands = candidates_spec(p, target, st.current, st.total, k);
        if cands.1 == k {
            (Err(ProcessError::AllCandidatesFailed(st.tries)), st.current)
        } else {
            match cands.0 {
                None => (Err(ProcessError::AllCandidatesFailed(st.tries)), st.current),
                Some(best) => {
                    let used = best.2 < st.diff_num;
                    let current2 = if used {
                        best.1
                    } else {
                        st.current
                    };
                    let diff2 = if used {
                        best.2
                    } else {
                        st.diff_num
                    };
                    let gens2 = if used {
                        (st.generations + 1) as u32
                    } else {
                        st.generations
                    };
                    let tries2 = (st.tries + 1) as u32;
                    let total2 = ((st.total + k) % 0x1_0000_0000) as u32;
                    let finished = (cfg.target_tries > 0 && tries2 == cfg.target_tries) || (
                    cfg.target_generations > 0 && gens2 == cfg.target_generations) || (
                    cfg.target_diff > 0 && diff2 * (UNIT as int) <= cfg.target_diff * den);
                    let ev = ProcessCallbackResult {
                        is_success: used,
                        is_final: finished,
                        num_tries: tries2,
                        num_generations: gens2,
                        diff: DiffScore { num: diff2 as u64, den: den as u64 },
                    };
                    let st2 = RunState {
                        current: current2,
                        diff_num: diff2,
                        tries: tries2,
                        generations: gens2,
                        total: total2,
                        events: st.events.push(ev),
                    };
                    if finished {
                        (
                            Ok(
                                ResultModel {
                                    num_tries: tries2,
                                    num_generations: gens2,
                                    final_diff: DiffScore { num: diff2 as u64, den: den as u64 },
                                    events: st2.events,
                                },
                            ),
                            current2,
                        )
                    } else {
                        run_spec(p, cfg, target, st2, (fuel - 1) as nat)
                    }
                },
            }
        }
    }
}

/// The engine's absolute cap on tries for a configuration: the configured
/// try bound, or the largest counter value when only other bounds are set.
pub open spec fn fuel_spec(cfg: ProcessConfig) -> nat {
    if cfg.target_tries > 0 {
        cfg.target_tries as nat
    } else {
        0xffff_ffff as nat
    }
}

/// The complete outcome of a run from a starting pair of canvases: the
/// result (or the configuration error) and the final working canvas.
pub open spec fn process_spec<P: Painter>(
    p: &P,
    cfg: ProcessConfig,
    target: Canvas,
    current0: CanvasModel,
) -> (Result<ResultModel, ProcessError>, CanvasModel) {
    if cfg.target_tries == 0 && cfg.target_generations == 0 {
        (Err(ProcessError::NoTerminationBound), current0)
    } else if !p.valid_spec(target.width, target.height) {
        (Err(ProcessError::InvalidPainterOptions), current0)
    } else {
        let st0 = RunState {
            current: current0,
            diff_num: model_diff_num(current0, target),
            tries: 0,
            generations: 0,
            total: 0,
            events: Seq::empty(),
        };
        run_spec(p, cfg, target, st0, fuel_spec(cfg))
    }
}

/// Determinism of the search: two runs from identical seeds,
/// configurations, painters and canvases have identical outcomes — the
/// same final canvas and the same (tries, generations, difference)
/// trajectory, however the candidate evaluations were scheduled.
pub proof fn lemma_process_deterministic<P: Painter>(
    p1: &P,
    p2: &P,
    cfg1: ProcessConfig,
    cfg2: ProcessConfig,
    target1: Canvas,
    target2: Canvas,
    current1: CanvasModel,
    current2: CanvasModel,
)
    requires
        p1 == p2,
        cfg1 == cfg2,
        target1 == target2,
        current1 == current2,
    ensures
        process_spec(p1, cfg1, target1, current1) == process_spec(p2, cfg2, target2, current2),
{
}

/// Evaluate the `k` candidates of one try: paint and score each, keep the
/// best by strictly smaller difference (earliest index on ties), and count
/// the failures.
fn evaluate_candidates<P: Painter>(
    painter: &P,
    target: &Canvas,
    current: &Canvas,
    total: u32,
    k: u32,
) -> (r: (Option<(Canvas, u64)>, u32))
    requires
        target.well_formed(),
        current.well_formed(),
        current.width == target.width,
        current.height == target.height,
        target.width > 0,
        target.height > 0,
        painter.valid_spec(target.width, target.height),
    ensures
        ({
            let cs = candidates_spec(painter, *target, current.model(), total, k as int);
            r.1 as int == cs.1 && (r.0 is None ==> r.1 == k) && match (r.0, cs.0) {
                (Option::None, Option::None) => true,
                (Option::Some(p), Option::Some(t)) => p.0.model() == t.1 && p.1 as int == t.2
                    && p.0.well_formed() && p.0.width == target.width && p.0.height
                    == target.height && p.1 <= diff_den_spec(*target),
                _ => false,
            }
        }),
{
    let mut fails: u32 = 0;
    let mut best: Option<(Canvas, u64)> = None;
    let mut best_num: u64 = 0;
    let mut c: u32 = 0;
    while c < k
        invariant
            target.well_formed(),
            current.well_formed(),
            current.width == target.width,
            current.height == target.height,
            target.width > 0,
            target.height > 0,
            painter.valid_spec(target.width, target.height),
            0 <= c <= k,
            fails <= c,
            best is None ==> fails == c,
            ({
                let cs = candidates_spec(painter, *target, current.model(), total, c as int);
                fails as int == cs.1 && match (best, cs.0) {
                    (Option::None, Option::None) => true,
                    (Option::Some(bc), Option::Some(t)) => bc.0.model() == t.1 && bc.1 as int
                        == t.2 && bc.1 == best_num && bc.0.well_formed() && bc.0.width
                        == target.width && bc.0.height == target.height && best_num
                        <= diff_den_spec(*target),
                    _ => false,
                }
            }),
        decreases k - c,
    {
        let iter: u32 = (((total as u64) + (c as u64)) % 0x1_0000_0000u64) as u32;
        let res = painter.paint(current, iter, target);
        match res {
            Result::Err(_) => {
                fails = fails + 1;
            },
            Result::Ok(painted) => {
                let d = crate::diff::diff(&painted, target);
                let replace: bool = match &best {
                    Option::None => true,
                    Option::Some(_) => d.num < best_num,
                };
                if replace {
                    best_num = d.num;
                    best = Some((painted, d.num));
                }
            },
        }
        c = c + 1;
    }
    (best, fails)
}

/// A definition of one image generation run: the immutable target and the
/// working canvas that accepted mutations build up.
pub struct Generator {
    pub target: Canvas,
    pub current: Canvas,
}

impl Generator {
    /// Both canvases are well formed, non-empty and of equal size.
    pub open spec fn well_formed(self) -> bool {
        self.target.well_formed() && self.current.well_formed() && self.current.width
            == self.target.width && self.current.height == self.target.height && self.target.width
            > 0 && self.target.height > 0
    }

    /// A generator for the given target, starting from a black canvas.
    pub fn from(target_image: Canvas) -> (r: Generator)
        requires
            target_image.well_formed(),
            target_image.width > 0,
            target_image.height > 0,
        ensures
            r.well_formed(),
            r.target == target_image,
            r.current.width == target_image.width,
            r.current.height == target_image.height,
            forall|x: int, y: int, c: int|
                0 <= x < target_image.width && 0 <= y < target_image.height && 0 <= c < 3
                    ==> r.current.channel_spec(x, y, c) == 0,
    {
        let current = Canvas::new(target_image.width, target_image.height);
        Generator { target: target_image, current }
    }

    /// Replace the working canvas with an existing image of the same size.
    pub fn prepopulate(&mut self, current_image: Canvas)
        requires
            old(self).well_formed(),
            current_image.well_formed(),
            current_image.width == old(self).target.width,
            current_image.height == old(self).target.height,
        ensures
            final(self).well_formed(),
            final(self).target == old(self).target,
            final(self).current == current_image,
    {
        self.current = current_image;
    }

    /// Replace the working canvas with an existing image of the same size.
    pub fn prepopulate_with_image(&mut self, current_image: Canvas)
        requires
            old(self).well_formed(),
            current_image.well_formed(),
            current_image.width == old(self).target.width,
            current_image.height == old(self).target.height,
        ensures
            final(self).well_formed(),
            final(self).target == old(self).target,
            final(self).current == current_image,
    {
        self.current = current_image;
    }

    /// Fill the working canvas with one uniform color.
    pub fn prepopulate_with_color(&mut self, r: u8, g: u8, b: u8)
        requires
            old(self).well_formed(),
        ensures
            final(self).well_formed(),
            final(self).target == old(self).target,
            forall|x: int, y: int, c: int|
                0 <= x < old(self).target.width && 0 <= y < old(self).target.height && 0 <= c < 3
                    ==> final(self).current.channel_spec(x, y, c) == [r, g, b]@[c],
    {
        self.current = Canvas::from_pixel(self.target.width, self.target.height, [r, g, b]);
    }

    /// The working canvas as it stands.
    pub fn get_current(&self) -> (r: &Canvas)
        ensures
            r == &self.current,
    {
        &self.current
    }

    /// Hand the working canvas to the caller, consuming the generator.
    pub fn finalize(self) -> (r: Canvas)
        ensures
            r == self.current,
    {
        self.current
    }

    /// The exact perceptual distance between two equally sized canvases.
    pub fn diff(a: &Canvas, b: &Canvas) -> (r: DiffScore)
        requires
            a.well_formed(),
            b.well_formed(),
            a.width == b.width,
            a.height == b.height,
        ensures
            r.num == diff_num_spec(*a, *b),
            r.den == diff_den_spec(*a),
            r.num <= r.den,
    {
        crate::diff::diff(a, b)
    }

    /// Run the search: up to the configured bounds, sample
    /// `config.num_candidates` candidates per try, commit the best strictly
    /// improving candidate, and record one event per try. The outcome is a
    /// pure function of the configuration, the painter and the canvases;
    /// the difference recorded over the events never increases; and with a
    /// bound on tries set, no more than that many tries happen.
    #[verifier::rlimit(100)]
    pub fn process<P: Painter>(&mut self, config: &ProcessConfig, painter: &P) -> (r: Result<
        ProcessResult,
        ProcessError,
    >)
        requires
            old(self).well_formed(),
            config.num_candidates >= 1,
            0 <= config.target_diff <= UNIT,
        ensures
            final(self).well_formed(),
            final(self).target == old(self).target,
            ({
                let out = process_spec(painter, *config, old(self).target, old(self).current.model());
                final(self).current.model() == out.1 && match (r, out.0) {
                    (Result::Ok(res), Result::Ok(rm)) => res.num_tries == rm.num_tries
                        && res.num_generations == rm.num_generations && res.final_diff
                        == rm.final_diff && res.events@ == rm.events,
                    (Result::Err(e1), Result::Err(e2)) => e1 == e2,
                    _ => false,
                }
            }),
            r matches Result::Ok(res) ==> (config.target_tries > 0 ==> res.num_tries
                <= config.target_tries),
            r matches Result::Ok(res) ==> (config.target_generations > 0
                ==> res.num_generations <= config.target_generations),
            r matches Result::Ok(res) ==> (forall|i: int, j: int|
                0 <= i <= j < res.events@.len() ==> res.events@[j].diff.num
                    <= res.events@[i].diff.num),
            r matches Result::Ok(res) ==> res.final_diff.num <= diff_num_spec(
                old(self).current,
                old(self).target,
            ),
            r matches Result::Ok(res) ==> res.num_generations <= res.num_tries,
    {
        if config.target_tries == 0 && config.target_generations == 0 {
            return Err(ProcessError::NoTerminationBound);
        }
        if !painter.is_valid(self.target.width, self.target.height) {
            return Err(ProcessError::InvalidPainterOptions);
        }
        let initial = crate::diff::diff(&self.current, &self.target);
        let den: u64 = initial.den;
        proof {
            assert((self.target.width as int) * (self.target.height as int) > 0)
                by (nonlinear_arith)
                requires
                    self.target.width > 0,
                    self.target.height > 0,
            ;
            assert(2_550_000 * self.target.pixel_count() > 0) by (nonlinear_arith)
                requires
                    self.target.pixel_count() > 0,
            ;
        }
        let mut curr_num: u64 = initial.num;
        let ghost initial_num = initial.num as int;
        let cap: u32 = if config.target_tries > 0 {
            config.target_tries
        } else {
            0xffff_ffffu32
        };
        let mut tries: u32 = 0;
        let mut gens: u32 = 0;
        let mut total: u32 = 0;
        let mut events: Vec<ProcessCallbackResult> = Vec::new();
        let ghost whole = process_spec(painter, *config, old(self).target, old(self).current.model());
        proof {
            let st0 = RunState {
                current: old(self).current.model(),
                diff_num: initial_num,
                tries: 0,
                generations: 0,
                total: 0,
                events: Seq::empty(),
            };
            assert(whole == run_spec(painter, *config, old(self).target, st0, fuel_spec(*config)));
            assert(events@ =~= Seq::<ProcessCallbackResult>::empty());
        }
        loop
            invariant
                self.well_formed(),
                self.target == old(self).target,
                painter.valid_spec(self.target.width, self.target.height),
                config.num_candidates >= 1,
                0 <= config.target_diff <= UNIT,
                den == diff_den_spec(old(self).target),
                den > 0,
                curr_num <= den,
                curr_num as int <= initial_num,
                initial_num == diff_num_spec(old(self).current, old(self).target),
                curr_num as int == model_diff_num(self.current.model(), old(self).target),
                cap == fuel_spec(*config),
                tries < cap,
                gens <= tries,
                config.target_generations > 0 ==> gens < config.target_generations,
                forall|i: int|
                    0 <= i < events@.len() ==> (#[trigger] events@[i]).diff.num >= curr_num,
                forall|i: int, j: int|
                    0 <= i <= j < events@.len() ==> events@[j].diff.num <= events@[i].diff.num,
                forall|i: int| 0 <= i < events@.len() ==> (#[trigger] events@[i]).diff.den == den,
                whole == process_spec(painter, *config, old(self).target, old(self).current.model()),
                whole == run_spec(
                    painter,
                    *config,
                    old(self).target,
                    RunState {
                        current: self.current.model(),
                        diff_num: curr_num as int,
                        tries,
                        generations: gens,
                        total,
                        events: events@,
                    },
                    (cap - tries) as nat,
                ),
            decreases cap - tries,
        {
            let ghost st_in = RunState {
                current: self.current.model(),
                diff_num: curr_num as int,
                tries,
                generations: gens,
                total,
                events: events@,
            };
            let ghost fuel_in = (cap - tries) as nat;
            let k = config.num_candidates;
            let evaluated = evaluate_candidates(painter, &self.target, &self.current, total, k);
            let fails = evaluated.1;
            proof {
                assert(fuel_in != 0);
            }
            if fails == k {
                return Err(ProcessError::AllCandidatesFailed(tries));
            }
            let pair = evaluated.0.unwrap();
            let best_canvas = pair.0;
            let best_num: u64 = pair.1;
            proof {
                lemma_candidates_best_diff(
                    painter,
                    old(self).target,
                    st_in.current,
                    st_in.total,
                    k as int,
                );
            }
            total = (((total as u64) + (k as u64)) % 0x1_0000_0000u64) as u32;
            let used = best_num < curr_num;
            if used {
                self.current = best_canvas;
                curr_num = best_num;
                gens = gens + 1;
            }
            tries = tries + 1;
            proof {
                assert(((curr_num as u128) as int) * 1_000_000 == (curr_num as int) * (
                UNIT as int));
                assert(0 <= ((config.target_diff as u128) as int) * ((den as u128) as int) == (
                config.target_diff as int) * (den as int)) by (nonlinear_arith)
                    requires
                        config.target_diff >= 0,
                        den >= 0,
                ;
                assert((curr_num as u128) * 1_000_000 <= u128::MAX && (config.target_diff as u128)
                    * (den as u128) <= u128::MAX) by (nonlinear_arith)
                    requires
                        curr_num <= 0xffff_ffff_ffff_ffffu64,
                        0 <= config.target_diff <= 1_000_000,
                        den <= 0xffff_ffff_ffff_ffffu64,
                ;
            }
            let finished: bool = (config.target_tries > 0 && tries == config.target_tries) || (
            config.target_generations > 0 && gens == config.target_generations) || (
            config.target_diff > 0 && (curr_num as u128) * 1_000_000 <= (config.target_diff
                as u128) * (den as u128));
            let event = ProcessCallbackResult {
                is_success: used,
                is_final: finished,
                num_tries: tries,
                num_generations: gens,
                diff: DiffScore { num: curr_num, den },
            };
            events.push(event);
            let ghost st_next = RunState {
                current: self.current.model(),
                diff_num: curr_num as int,
                tries,
                generations: gens,
                total,
                events: events@,
            };
            proof {
                assert(events@ =~= st_in.events.push(event));
                assert(whole == (if finished {
                    (
                        Ok::<ResultModel, ProcessError>(
                            ResultModel {
                                num_tries: tries,
                                num_generations: gens,
                                final_diff: DiffScore { num: curr_num, den },
                                events: events@,
                            },
                        ),
                        self.current.model(),
                    )
                } else {
                    run_spec(painter, *config, old(self).target, st_next, (fuel_in - 1) as nat)
                }));
            }
            if finished {
                return Ok(
                    ProcessResult {
                        num_tries: tries,
                        num_generations: gens,
                        final_diff: DiffScore { num: curr_num, den },
                        events,
                    },
                );
            }
            if tries == cap {
                proof {
                    assert((fuel_in - 1) as nat == 0);
                    assert(run_spec(painter, *config, old(self).target, st_next, 0) == (
                    Ok::<ResultModel, ProcessError>(
                        ResultModel {
                            num_tries: tries,
                            num_generations: gens,
                            final_diff: DiffScore { num: curr_num, den },
                            events: events@,
                        },
                    ), self.current.model()));
                }
                return Ok(
                    ProcessResult {
                        num_tries: tries,
                        num_generations: gens,
                        final_diff: DiffScore { num: curr_num, den },
                        events,
                    },
                );
            }
        }
    }
}

} // verus!
