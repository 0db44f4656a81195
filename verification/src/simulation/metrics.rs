//! Timing samples of the last frames.
//!
//! The tracker does not read a clock: the caller hands it the time, in
//! nanoseconds since a start of the caller's choice.
use vstd::prelude::*;

verus! {

/// The timing of one frame. Times are in nanoseconds, utilizations in
/// millionths.
#[derive(Debug, Clone, Copy, PartialEq, Eq, Structural)]
pub struct PerformanceMetrics {
    pub frame_time: u64,
    pub simulation_time: u64,
    pub render_time: u64,
    pub cpu_utilization: i64,
    pub gpu_utilization: i64,
    pub memory_usage: usize,
}

impl Default for PerformanceMetrics {
    fn default() -> (r: Self)
        ensures
            r == (PerformanceMetrics {
                frame_time: 0,
                simulation_time: 0,
                render_time: 0,
                cpu_utilization: 0,
                gpu_utilization: 0,
                memory_usage: 0,
            }),
    {
        PerformanceMetrics {
            frame_time: 0,
            simulation_time: 0,
            render_time: 0,
            cpu_utilization: 0,
            gpu_utilization: 0,
            memory_usage: 0,
        }
    }
}

/// The time from `start` to `now`; zero where `now` lies before `start`.
pub open spec fn elapsed_spec(start: u64, now: u64) -> u64 {
    if now >= start {
        (now - start) as u64
    } else {
        0
    }
}

fn elapsed(start: u64, now: u64) -> (r: u64)
    ensures
        r == elapsed_spec(start, now),
{
    if now >= start {
        now - start
    } else {
        0
    }
}

/// The sum of the frame times of the first `n` samples.
pub open spec fn frame_time_sum(samples: Seq<PerformanceMetrics>, n: int) -> int
    decreases n,
{
    if n <= 0 {
        0
    } else {
        frame_time_sum(samples, n - 1) + samples[n - 1].frame_time
    }
}

/// The sum of the simulation times of the first `n` samples.
pub open spec fn simulation_time_sum(samples: Seq<PerformanceMetrics>, n: int) -> int
    decreases n,
{
    if n <= 0 {
        0
    } else {
        simulation_time_sum(samples, n - 1) + samples[n - 1].simulation_time
    }
}

/// The mean of a sum over `count` samples; zero for no sample.
pub open spec fn mean_spec(sum: int, count: int) -> int {
    if count <= 0 {
        0
    } else {
        sum / count
    }
}

/// The sample that a frame of the given length adds: the simulation and
/// render times of the frame before it carry over.
pub open spec fn next_sample(samples: Seq<PerformanceMetrics>, frame_time: u64) -> PerformanceMetrics {
    PerformanceMetrics {
        frame_time,
        simulation_time: if samples.len() > 0 {
            samples.last().simulation_time
        } else {
            0
        },
        render_time: if samples.len() > 0 {
            samples.last().render_time
        } else {
            0
        },
        cpu_utilization: 0,
        gpu_utilization: 0,
        memory_usage: 0,
    }
}

/// The samples after a frame: the oldest sample makes room where the
/// window is full, and the new sample comes last.
pub open spec fn with_sample(
    samples: Seq<PerformanceMetrics>,
    max_samples: usize,
    sample: PerformanceMetrics,
) -> Seq<PerformanceMetrics> {
    if samples.len() >= max_samples && samples.len() > 0 {
        samples.drop_first().push(sample)
    } else {
        samples.push(sample)
    }
}

/// Keeps the timing of the most recent frames.
pub struct PerformanceTracker {
    samples: Vec<PerformanceMetrics>,
    max_samples: usize,
    current_frame_start: Option<u64>,
    current_sim_start: Option<u64>,
    current_render_start: Option<u64>,
}

impl PerformanceTracker {
    /// The samples, oldest first.
    pub closed spec fn samples(&self) -> Seq<PerformanceMetrics> {
        self.samples@
    }

    /// The size of the window.
    pub closed spec fn max_samples(&self) -> usize {
        self.max_samples
    }

    /// When the running frame started, if one is running.
    pub closed spec fn frame_start(&self) -> Option<u64> {
        self.current_frame_start
    }

    /// When the running simulation step started, if one is running.
    pub closed spec fn simulation_start(&self) -> Option<u64> {
        self.current_sim_start
    }

    /// When the running render step started, if one is running.
    pub closed spec fn render_start(&self) -> Option<u64> {
        self.current_render_start
    }

    /// A tracker with an empty window of the given size.
    pub fn new(max_samples: usize) -> (r: Self)
        ensures
            r.samples().len() == 0,
            r.max_samples() == max_samples,
            r.frame_start() is None,
            r.simulation_start() is None,
            r.render_start() is None,
    {
        PerformanceTracker {
            samples: Vec::new(),
            max_samples,
            current_frame_start: None,
            current_sim_start: None,
            current_render_start: None,
        }
    }

    /// Starts a frame at `now`.
    pub fn start_frame(&mut self, now: u64)
        ensures
            final(self).frame_start() == Some(now),
            final(self).samples() == old(self).samples(),
            final(self).max_samples() == old(self).max_samples(),
            final(self).simulation_start() == old(self).simulation_start(),
            final(self).render_start() == old(self).render_start(),
    {
        self.current_frame_start = Some(now);
    }

    /// Starts a simulation step at `now`.
    pub fn start_simulation(&mut self, now: u64)
        ensures
            final(self).simulation_start() == Some(now),
            final(self).samples() == old(self).samples(),
            final(self).max_samples() == old(self).max_samples(),
            final(self).frame_start() == old(self).frame_start(),
            final(self).render_start() == old(self).render_start(),
    {
        self.current_sim_start = Some(now);
    }

    /// Ends the running simulation step at `now` and notes its length in
    /// the newest sample. Nothing changes where no step is running.
    pub fn end_simulation(&mut self, now: u64)
        ensures
            final(self).simulation_start() is None,
            final(self).max_samples() == old(self).max_samples(),
            final(self).frame_start() == old(self).frame_start(),
            final(self).render_start() == old(self).render_start(),
            final(self).samples() == match old(self).simulation_start() {
                Some(start) if old(self).samples().len() > 0 => old(self).samples().update(
                    old(self).samples().len() - 1,
                    (PerformanceMetrics {
                        simulation_time: elapsed_spec(start, now),
                        ..old(self).samples().last()
                    }),
                ),
                _ => old(self).samples(),
            },
    {
        if let Some(start) = self.current_sim_start {
            self.current_sim_start = None;
            let n = self.samples.len();
            if n > 0 {
                self.samples[n - 1].simulation_time = elapsed(start, now);
                assert(self.samples@ =~= old(self).samples@.update(
                    n - 1,
                    (PerformanceMetrics {
                        simulation_time: elapsed_spec(start, now),
                        ..old(self).samples@.last()
                    }),
                ));
            }
        }
    }

    /// Starts a render step at `now`.
    pub fn start_render(&mut self, now: u64)
        ensures
            final(self).render_start() == Some(now),
            final(self).samples() == old(self).samples(),
            final(self).max_samples() == old(self).max_samples(),
            final(self).frame_start() == old(self).frame_start(),
            final(self).simulation_start() == old(self).simulation_start(),
    {
        self.current_render_start = Some(now);
    }

    /// Ends the running render step at `now` and notes its length in the
    /// newest sample. Nothing changes where no step is running.
    pub fn end_render(&mut self, now: u64)
        ensures
            final(self).render_start() is None,
            final(self).max_samples() == old(self).max_samples(),
            final(self).frame_start() == old(self).frame_start(),
            final(self).simulation_start() == old(self).simulation_start(),
            final(self).samples() == match old(self).render_start() {
                Some(start) if old(self).samples().len() > 0 => old(self).samples().update(
                    old(self).samples().len() - 1,
                    (PerformanceMetrics {
                        render_time: elapsed_spec(start, now),
                        ..old(self).samples().last()
                    }),
                ),
                _ => old(self).samples(),
            },
    {
        if let Some(start) = self.current_render_start {
            self.current_render_start = None;
            let n = self.samples.len();
            if n > 0 {
                self.samples[n - 1].render_time = elapsed(start, now);
                assert(self.samples@ =~= old(self).samples@.update(
                    n - 1,
                    (PerformanceMetrics {
                        render_time: elapsed_spec(start, now),
                        ..old(self).samples@.last()
                    }),
                ));
            }
        }
    }

    /// Ends the running frame at `now` and adds its sample to the
    /// window. Nothing changes where no frame is running.
    pub fn end_frame(&mut self, now: u64)
        ensures
            final(self).frame_start() is None,
            final(self).max_samples() == old(self).max_samples(),
            final(self).simulation_start() == old(self).simulation_start(),
            final(self).render_start() == old(self).render_start(),
            final(self).samples() == match old(self).frame_start() {
                Some(start) => with_sample(
                    old(self).samples(),
                    old(self).max_samples(),
                    next_sample(old(self).samples(), elapsed_spec(start, now)),
                ),
                None => old(self).samples(),
            },
    {
        if let Some(start) = self.current_frame_start {
            self.current_frame_start = None;
            let n = self.samples.len();
            let metrics = PerformanceMetrics {
                frame_time: elapsed(start, now),
                simulation_time: if n > 0 {
                    self.samples[n - 1].simulation_time
                } else {
                    0
                },
                render_time: if n > 0 {
                    self.samples[n - 1].render_time
                } else {
                    0
                },
                cpu_utilization: 0,
                gpu_utilization: 0,
                memory_usage: 0,
            };
            if n >= self.max_samples && n > 0 {
                self.samples.remove(0);
                assert(self.samples@ =~= old(self).samples@.drop_first());
            }
            self.samples.push(metrics);
        }
    }

    /// The mean frame time of the window; zero for an empty window.
    pub fn average_frame_time(&self) -> (r: u64)
        ensures
            r == mean_spec(
                frame_time_sum(self.samples(), self.samples().len() as int),
                self.samples().len() as int,
            ),
    {
        let n = self.samples.len();
        if n == 0 {
            return 0;
        }
        let mut total: u128 = 0;
        let mut i: usize = 0;
        while i < n
            invariant
                i <= n,
                n == self.samples@.len(),
                total == frame_time_sum(self.samples@, i as int),
                total <= i * 0xffff_ffff_ffff_ffff,
            decreases n - i,
        {
            total = total + self.samples[i].frame_time as u128;
            i += 1;
        }
        let mean: u128 = total / (n as u128);
        assert(mean <= 0xffff_ffff_ffff_ffff) by (nonlinear_arith)
            requires
                mean == total / (n as u128),
                total <= n * 0xffff_ffff_ffff_ffff,
                n > 0,
        ;
        mean as u64
    }

    /// The mean simulation time of the window; zero for an empty window.
    pub fn average_simulation_time(&self) -> (r: u64)
        ensures
            r == mean_spec(
                simulation_time_sum(self.samples(), self.samples().len() as int),
                self.samples().len() as int,
            ),
    {
        let n = self.samples.len();
        if n == 0 {
            return 0;
        }
        let mut total: u128 = 0;
        let mut i: usize = 0;
        while i < n
            invariant
                i <= n,
                n == self.samples@.len(),
                total == simulation_time_sum(self.samples@, i as int),
                total <= i * 0xffff_ffff_ffff_ffff,
            decreases n - i,
        {
            total = total + self.samples[i].simulation_time as u128;
            i += 1;
        }
        let mean: u128 = total / (n as u128);
        assert(mean <= 0xffff_ffff_ffff_ffff) by (nonlinear_arith)
            requires
                mean == total / (n as u128),
                total <= n * 0xffff_ffff_ffff_ffff,
                n > 0,
        ;
        mean as u64
    }

    /// Frames per second in millionths: a second over the mean frame
    /// time; zero where the mean frame time is zero.
    pub fn fps(&self) -> (r: u64)
        ensures
            ({
                let mean = mean_spec(
                    frame_time_sum(self.samples(), self.samples().len() as int),
                    self.samples().len() as int,
                );
                r == if mean == 0 {
                    0
                } else {
                    1_000_000_000_000_000int / mean
                }
            }),
    {
        let mean: u64 = self.average_frame_time();
        if mean == 0 {
            0
        } else {
            1_000_000_000_000_000 / mean
        }
    }
}

} // verus!
