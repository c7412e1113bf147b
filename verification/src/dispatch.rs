//! Splitting the image into scanline jobs and sizing the worker pool that
//! runs them.

use vstd::prelude::*;
use crate::raster::{grid_coordinates, row_coordinates};

verus! {

/// The work of one scanline: its coordinates, handed out left to right.
pub struct RowJob {
    y: u32,
    width: u32,
    next: u32,
}

impl RowJob {
    /// The cursor has not run past the end of the scanline.
    #[verifier::type_invariant]
    pub closed spec fn wf(self) -> bool {
        self.next <= self.width
    }

    /// The scanline this job computes.
    pub closed spec fn row(self) -> u32 {
        self.y
    }

    /// The coordinates not handed out yet, in the order they will be.
    pub closed spec fn pending(self) -> Seq<(u32, u32)> {
        row_coordinates(self.y, self.width).skip(self.next as int)
    }

    /// The job for scanline `y` of an image `width` pixels wide.
    pub fn new(y: u32, width: u32) -> (job: Self)
        ensures
            job.row() == y,
            job.pending() == row_coordinates(y, width),
    {
        RowJob { y, width, next: 0 }
    }

    /// Hands out the next coordinate of the scanline, or `None` once all of
    /// them have been handed out.
    pub fn next_pixel(&mut self) -> (pixel: Option<(u32, u32)>)
        ensures
            final(self).row() == old(self).row(),
            old(self).pending().len() == 0 ==> {
                &&& pixel is None
                &&& final(self).pending() == old(self).pending()
            },
            old(self).pending().len() > 0 ==> {
                &&& pixel == Some(old(self).pending()[0])
                &&& final(self).pending() == old(self).pending().drop_first()
            },
    {
        proof {
            use_type_invariant(&*self);
        }
        if self.next < self.width {
            let x: u32 = self.next;
            *self = RowJob { y: self.y, width: self.width, next: x + 1 };
            Some((x, self.y))
        } else {
            None
        }
    }
}

/// The coordinates that a list of jobs has yet to hand out, job after job.
pub open spec fn pending_of(jobs: Seq<RowJob>) -> Seq<(u32, u32)>
    decreases jobs.len(),
{
    if jobs.len() == 0 {
        Seq::empty()
    } else {
        pending_of(jobs.drop_last()) + jobs.last().pending()
    }
}

/// Cuts an image of `width` by `height` pixels into one job per scanline,
/// top scanline first.
pub fn plan_rows(width: u32, height: u32) -> (jobs: Vec<RowJob>)
    ensures
        jobs.len() == height,
        forall|y: int|
            0 <= y < height ==> {
                &&& (#[trigger] jobs[y]).row() == y
                &&& jobs[y].pending() == row_coordinates(y as u32, width)
            },
        pending_of(jobs@) == grid_coordinates(width, height as nat),
{
    let mut jobs: Vec<RowJob> = Vec::new();
    let mut y: u32 = 0;
    while y < height
        invariant
            y <= height,
            jobs.len() == y,
            forall|i: int|
                0 <= i < y ==> {
                    &&& (#[trigger] jobs[i]).row() == i
                    &&& jobs[i].pending() == row_coordinates(i as u32, width)
                },
            pending_of(jobs@) == grid_coordinates(width, y as nat),
        decreases height - y,
    {
        let job = RowJob::new(y, width);
        proof {
            assert(jobs@.push(job).drop_last() == jobs@);
        }
        jobs.push(job);
        y = y + 1;
    }
    jobs
}

/// Asks `num_cpus::get` for the number of logical cores available to this
/// process. The count depends on the machine and on the moment of the call;
/// all that is claimed of it is the lower bound of one that the function
/// documents.
#[verifier::external_body]
fn logical_cores() -> (cores: usize)
    ensures
        cores >= 1,
{
    num_cpus::get()
}

/// Pool size for a machine with `cores` logical cores: two workers per core.
/// There is none for a machine without cores, nor where the size does not
/// fit the machine word.
pub open spec fn workers_for(cores: usize) -> Option<usize> {
    if 1 <= cores && 2 * cores <= usize::MAX {
        Some((2 * cores) as usize)
    } else {
        None
    }
}

/// Computes the pool size for `cores` logical cores.
pub fn worker_count(cores: usize) -> (workers: Option<usize>)
    ensures
        workers == workers_for(cores),
{
    if cores == 0 || cores > usize::MAX / 2 {
        None
    } else {
        Some(2 * cores)
    }
}

/// Pool size for the machine this runs on. Whatever core count the machine
/// reports, the size is the one `workers_for` gives for it.
pub fn pool_size() -> (workers: Option<usize>)
    ensures
        exists|cores: usize| cores >= 1 && workers == workers_for(cores),
        workers matches Some(count) ==> count >= 2 && count % 2 == 0,
{
    let cores = logical_cores();
    worker_count(cores)
}

} // verus!
