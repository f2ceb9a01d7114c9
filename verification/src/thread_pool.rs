//! The worker pool's message protocol, as a verified state machine.
//!
//! The running pool is a set of threads consuming messages from a shared
//! queue: a `Work` message carries one task, a `Down` message retires one
//! worker. This module verifies the protocol's contract — when every work
//! message precedes the shutdown messages, every queued task is applied to
//! the shared buffer exactly once before the workers exit — while an
//! unverified driver runs the same protocol on real threads, performing
//! each task as the model says.

use vstd::prelude::*;
use crate::fixed::SCALE;
use crate::vec3::Color4;

verus! {

/// One unit of work: write a computed color into one buffer cell.
#[derive(Clone, Copy, Debug)]
pub struct Task {
    pub index: usize,
    pub color: Color4,
}

/// A message on the pool's queue: either work, or one worker's shutdown.
#[derive(Clone, Copy, Debug)]
pub enum Msg {
    Work(Task),
    Down,
}

/// What one message does to the buffer contents: a work message writes its
/// cell (out-of-range indices are dropped), a shutdown message nothing.
pub open spec fn msg_step(m: Msg, data: Seq<Color4>) -> Seq<Color4> {
    match m {
        Msg::Work(t) => if t.index < data.len() {
            data.update(t.index as int, t.color)
        } else {
            data
        },
        Msg::Down => data,
    }
}

/// The buffer contents after the first `i` messages have been consumed.
pub open spec fn apply_upto(msgs: Seq<Msg>, i: int, data: Seq<Color4>) -> Seq<Color4>
    decreases i,
{
    if i <= 0 {
        data
    } else {
        msg_step(msgs[i - 1], apply_upto(msgs, i - 1, data))
    }
}

/// Consuming messages never changes the buffer's shape.
pub proof fn lemma_apply_len(msgs: Seq<Msg>, i: int, data: Seq<Color4>)
    ensures
        apply_upto(msgs, i, data).len() == data.len(),
    decreases i,
{
    if i > 0 {
        lemma_apply_len(msgs, i - 1, data);
    }
}

/// Tasks with pairwise distinct indices all land: after the first `i`
/// messages are consumed, the cell of any work message among them whose
/// index no later one among them reuses holds exactly that message's color.
pub proof fn lemma_task_lands(msgs: Seq<Msg>, i: int, data: Seq<Color4>, j: int, t: Task)
    requires
        0 <= j < i <= msgs.len(),
        msgs[j] == Msg::Work(t),
        t.index < data.len(),
        forall|k: int|
            j < k < i ==> ((#[trigger] msgs[k]) matches Msg::Work(t2) ==> t2.index != t.index),
    ensures
        apply_upto(msgs, i, data)[t.index as int] == t.color,
    decreases i,
{
    lemma_apply_len(msgs, i - 1, data);
    if i - 1 == j {
        lemma_apply_len(msgs, j, data);
    } else {
        lemma_task_lands(msgs, i - 1, data, j, t);
    }
}

/// The shared output buffer: one color per pixel, row-major.
#[derive(Clone, Debug)]
pub struct PixelBuffer {
    pub data: Vec<Color4>,
}

impl PixelBuffer {
    /// A buffer of `len` cells, all white with full alpha.
    pub fn new(len: usize) -> (r: PixelBuffer)
        ensures
            r.data@.len() == len,
            forall|j: int|
                0 <= j < len ==> (#[trigger] r.data@[j]) == (Color4 {
                    x: SCALE,
                    y: SCALE,
                    z: SCALE,
                    w: SCALE,
                }),
    {
        let mut data: Vec<Color4> = Vec::new();
        let mut i: usize = 0;
        while i < len
            invariant
                i <= len,
                data@.len() == i,
                forall|j: int|
                    0 <= j < i ==> (#[trigger] data@[j]) == (Color4 {
                        x: SCALE,
                        y: SCALE,
                        z: SCALE,
                        w: SCALE,
                    }),
            decreases len - i,
        {
            data.push(Color4 { x: SCALE, y: SCALE, z: SCALE, w: SCALE });
            i = i + 1;
        }
        PixelBuffer { data }
    }

    pub fn len(&self) -> (r: usize)
        ensures
            r == self.data@.len(),
    {
        self.data.len()
    }

    /// Write one cell.
    pub fn write(&mut self, i: usize, c: Color4)
        requires
            i < old(self).data@.len(),
        ensures
            final(self).data@ == old(self).data@.update(i as int, c),
    {
        self.data.set(i, c);
    }

    /// Read one cell.
    pub fn get(&self, i: usize) -> (r: Color4)
        requires
            i < self.data@.len(),
        ensures
            r == self.data@[i as int],
    {
        self.data[i]
    }
}

/// The pool's protocol state: how many workers were started, how many have
/// not yet consumed a shutdown message, and the queued messages in order.
#[derive(Clone, Debug)]
pub struct ThreadPool {
    pub count: usize,
    pub active: usize,
    pub queue: Vec<Msg>,
}

impl ThreadPool {
    /// A pool of `count` workers with an empty queue.
    pub fn new(count: usize) -> (r: ThreadPool)
        requires
            count > 0,
        ensures
            r.count == count,
            r.active == count,
            r.queue@.len() == 0,
    {
        ThreadPool { count, active: count, queue: Vec::new() }
    }

    /// Enqueue one task. Submitting is allowed only while every worker is
    /// still running — once shutdown has begun, work could interleave with
    /// the shutdown messages and be left unprocessed, so the contract
    /// forbids it.
    pub fn exec(&mut self, f: Task)
        requires
            old(self).active == old(self).count,
        ensures
            final(self).queue@ == old(self).queue@.push(Msg::Work(f)),
            final(self).count == old(self).count,
            final(self).active == old(self).active,
    {
        self.queue.push(Msg::Work(f));
    }

    /// Shut the pool down: one `Down` message per worker follows the queued
    /// work, so every already-queued task is consumed — in queue order,
    /// each exactly once — before any worker exits; then all workers are
    /// joined. The buffer afterwards holds the result of every queued work
    /// message.
    pub fn shutdown(&mut self, buffer: &mut PixelBuffer)
        ensures
            final(self).count == old(self).count,
            final(self).active == 0,
            final(self).queue@.len() == 0,
            final(buffer).data@ == apply_upto(
                old(self).queue@,
                old(self).queue@.len() as int,
                old(buffer).data@,
            ),
    {
        let n: usize = self.queue.len();
        let mut i: usize = 0;
        while i < n
            invariant
                i <= n,
                n == self.queue@.len(),
                self.queue@ == old(self).queue@,
                self.count == old(self).count,
                self.active == old(self).active,
                buffer.data@ == apply_upto(old(self).queue@, i as int, old(buffer).data@),
            decreases n - i,
        {
            proof {
                lemma_apply_len(old(self).queue@, i as int, old(buffer).data@);
            }
            let m: Msg = self.queue[i];
            match m {
                Msg::Work(t) => {
                    if t.index < buffer.data.len() {
                        buffer.write(t.index, t.color);
                    }
                },
                Msg::Down => {},
            }
            i = i + 1;
        }
        self.queue.clear();
        self.active = 0;
    }
}

/// A pool that consumes all its submitted tasks, each writing a distinct
/// cell, leaves every one of those cells holding its task's color.
pub proof fn lemma_pool_delivers(msgs: Seq<Msg>, data: Seq<Color4>, j: int, t: Task)
    requires
        0 <= j < msgs.len(),
        msgs[j] == Msg::Work(t),
        t.index < data.len(),
        forall|k: int|
            j < k < msgs.len() ==> ((#[trigger] msgs[k]) matches Msg::Work(t2) ==> t2.index
                != t.index),
    ensures
        apply_upto(msgs, msgs.len() as int, data)[t.index as int] == t.color,
{
    lemma_task_lands(msgs, msgs.len() as int, data, j, t);
}

} // verus!
