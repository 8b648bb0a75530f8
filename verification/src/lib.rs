//! A fixed-size worker pool, stated as a verified state machine, and a few
//! small companions.
//!
//! The pool keeps a FIFO queue of pending jobs and a fixed set of workers.
//! Every decision the pool takes (which job leaves the queue next, which
//! state a worker is in, what is recorded when a job ends) is made here and
//! proved against a mathematical model. Running a job and parking a thread
//! are left to the runtime that drives the pool.
//!
//! - `queue`, `worker`, `pool`: the queue, one worker, and the pool itself.
//! - `model`: the pool as a mathematical state machine, its invariant, and
//!   the laws that follow from it.
//! - `error`: errors, outcomes and fault reports.
//! - `http`: the request routing and response framing of the web server that
//!   the pool was made for.
//! - `text`, `minigrep`: lines and substrings, and a line search on them.
//! - `blog`, `gui`, `rectangle`, `my_box`, `restaurant`: small self-contained
//!   examples.

pub mod blog;
pub mod error;
pub mod gui;
pub mod http;
pub mod minigrep;
pub mod model;
pub mod my_box;
pub mod pool;
pub mod queue;
pub mod rectangle;
pub mod restaurant;
pub mod text;
pub mod worker;
