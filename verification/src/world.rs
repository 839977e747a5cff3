//! A model of the machine the procedures act on, for stating what several
//! calls do together.  The model holds the instance directories of the
//! temporary directory with the text of their pid files, and answers every
//! effect as a machine on which nothing fails would: directories are created
//! and removed, the executable is found, the logs open, a spawn gives the
//! pid it is handed, and the signal reaches a live worker.  Directory
//! listings are not modelled.

use vstd::prelude::*;
use crate::control::{EffectView, ReplyView};
use crate::error::ErrorView;
use crate::info::{info_next, InfoActionView, InfoStage, InfoState, InfoStatus};
use crate::pid::pid_file_text;
use crate::start::{start_next, StartActionView, StartStage, StartState};
use crate::stop::{instance_next, InstanceStage, InstanceState, StopActionView};

verus! {

/// The temporary directory: each instance directory present, with the text
/// of its pid file (`None` when it has none), and the directory whose pid
/// file was created last.
pub struct World {
    pub dirs: Map<Seq<char>, Option<Seq<char>>>,
    pub open_pid_dir: Option<Seq<char>>,
}

/// `dir` exists and holds a pid file.
pub open spec fn has_pid_file(w: World, dir: Seq<char>) -> bool {
    w.dirs.contains_key(dir) && w.dirs[dir] is Some
}

/// What performing `effect` does to the model, and the reply it gives; a
/// spawn gives `pid`.
pub open spec fn perform(w: World, effect: EffectView, pid: u32) -> (World, ReplyView) {
    match effect {
        EffectView::MakeDir { dir } => if w.dirs.contains_key(dir) {
            (w, ReplyView::Done)
        } else {
            (World { dirs: w.dirs.insert(dir, None), ..w }, ReplyView::Done)
        },
        EffectView::DirExists { dir } => (w, ReplyView::Present(w.dirs.contains_key(dir))),
        EffectView::PidFileExists { dir } => (w, ReplyView::Present(has_pid_file(w, dir))),
        EffectView::ReadPidFile { dir } => (
            w,
            ReplyView::Contents(if w.dirs.contains_key(dir) { w.dirs[dir] } else { None }),
        ),
        EffectView::FindExecutable => (w, ReplyView::Done),
        EffectView::OpenLogs { dir } => if w.dirs.contains_key(dir) {
            (w, ReplyView::Done)
        } else {
            (w, ReplyView::Failed(Seq::empty()))
        },
        EffectView::Spawn { .. } => (w, ReplyView::Spawned(pid)),
        EffectView::CreatePidFile { dir } => if w.dirs.contains_key(dir) {
            (World { dirs: w.dirs.insert(dir, Some(Seq::empty())), open_pid_dir: Some(dir) }, ReplyView::Done)
        } else {
            (w, ReplyView::Failed(Seq::empty()))
        },
        EffectView::WritePid { text } => match w.open_pid_dir {
            Some(dir) => (World { dirs: w.dirs.insert(dir, Some(text)), ..w }, ReplyView::Done),
            None => (w, ReplyView::Failed(Seq::empty())),
        },
        EffectView::ListTempDir => (w, ReplyView::Failed(Seq::empty())),
        EffectView::Kill { .. } => (w, ReplyView::Done),
        EffectView::RemoveDir { dir } => (World { dirs: w.dirs.remove(dir), ..w }, ReplyView::Done),
    }
}

/// Runs a start procedure from `s` with pending step `a` on the model, for
/// at most `fuel` effects: the model afterwards, and the outcome if the
/// procedure ended.
pub open spec fn start_in(w: World, s: StartState, a: StartActionView, pid: u32, fuel: nat) -> (
    World,
    Option<Result<u32, ErrorView>>,
)
    decreases fuel,
{
    match a {
        StartActionView::Finish(outcome) => (w, Some(outcome)),
        StartActionView::Perform(effect) => if fuel == 0 {
            (w, None)
        } else {
            let (w2, reply) = perform(w, effect, pid);
            let (s2, a2) = start_next(s, reply);
            start_in(w2, s2, a2, pid, (fuel - 1) as nat)
        },
    }
}

/// Runs an inspection from `s` with pending step `a` on the model.
pub open spec fn info_in(w: World, s: InfoState, a: InfoActionView, fuel: nat) -> Option<InfoStatus>
    decreases fuel,
{
    match a {
        InfoActionView::Finish(status) => Some(status),
        InfoActionView::Perform(effect) => if fuel == 0 {
            None
        } else {
            let (w2, reply) = perform(w, effect, 0);
            let (s2, a2) = info_next(s, reply);
            info_in(w2, s2, a2, (fuel - 1) as nat)
        },
    }
}

/// Runs the stop of an instance from `s` with pending step `a` on the model.
pub open spec fn stop_in(w: World, s: InstanceState, a: StopActionView, fuel: nat) -> (
    World,
    Option<Result<(), ErrorView>>,
)
    decreases fuel,
{
    match a {
        StopActionView::Finish(outcome) => (w, Some(outcome)),
        StopActionView::Perform(effect) => if fuel == 0 {
            (w, None)
        } else {
            let (w2, reply) = perform(w, effect, 0);
            let (s2, a2) = instance_next(s, reply);
            stop_in(w2, s2, a2, (fuel - 1) as nat)
        },
    }
}

/// The state and first step that `ProcessManager::start` sets out for the
/// instance directory `s.dir`.
pub open spec fn fresh_start(s: StartState) -> bool {
    s.stage is MakeDir
}

/// A start of an instance that has no pid file succeeds with the pid the
/// spawn gave, and leaves the instance's directory holding that pid's text.
pub proof fn lemma_start_records_instance(w: World, s: StartState, pid: u32)
    requires
        fresh_start(s),
        !has_pid_file(w, s.dir),
    ensures
        start_in(w, s, StartActionView::Perform(EffectView::MakeDir { dir: s.dir }), pid, 7).1 == Some(
            Ok::<u32, ErrorView>(pid),
        ),
        start_in(w, s, StartActionView::Perform(EffectView::MakeDir { dir: s.dir }), pid, 7).0.dirs.contains_key(
            s.dir,
        ),
        start_in(w, s, StartActionView::Perform(EffectView::MakeDir { dir: s.dir }), pid, 7).0.dirs[s.dir]
            == Some(pid_file_text(pid)),
{
    reveal_with_fuel(start_in, 8);
}

/// A start of an instance whose pid file exists is refused as already
/// running, spawns nothing, and leaves the model as it was.
pub proof fn lemma_start_refuses_running(w: World, s: StartState, pid: u32)
    requires
        fresh_start(s),
        has_pid_file(w, s.dir),
    ensures
        start_in(w, s, StartActionView::Perform(EffectView::MakeDir { dir: s.dir }), pid, 7) == (
            w,
            Some(Err::<u32, ErrorView>(ErrorView::AlreadyRunning { dir: s.dir })),
        ),
{
    reveal_with_fuel(start_in, 3);
}

/// Starting the same instance twice: the second start is refused as already
/// running, whatever pid the first one got.
pub proof fn lemma_second_start_refused(w: World, first: StartState, second: StartState, p1: u32, p2: u32)
    requires
        fresh_start(first),
        fresh_start(second),
        first.dir == second.dir,
        !has_pid_file(w, first.dir),
    ensures
        ({
            let after = start_in(w, first, StartActionView::Perform(EffectView::MakeDir { dir: first.dir }), p1, 7).0;
            start_in(after, second, StartActionView::Perform(EffectView::MakeDir { dir: second.dir }), p2, 7).1
                == Some(Err::<u32, ErrorView>(ErrorView::AlreadyRunning { dir: second.dir }))
        }),
{
    lemma_start_records_instance(w, first, p1);
    let after = start_in(w, first, StartActionView::Perform(EffectView::MakeDir { dir: first.dir }), p1, 7).0;
    lemma_start_refuses_running(after, second, p2);
}

/// After a successful start, stopping the instance succeeds and removes its
/// directory; an inspection afterwards reports it not running, and a new
/// start of it is no longer refused.
pub proof fn lemma_stop_after_start(
    w: World,
    s: StartState,
    pid: u32,
    stop: InstanceState,
    info: InfoState,
    again: StartState,
    p2: u32,
)
    requires
        fresh_start(s),
        !has_pid_file(w, s.dir),
        stop.stage is CheckDir,
        stop.failure is None,
        stop.dir == s.dir,
        info.stage is CheckDir,
        info.dir == s.dir,
        fresh_start(again),
        again.dir == s.dir,
    ensures
        ({
            let started = start_in(w, s, StartActionView::Perform(EffectView::MakeDir { dir: s.dir }), pid, 7).0;
            let (stopped, outcome) = stop_in(
                started,
                stop,
                StopActionView::Perform(EffectView::DirExists { dir: stop.dir }),
                4,
            );
            &&& outcome == Some(Ok::<(), ErrorView>(()))
            &&& !stopped.dirs.contains_key(s.dir)
            &&& info_in(stopped, info, InfoActionView::Perform(EffectView::DirExists { dir: info.dir }), 2)
                == Some(InfoStatus::NotRunning)
            &&& start_in(stopped, again, StartActionView::Perform(EffectView::MakeDir { dir: again.dir }), p2, 7).1
                == Some(Ok::<u32, ErrorView>(p2))
        }),
{
    lemma_start_records_instance(w, s, pid);
    let started = start_in(w, s, StartActionView::Perform(EffectView::MakeDir { dir: s.dir }), pid, 7).0;
    crate::pid::lemma_pid_round_trip(pid);
    reveal_with_fuel(stop_in, 5);
    let stopped = stop_in(started, stop, StopActionView::Perform(EffectView::DirExists { dir: stop.dir }), 4).0;
    assert(!stopped.dirs.contains_key(s.dir));
    reveal_with_fuel(info_in, 3);
    lemma_start_records_instance(stopped, again, p2);
}

/// An inspection after a successful start of the same instance reports the
/// started process as running, with the pid the spawn gave.
pub proof fn lemma_info_after_start(w: World, s: StartState, pid: u32, info: InfoState)
    requires
        fresh_start(s),
        !has_pid_file(w, s.dir),
        info.stage is CheckDir,
        info.dir == s.dir,
    ensures
        ({
            let started = start_in(w, s, StartActionView::Perform(EffectView::MakeDir { dir: s.dir }), pid, 7).0;
            info_in(started, info, InfoActionView::Perform(EffectView::DirExists { dir: info.dir }), 2)
                == Some(InfoStatus::Running { pid })
        }),
{
    lemma_start_records_instance(w, s, pid);
    crate::pid::lemma_pid_round_trip(pid);
    reveal_with_fuel(info_in, 3);
}

} // verus!
