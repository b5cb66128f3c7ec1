//! One worker alone with a queue and a directory: what its driver does for
//! each action, written down as a model, and what follows for whole runs.
use crate::unit::UnitView;
use crate::worker::ActionView;
use crate::worker::EventView;
use crate::worker::PhaseView;
use crate::worker::WorkerView;
use crate::MAX_CHAN_COUNT_TRY;
use vstd::prelude::*;

verus! {

/// What lies outside a worker.
pub struct World {
    /// Units still in the queue, the next one first.
    pub queue: Seq<UnitView>,
    /// The files in the download directory: under the name of each, the
    /// address that its body came from.
    pub files: Map<Seq<char>, Seq<char>>,
    /// Number of transfers attempted so far.
    pub attempts: nat,
}

/// How the addresses answer: `ok(url, failed)` says whether the attempt on
/// `url` that follows `failed` failed attempts on the same unit succeeds.
pub type Answers = spec_fn(Seq<char>, nat) -> bool;

/// One round: the driver performs the action that the worker waits for and
/// the worker takes the event. A poll takes the first unit of the queue, a
/// probe looks the file up, and a fetch is one transfer attempt, which
/// stores the whole body under the file's name if the address answers.
pub open spec fn advance(w: WorkerView, world: World, ok: Answers) -> (WorkerView, World) {
    match w.pending() {
        ActionView::Poll => {
            if world.queue.len() == 0 {
                (w.step(EventView::Polled(None)), world)
            } else {
                (
                    w.step(EventView::Polled(Some(world.queue[0]))),
                    World { queue: world.queue.drop_first(), ..world },
                )
            }
        },
        ActionView::Probe { file } => (
            w.step(EventView::Probed(world.files.contains_key(file))),
            world,
        ),
        ActionView::Fetch { url, file } => {
            if ok(url, w.retries) {
                (
                    w.step(EventView::Fetched(true)),
                    World {
                        files: world.files.insert(file, url),
                        attempts: world.attempts + 1,
                        ..world
                    },
                )
            } else {
                (
                    w.step(EventView::Fetched(false)),
                    World { attempts: world.attempts + 1, ..world },
                )
            }
        },
        ActionView::Stop => (w, world),
    }
}

/// A number of rounds, one after the other.
pub open spec fn run(w: WorkerView, world: World, ok: Answers, rounds: nat) -> (WorkerView, World)
    decreases rounds,
{
    if rounds == 0 {
        (w, world)
    } else {
        let next = advance(w, world, ok);
        run(next.0, next.1, ok, (rounds - 1) as nat)
    }
}

/// The states that a run passes through: the worker is well formed, a file
/// that it wants transferred is missing, and it stops only at an empty queue.
pub open spec fn ready(w: WorkerView, world: World) -> bool {
    &&& w.wf()
    &&& match w.phase {
        PhaseView::Transferring { url, file } => !world.files.contains_key(file),
        PhaseView::Stopped => world.queue.len() == 0,
        _ => true,
    }
}

/// `true` if `rest` is what is left of `queue` once some of its first units
/// were taken.
pub open spec fn is_rest_of(rest: Seq<UnitView>, queue: Seq<UnitView>) -> bool {
    rest.len() <= queue.len() && rest == queue.skip(queue.len() - rest.len())
}

/// `true` if every file of `before` is in `after`, with the same body.
pub open spec fn kept(before: Map<Seq<char>, Seq<char>>, after: Map<Seq<char>, Seq<char>>) -> bool {
    forall|name: Seq<char>| #[trigger]
        before.contains_key(name) ==> after.contains_key(name) && after[name] == before[name]
}

/// Rounds after which a run has stopped at the latest.
pub open spec fn rounds_bound(w: WorkerView, world: World) -> nat {
    let unit_rounds = w.tries + 2 + MAX_CHAN_COUNT_TRY;
    match w.phase {
        PhaseView::Stopped => 0,
        PhaseView::Polling => (world.queue.len() * unit_rounds + MAX_CHAN_COUNT_TRY
            - w.empty_polls) as nat,
        PhaseView::Checking { url, file } => (world.queue.len() * unit_rounds + unit_rounds - 1
            + MAX_CHAN_COUNT_TRY - w.empty_polls) as nat,
        PhaseView::Transferring { url, file } => (world.queue.len() * unit_rounds
            + MAX_CHAN_COUNT_TRY + w.tries - w.retries + MAX_CHAN_COUNT_TRY - w.empty_polls) as nat,
    }
}

/// Running on is running the rest.
pub proof fn lemma_run_split(w: WorkerView, world: World, ok: Answers, first: nat, then: nat)
    ensures
        run(w, world, ok, first + then) == run(
            run(w, world, ok, first).0,
            run(w, world, ok, first).1,
            ok,
            then,
        ),
    decreases first,
{
    if first > 0 {
        let next = advance(w, world, ok);
        lemma_run_split(next.0, next.1, ok, (first - 1) as nat, then);
    }
}

/// A round leads from one state of a run to the next. It removes and
/// rewrites no file, takes units from the front of the queue only, and
/// brings a worker that has not stopped closer to its end.
pub proof fn lemma_advance(w: WorkerView, world: World, ok: Answers)
    requires
        ready(w, world),
    ensures
        ready(advance(w, world, ok).0, advance(w, world, ok).1),
        advance(w, world, ok).0.tries == w.tries,
        kept(world.files, advance(w, world, ok).1.files),
        world.attempts <= advance(w, world, ok).1.attempts,
        is_rest_of(advance(w, world, ok).1.queue, world.queue),
        !(w.phase is Stopped) ==> rounds_bound(advance(w, world, ok).0, advance(w, world, ok).1)
            < rounds_bound(w, world),
{
    let unit_rounds = w.tries + 2 + MAX_CHAN_COUNT_TRY;
    let n = world.queue.len();
    if w.phase is Polling && n > 0 {
        assert(world.queue.drop_first().len() == n - 1);
        assert(n * unit_rounds == (n - 1) * unit_rounds + unit_rounds) by (nonlinear_arith);
        assert(world.queue.drop_first() =~= world.queue.skip(1));
    } else {
        assert(world.queue =~= world.queue.skip(0));
    }
}

/// A run keeps to its states, and removes and rewrites no file. It takes the
/// units from the front of the queue, one after the other, and puts none
/// back.
pub proof fn lemma_run(w: WorkerView, world: World, ok: Answers, rounds: nat)
    requires
        ready(w, world),
    ensures
        ready(run(w, world, ok, rounds).0, run(w, world, ok, rounds).1),
        run(w, world, ok, rounds).0.tries == w.tries,
        kept(world.files, run(w, world, ok, rounds).1.files),
        world.attempts <= run(w, world, ok, rounds).1.attempts,
        is_rest_of(run(w, world, ok, rounds).1.queue, world.queue),
    decreases rounds,
{
    if rounds > 0 {
        let next = advance(w, world, ok);
        lemma_advance(w, world, ok);
        lemma_run(next.0, next.1, ok, (rounds - 1) as nat);
        let end = run(w, world, ok, rounds).1.queue;
        assert(end =~= world.queue.skip(world.queue.len() - end.len()));
    } else {
        assert(world.queue =~= world.queue.skip(0));
    }
}

/// Every run stops, whatever becomes of the transfers: after the rounds
/// that [`rounds_bound`] counts, and any number more, the worker has stopped
/// and the queue is empty.
pub proof fn lemma_run_stops(w: WorkerView, world: World, ok: Answers, rounds: nat)
    requires
        ready(w, world),
        rounds >= rounds_bound(w, world),
    ensures
        run(w, world, ok, rounds).0.phase is Stopped,
        run(w, world, ok, rounds).1.queue.len() == 0,
    decreases rounds,
{
    if rounds > 0 {
        let next = advance(w, world, ok);
        lemma_advance(w, world, ok);
        lemma_run_stops(next.0, next.1, ok, (rounds - 1) as nat);
    }
}

/// A unit without an address costs one round and leaves no trace: no file,
/// no attempt, and the worker as it was, its counters included.
pub proof fn lemma_unit_without_url(w: WorkerView, world: World, ok: Answers)
    requires
        w.phase is Polling,
        world.queue.len() > 0,
        world.queue[0].url is None,
    ensures
        advance(w, world, ok) == (w, World { queue: world.queue.drop_first(), ..world }),
{
}

/// A unit whose file is there costs two rounds and leaves no trace: no
/// attempt is made, no file is written, and the worker is as it was.
pub proof fn lemma_unit_with_file(w: WorkerView, world: World, ok: Answers)
    requires
        w.phase is Polling,
        world.queue.len() > 0,
        world.queue[0].url is Some,
        world.files.contains_key(world.queue[0].file_name()),
    ensures
        run(w, world, ok, 2) == (w, World { queue: world.queue.drop_first(), ..world }),
{
    reveal_with_fuel(run, 3);
}

/// `true` if none of the first `failed` attempts on an address succeeds.
pub open spec fn fails(ok: Answers, url: Seq<char>, failed: nat) -> bool {
    forall|k: nat| k < failed ==> !#[trigger] ok(url, k)
}

/// The state in which a worker makes its next attempt on a unit, after
/// `failed` attempts that failed.
pub open spec fn attempting(w: WorkerView, world: World, failed: nat) -> (WorkerView, World) {
    (
        WorkerView {
            retries: failed,
            phase: PhaseView::Transferring {
                url: world.queue[0].url->Some_0,
                file: world.queue[0].file_name(),
            },
            ..w
        },
        World {
            queue: world.queue.drop_first(),
            attempts: world.attempts + failed,
            ..world
        },
    )
}

/// While the attempts on a missing file fail and the limit is not reached,
/// the worker goes on attempting.
pub proof fn lemma_attempts_go_on(w: WorkerView, world: World, ok: Answers, failed: nat)
    requires
        w.wf(),
        w.phase is Polling,
        world.queue.len() > 0,
        world.queue[0].url is Some,
        !world.files.contains_key(world.queue[0].file_name()),
        failed < w.tries,
        fails(ok, world.queue[0].url->Some_0, failed),
    ensures
        run(w, world, ok, 2 + failed) == attempting(w, world, failed),
    decreases failed,
{
    if failed == 0 {
        reveal_with_fuel(run, 3);
    } else {
        lemma_attempts_go_on(w, world, ok, (failed - 1) as nat);
        lemma_run_split(w, world, ok, (1 + failed) as nat, 1);
        let before = attempting(w, world, (failed - 1) as nat);
        assert(!ok(world.queue[0].url->Some_0, (failed - 1) as nat));
        assert(run(before.0, before.1, ok, 1) == advance(before.0, before.1, ok)) by {
            reveal_with_fuel(run, 2);
        }
    }
}

/// A unit whose every attempt fails is given up after as many attempts as
/// the limit allows. No file is written, the worker goes back to polling
/// with both counters at zero, and the rest of the queue is still to come.
pub proof fn lemma_unit_given_up(w: WorkerView, world: World, ok: Answers)
    requires
        w.wf(),
        w.phase is Polling,
        world.queue.len() > 0,
        world.queue[0].url is Some,
        !world.files.contains_key(world.queue[0].file_name()),
        fails(ok, world.queue[0].url->Some_0, w.tries),
    ensures
        run(w, world, ok, 2 + w.tries) == (
            w.rested(),
            World {
                queue: world.queue.drop_first(),
                files: world.files,
                attempts: world.attempts + w.tries,
            },
        ),
{
    if w.tries == 0 {
        reveal_with_fuel(run, 3);
    } else {
        let failed = (w.tries - 1) as nat;
        lemma_attempts_go_on(w, world, ok, failed);
        lemma_run_split(w, world, ok, 2 + failed, 1);
        let before = attempting(w, world, failed);
        assert(!ok(world.queue[0].url->Some_0, failed));
        assert(run(before.0, before.1, ok, 1) == advance(before.0, before.1, ok)) by {
            reveal_with_fuel(run, 2);
        }
    }
}

/// A unit whose first attempt to succeed is made within the limit is stored
/// by that attempt, with the body of its address. The worker goes back to
/// polling with both counters at zero.
pub proof fn lemma_unit_stored(w: WorkerView, world: World, ok: Answers, failed: nat)
    requires
        w.wf(),
        w.phase is Polling,
        world.queue.len() > 0,
        world.queue[0].url is Some,
        !world.files.contains_key(world.queue[0].file_name()),
        failed < w.tries,
        fails(ok, world.queue[0].url->Some_0, failed),
        ok(world.queue[0].url->Some_0, failed),
    ensures
        run(w, world, ok, 3 + failed) == (
            w.rested(),
            World {
                queue: world.queue.drop_first(),
                files: world.files.insert(
                    world.queue[0].file_name(),
                    world.queue[0].url->Some_0,
                ),
                attempts: world.attempts + failed + 1,
            },
        ),
{
    lemma_attempts_go_on(w, world, ok, failed);
    lemma_run_split(w, world, ok, 2 + failed, 1);
    let before = attempting(w, world, failed);
    assert(run(before.0, before.1, ok, 1) == advance(before.0, before.1, ok)) by {
        reveal_with_fuel(run, 2);
    }
}

/// The world that a new worker finds: a full queue and the files that are
/// there.
pub open spec fn at_start(queue: Seq<UnitView>, files: Map<Seq<char>, Seq<char>>) -> World {
    World { queue, files, attempts: 0 }
}

/// `true` if nothing is left to do for a unit with this address and file
/// name: the file is there, or every attempt that the limit allows fails.
pub open spec fn dealt_with(
    files: Map<Seq<char>, Seq<char>>,
    tries: nat,
    ok: Answers,
    url: Seq<char>,
    file: Seq<char>,
) -> bool {
    files.contains_key(file) || fails(ok, url, tries)
}

/// `true` if nothing is left to do for any unit of the queue.
pub open spec fn settled(
    queue: Seq<UnitView>,
    files: Map<Seq<char>, Seq<char>>,
    tries: nat,
    ok: Answers,
) -> bool {
    forall|i: int|
        0 <= i < queue.len() && (#[trigger] queue[i]).url is Some ==> dealt_with(
            files,
            tries,
            ok,
            queue[i].url->Some_0,
            queue[i].file_name(),
        )
}

/// `true` if a unit with this address and file name is in the queue or in
/// the worker's hand.
pub open spec fn to_come(w: WorkerView, world: World, url: Seq<char>, file: Seq<char>) -> bool {
    ||| exists|i: int|
        0 <= i < world.queue.len() && (#[trigger] world.queue[i]).url == Some(url)
            && world.queue[i].file_name() == file
    ||| w.phase == (PhaseView::Checking { url, file })
    ||| w.phase == (PhaseView::Transferring { url, file })
}

/// The states of a run over `queue`: the attempts made on the unit in hand
/// have failed, and every unit of `queue` is dealt with or still to come.
pub open spec fn on_course(w: WorkerView, world: World, ok: Answers, queue: Seq<UnitView>) -> bool {
    &&& ready(w, world)
    &&& (w.phase is Transferring ==> fails(ok, w.phase->Transferring_url, w.retries))
    &&& forall|i: int|
        0 <= i < queue.len() && (#[trigger] queue[i]).url is Some ==> dealt_with(
            world.files,
            w.tries,
            ok,
            queue[i].url->Some_0,
            queue[i].file_name(),
        ) || to_come(w, world, queue[i].url->Some_0, queue[i].file_name())
}

proof fn lemma_on_course_advance(w: WorkerView, world: World, ok: Answers, queue: Seq<UnitView>)
    requires
        on_course(w, world, ok, queue),
    ensures
        on_course(advance(w, world, ok).0, advance(w, world, ok).1, ok, queue),
{
    let next = advance(w, world, ok);
    lemma_advance(w, world, ok);
    assert forall|i: int| 0 <= i < queue.len() && (#[trigger] queue[i]).url is Some implies dealt_with(
        next.1.files,
        next.0.tries,
        ok,
        queue[i].url->Some_0,
        queue[i].file_name(),
    ) || to_come(next.0, next.1, queue[i].url->Some_0, queue[i].file_name()) by {
        let url = queue[i].url->Some_0;
        let file = queue[i].file_name();
        if !dealt_with(world.files, w.tries, ok, url, file) {
            assert(to_come(w, world, url, file));
            if w.phase is Polling {
                let j = choose|j: int|
                    0 <= j < world.queue.len() && (#[trigger] world.queue[j]).url == Some(url)
                        && world.queue[j].file_name() == file;
                if j > 0 {
                    let rest = world.queue.drop_first();
                    assert(rest[j - 1] == world.queue[j]);
                    assert(to_come(next.0, next.1, url, file));
                }
            }
        }
    }
}

proof fn lemma_on_course_run(
    w: WorkerView,
    world: World,
    ok: Answers,
    queue: Seq<UnitView>,
    rounds: nat,
)
    requires
        on_course(w, world, ok, queue),
    ensures
        on_course(run(w, world, ok, rounds).0, run(w, world, ok, rounds).1, ok, queue),
    decreases rounds,
{
    if rounds > 0 {
        let next = advance(w, world, ok);
        lemma_on_course_advance(w, world, ok, queue);
        lemma_on_course_run(next.0, next.1, ok, queue, (rounds - 1) as nat);
    }
}

/// When a run has stopped, nothing is left to do for any unit of its queue:
/// the file of every unit that has an address is there, unless every
/// attempt that the limit allows on that address fails.
pub proof fn lemma_run_settles(
    tries: nat,
    queue: Seq<UnitView>,
    files: Map<Seq<char>, Seq<char>>,
    ok: Answers,
    rounds: nat,
)
    requires
        rounds >= rounds_bound(WorkerView::fresh(tries), at_start(queue, files)),
    ensures
        run(WorkerView::fresh(tries), at_start(queue, files), ok, rounds).0.phase is Stopped,
        settled(
            queue,
            run(WorkerView::fresh(tries), at_start(queue, files), ok, rounds).1.files,
            tries,
            ok,
        ),
{
    let w = WorkerView::fresh(tries);
    let world = at_start(queue, files);
    assert forall|i: int| 0 <= i < queue.len() && (#[trigger] queue[i]).url is Some implies to_come(
        w,
        world,
        queue[i].url->Some_0,
        queue[i].file_name(),
    ) by {}
    lemma_on_course_run(w, world, ok, queue, rounds);
    lemma_run_stops(w, world, ok, rounds);
    lemma_run(w, world, ok, rounds);
}

/// The states of a run that has nothing left to do: the same holds of the
/// unit in hand as of the units in the queue.
pub open spec fn idle(w: WorkerView, world: World, ok: Answers) -> bool {
    &&& ready(w, world)
    &&& settled(world.queue, world.files, w.tries, ok)
    &&& match w.phase {
        PhaseView::Checking { url, file } => dealt_with(world.files, w.tries, ok, url, file),
        PhaseView::Transferring { url, file } => fails(ok, url, w.tries),
        _ => true,
    }
}

/// A run that has nothing left to do writes no file, however long it goes
/// on: what it attempts fails again.
pub proof fn lemma_idle_run(w: WorkerView, world: World, ok: Answers, rounds: nat)
    requires
        idle(w, world, ok),
    ensures
        idle(run(w, world, ok, rounds).0, run(w, world, ok, rounds).1, ok),
        run(w, world, ok, rounds).1.files == world.files,
    decreases rounds,
{
    if rounds > 0 {
        let next = advance(w, world, ok);
        lemma_advance(w, world, ok);
        if w.phase is Polling && world.queue.len() > 0 {
            let rest = world.queue.drop_first();
            assert forall|i: int| 0 <= i < rest.len() && (#[trigger] rest[i]).url is Some implies dealt_with(
                world.files,
                w.tries,
                ok,
                rest[i].url->Some_0,
                rest[i].file_name(),
            ) by {
                assert(rest[i] == world.queue[i + 1]);
            }
            assert(world.queue[0].url is Some ==> dealt_with(
                world.files,
                w.tries,
                ok,
                world.queue[0].url->Some_0,
                world.queue[0].file_name(),
            ));
        }
        if w.phase is Transferring {
            assert(!ok(w.phase->Transferring_url, w.retries));
        }
        lemma_idle_run(next.0, next.1, ok, (rounds - 1) as nat);
    }
}

/// Running twice over the same queue, with the same limit and every address
/// answering as before: the second run writes no file. The files after it
/// are the files that the first run left, each with the body it had. It
/// stops like any run.
pub proof fn lemma_second_run(
    tries: nat,
    queue: Seq<UnitView>,
    files: Map<Seq<char>, Seq<char>>,
    ok: Answers,
    first_rounds: nat,
    rounds: nat,
)
    requires
        first_rounds >= rounds_bound(WorkerView::fresh(tries), at_start(queue, files)),
    ensures
        ({
            let first = run(WorkerView::fresh(tries), at_start(queue, files), ok, first_rounds);
            let second = run(WorkerView::fresh(tries), at_start(queue, first.1.files), ok, rounds);
            &&& first.0.phase is Stopped
            &&& second.1.files == first.1.files
            &&& rounds >= rounds_bound(WorkerView::fresh(tries), at_start(queue, first.1.files))
                ==> second.0.phase is Stopped
        }),
{
    let w = WorkerView::fresh(tries);
    lemma_run_settles(tries, queue, files, ok, first_rounds);
    let first = run(w, at_start(queue, files), ok, first_rounds);
    let again = at_start(queue, first.1.files);
    lemma_idle_run(w, again, ok, rounds);
    if rounds >= rounds_bound(w, again) {
        lemma_run_stops(w, again, ok, rounds);
    }
}

/// `true` if the queue holds a unit with this address and file name.
pub open spec fn has_unit(queue: Seq<UnitView>, url: Seq<char>, file: Seq<char>) -> bool {
    exists|i: int|
        0 <= i < queue.len() && (#[trigger] queue[i]).url == Some(url) && queue[i].file_name()
            == file
}

/// The states of a run over `queue` that began with the files `before`:
/// what the worker has in hand is a unit of `queue`, and every file is one
/// of `before`, with the body it had, or holds the body of the address of a
/// unit of `queue` with that file name, an address that answers within the
/// limit.
pub open spec fn sourced(
    w: WorkerView,
    world: World,
    ok: Answers,
    queue: Seq<UnitView>,
    before: Map<Seq<char>, Seq<char>>,
) -> bool {
    &&& on_course(w, world, ok, queue)
    &&& is_rest_of(world.queue, queue)
    &&& match w.phase {
        PhaseView::Checking { url, file } => has_unit(queue, url, file),
        PhaseView::Transferring { url, file } => has_unit(queue, url, file),
        _ => true,
    }
    &&& forall|name: Seq<char>| #[trigger]
        world.files.contains_key(name) ==> (before.contains_key(name) && before[name]
            == world.files[name]) || (has_unit(queue, world.files[name], name) && !fails(
            ok,
            world.files[name],
            w.tries,
        ))
}

proof fn lemma_sourced_advance(
    w: WorkerView,
    world: World,
    ok: Answers,
    queue: Seq<UnitView>,
    before: Map<Seq<char>, Seq<char>>,
)
    requires
        sourced(w, world, ok, queue, before),
    ensures
        sourced(advance(w, world, ok).0, advance(w, world, ok).1, ok, queue, before),
{
    let next = advance(w, world, ok);
    lemma_advance(w, world, ok);
    lemma_on_course_advance(w, world, ok, queue);
    if w.phase is Polling && world.queue.len() > 0 {
        let at = queue.len() - world.queue.len();
        assert(world.queue[0] == queue[at]);
        let rest = world.queue.drop_first();
        assert(rest =~= queue.skip(queue.len() - rest.len()));
    }
    if w.phase is Transferring && ok(w.phase->Transferring_url, w.retries) {
        assert(!fails(ok, w.phase->Transferring_url, w.tries));
    }
}

proof fn lemma_sourced_run(
    w: WorkerView,
    world: World,
    ok: Answers,
    queue: Seq<UnitView>,
    before: Map<Seq<char>, Seq<char>>,
    rounds: nat,
)
    requires
        sourced(w, world, ok, queue, before),
    ensures
        sourced(run(w, world, ok, rounds).0, run(w, world, ok, rounds).1, ok, queue, before),
    decreases rounds,
{
    if rounds > 0 {
        let next = advance(w, world, ok);
        lemma_sourced_advance(w, world, ok, queue, before);
        lemma_sourced_run(next.0, next.1, ok, queue, before, (rounds - 1) as nat);
    }
}

/// Every file that a run leaves was there before, with the body it had, or
/// holds the whole body of the address of a unit of the queue that has this
/// file name and whose address answers within the limit.
pub proof fn lemma_files_come_from_units(
    tries: nat,
    queue: Seq<UnitView>,
    files: Map<Seq<char>, Seq<char>>,
    ok: Answers,
    rounds: nat,
    name: Seq<char>,
)
    requires
        run(WorkerView::fresh(tries), at_start(queue, files), ok, rounds).1.files.contains_key(
            name,
        ),
    ensures
        ({
            let end = run(WorkerView::fresh(tries), at_start(queue, files), ok, rounds).1.files;
            ||| files.contains_key(name) && files[name] == end[name]
            ||| has_unit(queue, end[name], name) && !fails(ok, end[name], tries)
        }),
{
    let w = WorkerView::fresh(tries);
    let world = at_start(queue, files);
    assert forall|i: int| 0 <= i < queue.len() && (#[trigger] queue[i]).url is Some implies to_come(
        w,
        world,
        queue[i].url->Some_0,
        queue[i].file_name(),
    ) by {}
    assert(queue =~= queue.skip(0));
    lemma_sourced_run(w, world, ok, queue, files, rounds);
    lemma_run(w, world, ok, rounds);
}

/// A unit whose address answers within the limit has its file when the run
/// has stopped, wherever it stood in the queue and whatever became of the
/// other units. Where the file was not there before and no unit with
/// another address has the same file name, the file holds the whole body of
/// the unit's address.
pub proof fn lemma_answering_unit_is_stored(
    tries: nat,
    queue: Seq<UnitView>,
    files: Map<Seq<char>, Seq<char>>,
    ok: Answers,
    rounds: nat,
    at: int,
)
    requires
        rounds >= rounds_bound(WorkerView::fresh(tries), at_start(queue, files)),
        0 <= at < queue.len(),
        queue[at].url is Some,
        !fails(ok, queue[at].url->Some_0, tries),
    ensures
        ({
            let end = run(WorkerView::fresh(tries), at_start(queue, files), ok, rounds).1.files;
            let file = queue[at].file_name();
            &&& end.contains_key(file)
            &&& !files.contains_key(file) && (forall|i: int|
                0 <= i < queue.len() && (#[trigger] queue[i]).url is Some && queue[i].file_name()
                    == file ==> queue[i].url == queue[at].url) ==> end[file]
                == queue[at].url->Some_0
        }),
{
    let end = run(WorkerView::fresh(tries), at_start(queue, files), ok, rounds).1.files;
    let file = queue[at].file_name();
    lemma_run_settles(tries, queue, files, ok, rounds);
    assert(dealt_with(end, tries, ok, queue[at].url->Some_0, file));
    lemma_files_come_from_units(tries, queue, files, ok, rounds, file);
    if !files.contains_key(file) {
        assert(has_unit(queue, end[file], file));
    }
}

/// A unit whose every attempt fails leaves no file: where its file was not
/// there before and no unit with the same file name has an address that
/// answers within the limit, the file is not there after the run, however
/// long the run went on.
pub proof fn lemma_failing_unit_leaves_no_file(
    tries: nat,
    queue: Seq<UnitView>,
    files: Map<Seq<char>, Seq<char>>,
    ok: Answers,
    rounds: nat,
    file: Seq<char>,
)
    requires
        !files.contains_key(file),
        forall|i: int|
            0 <= i < queue.len() && (#[trigger] queue[i]).url is Some && queue[i].file_name()
                == file ==> fails(ok, queue[i].url->Some_0, tries),
    ensures
        !run(WorkerView::fresh(tries), at_start(queue, files), ok, rounds).1.files.contains_key(
            file,
        ),
{
    let end = run(WorkerView::fresh(tries), at_start(queue, files), ok, rounds).1.files;
    if end.contains_key(file) {
        lemma_files_come_from_units(tries, queue, files, ok, rounds, file);
        let i = choose|i: int|
            0 <= i < queue.len() && (#[trigger] queue[i]).url == Some(end[file])
                && queue[i].file_name() == file;
        assert(fails(ok, queue[i].url->Some_0, tries));
    }
}

/// `true` if the file of every unit of the queue that has an address is
/// there.
pub open spec fn all_present(queue: Seq<UnitView>, files: Map<Seq<char>, Seq<char>>) -> bool {
    forall|i: int|
        0 <= i < queue.len() && (#[trigger] queue[i]).url is Some ==> files.contains_key(
            queue[i].file_name(),
        )
}

/// The states of a run that finds every file in its place.
pub open spec fn nothing_to_do(w: WorkerView, world: World) -> bool {
    &&& ready(w, world)
    &&& all_present(world.queue, world.files)
    &&& match w.phase {
        PhaseView::Checking { url, file } => world.files.contains_key(file),
        PhaseView::Transferring { url, file } => false,
        _ => true,
    }
}

/// A run that finds every file in its place attempts no transfer and
/// changes no file, however long it goes on.
pub proof fn lemma_files_in_place(w: WorkerView, world: World, ok: Answers, rounds: nat)
    requires
        nothing_to_do(w, world),
    ensures
        nothing_to_do(run(w, world, ok, rounds).0, run(w, world, ok, rounds).1),
        run(w, world, ok, rounds).1.files == world.files,
        run(w, world, ok, rounds).1.attempts == world.attempts,
    decreases rounds,
{
    if rounds > 0 {
        let next = advance(w, world, ok);
        lemma_advance(w, world, ok);
        if w.phase is Polling && world.queue.len() > 0 {
            let rest = world.queue.drop_first();
            assert forall|i: int| 0 <= i < rest.len() && (#[trigger] rest[i]).url is Some implies world.files.contains_key(rest[i].file_name()) by {
                assert(rest[i] == world.queue[i + 1]);
            }
            assert(world.queue[0].url is Some ==> world.files.contains_key(
                world.queue[0].file_name(),
            ));
        }
        lemma_files_in_place(next.0, next.1, ok, (rounds - 1) as nat);
    }
}

} // verus!
