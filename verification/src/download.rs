//! The downloader: a queue of units shared by a fixed number of workers.
use crate::unit::opt_text;
use crate::unit::unit_views;
use crate::unit::Config;
use crate::unit::Unit;
use crate::unit::UnitView;
use crate::worker::Action;
use crate::worker::Event;
use crate::worker::EventView;
use crate::worker::Worker;
use crate::worker::WorkerView;
use std::collections::VecDeque;
use vstd::prelude::*;
use vstd::string::StringExecFns;

verus! {

/// The sending end of a channel of `crossbeam`.
#[verifier::external_type_specification]
#[verifier::external_body]
#[verifier::reject_recursive_types(T)]
pub struct ExSender<T>(crossbeam::channel::Sender<T>);

/// The receiving end of a channel of `crossbeam`.
#[verifier::external_type_specification]
#[verifier::external_body]
#[verifier::reject_recursive_types(T)]
pub struct ExReceiver<T>(crossbeam::channel::Receiver<T>);

/// The error of `Sender::send`, which holds the message that was not sent.
#[verifier::external_type_specification]
#[verifier::external_body]
#[verifier::reject_recursive_types(T)]
pub struct ExSendError<T>(crossbeam::channel::SendError<T>);

/// The error of `Receiver::try_recv`.
#[verifier::external_type_specification]
#[verifier::external_body]
pub struct ExTryRecvError(crossbeam::channel::TryRecvError);

/// `crossbeam::channel::unbounded` makes a channel that holds any number of
/// messages. Nothing is claimed of the two ends it returns.
pub assume_specification<T>[ crossbeam::channel::unbounded::<T> ]() -> (ends: (
    crossbeam::channel::Sender<T>,
    crossbeam::channel::Receiver<T>,
));

/// `Sender::send` puts a message into the channel, or gives it back inside
/// the error when every receiver is gone. Nothing is claimed of which.
pub assume_specification<T>[ crossbeam::channel::Sender::<T>::send ](
    sender: &crossbeam::channel::Sender<T>,
    msg: T,
) -> (sent: Result<(), crossbeam::channel::SendError<T>>);

/// `Receiver::try_recv` takes a message out of the channel without blocking,
/// or reports that there is none. Other receivers may take messages at any
/// time, so nothing is claimed of which message comes, or whether one does.
pub assume_specification<T>[ crossbeam::channel::Receiver::<T>::try_recv ](
    receiver: &crossbeam::channel::Receiver<T>,
) -> (got: Result<T, crossbeam::channel::TryRecvError>);

/// Holds what is needed to download the units of one container.
pub struct Downloader {
    channel_rx: crossbeam::channel::Receiver<Unit>,
    tries: usize,
    jobs: usize,
    len: usize,
    /// The units that were handed to the shared queue, in that order.
    loaded: Ghost<Seq<UnitView>>,
}

/// Directory below the output root for unrestricted downloads.
pub const DOWNLOADS_DIR: &'static str = "downloads";

/// Directory below the output root for downloads in safe mode.
pub const SFW_DOWNLOADS_DIR: &'static str = "sfw-downloads";

/// Name of the directory that separates the two modes.
pub open spec fn mode_dir(sfw: bool) -> Seq<char> {
    if sfw {
        SFW_DOWNLOADS_DIR@
    } else {
        DOWNLOADS_DIR@
    }
}

/// The directories to descend through, from the place where the download
/// starts, to reach the files of a container that held `len` units: the
/// output root if one is configured, the mode's directory, and the
/// container's own directory if it held more than one unit.
pub open spec fn target_dir_spec(
    directory: Option<Seq<char>>,
    sfw: bool,
    len: nat,
    tag_dir: Seq<char>,
) -> Seq<Seq<char>> {
    let root = match directory {
        Some(d) => seq![d],
        None => seq![],
    };
    let group = if len > 1 {
        seq![tag_dir]
    } else {
        seq![]
    };
    root + seq![mode_dir(sfw)] + group
}

/// The place of a unit's file: the directories of its download, then the
/// file's name.
pub open spec fn file_path_spec(
    directory: Option<Seq<char>>,
    sfw: bool,
    len: nat,
    tag_dir: Seq<char>,
    unit: UnitView,
) -> Seq<Seq<char>> {
    target_dir_spec(directory, sfw, len, tag_dir).push(unit.file_name())
}

/// The file of a container's only unit lies in the mode's directory itself.
/// The files of a container that held two units or more lie one directory
/// deeper, in the container's own.
pub proof fn lemma_single_unit_is_flat(
    root: Seq<char>,
    sfw: bool,
    len: nat,
    tag_dir: Seq<char>,
    unit: UnitView,
)
    ensures
        len == 1 ==> file_path_spec(Some(root), sfw, len, tag_dir, unit) == seq![
            root,
            mode_dir(sfw),
            unit.file_name(),
        ],
        len >= 2 ==> file_path_spec(Some(root), sfw, len, tag_dir, unit) == seq![
            root,
            mode_dir(sfw),
            tag_dir,
            unit.file_name(),
        ],
{
    if len == 1 {
        assert(file_path_spec(Some(root), sfw, len, tag_dir, unit) =~= seq![
            root,
            mode_dir(sfw),
            unit.file_name(),
        ]);
    }
    if len >= 2 {
        assert(file_path_spec(Some(root), sfw, len, tag_dir, unit) =~= seq![
            root,
            mode_dir(sfw),
            tag_dir,
            unit.file_name(),
        ]);
    }
}

/// The text of each string of a sequence.
pub open spec fn texts(parts: Seq<String>) -> Seq<Seq<char>> {
    Seq::new(parts.len(), |i: int| parts[i]@)
}

/// What the contracts say of a [`Downloader`]. Of the shared queue it holds
/// what was put into it when the downloader was made, not what is left:
/// workers on other threads may take from the queue at any time.
pub struct DownloaderView {
    pub tries: nat,
    pub jobs: nat,
    pub len: nat,
    /// The units that were handed to the shared queue, in that order.
    pub loaded: Seq<UnitView>,
}

impl View for Downloader {
    type V = DownloaderView;

    closed spec fn view(&self) -> DownloaderView {
        DownloaderView {
            tries: self.tries as nat,
            jobs: self.jobs as nat,
            len: self.len as nat,
            loaded: self.loaded@,
        }
    }
}

impl Downloader {
    /// Moves every unit of `queue` into a fresh shared queue, first unit
    /// first, and remembers how many there were.
    pub fn new(tries: usize, jobs: usize, queue: &mut VecDeque<Unit>) -> (d: Downloader)
        ensures
            d@.tries == tries,
            d@.jobs == jobs,
            d@.len == old(queue)@.len(),
            d@.loaded == unit_views(old(queue)@),
            final(queue)@.len() == 0,
    {
        let queue_len = queue.len();
        let (tx, rx) = crossbeam::channel::unbounded::<Unit>();
        let ghost mut loaded: Seq<UnitView> = Seq::empty();
        while queue.len() > 0
            invariant
                queue_len == old(queue)@.len(),
                loaded + unit_views(queue@) == unit_views(old(queue)@),
            decreases queue@.len(),
        {
            let ghost before = queue@;
            match queue.pop_front() {
                Some(u) => {
                    proof {
                        loaded = loaded.push(u@);
                        assert(unit_views(before) =~= seq![u@] + unit_views(queue@));
                        assert(loaded + unit_views(queue@) =~= loaded.drop_last() + unit_views(
                            before,
                        ));
                    }
                    let _sent = tx.send(u);
                },
                None => {},
            }
        }
        assert(loaded =~= loaded + unit_views(queue@));
        Downloader { channel_rx: rx, tries, jobs, len: queue_len, loaded: Ghost(loaded) }
    }

    /// Transfer attempts allowed per unit.
    pub fn tries(&self) -> (n: usize)
        ensures
            n == self@.tries,
    {
        self.tries
    }

    /// Number of workers to run.
    pub fn jobs(&self) -> (n: usize)
        ensures
            n == self@.jobs,
    {
        self.jobs
    }

    /// Number of units that the container held.
    pub fn len(&self) -> (n: usize)
        ensures
            n == self@.len,
    {
        self.len
    }

    /// The directories that lead to the files of this download.
    pub fn target_dir(&self, tag_dir: &str, config: &Config) -> (parts: Vec<String>)
        ensures
            texts(parts@) == target_dir_spec(
                opt_text(config.directory),
                config.sfw,
                self@.len,
                tag_dir@,
            ),
    {
        let mut parts: Vec<String> = Vec::new();
        match &config.directory {
            Some(down_dir) => {
                parts.push(down_dir.clone());
            },
            None => {},
        }
        if config.sfw {
            parts.push(String::from_str(SFW_DOWNLOADS_DIR));
        } else {
            parts.push(String::from_str(DOWNLOADS_DIR));
        }
        if self.len > 1 {
            parts.push(String::from_str(tag_dir));
        }
        assert(texts(parts@) =~= target_dir_spec(
            opt_text(config.directory),
            config.sfw,
            self@.len,
            tag_dir@,
        ));
        parts
    }

    /// A worker for this download, before its first event.
    pub fn worker(&self) -> (w: Worker)
        ensures
            w@ == WorkerView::fresh(self@.tries),
            w@.wf(),
    {
        Worker::new(self.tries)
    }

    /// Lets a worker that waits for a unit poll the shared queue once, and
    /// returns what it wants done next. A worker that waits for something
    /// else is left as it is, and so is the queue.
    pub fn poll(&self, worker: &mut Worker) -> (a: Action)
        ensures
            old(worker)@.wf(),
            final(worker)@.wf(),
            a@ == final(worker)@.pending(),
            exists|got: Option<UnitView>|
                final(worker)@ == old(worker)@.step(EventView::Polled(got)),
            !(old(worker)@.phase is Polling) ==> final(worker)@ == old(worker)@,
    {
        if !worker.is_polling() {
            return worker.step(Event::Polled(None));
        }
        let event = match self.channel_rx.try_recv() {
            Ok(unit) => Event::Polled(Some(unit)),
            Err(_) => Event::Polled(None),
        };
        let ghost got = match event@ {
            EventView::Polled(g) => g,
            _ => None,
        };
        let a = worker.step(event);
        assert(worker@ == old(worker)@.step(EventView::Polled(got)));
        a
    }
}

} // verus!
