//! The walk as a dialogue. A [`Walker`] never touches the file system: it
//! says what it wants done next, is told what came of it, and keeps the
//! results. Whoever drives it opens, advances and closes the searches.

use crate::entry::{
    build, entries_well_formed, lemma_build_well_formed, outcomes_of, DirEntry, EntryModel,
    Outcome,
};
use crate::error::{Error, ErrorModel};
use crate::path::{pattern_for, search_pattern};
use crate::record::{RawRecord, RecordModel};
use vstd::prelude::*;
use vstd::slice::slice_to_vec;

verus! {

/// What a walker wants done next.
#[derive(Clone, Debug, PartialEq, Eq)]
pub enum Request {
    /// Open a search with this pattern, on top of the searches already
    /// open. The answer is its first record, or `None` if it cannot be
    /// opened; then no search was opened and there is none to close.
    Open(Vec<u8>),
    /// Advance the search opened last. The answer is its next record, or
    /// `None` once it is exhausted.
    Next,
    /// Close the search opened last. The answer is `None`.
    Close,
    /// Nothing: the walk is over and no search is open.
    Done,
}

/// What a [`Request`] stands for.
pub enum RequestModel {
    Open(Seq<u8>),
    Next,
    Close,
    Done,
}

impl View for Request {
    type V = RequestModel;

    open spec fn view(&self) -> RequestModel {
        match self {
            Request::Open(pattern) => RequestModel::Open(pattern@),
            Request::Next => RequestModel::Next,
            Request::Close => RequestModel::Close,
            Request::Done => RequestModel::Done,
        }
    }
}

/// What the walker waits for in the directory it is in.
#[derive(Clone, Copy, Debug, PartialEq, Eq, Structural)]
pub enum Phase {
    /// For the search to be opened.
    Opening,
    /// For the next record of the open search.
    Listing,
    /// For the exhausted search to be closed.
    Closing,
}

/// The depth budget for the directories below one walked with budget
/// `depth`. Zero stands for no limit, and stays zero.
pub open spec fn budget_below(depth: nat) -> nat {
    if depth == 0 {
        0
    } else {
        (depth - 1) as nat
    }
}

/// Whether a walk with budget `depth` goes into the folders it lists. A
/// budget of one lists a directory and stops there.
pub open spec fn descends(depth: nat) -> bool {
    depth != 1
}

/// One directory that a walk is inside of.
pub struct FrameModel {
    /// The directory's path.
    pub path: Seq<u8>,
    /// The depth budget it is walked with.
    pub depth: nat,
    /// The directory's own entry, which joins the results when the walk
    /// leaves it. The directory the walk started in has none.
    pub entry: Option<EntryModel>,
}

/// The state of a walk.
pub struct WalkerModel {
    /// The directories the walk is inside of, outermost first.
    pub frames: Seq<FrameModel>,
    /// The results so far.
    pub results: Seq<Outcome>,
    /// What is awaited in the innermost directory.
    pub phase: Phase,
}

impl WalkerModel {
    /// A walk of the directory `path` with budget `depth`, before anything
    /// was done.
    pub open spec fn start(path: Seq<u8>, depth: nat) -> WalkerModel {
        WalkerModel {
            frames: seq![FrameModel { path, depth, entry: None }],
            results: Seq::empty(),
            phase: Phase::Opening,
        }
    }

    /// Whether the walk is over: it is inside of no directory.
    pub open spec fn finished(self) -> bool {
        self.frames.len() == 0
    }

    /// What the walk wants done next.
    pub open spec fn request(self) -> RequestModel {
        if self.finished() {
            RequestModel::Done
        } else {
            match self.phase {
                Phase::Opening => RequestModel::Open(search_pattern(self.frames.last().path)),
                Phase::Listing => RequestModel::Next,
                Phase::Closing => RequestModel::Close,
            }
        }
    }

    /// The number of searches that are open.
    pub open spec fn open_searches(self) -> nat {
        if self.finished() {
            0
        } else if self.phase is Opening {
            (self.frames.len() - 1) as nat
        } else {
            self.frames.len()
        }
    }

    /// Whether every entry that the walk holds is well formed: those among
    /// the results, and those that wait for the walk to leave their folder.
    pub open spec fn sound(self) -> bool {
        &&& entries_well_formed(self.results)
        &&& forall|i: int|
            0 <= i < self.frames.len() ==> (#[trigger] self.frames[i].entry matches Some(entry)
                ==> entry.well_formed())
    }

    /// The state with one more result.
    pub open spec fn report(self, outcome: Outcome) -> WalkerModel {
        WalkerModel { results: self.results.push(outcome), ..self }
    }

    /// The state once the search in the innermost directory has run its
    /// course and brought `found`: the walk has these results more, and has
    /// left the directory.
    pub open spec fn conclude(self, found: Seq<Outcome>) -> WalkerModel {
        WalkerModel { results: self.results + found, ..self }.leave()
    }

    /// The state after leaving the innermost directory: the directory's own
    /// entry, if it has one, joins the results, and the walk goes on
    /// listing the directory above.
    pub open spec fn leave(self) -> WalkerModel {
        WalkerModel {
            frames: self.frames.drop_last(),
            results: match self.frames.last().entry {
                Some(entry) => self.results.push(Ok(entry)),
                None => self.results,
            },
            phase: Phase::Listing,
        }
    }

    /// The state after a record of the innermost directory.
    ///
    /// A record that is no entry changes nothing. One that fails to build
    /// is reported, and the walk does not go into it, folder or not. An
    /// entry is reported at once, unless it is a folder and the budget lets
    /// the walk go into it: then the walk enters it, and the entry waits
    /// until the walk has left it again.
    pub open spec fn take(self, record: RecordModel) -> WalkerModel {
        let frame = self.frames.last();
        match build(frame.path, record) {
            None => WalkerModel { phase: Phase::Listing, ..self },
            Some(Err(error)) => WalkerModel { phase: Phase::Listing, ..self.report(Err(error)) },
            Some(Ok(entry)) => if entry.is_folder() && descends(frame.depth) {
                WalkerModel {
                    frames: self.frames.push(
                        FrameModel {
                            path: entry.path,
                            depth: budget_below(frame.depth),
                            entry: Some(entry),
                        },
                    ),
                    phase: Phase::Opening,
                    ..self
                }
            } else {
                WalkerModel { phase: Phase::Listing, ..self.report(Ok(entry)) }
            },
        }
    }

    /// The state after the answer to `self.request()`.
    ///
    /// A search that cannot be opened is reported as `InvalidSearch` with
    /// the directory's path, and the walk leaves the directory. A search
    /// that is exhausted is to be closed, and once it is closed the walk
    /// leaves the directory. A finished walk stays as it is.
    pub open spec fn respond(self, answer: Option<RecordModel>) -> WalkerModel {
        if self.finished() {
            self
        } else {
            match (self.phase, answer) {
                (Phase::Closing, _) => self.leave(),
                (_, Some(record)) => self.take(record),
                (Phase::Opening, None) => self.report(
                    Err(ErrorModel::InvalidSearch(self.frames.last().path)),
                ).leave(),
                (Phase::Listing, None) => WalkerModel { phase: Phase::Closing, ..self },
            }
        }
    }
}

/// A walk holds none but well-formed entries: none at its start, and an
/// answer, whatever it is, adds no other. So no result is ever named `.` or
/// `..`, a folder never has a size, and a file always has one.
pub proof fn lemma_walk_stays_sound(walk: WalkerModel, answer: Option<RecordModel>)
    requires
        walk.sound(),
    ensures
        walk.respond(answer).sound(),
{
    if !walk.finished() {
        if let Some(record) = answer {
            lemma_build_well_formed(walk.frames.last().path, record);
        }
    }
}

/// Searches are opened and closed in pairs. An answer changes the number
/// of open searches in two cases only: it goes up by one where the walk
/// asked to open a search and a record came, and down by one where the walk
/// asked to close one. A walk asks to close only while a search is open,
/// and a finished walk has none open.
pub proof fn lemma_searches_balance(walk: WalkerModel, answer: Option<RecordModel>)
    ensures
        walk.request() is Open && answer is Some ==> walk.respond(answer).open_searches()
            == walk.open_searches() + 1,
        walk.request() is Close ==> walk.respond(answer).open_searches() == walk.open_searches()
            - 1,
        !(walk.request() is Open && answer is Some) && !(walk.request() is Close)
            ==> walk.respond(answer).open_searches() == walk.open_searches(),
        walk.request() is Close || walk.request() is Next ==> walk.open_searches() >= 1,
        walk.finished() ==> walk.open_searches() == 0,
{
}

/// A walk starts without results, so with none that is ill formed.
pub proof fn lemma_start_sound(path: Seq<u8>, depth: nat)
    ensures
        WalkerModel::start(path, depth).sound(),
{
}

/// What an answer stands for.
pub open spec fn answer_of(answer: Option<&RawRecord>) -> Option<RecordModel> {
    match answer {
        Some(record) => Some(record@),
        None => None,
    }
}

struct Frame {
    path: Vec<u8>,
    depth: usize,
    entry: Option<DirEntry>,
}

impl View for Frame {
    type V = FrameModel;

    closed spec fn view(&self) -> FrameModel {
        FrameModel {
            path: self.path@,
            depth: self.depth as nat,
            entry: match self.entry {
                Some(entry) => Some(entry@),
                None => None,
            },
        }
    }
}

/// A walk in progress.
pub struct Walker {
    frames: Vec<Frame>,
    results: Vec<Result<DirEntry, Error>>,
    phase: Phase,
}

impl View for Walker {
    type V = WalkerModel;

    closed spec fn view(&self) -> WalkerModel {
        WalkerModel {
            frames: self.frames@.map_values(|frame: Frame| frame@),
            results: outcomes_of(self.results@),
            phase: self.phase,
        }
    }
}

impl Walker {
    /// Starts a walk of the directory `path`.
    ///
    /// A `depth` of zero sets no limit. Any other is the number of levels
    /// that are listed: with one, what is in `path` itself and no more.
    pub fn new(path: &[u8], depth: usize) -> (walker: Walker)
        ensures
            walker@ == WalkerModel::start(path@, depth as nat),
            walker@.sound(),
    {
        let mut frames = Vec::new();
        frames.push(Frame { path: slice_to_vec(path), depth, entry: None });
        let walker = Walker { frames, results: Vec::new(), phase: Phase::Opening };
        assert(walker@.frames =~= WalkerModel::start(path@, depth as nat).frames);
        assert(walker@.results =~= WalkerModel::start(path@, depth as nat).results);
        walker
    }

    /// Whether the walk is over.
    pub fn finished(&self) -> (over: bool)
        ensures
            over == self@.finished(),
    {
        self.frames.len() == 0
    }

    /// What is awaited in the innermost directory.
    pub fn phase(&self) -> (phase: Phase)
        ensures
            phase == self@.phase,
    {
        self.phase
    }

    /// What the walk wants done next.
    pub fn request(&self) -> (request: Request)
        ensures
            request@ == self@.request(),
    {
        let inside = self.frames.len();
        if inside == 0 {
            Request::Done
        } else {
            match self.phase {
                Phase::Opening => Request::Open(pattern_for(self.frames[inside - 1].path.as_slice())),
                Phase::Listing => Request::Next,
                Phase::Closing => Request::Close,
            }
        }
    }

    /// Takes the answer to `self.request()`.
    ///
    /// The answer is not held against the request: a record that comes
    /// where a search was to be closed is dropped, and the search counts as
    /// closed; any answer to a finished walk is dropped.
    pub fn respond(&mut self, answer: Option<&RawRecord>)
        ensures
            final(self)@ == old(self)@.respond(answer_of(answer)),
            old(self)@.sound() ==> final(self)@.sound(),
    {
        proof {
            if self@.sound() {
                lemma_walk_stays_sound(self@, answer_of(answer));
            }
        }
        if self.frames.len() == 0 {
            return ;
        }
        match self.phase {
            Phase::Closing => {
                self.leave();
            },
            Phase::Opening => match answer {
                Some(record) => {
                    self.take(record);
                },
                None => {
                    self.leave_unopened();
                },
            },
            Phase::Listing => match answer {
                Some(record) => {
                    self.take(record);
                },
                None => {
                    self.phase = Phase::Closing;
                },
            },
        }
    }

    /// Leaves the innermost directory.
    fn leave(&mut self)
        requires
            !old(self)@.finished(),
        ensures
            final(self)@ == old(self)@.leave(),
    {
        let ghost before = self@;
        let frame = self.frames.pop().unwrap();
        assert(self@.frames =~= before.frames.drop_last());
        assert(frame@ == before.frames.last());
        if let Some(entry) = frame.entry {
            self.results.push(Ok(entry));
            assert(self@.results =~= before.results.push(Ok(entry@)));
        }
        self.phase = Phase::Listing;
    }

    /// Reports that no search could be opened for the innermost directory,
    /// and leaves it.
    fn leave_unopened(&mut self)
        requires
            !old(self)@.finished(),
        ensures
            final(self)@ == old(self)@.report(
                Err(ErrorModel::InvalidSearch(old(self)@.frames.last().path)),
            ).leave(),
    {
        let ghost before = self@;
        let frame = self.frames.pop().unwrap();
        assert(self@.frames =~= before.frames.drop_last());
        assert(frame@ == before.frames.last());
        self.results.push(Err(Error::InvalidSearch(frame.path)));
        assert(self@.results =~= before.results.push(
            Err(ErrorModel::InvalidSearch(before.frames.last().path)),
        ));
        let ghost reported = self@.results;
        if let Some(entry) = frame.entry {
            self.results.push(Ok(entry));
            assert(self@.results =~= reported.push(Ok(entry@)));
        }
        self.phase = Phase::Listing;
    }

    /// Takes a record of the innermost directory.
    fn take(&mut self, record: &RawRecord)
        requires
            !old(self)@.finished(),
        ensures
            final(self)@ == old(self)@.take(record@),
    {
        let ghost before = self@;
        let inside = self.frames.len();
        let depth = self.frames[inside - 1].depth;
        let built = DirEntry::from_record(self.frames[inside - 1].path.as_slice(), record);
        match built {
            None => {},
            Some(Err(error)) => {
                self.results.push(Err(error));
                assert(self@.results =~= before.results.push(Err(error@)));
            },
            Some(Ok(entry)) => {
                if entry.is_folder() && depth != 1 {
                    let path = slice_to_vec(entry.path.as_slice());
                    let below = if depth == 0 {
                        0
                    } else {
                        depth - 1
                    };
                    let ghost frame = FrameModel {
                        path: entry@.path,
                        depth: budget_below(depth as nat),
                        entry: Some(entry@),
                    };
                    self.frames.push(Frame { path, depth: below, entry: Some(entry) });
                    assert(self@.frames =~= before.frames.push(frame));
                    self.phase = Phase::Opening;
                    return ;
                }
                self.results.push(Ok(entry));
                assert(self@.results =~= before.results.push(Ok(entry@)));
            },
        }
        self.phase = Phase::Listing;
    }

    /// The results so far.
    pub fn results(&self) -> (results: &Vec<Result<DirEntry, Error>>)
        ensures
            outcomes_of(results@) == self@.results,
    {
        &self.results
    }

    /// Ends the walk and hands out its results.
    pub fn into_results(self) -> (results: Vec<Result<DirEntry, Error>>)
        ensures
            outcomes_of(results@) == self@.results,
    {
        self.results
    }
}

} // verus!
