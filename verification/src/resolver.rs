//! The resolution state machine for one data file of one language.
//!
//! Resolving a file means: succeed at once when the final file already
//! exists; otherwise obtain raw bytes into a cache path (from the first
//! configured directory that holds a same-named file, or by fetching the
//! configured URL), normalize them to UTF-8 at the final path, and delete the
//! cache file. The machine decides each step; a thin driver performs the
//! filesystem and network actions it asks for and reports what happened.

use vstd::prelude::*;
use vstd::string::StringExecFns;

use crate::encoding::normalize;
use crate::encoding::normalize_spec;
use crate::error::ErrorModel;
use crate::error::SpellError;

verus! {

/// A failure while writing the final file, split by phase: creating the
/// parent directories is a caching failure, writing the bytes a conversion
/// failure.
pub enum WriteFailure {
    CreateDir { message: String },
    Write { message: String },
}

/// An answer the driver hands back after performing an action.
#[allow(inconsistent_fields)]
pub enum Event {
    /// Answer to a `CheckFinal`, `CheckCache` or `CheckPath` action.
    Exists { yes: bool },
    /// Outcome of a `CopyToCache`, `Fetch` or `DeleteCache` action.
    Completed { result: Result<(), String> },
    /// Outcome of a `WriteFinal` action.
    WroteFinal { result: Result<(), WriteFailure> },
    /// Outcome of a `ReadCache` action: the raw bytes, or the read error.
    CacheBytes { result: Result<Vec<u8>, String> },
}

/// What the machine asks the driver to do next.
pub enum Action {
    /// Report whether the final file exists.
    CheckFinal { path: String },
    /// Report whether the cache file exists.
    CheckCache { path: String },
    /// Report whether this search-directory candidate exists.
    CheckPath { path: String },
    /// Copy the found file byte-for-byte to the cache path, creating parent
    /// directories as needed.
    CopyToCache { from: String, to: String },
    /// Download the URL's content into the cache path, creating parent
    /// directories as needed.
    Fetch { url: String, to: String },
    /// Read the whole cache file.
    ReadCache { path: String },
    /// Write these bytes to the final path, creating parent directories as
    /// needed.
    WriteFinal { path: String, bytes: Vec<u8> },
    /// Delete the cache file.
    DeleteCache { path: String },
    /// Resolution is over, with this outcome. No further event is expected.
    Finish { result: Result<(), SpellError> },
}

/// Where the machine stands: each non-terminal state awaits the answer to the
/// action it has just issued.
#[derive(Clone, Copy)]
pub enum ResolveState {
    AwaitFinalCheck,
    AwaitCacheCheck,
    AwaitDirCheck { next: usize },
    AwaitCopy,
    AwaitFetch,
    AwaitRead,
    AwaitWrite,
    AwaitDelete,
    Done,
}

/// Resolves one data file: holds the paths and sources it works over, and the
/// state of the resolution in progress.
pub struct FileResolver {
    /// Normalized UTF-8 destination.
    pub final_path: String,
    /// Scratch location for the pre-normalization bytes.
    pub cache_path: String,
    /// Base name of the file, `<lang>.<kind>`.
    pub file_name: String,
    /// Local directories searched in order; the first match wins.
    pub directories: Vec<String>,
    /// Network source, when one is configured.
    pub url: Option<String>,
    pub state: ResolveState,
}

// ------------------------------------------------------------------
// The mathematical model: the same machine over sequences.
// ------------------------------------------------------------------

pub enum WriteFailureModel {
    CreateDir { message: Seq<char> },
    Write { message: Seq<char> },
}

#[allow(inconsistent_fields)]
pub enum EventModel {
    Exists { yes: bool },
    Completed { result: Result<(), Seq<char>> },
    WroteFinal { result: Result<(), WriteFailureModel> },
    CacheBytes { result: Result<Seq<u8>, Seq<char>> },
}

pub enum ActionModel {
    CheckFinal { path: Seq<char> },
    CheckCache { path: Seq<char> },
    CheckPath { path: Seq<char> },
    CopyToCache { from: Seq<char>, to: Seq<char> },
    Fetch { url: Seq<char>, to: Seq<char> },
    ReadCache { path: Seq<char> },
    WriteFinal { path: Seq<char>, bytes: Seq<u8> },
    DeleteCache { path: Seq<char> },
    Finish { result: Result<(), ErrorModel> },
}

pub enum StateModel {
    AwaitFinalCheck,
    AwaitCacheCheck,
    AwaitDirCheck { next: int },
    AwaitCopy,
    AwaitFetch,
    AwaitRead,
    AwaitWrite,
    AwaitDelete,
    Done,
}

pub struct ResolverModel {
    pub final_path: Seq<char>,
    pub cache_path: Seq<char>,
    pub file_name: Seq<char>,
    pub directories: Seq<Seq<char>>,
    pub url: Option<Seq<char>>,
    pub state: StateModel,
}

impl View for WriteFailure {
    type V = WriteFailureModel;

    open spec fn view(&self) -> WriteFailureModel {
        match self {
            WriteFailure::CreateDir { message } => WriteFailureModel::CreateDir {
                message: message@,
            },
            WriteFailure::Write { message } => WriteFailureModel::Write { message: message@ },
        }
    }
}

impl View for Event {
    type V = EventModel;

    open spec fn view(&self) -> EventModel {
        match self {
            Event::Exists { yes } => EventModel::Exists { yes: *yes },
            Event::Completed { result } => EventModel::Completed {
                result: match result {
                    Result::Ok(()) => Result::Ok(()),
                    Result::Err(m) => Result::Err(m@),
                },
            },
            Event::WroteFinal { result } => EventModel::WroteFinal {
                result: match result {
                    Result::Ok(()) => Result::Ok(()),
                    Result::Err(f) => Result::Err(f@),
                },
            },
            Event::CacheBytes { result } => EventModel::CacheBytes {
                result: match result {
                    Result::Ok(b) => Result::Ok(b@),
                    Result::Err(m) => Result::Err(m@),
                },
            },
        }
    }
}

impl View for Action {
    type V = ActionModel;

    open spec fn view(&self) -> ActionModel {
        match self {
            Action::CheckFinal { path } => ActionModel::CheckFinal { path: path@ },
            Action::CheckCache { path } => ActionModel::CheckCache { path: path@ },
            Action::CheckPath { path } => ActionModel::CheckPath { path: path@ },
            Action::CopyToCache { from, to } => ActionModel::CopyToCache {
                from: from@,
                to: to@,
            },
            Action::Fetch { url, to } => ActionModel::Fetch { url: url@, to: to@ },
            Action::ReadCache { path } => ActionModel::ReadCache { path: path@ },
            Action::WriteFinal { path, bytes } => ActionModel::WriteFinal {
                path: path@,
                bytes: bytes@,
            },
            Action::DeleteCache { path } => ActionModel::DeleteCache { path: path@ },
            Action::Finish { result } => ActionModel::Finish {
                result: match result {
                    Result::Ok(()) => Result::Ok(()),
                    Result::Err(e) => Result::Err(e@),
                },
            },
        }
    }
}

impl View for ResolveState {
    type V = StateModel;

    open spec fn view(&self) -> StateModel {
        match self {
            ResolveState::AwaitFinalCheck => StateModel::AwaitFinalCheck,
            ResolveState::AwaitCacheCheck => StateModel::AwaitCacheCheck,
            ResolveState::AwaitDirCheck { next } => StateModel::AwaitDirCheck {
                next: *next as int,
            },
            ResolveState::AwaitCopy => StateModel::AwaitCopy,
            ResolveState::AwaitFetch => StateModel::AwaitFetch,
            ResolveState::AwaitRead => StateModel::AwaitRead,
            ResolveState::AwaitWrite => StateModel::AwaitWrite,
            ResolveState::AwaitDelete => StateModel::AwaitDelete,
            ResolveState::Done => StateModel::Done,
        }
    }
}

impl View for FileResolver {
    type V = ResolverModel;

    open spec fn view(&self) -> ResolverModel {
        ResolverModel {
            final_path: self.final_path@,
            cache_path: self.cache_path@,
            file_name: self.file_name@,
            directories: self.directories.deep_view(),
            url: match &self.url {
                Option::Some(u) => Option::Some(u@),
                Option::None => Option::None,
            },
            state: self.state@,
        }
    }
}

// ------------------------------------------------------------------
// The transition function, as a spec over the model.
// ------------------------------------------------------------------

/// The search-directory candidate for the file: `<dir>/<file_name>`.
pub open spec fn candidate(m: ResolverModel, i: int) -> Seq<char> {
    m.directories[i] + seq!['/'] + m.file_name
}

/// A machine whose directory cursor stays within the directory list.
pub open spec fn wf(m: ResolverModel) -> bool {
    m.state matches StateModel::AwaitDirCheck { next } ==> 0 <= next < m.directories.len()
}

pub open spec fn with_state(m: ResolverModel, s: StateModel) -> ResolverModel {
    ResolverModel { state: s, ..m }
}

/// When the local search is over: fetch the configured URL, or fail for want
/// of any source.
pub open spec fn fetch_or_fail(m: ResolverModel) -> (ResolverModel, ActionModel) {
    match m.url {
        Option::Some(u) => (
            with_state(m, StateModel::AwaitFetch),
            ActionModel::Fetch { url: u, to: m.cache_path },
        ),
        Option::None => (
            with_state(m, StateModel::Done),
            ActionModel::Finish { result: Result::Err(ErrorModel::NoDicSource) },
        ),
    }
}

/// Start the local search, or go straight to the network when no directory is
/// configured.
pub open spec fn begin_search(m: ResolverModel) -> (ResolverModel, ActionModel) {
    if m.directories.len() > 0 {
        (
            with_state(m, StateModel::AwaitDirCheck { next: 0 }),
            ActionModel::CheckPath { path: candidate(m, 0) },
        )
    } else {
        fetch_or_fail(m)
    }
}

/// Which events a state can answer. A terminal machine accepts none.
pub open spec fn accepts(m: ResolverModel, ev: EventModel) -> bool {
    match m.state {
        StateModel::AwaitFinalCheck => ev is Exists,
        StateModel::AwaitCacheCheck => ev is Exists,
        StateModel::AwaitDirCheck { .. } => ev is Exists,
        StateModel::AwaitCopy => ev is Completed,
        StateModel::AwaitFetch => ev is Completed,
        StateModel::AwaitDelete => ev is Completed,
        StateModel::AwaitRead => ev is CacheBytes,
        StateModel::AwaitWrite => ev is WroteFinal,
        StateModel::Done => false,
    }
}

/// One transition of the resolution machine: from a state and the driver's
/// answer to the next state and the next action.
pub open spec fn step_model(m: ResolverModel, ev: EventModel) -> (ResolverModel, ActionModel) {
    match (m.state, ev) {
        (StateModel::AwaitFinalCheck, EventModel::Exists { yes }) => if yes {
            (with_state(m, StateModel::Done), ActionModel::Finish { result: Result::Ok(()) })
        } else {
            (
                with_state(m, StateModel::AwaitCacheCheck),
                ActionModel::CheckCache { path: m.cache_path },
            )
        },
        (StateModel::AwaitCacheCheck, EventModel::Exists { yes }) => if yes {
            (with_state(m, StateModel::AwaitRead), ActionModel::ReadCache { path: m.cache_path })
        } else {
            begin_search(m)
        },
        (StateModel::AwaitDirCheck { next }, EventModel::Exists { yes }) => if yes {
            (
                with_state(m, StateModel::AwaitCopy),
                ActionModel::CopyToCache { from: candidate(m, next), to: m.cache_path },
            )
        } else if next + 1 < m.directories.len() {
            (
                with_state(m, StateModel::AwaitDirCheck { next: next + 1 }),
                ActionModel::CheckPath { path: candidate(m, next + 1) },
            )
        } else {
            fetch_or_fail(m)
        },
        (StateModel::AwaitCopy, EventModel::Completed { result }) => match result {
            Result::Ok(()) => (
                with_state(m, StateModel::AwaitRead),
                ActionModel::ReadCache { path: m.cache_path },
            ),
            Result::Err(message) => (
                with_state(m, StateModel::Done),
                ActionModel::Finish {
                    result: Result::Err(ErrorModel::FileCachingError { message }),
                },
            ),
        },
        (StateModel::AwaitFetch, EventModel::Completed { result }) => match result {
            Result::Ok(()) => (
                with_state(m, StateModel::AwaitRead),
                ActionModel::ReadCache { path: m.cache_path },
            ),
            Result::Err(message) => (
                with_state(m, StateModel::Done),
                ActionModel::Finish {
                    result: Result::Err(ErrorModel::FileCachingError { message }),
                },
            ),
        },
        (StateModel::AwaitRead, EventModel::CacheBytes { result }) => match result {
            Result::Ok(raw) => match normalize_spec(raw) {
                Result::Ok(bytes) => (
                    with_state(m, StateModel::AwaitWrite),
                    ActionModel::WriteFinal { path: m.final_path, bytes },
                ),
                Result::Err(e) => (
                    with_state(m, StateModel::Done),
                    ActionModel::Finish { result: Result::Err(e) },
                ),
            },
            Result::Err(message) => (
                with_state(m, StateModel::Done),
                ActionModel::Finish {
                    result: Result::Err(ErrorModel::ConversionError { message }),
                },
            ),
        },
        (StateModel::AwaitWrite, EventModel::WroteFinal { result }) => match result {
            Result::Ok(()) => (
                with_state(m, StateModel::AwaitDelete),
                ActionModel::DeleteCache { path: m.cache_path },
            ),
            Result::Err(WriteFailureModel::CreateDir { message }) => (
                with_state(m, StateModel::Done),
                ActionModel::Finish {
                    result: Result::Err(ErrorModel::FileCachingError { message }),
                },
            ),
            Result::Err(WriteFailureModel::Write { message }) => (
                with_state(m, StateModel::Done),
                ActionModel::Finish {
                    result: Result::Err(ErrorModel::ConversionError { message }),
                },
            ),
        },
        (StateModel::AwaitDelete, EventModel::Completed { result }) => match result {
            Result::Ok(()) => (
                with_state(m, StateModel::Done),
                ActionModel::Finish { result: Result::Ok(()) },
            ),
            Result::Err(message) => (
                with_state(m, StateModel::Done),
                ActionModel::Finish {
                    result: Result::Err(ErrorModel::FileCachingError { message }),
                },
            ),
        },
        _ => (m, ActionModel::Finish { result: Result::Ok(()) }),
    }
}

// ------------------------------------------------------------------
// Runs of the machine, and the laws that hold of them.
// ------------------------------------------------------------------

/// The actions a machine issues when answered with these events in order.
pub open spec fn run(m: ResolverModel, evs: Seq<EventModel>) -> Seq<ActionModel>
    decreases evs.len(),
{
    if evs.len() == 0 {
        Seq::empty()
    } else {
        seq![step_model(m, evs[0]).1] + run(step_model(m, evs[0]).0, evs.drop_first())
    }
}

/// Every event of the sequence answers the action pending at its turn; a
/// terminal machine accepts no event, so a valid run stops at `Finish`.
pub open spec fn valid_run(m: ResolverModel, evs: Seq<EventModel>) -> bool
    decreases evs.len(),
{
    evs.len() == 0 || (accepts(m, evs[0]) && valid_run(step_model(m, evs[0]).0, evs.drop_first()))
}

/// Actions that create, change or remove a file: everything but an existence
/// check, a read and the final verdict.
pub open spec fn mutates_storage(a: ActionModel) -> bool {
    ||| a is CopyToCache
    ||| a is Fetch
    ||| a is WriteFinal
    ||| a is DeleteCache
}

proof fn lemma_run_unfold(m: ResolverModel, evs: Seq<EventModel>)
    requires
        evs.len() > 0,
    ensures
        run(m, evs) == seq![step_model(m, evs[0]).1] + run(
            step_model(m, evs[0]).0,
            evs.drop_first(),
        ),
        valid_run(m, evs) == (accepts(m, evs[0]) && valid_run(
            step_model(m, evs[0]).0,
            evs.drop_first(),
        )),
{
}

proof fn lemma_run_len(m: ResolverModel, evs: Seq<EventModel>)
    ensures
        run(m, evs).len() == evs.len(),
    decreases evs.len(),
{
    if evs.len() > 0 {
        lemma_run_len(step_model(m, evs[0]).0, evs.drop_first());
    }
}

/// A terminal machine accepts no event, so a valid run from it is over.
proof fn lemma_done_accepts_nothing(m: ResolverModel, evs: Seq<EventModel>)
    requires
        m.state is Done,
        valid_run(m, evs),
    ensures
        evs.len() == 0,
{
    if evs.len() > 0 {
        lemma_run_unfold(m, evs);
        assert(!accepts(m, evs[0]));
    }
}

/// Idempotence of `ensure`: told that the final file already exists, a fresh
/// resolver finishes successfully at once. A valid run then holds no further
/// event, and no search, fetch, write or deletion happens, so the final file
/// is left untouched, byte for byte.
pub proof fn lemma_idempotent_when_final_present(m: ResolverModel, evs: Seq<EventModel>)
    requires
        m.state is AwaitFinalCheck,
        valid_run(m, evs),
        evs.len() >= 1,
        evs[0] == (EventModel::Exists { yes: true }),
    ensures
        evs.len() == 1,
        run(m, evs) =~= seq![ActionModel::Finish { result: Result::Ok(()) }],
        forall|i: int| 0 <= i < run(m, evs).len() ==> !mutates_storage(run(m, evs)[i]),
{
    lemma_run_unfold(m, evs);
    let m1 = step_model(m, evs[0]).0;
    let evs1 = evs.drop_first();
    assert(m1.state is Done);
    lemma_done_accepts_nothing(m1, evs1);
    assert(run(m1, evs1) =~= Seq::<ActionModel>::empty());
    assert(run(m, evs) =~= seq![ActionModel::Finish { result: Result::Ok(()) }]);
}

/// Search precedence: with the final file and the cache absent and the first
/// configured directory holding a matching file, the resolver copies from the
/// first-listed directory. No later directory is ever consulted: the run
/// holds no action that names any other candidate path.
pub proof fn lemma_search_precedence(m: ResolverModel, evs: Seq<EventModel>)
    requires
        m.state is AwaitFinalCheck,
        m.directories.len() >= 1,
        evs =~= seq![
            EventModel::Exists { yes: false },
            EventModel::Exists { yes: false },
            EventModel::Exists { yes: true },
        ],
    ensures
        valid_run(m, evs),
        run(m, evs) =~= seq![
            ActionModel::CheckCache { path: m.cache_path },
            ActionModel::CheckPath { path: candidate(m, 0) },
            ActionModel::CopyToCache { from: candidate(m, 0), to: m.cache_path },
        ],
{
    lemma_run_unfold(m, evs);
    let m1 = step_model(m, evs[0]).0;
    let evs1 = evs.drop_first();
    assert(m1.state is AwaitCacheCheck);
    lemma_run_unfold(m1, evs1);
    let m2 = step_model(m1, evs1[0]).0;
    let evs2 = evs1.drop_first();
    assert(m2.state == (StateModel::AwaitDirCheck { next: 0 }));
    assert(evs2 =~= seq![EventModel::Exists { yes: true }]);
    lemma_run_unfold(m2, evs2);
    let m3 = step_model(m2, evs2[0]).0;
    let evs3 = evs2.drop_first();
    assert(m3.state is AwaitCopy);
    assert(evs3.len() == 0);
    assert(run(m3, evs3) =~= Seq::<ActionModel>::empty());
    assert(run(m, evs) =~= seq![
        ActionModel::CheckCache { path: m.cache_path },
        ActionModel::CheckPath { path: candidate(m, 0) },
        ActionModel::CopyToCache { from: candidate(m, 0), to: m.cache_path },
    ]);
}

proof fn lemma_no_source_search(m: ResolverModel, evs: Seq<EventModel>, k: int)
    requires
        m.state == (StateModel::AwaitDirCheck { next: k }),
        0 <= k < m.directories.len(),
        m.url is None,
        evs.len() == m.directories.len() - k,
        forall|i: int| 0 <= i < evs.len() ==> evs[i] == (EventModel::Exists { yes: false }),
    ensures
        run(m, evs).len() == evs.len(),
        run(m, evs).last() == (ActionModel::Finish {
            result: Result::Err(ErrorModel::NoDicSource),
        }),
        forall|i: int| 0 <= i < run(m, evs).len() ==> !mutates_storage(run(m, evs)[i]),
        valid_run(m, evs),
    decreases evs.len(),
{
    lemma_run_unfold(m, evs);
    lemma_run_len(m, evs);
    let m1 = step_model(m, evs[0]).0;
    let a1 = step_model(m, evs[0]).1;
    let evs1 = evs.drop_first();
    if k + 1 < m.directories.len() {
        assert(m1.state == (StateModel::AwaitDirCheck { next: k + 1 }));
        assert(a1 == (ActionModel::CheckPath { path: candidate(m, k + 1) }));
        lemma_no_source_search(m1, evs1, k + 1);
        assert(run(m, evs).last() == run(m1, evs1).last());
    } else {
        assert(evs.len() == 1);
        assert(m1.state is Done);
        assert(run(m1, evs1) =~= Seq::<ActionModel>::empty());
        assert(run(m, evs) =~= seq![
            ActionModel::Finish { result: Result::Err(ErrorModel::NoDicSource) },
        ]);
    }
}

/// A missing source is terminal: when the final file, the cache file and
/// every configured directory lack the file, and no URL is configured, the
/// resolver ends with the no-source error; the run performs no copy, fetch,
/// write or deletion, so it creates neither a cache file nor a final file.
pub proof fn lemma_missing_source_terminal(m: ResolverModel, evs: Seq<EventModel>)
    requires
        m.state is AwaitFinalCheck,
        m.url is None,
        evs.len() == 2 + m.directories.len(),
        forall|i: int| 0 <= i < evs.len() ==> evs[i] == (EventModel::Exists { yes: false }),
    ensures
        valid_run(m, evs),
        run(m, evs).len() == evs.len(),
        run(m, evs).last() == (ActionModel::Finish {
            result: Result::Err(ErrorModel::NoDicSource),
        }),
        forall|i: int| 0 <= i < run(m, evs).len() ==> !mutates_storage(run(m, evs)[i]),
{
    lemma_run_unfold(m, evs);
    lemma_run_len(m, evs);
    let m1 = step_model(m, evs[0]).0;
    let evs1 = evs.drop_first();
    assert(m1.state is AwaitCacheCheck);
    lemma_run_unfold(m1, evs1);
    lemma_run_len(m1, evs1);
    let m2 = step_model(m1, evs1[0]).0;
    let evs2 = evs1.drop_first();
    if m.directories.len() == 0 {
        assert(m2.state is Done);
        assert(evs2.len() == 0);
        assert(run(m2, evs2) =~= Seq::<ActionModel>::empty());
        assert(run(m, evs) =~= seq![
            ActionModel::CheckCache { path: m.cache_path },
            ActionModel::Finish { result: Result::Err(ErrorModel::NoDicSource) },
        ]);
    } else {
        assert(m2.state == (StateModel::AwaitDirCheck { next: 0 }));
        lemma_no_source_search(m2, evs2, 0);
        assert(run(m, evs) == seq![step_model(m, evs[0]).1] + (seq![step_model(m1, evs1[0]).1]
            + run(m2, evs2)));
        assert(run(m, evs).last() == run(m2, evs2).last());
    }
}

// ------------------------------------------------------------------
// The executable machine.
// ------------------------------------------------------------------

impl FileResolver {
    /// A fresh resolver for one file: where the normalized file must end up,
    /// where raw bytes are cached, the file's base name, the directories to
    /// search in order, and the configured source URL, if any.
    pub fn new(
        final_path: String,
        cache_path: String,
        file_name: String,
        directories: Vec<String>,
        url: Option<String>,
    ) -> (r: FileResolver)
        ensures
            r@ == (ResolverModel {
                final_path: final_path@,
                cache_path: cache_path@,
                file_name: file_name@,
                directories: directories.deep_view(),
                url: match url {
                    Option::Some(u) => Option::Some(u@),
                    Option::None => Option::None,
                },
                state: StateModel::AwaitFinalCheck,
            }),
            wf(r@),
    {
        FileResolver {
            final_path,
            cache_path,
            file_name,
            directories,
            url,
            state: ResolveState::AwaitFinalCheck,
        }
    }

    /// The first action of a fresh resolver: look for the final file.
    pub fn start(&self) -> (a: Action)
        requires
            self@.state is AwaitFinalCheck,
        ensures
            a@ == (ActionModel::CheckFinal { path: self@.final_path }),
    {
        Action::CheckFinal { path: self.final_path.clone() }
    }

    fn candidate_path(&self, i: usize) -> (r: String)
        requires
            i < self@.directories.len(),
        ensures
            r@ == candidate(self@, i as int),
    {
        let mut s = String::from_str(self.directories[i].as_str());
        s.append("/");
        s.append(self.file_name.as_str());
        proof {
            reveal_strlit("/");
            assert(s@ =~= candidate(self@, i as int));
        }
        s
    }

    /// Answers the pending action's event with the next action, moving the
    /// machine exactly as the model transition says.
    pub fn step(&mut self, ev: Event) -> (a: Action)
        requires
            accepts(old(self)@, ev@),
            wf(old(self)@),
        ensures
            final(self)@ == step_model(old(self)@, ev@).0,
            a@ == step_model(old(self)@, ev@).1,
            wf(final(self)@),
    {
        match (self.state, ev) {
            (ResolveState::AwaitFinalCheck, Event::Exists { yes }) => {
                if yes {
                    self.state = ResolveState::Done;
                    Action::Finish { result: Result::Ok(()) }
                } else {
                    self.state = ResolveState::AwaitCacheCheck;
                    Action::CheckCache { path: self.cache_path.clone() }
                }
            },
            (ResolveState::AwaitCacheCheck, Event::Exists { yes }) => {
                if yes {
                    self.state = ResolveState::AwaitRead;
                    Action::ReadCache { path: self.cache_path.clone() }
                } else if self.directories.len() > 0 {
                    self.state = ResolveState::AwaitDirCheck { next: 0 };
                    Action::CheckPath { path: self.candidate_path(0) }
                } else {
                    self.fetch_step()
                }
            },
            (ResolveState::AwaitDirCheck { next }, Event::Exists { yes }) => {
                proof {
                    assert(old(self)@.state == (StateModel::AwaitDirCheck { next: next as int }));
                    assert(next < old(self)@.directories.len());
                }
                let dir_count = self.directories.len();
                if yes {
                    self.state = ResolveState::AwaitCopy;
                    Action::CopyToCache {
                        from: self.candidate_path(next),
                        to: self.cache_path.clone(),
                    }
                } else if next + 1 < dir_count {
                    self.state = ResolveState::AwaitDirCheck { next: next + 1 };
                    Action::CheckPath { path: self.candidate_path(next + 1) }
                } else {
                    self.fetch_step()
                }
            },
            (ResolveState::AwaitCopy, Event::Completed { result }) => match result {
                Result::Ok(()) => {
                    self.state = ResolveState::AwaitRead;
                    Action::ReadCache { path: self.cache_path.clone() }
                },
                Result::Err(message) => {
                    self.state = ResolveState::Done;
                    Action::Finish {
                        result: Result::Err(SpellError::FileCachingError { message }),
                    }
                },
            },
            (ResolveState::AwaitFetch, Event::Completed { result }) => match result {
                Result::Ok(()) => {
                    self.state = ResolveState::AwaitRead;
                    Action::ReadCache { path: self.cache_path.clone() }
                },
                Result::Err(message) => {
                    self.state = ResolveState::Done;
                    Action::Finish {
                        result: Result::Err(SpellError::FileCachingError { message }),
                    }
                },
            },
            (ResolveState::AwaitRead, Event::CacheBytes { result }) => match result {
                Result::Ok(raw) => match normalize(raw) {
                    Result::Ok(bytes) => {
                        self.state = ResolveState::AwaitWrite;
                        Action::WriteFinal { path: self.final_path.clone(), bytes }
                    },
                    Result::Err(e) => {
                        self.state = ResolveState::Done;
                        Action::Finish { result: Result::Err(e) }
                    },
                },
                Result::Err(message) => {
                    self.state = ResolveState::Done;
                    Action::Finish {
                        result: Result::Err(SpellError::ConversionError { message }),
                    }
                },
            },
            (ResolveState::AwaitWrite, Event::WroteFinal { result }) => match result {
                Result::Ok(()) => {
                    self.state = ResolveState::AwaitDelete;
                    Action::DeleteCache { path: self.cache_path.clone() }
                },
                Result::Err(WriteFailure::CreateDir { message }) => {
                    self.state = ResolveState::Done;
                    Action::Finish {
                        result: Result::Err(SpellError::FileCachingError { message }),
                    }
                },
                Result::Err(WriteFailure::Write { message }) => {
                    self.state = ResolveState::Done;
                    Action::Finish {
                        result: Result::Err(SpellError::ConversionError { message }),
                    }
                },
            },
            (ResolveState::AwaitDelete, Event::Completed { result }) => match result {
                Result::Ok(()) => {
                    self.state = ResolveState::Done;
                    Action::Finish { result: Result::Ok(()) }
                },
                Result::Err(message) => {
                    self.state = ResolveState::Done;
                    Action::Finish {
                        result: Result::Err(SpellError::FileCachingError { message }),
                    }
                },
            },
            _ => {
                proof {
                    assert(false);
                }
                Action::Finish { result: Result::Ok(()) }
            },
        }
    }

    /// Resolution is over when the machine has issued its `Finish` action.
    pub fn is_done(&self) -> (r: bool)
        ensures
            r == (self@.state is Done),
    {
        match &self.state {
            ResolveState::Done => true,
            _ => false,
        }
    }

    fn fetch_step(&mut self) -> (a: Action)
        ensures
            final(self)@ == fetch_or_fail(old(self)@).0,
            a@ == fetch_or_fail(old(self)@).1,
    {
        match &self.url {
            Option::Some(u) => {
                let url = u.clone();
                self.state = ResolveState::AwaitFetch;
                Action::Fetch { url, to: self.cache_path.clone() }
            },
            Option::None => {
                self.state = ResolveState::Done;
                Action::Finish { result: Result::Err(SpellError::NoDicSource) }
            },
        }
    }
}

} // verus!
