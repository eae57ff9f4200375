//! The build orchestrator's decision core: the status a build settles to,
//! the compiler invocation derived from the configuration and the resolved
//! root document, the per-build progress session with its paired begin/end
//! notifications, and the shared registry of in-flight builds with targeted
//! and wildcard cancellation.
//!
//! The surrounding runtime performs the outside work: it spawns the compiler
//! process, streams its output, and aborts a running build when asked to.
//! Each of those steps reports back into a [`BuildSession`], which dictates,
//! through the actions it returns, exactly which notifications go out to the
//! client and in which order.

use vstd::prelude::*;

use crate::token::{wildcard, ProgressToken, TokenView};
use crate::uri::{local_path_of, Uri};
use vstd::pervasive::unreached;

verus! {

/// How one build request ended. Produced exactly once per request.
#[derive(Debug, Clone, Copy, PartialEq, Eq, Structural)]
pub enum BuildStatus {
    /// The compiler exited with code zero.
    Success,
    /// The compiler exited with a non-zero code.
    Error,
    /// The compiler could not be spawned, or reading its output failed.
    Failure,
    /// The orchestration was aborted before completion.
    Cancelled,
}

/// The outcome of one build request.
#[derive(Debug, Clone, Copy, PartialEq, Eq, Structural)]
pub struct BuildResult {
    pub status: BuildStatus,
}

/// How the runner's part of one build ended, as the runtime observed it.
#[derive(Debug, Clone, Copy, PartialEq, Eq, Structural)]
pub enum RunOutcome {
    /// The process ran to completion; the flag tells whether it exited
    /// successfully.
    Exited(bool),
    /// The process could not be spawned, or its output could not be read.
    SpawnOrIoError,
    /// The build was aborted while it ran.
    Aborted,
}

/// The status a run outcome settles to.
pub open spec fn status_of(outcome: RunOutcome) -> BuildStatus {
    match outcome {
        RunOutcome::Exited(true) => BuildStatus::Success,
        RunOutcome::Exited(false) => BuildStatus::Error,
        RunOutcome::SpawnOrIoError => BuildStatus::Failure,
        RunOutcome::Aborted => BuildStatus::Cancelled,
    }
}

/// Maps a run outcome to the status it settles to.
pub fn build_status_of(outcome: RunOutcome) -> (s: BuildStatus)
    ensures
        s == status_of(outcome),
{
    match outcome {
        RunOutcome::Exited(true) => BuildStatus::Success,
        RunOutcome::Exited(false) => BuildStatus::Error,
        RunOutcome::SpawnOrIoError => BuildStatus::Failure,
        RunOutcome::Aborted => BuildStatus::Cancelled,
    }
}

/// The configured compiler invocation: executable name and argument
/// template, user-configurable.
pub struct BuildOptions {
    pub executable: String,
    pub args: Vec<String>,
}

/// Resolves the document a build request actually compiles: the parent
/// document that includes it, when the document graph knows one, else the
/// requested document itself.
pub fn resolve_build_target(parent: Option<Uri>, own: &Uri) -> (r: Uri)
    ensures
        parent matches Some(p) ==> r@ == p@,
        parent is None ==> r@ == own@,
{
    match parent {
        Some(p) => p,
        None => own.duplicate(),
    }
}

/// The full argument list of one compiler run: the configured arguments
/// followed by the root file's name.
pub fn build_args(options: &BuildOptions, root_file_name: &str) -> (r: Vec<String>)
    ensures
        r.deep_view() == options.args.deep_view().push(root_file_name@),
{
    let mut r: Vec<String> = Vec::new();
    let n = options.args.len();
    let mut i: usize = 0;
    while i < n
        invariant
            0 <= i <= n,
            n == options.args@.len(),
            r@.len() == i,
            forall|k: int| 0 <= k < i ==> r@[k]@ == options.args@[k]@,
        decreases n - i,
    {
        r.push(options.args[i].clone());
        i = i + 1;
    }
    r.push(root_file_name.to_owned());
    proof {
        assert(r.deep_view() =~= options.args.deep_view().push(root_file_name@));
    }
    r
}

/// The first index of a path's file name: right after its last slash, or
/// zero when it has none.
pub open spec fn file_name_start(s: Seq<char>) -> int
    decreases s.len(),
{
    if s.len() == 0 {
        0
    } else if s.last() == '/' {
        s.len() as int
    } else {
        file_name_start(s.drop_last())
    }
}

/// Splits a path at its last slash: the leading directory part, slash
/// included, and the file name. A path without a slash is all file name.
pub fn split_path(path: &str) -> (r: (String, String))
    ensures
        r.0@ == path@.subrange(0, file_name_start(path@)),
        r.1@ == path@.subrange(file_name_start(path@), path@.len() as int),
{
    let n = path.unicode_len();
    let mut k = n;
    proof {
        assert(path@.take(n as int) =~= path@);
    }
    while k > 0 && path.get_char(k - 1) != '/'
        invariant
            0 <= k <= n,
            n == path@.len(),
            file_name_start(path@) == file_name_start(path@.take(k as int)),
        decreases k,
    {
        proof {
            assert(path@.take(k as int).drop_last() =~= path@.take(k as int - 1));
            assert(path@.take(k as int).last() == path@[k as int - 1]);
        }
        k = k - 1;
    }
    proof {
        if k > 0 {
            assert(path@.take(k as int).last() == path@[k as int - 1]);
        }
        assert(file_name_start(path@) == k as int);
    }
    let dir = path.substring_char(0, k).to_owned();
    let name = path.substring_char(k, n).to_owned();
    (dir, name)
}

/// Takes up the resolved root of a build: a root with a local file path
/// yields the directory to run the compiler in and the file name to hand it;
/// a root without a local path cannot be spawned, and the build settles as a
/// failure.
pub fn locate_build_root(root: &Uri) -> (r: Result<(String, String), RunOutcome>)
    ensures
        local_path_of(root@) matches Some(p) ==> (r matches Ok(d) && d.0@ == p.subrange(
            0,
            file_name_start(p),
        ) && d.1@ == p.subrange(file_name_start(p), p.len() as int)),
        local_path_of(root@) is None ==> r == Err::<(String, String), RunOutcome>(
            RunOutcome::SpawnOrIoError,
        ) && status_of(RunOutcome::SpawnOrIoError) == BuildStatus::Failure,
{
    match root.local_path() {
        Some(path) => Ok(split_path(path.as_str())),
        None => Err(RunOutcome::SpawnOrIoError),
    }
}

/// One notification the orchestrator asks the protocol layer to send.
pub enum ClientAction {
    /// Report that a cancellable build began, under its token and title.
    ProgressBegin { token: ProgressToken, title: String },
    /// Forward one line of compiler output as a log message.
    LogMessage { message: String },
    /// Report that the build under this token is over.
    ProgressEnd { token: ProgressToken },
}

/// One entry of the protocol-visible trace of a build.
pub enum BuildEvent {
    Begin(Seq<char>),
    Log(Seq<char>),
    End,
}

/// How many progress-begin events a trace holds.
pub open spec fn begin_count(h: Seq<BuildEvent>) -> nat
    decreases h.len(),
{
    if h.len() == 0 {
        0
    } else {
        begin_count(h.drop_last()) + if h.last() is Begin {
            1nat
        } else {
            0nat
        }
    }
}

/// How many progress-end events a trace holds.
pub open spec fn end_count(h: Seq<BuildEvent>) -> nat
    decreases h.len(),
{
    if h.len() == 0 {
        0
    } else {
        end_count(h.drop_last()) + if h.last() is End {
            1nat
        } else {
            0nat
        }
    }
}

proof fn lemma_begin_count_single(h: Seq<BuildEvent>)
    requires
        h.len() >= 1,
        h[0] is Begin,
        forall|i: int| 1 <= i < h.len() ==> !(h[i] is Begin),
    ensures
        begin_count(h) == 1,
    decreases h.len(),
{
    if h.len() == 1 {
        assert(h.last() == h[0]);
        lemma_begin_count_zero(h.drop_last());
    } else {
        assert(h.drop_last()[0] == h[0]);
        assert(h.last() == h[h.len() - 1]);
        lemma_begin_count_single(h.drop_last());
    }
}

proof fn lemma_begin_count_zero(h: Seq<BuildEvent>)
    requires
        forall|i: int| 0 <= i < h.len() ==> !(h[i] is Begin),
    ensures
        begin_count(h) == 0,
    decreases h.len(),
{
    if h.len() > 0 {
        lemma_begin_count_zero(h.drop_last());
    }
}

proof fn lemma_end_count_last(h: Seq<BuildEvent>)
    requires
        h.len() >= 1,
        h.last() is End,
        forall|i: int| 0 <= i < h.len() - 1 ==> !(h[i] is End),
    ensures
        end_count(h) == 1,
{
    lemma_end_count_zero(h.drop_last());
}

proof fn lemma_end_count_zero(h: Seq<BuildEvent>)
    requires
        forall|i: int| 0 <= i < h.len() ==> !(h[i] is End),
    ensures
        end_count(h) == 0,
    decreases h.len(),
{
    if h.len() > 0 {
        lemma_end_count_zero(h.drop_last());
    }
}

/// The phases one build request moves through, in order.
#[derive(Debug, Clone, Copy, PartialEq, Eq, Structural)]
pub enum BuildPhase {
    /// Token minted, nothing reported yet.
    Created,
    /// Progress reported if the client supports it; the runner may produce
    /// output.
    Running,
    /// The run is over and its status is fixed.
    Settled,
    /// The paired cleanup ran: progress closed, result produced.
    Finished,
}

/// The progress session of one build request. It pins down, through the
/// actions its methods return, which notifications reach the client and in
/// which order: one progress-begin strictly before any output forwarding,
/// and one matching progress-end strictly after the build settles, both
/// exactly when the client declared progress support.
pub struct BuildSession {
    token: ProgressToken,
    progress_supported: bool,
    phase: BuildPhase,
    status: Option<BuildStatus>,
    history: Ghost<Seq<BuildEvent>>,
}

impl BuildSession {
    /// The token this build runs under.
    pub closed spec fn token_view(&self) -> TokenView {
        self.token@
    }

    /// Whether the client declared progress support.
    pub closed spec fn supported(&self) -> bool {
        self.progress_supported
    }

    /// The phase the session is in.
    pub closed spec fn phase(&self) -> BuildPhase {
        self.phase
    }

    /// The protocol-visible trace so far, in order.
    pub closed spec fn history(&self) -> Seq<BuildEvent> {
        self.history@
    }

    /// The status the build settled to, once it has.
    pub closed spec fn settled_status(&self) -> Option<BuildStatus> {
        self.status
    }

    spec fn running_shape(&self) -> bool {
        if self.progress_supported {
            &&& self.history@.len() >= 1
            &&& self.history@[0] is Begin
            &&& forall|i: int| 1 <= i < self.history@.len() ==> self.history@[i] is Log
        } else {
            forall|i: int| 0 <= i < self.history@.len() ==> self.history@[i] is Log
        }
    }

    spec fn finished_shape(&self) -> bool {
        if self.progress_supported {
            &&& self.history@.len() >= 2
            &&& self.history@[0] is Begin
            &&& self.history@.last() is End
            &&& forall|i: int| 1 <= i < self.history@.len() - 1 ==> self.history@[i] is Log
        } else {
            forall|i: int| 0 <= i < self.history@.len() ==> self.history@[i] is Log
        }
    }

    /// The session's phase and its trace agree.
    pub closed spec fn wf(&self) -> bool {
        match self.phase {
            BuildPhase::Created => self.history@.len() == 0 && self.status is None,
            BuildPhase::Running => self.running_shape() && self.status is None,
            BuildPhase::Settled => self.running_shape() && self.status is Some,
            BuildPhase::Finished => self.finished_shape() && self.status is Some,
        }
    }

    /// Opens the session of one build request.
    pub fn new(token: ProgressToken, progress_supported: bool) -> (s: BuildSession)
        ensures
            s.wf(),
            s.phase() is Created,
            s.token_view() == token@,
            s.supported() == progress_supported,
            s.history() == Seq::<BuildEvent>::empty(),
    {
        BuildSession {
            token,
            progress_supported,
            phase: BuildPhase::Created,
            status: None,
            history: Ghost(Seq::empty()),
        }
    }

    /// Starts the build: when the client supports progress, this yields the
    /// progress-begin notification to send, before any other work; without
    /// support it yields nothing.
    pub fn start(&mut self, title: String) -> (a: Option<ClientAction>)
        requires
            old(self).wf(),
            old(self).phase() is Created,
        ensures
            final(self).wf(),
            final(self).phase() is Running,
            final(self).supported() == old(self).supported(),
            final(self).token_view() == old(self).token_view(),
            final(self).settled_status() is None,
            old(self).supported() ==> final(self).history() == seq![
                BuildEvent::Begin(title@),
            ] && (a matches Some(x) && x matches ClientAction::ProgressBegin {
                token: t,
                title: ti,
            } && t@ == old(self).token_view() && ti@ == title@),
            !old(self).supported() ==> final(self).history() == Seq::<BuildEvent>::empty() && a
                is None,
    {
        self.phase = BuildPhase::Running;
        if self.progress_supported {
            self.history = Ghost(self.history@.push(BuildEvent::Begin(title@)));
            proof {
                assert(self.history@ =~= seq![BuildEvent::Begin(title@)]);
            }
            Some(ClientAction::ProgressBegin { token: self.token.duplicate(), title })
        } else {
            None
        }
    }

    /// Forwards one line of compiler output: yields the log notification to
    /// send right away, so output is streamed, never buffered.
    pub fn log_line(&mut self, line: String) -> (a: ClientAction)
        requires
            old(self).wf(),
            old(self).phase() is Running,
        ensures
            final(self).wf(),
            final(self).phase() is Running,
            final(self).supported() == old(self).supported(),
            final(self).token_view() == old(self).token_view(),
            final(self).settled_status() is None,
            final(self).history() == old(self).history().push(BuildEvent::Log(line@)),
            a matches ClientAction::LogMessage { message } && message@ == line@,
    {
        self.history = Ghost(self.history@.push(BuildEvent::Log(line@)));
        ClientAction::LogMessage { message: line }
    }

    /// Fixes the status the build settles to, from how its run ended. An
    /// aborted run settles to `Cancelled` whatever the runner was doing.
    pub fn settle(&mut self, outcome: RunOutcome)
        requires
            old(self).wf(),
            old(self).phase() is Running,
        ensures
            final(self).wf(),
            final(self).phase() is Settled,
            final(self).supported() == old(self).supported(),
            final(self).token_view() == old(self).token_view(),
            final(self).history() == old(self).history(),
            final(self).settled_status() == Some(status_of(outcome)),
    {
        self.status = Some(build_status_of(outcome));
        self.phase = BuildPhase::Settled;
    }

    /// The mandatory paired cleanup, run whatever the outcome: when progress
    /// was begun, this yields the matching progress-end notification, and it
    /// yields the build's result exactly once.
    pub fn finish(&mut self) -> (r: (Option<ClientAction>, BuildResult))
        requires
            old(self).wf(),
            old(self).phase() is Settled,
        ensures
            final(self).wf(),
            final(self).phase() is Finished,
            final(self).supported() == old(self).supported(),
            final(self).token_view() == old(self).token_view(),
            Some(r.1.status) == old(self).settled_status(),
            old(self).supported() ==> final(self).history() == old(self).history().push(
                BuildEvent::End,
            ) && (r.0 matches Some(x) && x matches ClientAction::ProgressEnd { token: t } && t@
                == old(self).token_view()),
            !old(self).supported() ==> final(self).history() == old(self).history() && r.0
                is None,
    {
        let status = match self.status {
            Some(st) => st,
            None => unreached(),
        };
        self.phase = BuildPhase::Finished;
        if self.progress_supported {
            self.history = Ghost(self.history@.push(BuildEvent::End));
            (
                Some(ClientAction::ProgressEnd { token: self.token.duplicate() }),
                BuildResult { status },
            )
        } else {
            (None, BuildResult { status })
        }
    }
}

/// For any finished build: with progress support, exactly one progress-begin
/// and exactly one progress-end were emitted, the begin first of all events
/// and the end last, whatever the outcome; without support, no progress
/// event at all.
pub proof fn lemma_progress_paired(s: &BuildSession)
    requires
        s.wf(),
        s.phase() is Finished,
    ensures
        begin_count(s.history()) == if s.supported() {
            1nat
        } else {
            0nat
        },
        end_count(s.history()) == if s.supported() {
            1nat
        } else {
            0nat
        },
        s.supported() ==> s.history()[0] is Begin && s.history().last() is End && (forall|i: int|
            1 <= i < s.history().len() - 1 ==> s.history()[i] is Log),
        !s.supported() ==> forall|i: int| 0 <= i < s.history().len() ==> s.history()[i] is Log,
{
    if s.supported() {
        lemma_begin_count_single(s.history());
        lemma_end_count_last(s.history());
    } else {
        lemma_begin_count_zero(s.history());
        lemma_end_count_zero(s.history());
    }
}

/// The tokens left when every registration of `t` is removed.
pub open spec fn remove_token(s: Seq<TokenView>, t: TokenView) -> Seq<TokenView>
    decreases s.len(),
{
    if s.len() == 0 {
        Seq::empty()
    } else {
        remove_token(s.drop_last(), t) + if s.last() == t {
            Seq::<TokenView>::empty()
        } else {
            seq![s.last()]
        }
    }
}

/// What remains after a removal: everything but the removed token.
pub proof fn lemma_remove_token_contains(s: Seq<TokenView>, t: TokenView, x: TokenView)
    ensures
        remove_token(s, t).contains(x) <==> (s.contains(x) && x != t),
    decreases s.len(),
{
    if s.len() > 0 {
        lemma_remove_token_contains(s.drop_last(), t, x);
        let rd = remove_token(s.drop_last(), t);
        assert(s.drop_last().contains(x) || s.last() == x ==> s.contains(x)) by {
            if s.drop_last().contains(x) {
                let i = choose|i: int|
                    0 <= i < s.drop_last().len() && s.drop_last()[i] == x;
                assert(s[i] == x);
            } else if s.last() == x {
                assert(s[s.len() - 1] == x);
            }
        }
        assert(s.contains(x) ==> s.drop_last().contains(x) || s.last() == x) by {
            if s.contains(x) {
                let i = choose|i: int| 0 <= i < s.len() && s[i] == x;
                if i < s.len() - 1 {
                    assert(s.drop_last()[i] == x);
                }
            }
        }
        if s.last() == t {
            assert(remove_token(s, t) =~= rd);
        } else {
            assert(remove_token(s, t) =~= rd.push(s.last()));
            assert(rd.contains(x) || s.last() == x ==> rd.push(s.last()).contains(x)) by {
                if rd.contains(x) {
                    let i = choose|i: int| 0 <= i < rd.len() && rd[i] == x;
                    assert(rd.push(s.last())[i] == x);
                } else if s.last() == x {
                    assert(rd.push(s.last())[rd.len() as int] == x);
                }
            }
            assert(rd.push(s.last()).contains(x) ==> rd.contains(x) || s.last() == x) by {
                if rd.push(s.last()).contains(x) {
                    let i = choose|i: int|
                        0 <= i < rd.push(s.last()).len() && rd.push(s.last())[i] == x;
                    if i < rd.len() {
                        assert(rd[i] == x);
                    }
                }
            }
        }
    }
}

/// Which in-flight builds one cancellation request aborts: the matching
/// build when the token is registered; every registered build when it is
/// the unregistered wildcard; none otherwise. No error is ever raised.
pub open spec fn cancel_targets(s: Seq<TokenView>, t: TokenView) -> Seq<TokenView> {
    if s.contains(t) {
        seq![t]
    } else if t == wildcard() {
        s
    } else {
        Seq::empty()
    }
}

/// The shared registry of in-flight builds: each build registers its token
/// when it starts and removes it exactly once when it settles, whatever the
/// outcome. The surrounding runtime keeps the abort capability per token;
/// [`BuildManager::cancel`] names the tokens whose builds are to be aborted.
pub struct BuildManager {
    active: Vec<ProgressToken>,
}

impl BuildManager {
    /// The registered tokens, in registration order.
    pub closed spec fn tokens(&self) -> Seq<TokenView> {
        self.active.deep_view()
    }

    /// Whether a build is registered under `t`.
    pub open spec fn registered(&self, t: TokenView) -> bool {
        self.tokens().contains(t)
    }

    /// A registry with no build in flight.
    pub fn new() -> (m: BuildManager)
        ensures
            m.tokens() == Seq::<TokenView>::empty(),
    {
        let m = BuildManager { active: Vec::new() };
        proof {
            assert(m.tokens() =~= Seq::<TokenView>::empty());
        }
        m
    }

    /// Registers a starting build under its token.
    pub fn register(&mut self, token: ProgressToken)
        ensures
            final(self).tokens() == old(self).tokens().push(token@),
            forall|x: TokenView|
                final(self).registered(x) <==> (old(self).registered(x) || x == token@),
    {
        self.active.push(token);
        proof {
            assert(self.tokens() =~= old(self).tokens().push(token@));
            assert forall|x: TokenView|
                self.registered(x) <==> (old(self).registered(x) || x == token@) by {
                let tk = old(self).tokens();
                if self.registered(x) {
                    let i = choose|i: int|
                        0 <= i < self.tokens().len() && self.tokens()[i] == x;
                    if i < tk.len() {
                        assert(tk[i] == x);
                    }
                }
                if old(self).registered(x) {
                    let i = choose|i: int| 0 <= i < tk.len() && tk[i] == x;
                    assert(self.tokens()[i] == x);
                }
                if x == token@ {
                    assert(self.tokens()[tk.len() as int] == x);
                }
            }
        }
    }

    /// Removes a settled build's token, which is absent afterwards; removing
    /// an absent token changes nothing.
    pub fn remove(&mut self, token: &ProgressToken)
        ensures
            final(self).tokens() == remove_token(old(self).tokens(), token@),
            !final(self).registered(token@),
            forall|x: TokenView|
                x != token@ ==> (final(self).registered(x) <==> old(self).registered(x)),
    {
        let n = self.active.len();
        let mut kept: Vec<ProgressToken> = Vec::new();
        let mut i: usize = 0;
        proof {
            assert(old(self).tokens().take(0) =~= Seq::<TokenView>::empty());
            assert(kept.deep_view() =~= remove_token(old(self).tokens().take(0), token@));
        }
        while i < n
            invariant
                0 <= i <= n,
                self == old(self),
                n == self.active@.len(),
                kept.deep_view() == remove_token(old(self).tokens().take(i as int), token@),
            decreases n - i,
        {
            let ghost pre = kept.deep_view();
            if !self.active[i].same_as(token) {
                kept.push(self.active[i].duplicate());
                proof {
                    assert(kept.deep_view() =~= pre.push(self.active@[i as int].deep_view()));
                }
            }
            proof {
                let tk = old(self).tokens();
                assert(tk.take(i + 1).drop_last() =~= tk.take(i as int));
                assert(tk.take(i + 1).last() == tk[i as int]);
                assert(kept.deep_view() =~= remove_token(tk.take(i + 1), token@));
            }
            i = i + 1;
        }
        proof {
            assert(old(self).tokens().take(n as int) =~= old(self).tokens());
        }
        self.active = kept;
        proof {
            lemma_remove_token_contains(old(self).tokens(), token@, token@);
            assert forall|x: TokenView|
                x != token@ implies (self.registered(x) <==> old(self).registered(x)) by {
                lemma_remove_token_contains(old(self).tokens(), token@, x);
            }
        }
    }

    /// Serves one cancellation request: names the builds to abort. An exact
    /// match aborts that one build; the wildcard aborts every build
    /// registered at this moment; an unknown token aborts nothing, silently.
    /// The registry itself is unchanged: each build removes its own token
    /// when it settles.
    pub fn cancel(&self, token: &ProgressToken) -> (targets: Vec<ProgressToken>)
        ensures
            targets.deep_view() == cancel_targets(self.tokens(), token@),
    {
        let n = self.active.len();
        let mut i: usize = 0;
        while i < n
            invariant
                0 <= i <= n,
                n == self.active@.len(),
                forall|j: int| 0 <= j < i ==> self.active@[j].deep_view() != token@,
            decreases n - i,
        {
            if self.active[i].same_as(token) {
                proof {
                    assert(self.tokens()[i as int] == token@);
                    assert(self.tokens().contains(token@));
                }
                let mut targets: Vec<ProgressToken> = Vec::new();
                targets.push(token.duplicate());
                proof {
                    assert(targets.deep_view() =~= seq![token@]);
                }
                return targets;
            }
            i = i + 1;
        }
        proof {
            assert(!self.tokens().contains(token@)) by {
                if self.tokens().contains(token@) {
                    let j = choose|j: int|
                        0 <= j < self.tokens().len() && self.tokens()[j] == token@;
                    assert(self.active@[j].deep_view() == token@);
                }
            }
        }
        if token.is_wildcard() {
            let mut targets: Vec<ProgressToken> = Vec::new();
            let mut i: usize = 0;
            while i < n
                invariant
                    0 <= i <= n,
                    n == self.active@.len(),
                    targets.deep_view() == self.tokens().take(i as int),
                decreases n - i,
            {
                let ghost pre = targets.deep_view();
                targets.push(self.active[i].duplicate());
                proof {
                    assert(targets.deep_view() =~= pre.push(self.active@[i as int].deep_view()));
                    assert(targets.deep_view() =~= self.tokens().take(i + 1));
                }
                i = i + 1;
            }
            proof {
                assert(self.tokens().take(n as int) =~= self.tokens());
            }
            targets
        } else {
            let targets: Vec<ProgressToken> = Vec::new();
            proof {
                assert(targets.deep_view() =~= Seq::<TokenView>::empty());
            }
            targets
        }
    }
}

/// Cancelling a registered token names exactly that build; aborting settles
/// it to `Cancelled`; and once the build removes its token, the token is no
/// longer registered.
pub proof fn lemma_cancelled_build(tokens: Seq<TokenView>, t: TokenView)
    requires
        tokens.contains(t),
    ensures
        cancel_targets(tokens, t) == seq![t],
        status_of(RunOutcome::Aborted) == BuildStatus::Cancelled,
        !remove_token(tokens, t).contains(t),
{
    lemma_remove_token_contains(tokens, t, t);
}

/// A wildcard sweep aborts every build registered at the moment of the
/// sweep, and touches no build registered after it: a token not yet
/// registered is not among the sweep's targets.
pub proof fn lemma_wildcard_sweep(tokens: Seq<TokenView>, later: TokenView)
    requires
        !tokens.contains(wildcard()),
        !tokens.contains(later),
    ensures
        cancel_targets(tokens, wildcard()) == tokens,
        !cancel_targets(tokens, wildcard()).contains(later),
{
}

/// Cancelling an unknown, non-wildcard token is a no-op: it names no build
/// to abort, and no error is raised.
pub proof fn lemma_unknown_token_noop(tokens: Seq<TokenView>, t: TokenView)
    requires
        !tokens.contains(t),
        t != wildcard(),
    ensures
        cancel_targets(tokens, t) == Seq::<TokenView>::empty(),
{
}

} // verus!
