//! One browser connection, as a state machine: the outbound queue and its
//! write interest, the keepalive timer, and the deploy supervisor with its
//! two output pipes. The caller performs the I/O that each step asks for
//! and reports back what happened.
use crate::event::{parse_event, parse_event_spec, AppEvent, EventView, ParseEventError};
use crate::frame::{is_ready_frame, CloseFrame, Frame, FrameView};
use crate::lines::{split_lines, LineBuffer};
use crate::liveness::{Liveness, Verdict};
use crate::nav::{split_path_query, split_path_query_spec, NavResult};
use crate::query::{parse_query_params, parse_query_spec, QueryParams};
use std::collections::VecDeque;
use vstd::prelude::*;
use vstd::string::*;

verus! {

/// Readiness token of the client socket.
pub const SOCKET_TOKEN: usize = 0;

/// Readiness token of the child's standard output.
pub const STDOUT_TOKEN: usize = 2;

/// Readiness token of the child's standard error.
pub const STDERR_TOKEN: usize = 3;

/// The text that `String::from_utf8_lossy` makes of some bytes.
pub uninterp spec fn utf8_lossy(b: Seq<u8>) -> Seq<char>;

/// Relies on String::from_utf8_lossy: the text depends on the bytes alone,
/// and no bytes give no text.
#[verifier::external_body]
fn text_of_bytes(b: &[u8]) -> (r: String)
    ensures
        r@ == utf8_lossy(b@),
        b@.len() == 0 ==> r@.len() == 0,
{
    String::from_utf8_lossy(b).into_owned()
}

/// Where a queued frame came from.
pub enum Origin {
    /// The session's own replies and notices.
    Own,
    /// A line of the child's output.
    ChildOutput,
    /// The notice that the child exited.
    ChildExit,
    /// A fragment rendered by the page collaborator.
    Fragment,
}

/// One of the child's output pipes.
#[derive(Debug, Clone, Copy, PartialEq, Eq, Structural)]
pub enum Stream {
    Stdout,
    Stderr,
}

/// What the caller does after an inbound frame.
#[derive(Debug)]
pub enum Step {
    /// Nothing beyond sending what is queued.
    Continue,
    /// Echo this close frame and end the connection.
    Close(Option<CloseFrame>),
    /// Start the deploy child, then report `on_spawned` or `on_spawn_failed`.
    Spawn(String),
    /// Render `path` with `query` as a patch, then report `on_nav_result`
    /// with `location`.
    Navigate { path: String, query: QueryParams, location: String },
    /// Filter the services by this query and queue the rendered list with
    /// `push_fragment`.
    Search(String),
}

pub open spec fn ready_text(version: Seq<char>) -> Seq<char> {
    "ready:"@ + version
}

pub open spec fn pong_text() -> Seq<char> {
    "pong"@
}

pub open spec fn new_deployment_text(name: Seq<char>) -> Seq<char> {
    "new_deployment: "@ + name
}

pub open spec fn already_running_text() -> Seq<char> {
    "deploy already running"@
}

pub open spec fn deploy_failed_text(reason: Seq<char>) -> Seq<char> {
    "deploy failed: "@ + reason
}

pub open spec fn exited_text(status: Seq<char>) -> Seq<char> {
    "child process exited: "@ + status
}

pub open spec fn patch_text(html: Seq<char>) -> Seq<char> {
    "patch:"@ + html
}

pub open spec fn location_text(path: Seq<char>) -> Seq<char> {
    "location:"@ + path
}

pub open spec fn invalid_nav_text() -> Seq<char> {
    "error: invalid navigation result"@
}

/// The feedback for a malformed command.
pub open spec fn error_text(e: ParseEventError) -> Seq<char> {
    match e {
        ParseEventError::UnknownKind => "error, unknown event kind"@,
        ParseEventError::MissingArg => "error, missing event arg"@,
        ParseEventError::ExtraData => "error, excess data in event call"@,
    }
}

pub open spec fn text(s: Seq<char>) -> FrameView {
    FrameView::Text(s)
}

/// The frames a text command queues at once, given whether a deploy runs.
pub open spec fn command_replies(r: Result<EventView, ParseEventError>, running: bool) -> Seq<
    FrameView,
> {
    match r {
        Ok(EventView::Ping) => seq![text(pong_text())],
        Ok(EventView::Deploy(name)) => if running {
            seq![text(new_deployment_text(name)), text(already_running_text())]
        } else {
            seq![text(new_deployment_text(name))]
        },
        Ok(EventView::SearchServices(_)) => Seq::empty(),
        Ok(EventView::Navigate(_)) => Seq::empty(),
        Err(e) => seq![text(error_text(e))],
    }
}

/// The frames a rendered navigation queues: a patch and the new location;
/// a redirect's location; an error for a whole page, which patch rendering
/// must not give.
pub open spec fn nav_replies(r: NavResult, location: Seq<char>) -> Seq<FrameView> {
    match r {
        NavResult::Patch(html) => seq![text(patch_text(html@)), text(location_text(location))],
        NavResult::Redirect(to) => seq![text(location_text(to@))],
        _ => seq![text(invalid_nav_text())],
    }
}

/// Frames of the child's output lines.
pub open spec fn line_frames(lines: Seq<Seq<u8>>) -> Seq<FrameView> {
    lines.map_values(|l: Seq<u8>| text(utf8_lossy(l)))
}

/// What the caller is asked to do after a text command.
pub open spec fn step_fits(ev: Result<EventView, ParseEventError>, running: bool, r: Step) -> bool {
    match ev {
        Ok(EventView::Deploy(name)) => if running {
            r is Continue
        } else {
            r matches Step::Spawn(n) && n@ == name
        },
        Ok(EventView::Navigate(arg)) => r matches Step::Navigate { path, query, location } && path@
            == split_path_query_spec(arg).0 && query@ == parse_query_spec(
            split_path_query_spec(arg).1,
        ) && location@ == arg,
        Ok(EventView::SearchServices(q)) => r matches Step::Search(s) && s@ == q,
        _ => r is Continue,
    }
}

/// A first character other than `r` rules out `ready:`.
proof fn lemma_not_ready(s: Seq<char>)
    requires
        s.len() > 0,
        s[0] != 'r',
    ensures
        !is_ready_frame(text(s)),
{
    reveal_strlit("ready:");
    assert("ready:"@.len() == 6);
    if s.len() >= 6 && s.take(6) == "ready:"@ {
        assert(s.take(6)[0] == s[0]);
        assert("ready:"@[0] == 'r');
    }
}

/// `lit` followed by `rest`, where `lit` does not begin with `r`.
fn notice(lit: &str, rest: &str) -> (r: String)
    requires
        lit@.len() > 0,
        lit@[0] != 'r',
    ensures
        r@ == lit@ + rest@,
        !is_ready_frame(text(r@)),
{
    let r = String::from_str(lit).concat(rest);
    proof {
        assert(r@[0] == lit@[0]);
        lemma_not_ready(r@);
    }
    r
}

/// The state of a running deploy: a line buffer and an end-of-file flag
/// per pipe.
pub struct Deploy {
    stdout: LineBuffer,
    stderr: LineBuffer,
    stdout_done: bool,
    stderr_done: bool,
}

impl Deploy {
    fn new() -> (r: Deploy)
        ensures
            r.stdout.view().len() == 0,
            r.stderr.view().len() == 0,
            r.stdout.wf(),
            r.stderr.wf(),
            !r.stdout_done,
            !r.stderr_done,
    {
        Deploy {
            stdout: LineBuffer::new(),
            stderr: LineBuffer::new(),
            stdout_done: false,
            stderr_done: false,
        }
    }

    pub closed spec fn buffer(&self, s: Stream) -> Seq<u8> {
        match s {
            Stream::Stdout => self.stdout.view(),
            Stream::Stderr => self.stderr.view(),
        }
    }

    pub closed spec fn done(&self, s: Stream) -> bool {
        match s {
            Stream::Stdout => self.stdout_done,
            Stream::Stderr => self.stderr_done,
        }
    }

    /// Both pipes have reached end of file.
    pub fn is_done(&self) -> (r: bool)
        ensures
            r == (self.done(Stream::Stdout) && self.done(Stream::Stderr)),
    {
        self.stdout_done && self.stderr_done
    }
}

/// A connection's state.
pub struct Session {
    outbox: VecDeque<Frame>,
    want_write: bool,
    deploy: Option<Deploy>,
    timer: Liveness,
    /// Every frame ever queued, with where it came from.
    log: Ghost<Seq<(Origin, FrameView)>>,
    /// How many of them were sent.
    delivered: Ghost<int>,
    /// The position of the latest exit notice, or -1.
    last_exit: Ghost<int>,
}

impl Session {
    /// The frames waiting to be sent, head first.
    pub closed spec fn queued(&self) -> Seq<FrameView> {
        self.outbox@.map_values(|f: Frame| f@)
    }

    /// Every frame queued since the connection began, with its origin.
    pub closed spec fn history(&self) -> Seq<(Origin, FrameView)> {
        self.log@
    }

    /// The frames sent from the queue, in the order they went out.
    pub closed spec fn sent(&self) -> Seq<FrameView> {
        self.log@.take(self.delivered@).map_values(|e: (Origin, FrameView)| e.1)
    }

    pub closed spec fn write_interest(&self) -> bool {
        self.want_write
    }

    pub closed spec fn timer_state(&self) -> Liveness {
        self.timer
    }

    pub closed spec fn running(&self) -> bool {
        self.deploy is Some
    }

    /// What a running deploy holds of a pipe's unfinished line.
    pub closed spec fn pending(&self, s: Stream) -> Seq<u8> {
        match self.deploy {
            Some(d) => d.buffer(s),
            None => Seq::empty(),
        }
    }

    /// Whether a running deploy's pipe has reached end of file.
    pub closed spec fn pipe_done(&self, s: Stream) -> bool {
        match self.deploy {
            Some(d) => d.done(s),
            None => false,
        }
    }

    pub closed spec fn wf(&self) -> bool {
        let log = self.log@;
        &&& log.len() >= 1
        &&& 0 <= self.delivered@ <= log.len()
        &&& self.delivered@ + self.outbox@.len() == log.len()
        &&& forall|i: int|
            0 <= i < self.outbox@.len() ==> #[trigger] self.outbox@[i]@ == log[self.delivered@
                + i].1
        &&& log[0].0 is Own
        &&& is_ready_frame(log[0].1)
        &&& forall|i: int|
            1 <= i < log.len() && is_ready_frame(#[trigger] log[i].1) ==> log[i].0 is ChildOutput
                || log[i].0 is Fragment
        &&& self.last_exit@ < log.len()
        &&& self.last_exit@ >= 0 ==> log[self.last_exit@].0 is ChildExit
        &&& self.deploy is None ==> forall|i: int|
            0 <= i < log.len() && (#[trigger] log[i].0) is ChildOutput ==> i < self.last_exit@
        &&& self.deploy matches Some(d) ==> d.stdout.wf() && d.stderr.wf()
    }

    /// Queues a frame at the back.
    fn push(&mut self, f: Frame, Ghost(origin): Ghost<Origin>)
        requires
            old(self).wf(),
            is_ready_frame(f@) ==> origin is ChildOutput || origin is Fragment,
            origin is ChildOutput ==> old(self).deploy is Some,
            origin is ChildExit ==> old(self).deploy is Some,
        ensures
            final(self).wf(),
            final(self).log@ == old(self).log@.push((origin, f@)),
            final(self).queued() == old(self).queued().push(f@),
            final(self).sent() == old(self).sent(),
            final(self).delivered@ == old(self).delivered@,
            final(self).last_exit@ == (if origin is ChildExit {
                old(self).log@.len() as int
            } else {
                old(self).last_exit@
            }),
            final(self).want_write == old(self).want_write,
            final(self).deploy == old(self).deploy,
            final(self).timer == old(self).timer,
    {
        let ghost f_view = f@;
        self.outbox.push_back(f);
        let ghost old_log = self.log@;
        self.log = Ghost(self.log@.push((origin, f_view)));
        self.last_exit = Ghost(
            if origin is ChildExit {
                old_log.len() as int
            } else {
                self.last_exit@
            },
        );
        assert(self.queued() =~= old(self).queued().push(f_view));
        assert(self.log@.take(self.delivered@) =~= old_log.take(self.delivered@));
        assert forall|i: int| 0 <= i < self.outbox@.len() implies #[trigger] self.outbox@[i]@
            == self.log@[self.delivered@ + i].1 by {
            if i < old(self).outbox@.len() {
                assert(self.outbox@[i] == old(self).outbox@[i]);
            }
        }
        assert forall|i: int|
            1 <= i < self.log@.len() && is_ready_frame(#[trigger] self.log@[i].1) implies self.log@[i].0 is ChildOutput
            || self.log@[i].0 is Fragment by {
            if i < old_log.len() {
                assert(self.log@[i] == old_log[i]);
            }
        }
        proof {
            assert(self.log@[0] == old_log[0]);
            if self.last_exit@ >= 0 && !(origin is ChildExit) {
                assert(self.log@[self.last_exit@] == old_log[self.last_exit@]);
            }
            if self.deploy is None {
                assert forall|i: int|
                    0 <= i < self.log@.len() && (#[trigger] self.log@[i].0) is ChildOutput implies i
                    < self.last_exit@ by {
                    if i < old_log.len() {
                        assert(self.log@[i] == old_log[i]);
                    }
                }
            }
        }
    }

    fn push_text(&mut self, s: String)
        requires
            old(self).wf(),
            !is_ready_frame(text(s@)),
        ensures
            final(self).wf(),
            final(self).log@ == old(self).log@.push((Origin::Own, text(s@))),
            final(self).queued() == old(self).queued().push(text(s@)),
            final(self).sent() == old(self).sent(),
            final(self).delivered@ == old(self).delivered@,
            final(self).last_exit@ == old(self).last_exit@,
            final(self).want_write == old(self).want_write,
            final(self).deploy == old(self).deploy,
            final(self).timer == old(self).timer,
    {
        self.push(Frame::Text(s), Ghost(Origin::Own));
    }

    /// A new connection's session: the `ready:` notice is queued first.
    pub fn new(app_version: &str, timer: Liveness) -> (r: Session)
        ensures
            r.wf(),
            r.queued() == seq![text(ready_text(app_version@))],
            r.history() == seq![(Origin::Own, text(ready_text(app_version@)))],
            r.sent().len() == 0,
            !r.write_interest(),
            !r.running(),
            r.timer_state() == timer,
    {
        proof {
            reveal_strlit("ready:");
            assert("ready:"@.len() == 6);
            assert(("ready:"@ + app_version@).take(6) =~= "ready:"@);
        }
        let ready = Frame::Text(String::from_str("ready:").concat(app_version));
        let ghost v = ready@;
        let ghost first = seq![(Origin::Own, v)];
        let mut outbox: VecDeque<Frame> = VecDeque::new();
        outbox.push_back(ready);
        let s = Session {
            outbox,
            want_write: false,
            deploy: None,
            timer,
            log: Ghost(first),
            delivered: Ghost(0),
            last_exit: Ghost(-1),
        };
        assert(s.queued() =~= seq![v]);
        assert(s.log@.take(0).map_values(|e: (Origin, FrameView)| e.1) =~= Seq::<FrameView>::empty());
        s
    }

    /// Whether anything waits to be sent.
    pub fn has_queued(&self) -> (r: bool)
        ensures
            r == (self.queued().len() > 0),
    {
        self.outbox.len() > 0
    }

    /// The frame to send next, if any.
    pub fn front(&self) -> (r: Option<&Frame>)
        ensures
            match r {
                Some(f) => self.queued().len() > 0 && f@ == self.queued()[0],
                None => self.queued().len() == 0,
            },
    {
        if self.outbox.len() > 0 {
            Some(&self.outbox[0])
        } else {
            None
        }
    }

    /// Reports that the frame at the head went out at `now`: it leaves the
    /// queue, and a ping starts the pong timeout unless one is running.
    /// With nothing queued this does nothing.
    pub fn confirm_sent(&mut self, now: u64)
        requires
            old(self).wf(),
        ensures
            final(self).wf(),
            old(self).queued().len() > 0 ==> {
                &&& final(self).queued() == old(self).queued().drop_first()
                &&& final(self).sent() == old(self).sent().push(old(self).queued()[0])
                &&& final(self).timer_state() == if old(self).queued()[0] is Ping {
                    old(self).timer_state().after_ping(now)
                } else {
                    old(self).timer_state()
                }
            },
            old(self).queued().len() == 0 ==> *final(self) == *old(self),
            final(self).history() == old(self).history(),
            final(self).write_interest() == old(self).write_interest(),
            final(self).running() == old(self).running(),
            forall|s: Stream| final(self).pending(s) == old(self).pending(s),
            forall|s: Stream| final(self).pipe_done(s) == old(self).pipe_done(s),
    {
        if self.outbox.len() == 0 {
            return ;
        }
        let f = self.outbox.pop_front().unwrap();
        if f.is_ping() {
            self.timer.on_ping_sent(now);
        }
        let ghost d = self.delivered@;
        proof {
            assert(f@ == old(self).outbox@[0]@);
            assert(old(self).outbox@[0]@ == self.log@[d].1);
        }
        self.delivered = Ghost(d + 1);
        assert(self.queued() =~= old(self).queued().drop_first());
        assert(self.sent() =~= old(self).sent().push(old(self).queued()[0]));
        assert forall|i: int| 0 <= i < self.outbox@.len() implies #[trigger] self.outbox@[i]@
            == self.log@[self.delivered@ + i].1 by {
            assert(self.outbox@[i] == old(self).outbox@[i + 1]);
        }
    }

    /// Sets the write interest to whether anything is queued. Returns the
    /// new interest where it changed, for the caller to register it.
    pub fn sync_interest(&mut self) -> (r: Option<bool>)
        requires
            old(self).wf(),
        ensures
            final(self).wf(),
            final(self).write_interest() == (final(self).queued().len() > 0),
            r == (if old(self).write_interest() != (old(self).queued().len() > 0) {
                Some(old(self).queued().len() > 0)
            } else {
                None
            }),
            final(self).queued() == old(self).queued(),
            final(self).history() == old(self).history(),
            final(self).sent() == old(self).sent(),
            final(self).timer_state() == old(self).timer_state(),
            final(self).running() == old(self).running(),
            forall|s: Stream| final(self).pending(s) == old(self).pending(s),
            forall|s: Stream| final(self).pipe_done(s) == old(self).pipe_done(s),
    {
        let wanted = self.outbox.len() > 0;
        if self.want_write != wanted {
            self.want_write = wanted;
            Some(wanted)
        } else {
            None
        }
    }

    /// How long the readiness wait may block at `now`.
    pub fn wait_timeout(&self, now: u64) -> (r: u64)
        ensures
            r == (if self.timer_state().deadline_spec() > now {
                self.timer_state().deadline_spec() - now
            } else {
                0
            }),
    {
        self.timer.wait_timeout(now)
    }

    /// What the keepalive rule asks for at `now`.
    pub fn verdict(&self, now: u64) -> (r: Verdict)
        ensures
            r == self.timer_state().verdict_spec(now),
    {
        self.timer.verdict(now)
    }

    /// Reports that a keepalive ping went straight out at `now`.
    pub fn on_ping_sent(&mut self, now: u64)
        requires
            old(self).wf(),
        ensures
            final(self).wf(),
            final(self).timer_state() == old(self).timer_state().after_ping(now),
            final(self).queued() == old(self).queued(),
            final(self).history() == old(self).history(),
            final(self).sent() == old(self).sent(),
            final(self).write_interest() == old(self).write_interest(),
            final(self).running() == old(self).running(),
    {
        self.timer.on_ping_sent(now);
    }

    /// Handles a text command: queues its replies and says what the caller
    /// is to do.
    fn handle_text(&mut self, payload: &str) -> (r: Step)
        requires
            old(self).wf(),
        ensures
            final(self).wf(),
            final(self).queued() == old(self).queued() + command_replies(
                parse_event_spec(payload@),
                old(self).running(),
            ),
            step_fits(parse_event_spec(payload@), old(self).running(), r),
            final(self).sent() == old(self).sent(),
            final(self).timer == old(self).timer,
            final(self).want_write == old(self).want_write,
            final(self).deploy == old(self).deploy,
    {
        let ev = parse_event(payload);
        proof {
            reveal_strlit("pong");
            reveal_strlit("new_deployment: ");
            reveal_strlit("deploy already running");
            reveal_strlit("error, unknown event kind");
            reveal_strlit("error, missing event arg");
            reveal_strlit("error, excess data in event call");
        }
        match ev {
            Ok(AppEvent::Ping) => {
                let pong = notice("pong", "");
                proof {
                    reveal_strlit("");
                    assert(pong@ =~= pong_text());
                }
                self.push_text(pong);
                assert(self.queued() =~= old(self).queued() + seq![text(pong_text())]);
                Step::Continue
            },
            Ok(AppEvent::Deploy(name)) => {
                self.push_text(notice("new_deployment: ", name.as_str()));
                if self.deploy.is_some() {
                    let busy = notice("deploy already running", "");
                    proof {
                        reveal_strlit("");
                        assert(busy@ =~= already_running_text());
                    }
                    self.push_text(busy);
                    assert(self.queued() =~= old(self).queued() + seq![
                        text(new_deployment_text(name@)),
                        text(already_running_text()),
                    ]);
                    Step::Continue
                } else {
                    assert(self.queued() =~= old(self).queued() + seq![
                        text(new_deployment_text(name@)),
                    ]);
                    Step::Spawn(name)
                }
            },
            Ok(AppEvent::SearchServices(q)) => {
                assert(self.queued() =~= old(self).queued() + Seq::<FrameView>::empty());
                Step::Search(q)
            },
            Ok(AppEvent::Navigate(arg)) => {
                let (p, q) = split_path_query(arg.as_str());
                let path = String::from_str(p);
                let query = parse_query_params(q);
                assert(self.queued() =~= old(self).queued() + Seq::<FrameView>::empty());
                Step::Navigate { path, query, location: arg }
            },
            Err(e) => {
                let msg = match e {
                    ParseEventError::UnknownKind => notice("error, unknown event kind", ""),
                    ParseEventError::MissingArg => notice("error, missing event arg", ""),
                    ParseEventError::ExtraData => notice("error, excess data in event call", ""),
                };
                proof {
                    reveal_strlit("");
                    assert(msg@ =~= error_text(e));
                }
                self.push_text(msg);
                assert(self.queued() =~= old(self).queued() + seq![text(error_text(e))]);
                Step::Continue
            },
        }
    }

    /// Handles an inbound frame read at `now`. Any frame counts as a sign of
    /// life; pings and pongs need nothing more, a close is echoed and ends
    /// the connection, binary frames are ignored, and text frames are
    /// commands.
    pub fn on_frame(&mut self, frame: Frame, now: u64) -> (r: Step)
        requires
            old(self).wf(),
        ensures
            final(self).wf(),
            final(self).timer_state() == old(self).timer_state().after_inbound(now),
            match frame@ {
                FrameView::Text(s) => {
                    &&& final(self).queued() == old(self).queued() + command_replies(
                        parse_event_spec(s),
                        old(self).running(),
                    )
                    &&& step_fits(parse_event_spec(s), old(self).running(), r)
                },
                FrameView::Close(c) => {
                    &&& final(self).queued() == old(self).queued()
                    &&& r matches Step::Close(e) && crate::frame::close_view(e) == c
                },
                _ => final(self).queued() == old(self).queued() && r is Continue,
            },
            final(self).sent() == old(self).sent(),
            final(self).write_interest() == old(self).write_interest(),
            final(self).running() == old(self).running(),
            forall|s: Stream| final(self).pending(s) == old(self).pending(s),
            forall|s: Stream| final(self).pipe_done(s) == old(self).pipe_done(s),
    {
        self.timer.on_inbound(now);
        match frame {
            Frame::Text(s) => self.handle_text(s.as_str()),
            Frame::Close(c) => Step::Close(c),
            _ => Step::Continue,
        }
    }

    /// Queues what a patch rendering of a navigation gave.
    pub fn on_nav_result(&mut self, result: NavResult, location: &str)
        requires
            old(self).wf(),
        ensures
            final(self).wf(),
            final(self).queued() == old(self).queued() + nav_replies(result, location@),
            final(self).sent() == old(self).sent(),
            final(self).timer_state() == old(self).timer_state(),
            final(self).write_interest() == old(self).write_interest(),
            final(self).running() == old(self).running(),
            forall|s: Stream| final(self).pending(s) == old(self).pending(s),
            forall|s: Stream| final(self).pipe_done(s) == old(self).pipe_done(s),
    {
        proof {
            reveal_strlit("patch:");
            reveal_strlit("location:");
            reveal_strlit("error: invalid navigation result");
            reveal_strlit("");
        }
        let ghost rv = result;
        match result {
            NavResult::Patch(html) => {
                self.push_text(notice("patch:", html.as_str()));
                self.push_text(notice("location:", location));
                assert(self.queued() =~= old(self).queued() + nav_replies(rv, location@));
            },
            NavResult::Redirect(to) => {
                self.push_text(notice("location:", to.as_str()));
                assert(self.queued() =~= old(self).queued() + nav_replies(rv, location@));
            },
            _ => {
                let msg = notice("error: invalid navigation result", "");
                assert(msg@ =~= invalid_nav_text());
                self.push_text(msg);
                assert(self.queued() =~= old(self).queued() + nav_replies(rv, location@));
            },
        }
    }

    /// Queues a fragment rendered by the page collaborator, as it is.
    pub fn push_fragment(&mut self, html: String)
        requires
            old(self).wf(),
        ensures
            final(self).wf(),
            final(self).queued() == old(self).queued().push(text(html@)),
            final(self).sent() == old(self).sent(),
            final(self).timer_state() == old(self).timer_state(),
            final(self).write_interest() == old(self).write_interest(),
            final(self).running() == old(self).running(),
    {
        self.push(Frame::Text(html), Ghost(Origin::Fragment));
    }

    /// Reports that the deploy child started: its pipes begin empty and open.
    /// With a deploy already running this does nothing.
    pub fn on_spawned(&mut self)
        requires
            old(self).wf(),
        ensures
            final(self).wf(),
            final(self).running(),
            !old(self).running() ==> forall|s: Stream|
                final(self).pending(s).len() == 0 && !final(self).pipe_done(s),
            old(self).running() ==> *final(self) == *old(self),
            final(self).queued() == old(self).queued(),
            final(self).sent() == old(self).sent(),
            final(self).timer_state() == old(self).timer_state(),
            final(self).write_interest() == old(self).write_interest(),
    {
        if self.deploy.is_none() {
            self.deploy = Some(Deploy::new());
        }
    }

    /// Reports that the deploy child could not be started.
    pub fn on_spawn_failed(&mut self, reason: &str)
        requires
            old(self).wf(),
        ensures
            final(self).wf(),
            final(self).queued() == old(self).queued().push(text(deploy_failed_text(reason@))),
            final(self).sent() == old(self).sent(),
            final(self).timer_state() == old(self).timer_state(),
            final(self).write_interest() == old(self).write_interest(),
            final(self).running() == old(self).running(),
    {
        proof {
            reveal_strlit("deploy failed: ");
        }
        self.push_text(notice("deploy failed: ", reason));
    }

    /// Queues a completed line of the child's output.
    fn push_line(&mut self, line: &Vec<u8>)
        requires
            old(self).wf(),
            old(self).deploy is Some,
        ensures
            final(self).wf(),
            final(self).queued() == old(self).queued().push(text(utf8_lossy(line@))),
            final(self).sent() == old(self).sent(),
            final(self).timer == old(self).timer,
            final(self).want_write == old(self).want_write,
            final(self).deploy == old(self).deploy,
    {
        let t = text_of_bytes(line.as_slice());
        self.push(Frame::Text(t), Ghost(Origin::ChildOutput));
    }

    /// Reports bytes read from one of the child's pipes: the lines they
    /// complete are queued in order, and the rest waits for its newline.
    /// With no deploy running this does nothing.
    pub fn on_child_output(&mut self, stream: Stream, data: &[u8])
        requires
            old(self).wf(),
        ensures
            final(self).wf(),
            old(self).running() ==> {
                &&& final(self).queued() == old(self).queued() + line_frames(
                    split_lines(old(self).pending(stream) + data@).0,
                )
                &&& final(self).pending(stream) == split_lines(
                    old(self).pending(stream) + data@,
                ).1
                &&& forall|s: Stream| s != stream ==> final(self).pending(s) == old(self).pending(s)
                &&& final(self).running()
            },
            !old(self).running() ==> *final(self) == *old(self),
            forall|s: Stream| final(self).pipe_done(s) == old(self).pipe_done(s),
            final(self).sent() == old(self).sent(),
            final(self).timer_state() == old(self).timer_state(),
            final(self).write_interest() == old(self).write_interest(),
    {
        let lines = match &mut self.deploy {
            Some(d) => match stream {
                Stream::Stdout => d.stdout.push_bytes(data),
                Stream::Stderr => d.stderr.push_bytes(data),
            },
            None => {
                return ;
            },
        };
        let ghost mid = *self;
        let ghost all = split_lines(old(self).pending(stream) + data@).0;
        assert(lines@.map_values(|l: Vec<u8>| l@) == all);
        let mut i: usize = 0;
        while i < lines.len()
            invariant
                self.wf(),
                self.deploy == mid.deploy,
                self.deploy is Some,
                i <= lines@.len(),
                lines@.map_values(|l: Vec<u8>| l@) == all,
                self.queued() == mid.queued() + line_frames(all.take(i as int)),
                self.sent() == mid.sent(),
                self.timer == mid.timer,
                self.want_write == mid.want_write,
            decreases lines@.len() - i,
        {
            self.push_line(&lines[i]);
            assert(all[i as int] == lines@[i as int]@);
            assert(line_frames(all.take(i as int + 1)) =~= line_frames(all.take(i as int)).push(
                text(utf8_lossy(lines@[i as int]@)),
            ));
            assert(self.queued() =~= mid.queued() + line_frames(all.take(i as int + 1)));
            i = i + 1;
        }
        assert(all.take(lines@.len() as int) =~= all);
    }

    /// Reports end of file on one of the child's pipes: an unfinished last
    /// line is queued as it is, and the pipe is marked done. With no deploy
    /// running this does nothing.
    pub fn on_child_eof(&mut self, stream: Stream)
        requires
            old(self).wf(),
        ensures
            final(self).wf(),
            old(self).running() ==> {
                &&& final(self).queued() == if old(self).pending(stream).len() > 0 {
                    old(self).queued().push(text(utf8_lossy(old(self).pending(stream))))
                } else {
                    old(self).queued()
                }
                &&& final(self).pending(stream).len() == 0
                &&& final(self).pipe_done(stream)
                &&& forall|s: Stream| s != stream ==> final(self).pending(s) == old(self).pending(s)
                &&& forall|s: Stream|
                    s != stream ==> final(self).pipe_done(s) == old(self).pipe_done(s)
                &&& final(self).running()
            },
            !old(self).running() ==> *final(self) == *old(self),
            final(self).sent() == old(self).sent(),
            final(self).timer_state() == old(self).timer_state(),
            final(self).write_interest() == old(self).write_interest(),
    {
        let rest = match &mut self.deploy {
            Some(d) => match stream {
                Stream::Stdout => {
                    d.stdout_done = true;
                    d.stdout.finish()
                },
                Stream::Stderr => {
                    d.stderr_done = true;
                    d.stderr.finish()
                },
            },
            None => {
                return ;
            },
        };
        match rest {
            Some(line) => {
                self.push_line(&line);
            },
            None => {},
        }
    }

    /// Whether a deploy runs and both its pipes reached end of file, so
    /// that its exit status may be collected.
    pub fn child_finished(&self) -> (r: bool)
        ensures
            r == (self.running() && self.pipe_done(Stream::Stdout) && self.pipe_done(
                Stream::Stderr,
            )),
    {
        match &self.deploy {
            Some(d) => d.is_done(),
            None => false,
        }
    }

    /// Reports the exit status of a finished child: its notice is queued
    /// last and the deploy ends. Returns false, doing nothing, unless
    /// `child_finished` holds.
    pub fn on_child_exited(&mut self, status: &str) -> (r: bool)
        requires
            old(self).wf(),
        ensures
            final(self).wf(),
            r == (old(self).running() && old(self).pipe_done(Stream::Stdout) && old(
                self,
            ).pipe_done(Stream::Stderr)),
            r ==> {
                &&& final(self).queued() == old(self).queued().push(text(exited_text(status@)))
                &&& final(self).history() == old(self).history().push(
                    (Origin::ChildExit, text(exited_text(status@))),
                )
                &&& !final(self).running()
            },
            !r ==> *final(self) == *old(self),
            final(self).sent() == old(self).sent(),
            final(self).timer_state() == old(self).timer_state(),
            final(self).write_interest() == old(self).write_interest(),
    {
        if !self.child_finished() {
            return false;
        }
        proof {
            reveal_strlit("child process exited: ");
        }
        let msg = notice("child process exited: ", status);
        self.push(Frame::Text(msg), Ghost(Origin::ChildExit));
        self.deploy = None;
        true
    }

    /// Queues a keepalive ping that could not go out at once.
    pub fn queue_ping(&mut self)
        requires
            old(self).wf(),
        ensures
            final(self).wf(),
            final(self).queued() == old(self).queued().push(FrameView::Ping(Seq::empty())),
            final(self).timer_state() == old(self).timer_state(),
            final(self).sent() == old(self).sent(),
            final(self).running() == old(self).running(),
    {
        let v: Vec<u8> = Vec::new();
        assert(v@ =~= Seq::<u8>::empty());
        self.push(Frame::Ping(v), Ghost(Origin::Own));
    }
}

/// The queue is first in, first out: what went out, followed by what
/// waits, is everything queued, in the order it was queued.
pub proof fn lemma_queue_order(s: &Session)
    requires
        s.wf(),
    ensures
        s.sent() + s.queued() == s.history().map_values(|e: (Origin, FrameView)| e.1),
{
    let h = s.log@;
    let d = s.delivered@;
    assert forall|i: int| 0 <= i < h.len() implies #[trigger] (s.sent() + s.queued())[i] == h[i].1 by {
        if i >= d {
            assert(s.outbox@[i - d]@ == h[d + (i - d)].1);
        }
    }
    assert(s.sent() + s.queued() =~= h.map_values(|e: (Origin, FrameView)| e.1));
}

/// The `ready:` notice is the first frame queued, and so the first sent;
/// no other frame of the session's own is a `ready:` frame. Only a line of
/// child output or a rendered fragment could read like one.
pub proof fn lemma_ready_first(s: &Session)
    requires
        s.wf(),
    ensures
        s.history().len() >= 1,
        s.history()[0].0 is Own,
        is_ready_frame(s.history()[0].1),
        forall|i: int|
            1 <= i < s.history().len() && is_ready_frame(#[trigger] s.history()[i].1) ==> s.history()[i].0 is ChildOutput
                || s.history()[i].0 is Fragment,
        s.sent().len() > 0 ==> is_ready_frame(s.sent()[0]),
{
}

/// Once no deploy runs, every line of child output queued so far is
/// followed, later in the queue, by a notice that the child exited.
pub proof fn lemma_exit_after_output(s: &Session)
    requires
        s.wf(),
        !s.running(),
    ensures
        forall|i: int|
            0 <= i < s.history().len() && (#[trigger] s.history()[i].0) is ChildOutput ==> exists|
                j: int,
            |
                i < j < s.history().len() && (#[trigger] s.history()[j].0) is ChildExit,
{
    assert forall|i: int|
        0 <= i < s.history().len() && (#[trigger] s.history()[i].0) is ChildOutput implies exists|
            j: int,
        |
            i < j < s.history().len() && (#[trigger] s.history()[j].0) is ChildExit by {
        let j = s.last_exit@;
        assert(s.history()[j].0 is ChildExit);
    }
}

} // verus!
