//! The protocol of a long-lived session with the proof kernel's server,
//! as a state machine: each step takes what happened, moves to the next
//! phase and says what to ask of the server next. The caller does the
//! asking. Many checks in one session are faster than one run each, but
//! the server is known to keep memory after each check: a session that is
//! used for many checks should be restarted from time to time.

use vstd::prelude::*;
use crate::checker::{
    classified, classify, false_marker, unfinished_marker, validation_theory,
    validation_theory_view, CheckResult,
};
use crate::error::{Error, ErrorView};
use crate::lemma::{lemma_text, theory_text, Lemma};
use crate::text::{contains, texts};

verus! {

/// Where a session stands.
#[derive(Debug, Clone, Copy, PartialEq, Eq, Structural)]
pub enum SessionPhase {
    /// Not started yet.
    Uninitialized,
    /// The start was asked for and not answered yet.
    Starting,
    /// Started, and no check under way.
    Ready,
    /// A check was asked for and not answered yet.
    Checking,
    /// A check was answered; its theory is being purged.
    Purging,
    /// Failed to start or to purge, or used out of turn: not to be used again.
    Terminal,
}

/// What the server is asked to start a session.
#[derive(Debug)]
pub struct SessionStart {
    pub session: String,
    pub dirs: Vec<String>,
    pub include_sessions: Vec<String>,
    pub options: Vec<String>,
}

/// What the server is asked to check a theory: the file to write into the
/// session's directory first, and the request.
#[derive(Debug)]
pub struct UseTheory {
    pub session_id: String,
    pub dir: String,
    pub file_name: String,
    pub theory_name: String,
    pub text: String,
    pub master_dir: String,
    pub check_limit: usize,
    pub unicode_symbols: bool,
}

/// What the server is asked to purge a theory.
#[derive(Debug)]
pub struct PurgeTheory {
    pub session_id: String,
    pub dir: String,
    pub theory_name: String,
    pub master_dir: String,
}

/// The server's answer to a check.
#[derive(Debug)]
pub enum SessionReply {
    /// The task finished; `ok` says whether every theory went through,
    /// `messages` holds the errors it reported.
    Finished { ok: bool, messages: String },
    /// The task failed, with the server's message.
    Failed(String),
    /// The request was refused at once, with the server's message.
    Refused(String),
}

/// The model of a [`SessionReply`].
pub enum SessionReplyView {
    Finished { ok: bool, messages: Seq<char> },
    Failed(Seq<char>),
    Refused(Seq<char>),
}

impl View for SessionReply {
    type V = SessionReplyView;

    open spec fn view(&self) -> SessionReplyView {
        match self {
            SessionReply::Finished { ok, messages } => SessionReplyView::Finished {
                ok: *ok,
                messages: messages@,
            },
            SessionReply::Failed(m) => SessionReplyView::Failed(m@),
            SessionReply::Refused(m) => SessionReplyView::Refused(m@),
        }
    }
}

/// How a reply is read. A finished task that is ok is a valid goal. A
/// finished task that is not ok is an invalid goal where its messages hold
/// both the marker of an unfinished proof and that of a false goal, and an
/// undecided one otherwise: a check that ran out of its limit ends so. A
/// failed task is read as the kernel's output without success. A refusal
/// is an error.
pub open spec fn reply_classified(reply: SessionReplyView) -> Result<CheckResult, ErrorView> {
    match reply {
        SessionReplyView::Finished { ok, messages } => if ok {
            Ok(CheckResult::OK)
        } else if contains(messages, unfinished_marker()) && contains(messages, false_marker()) {
            Ok(CheckResult::FailedInvalid)
        } else {
            Ok(CheckResult::FailedUnknown)
        },
        SessionReplyView::Failed(m) => classified(false, m, Seq::empty()),
        SessionReplyView::Refused(m) => Err(ErrorView::OracleTerminalFailure(m)),
    }
}

/// The model of what a session keeps of an answer until the purge is done.
pub open spec fn answer_view(a: Option<Result<CheckResult, Error>>) -> Option<
    Result<CheckResult, ErrorView>,
> {
    match a {
        Some(Ok(c)) => Some(Ok(c)),
        Some(Err(e)) => Some(Err(e@)),
        None => None,
    }
}

/// Checks goals in a session of the proof kernel's server.
#[derive(Debug)]
pub struct ClientChecker {
    theory_root: String,
    session_id: String,
    temp_dir: String,
    phase: SessionPhase,
    pending: Option<Result<CheckResult, Error>>,
}

/// The model of a [`ClientChecker`].
pub struct ClientView {
    pub theory_root: Seq<char>,
    pub session_id: Seq<char>,
    pub temp_dir: Seq<char>,
    pub phase: SessionPhase,
    pub pending: Option<Result<CheckResult, ErrorView>>,
}

/// The error for a step that the phase does not allow.
pub open spec fn out_of_turn() -> ErrorView {
    ErrorView::OracleTransportError("session used out of turn"@)
}

/// The options that a session is started with.
pub open spec fn session_options() -> Seq<Seq<char>> {
    seq![
        "system_log=false"@,
        "process_output_limit=1"@,
        "process_output_tail=1"@,
        "pide_reports=false"@,
        "build_pide_reports=false"@,
        "headless_check_limit=1"@,
    ]
}

impl View for ClientChecker {
    type V = ClientView;

    closed spec fn view(&self) -> ClientView {
        ClientView {
            theory_root: self.theory_root@,
            session_id: self.session_id@,
            temp_dir: self.temp_dir@,
            phase: self.phase,
            pending: answer_view(self.pending),
        }
    }
}

impl ClientChecker {
    /// Whether the session is in order: while a purge is under way, the
    /// meaning of the reply before it is kept.
    pub closed spec fn wf(&self) -> bool {
        self.phase == SessionPhase::Purging ==> self.pending is Some
    }

    /// What `wf` says, over the model.
    pub proof fn lemma_wf(&self)
        requires
            self.wf(),
        ensures
            self@.phase == SessionPhase::Purging ==> self@.pending is Some,
    {
    }

    /// A session that is not started yet, for base theories under `theory_root`.
    pub fn new(theory_root: &str) -> (r: Self)
        ensures
            r.wf(),
            r@ == (ClientView {
                theory_root: theory_root@,
                session_id: Seq::empty(),
                temp_dir: Seq::empty(),
                phase: SessionPhase::Uninitialized,
                pending: None,
            }),
    {
        ClientChecker {
            theory_root: theory_root.to_owned(),
            session_id: String::new(),
            temp_dir: String::new(),
            phase: SessionPhase::Uninitialized,
            pending: None,
        }
    }

    /// Where the session stands.
    pub fn phase(&self) -> (r: SessionPhase)
        ensures
            r == self@.phase,
    {
        self.phase
    }

    /// Begins the start of the session, which is allowed once: gives the
    /// request for a session of the base logic with the theories under
    /// the root. In any other phase the session becomes terminal.
    pub fn begin_start(&mut self) -> (r: Result<SessionStart, Error>)
        requires
            old(self).wf(),
        ensures
            final(self).wf(),
            old(self)@.phase == SessionPhase::Uninitialized ==> final(self)@ == (ClientView {
                phase: SessionPhase::Starting,
                ..old(self)@
            }) && r is Ok && r->Ok_0.session@ == "HOL"@ && texts(r->Ok_0.dirs@) == seq![
                old(self)@.theory_root,
            ] && texts(r->Ok_0.include_sessions@) == seq!["smt"@] && texts(r->Ok_0.options@)
                == session_options(),
            old(self)@.phase != SessionPhase::Uninitialized ==> final(self)@ == (ClientView {
                phase: SessionPhase::Terminal,
                ..old(self)@
            }) && r is Err && r->Err_0@ == out_of_turn(),
    {
        if self.phase != SessionPhase::Uninitialized {
            self.phase = SessionPhase::Terminal;
            return Err(Error::OracleTransportError("session used out of turn".to_owned()));
        }
        self.phase = SessionPhase::Starting;
        let mut dirs: Vec<String> = Vec::new();
        dirs.push(self.theory_root.clone());
        let mut include_sessions: Vec<String> = Vec::new();
        include_sessions.push("smt".to_owned());
        let mut options: Vec<String> = Vec::new();
        options.push("system_log=false".to_owned());
        options.push("process_output_limit=1".to_owned());
        options.push("process_output_tail=1".to_owned());
        options.push("pide_reports=false".to_owned());
        options.push("build_pide_reports=false".to_owned());
        options.push("headless_check_limit=1".to_owned());
        assert(texts(dirs@) =~= seq![old(self)@.theory_root]);
        assert(texts(include_sessions@) =~= seq!["smt"@]);
        assert(texts(options@) =~= session_options());
        Ok(SessionStart { session: "HOL".to_owned(), dirs, include_sessions, options })
    }

    /// Ends the start of the session with the server's answer: the
    /// session's identifier and its directory, or a message. With an
    /// identifier the session is ready. With a message, or in any phase
    /// but `Starting`, it becomes terminal.
    pub fn finish_start(&mut self, answer: Result<(String, String), String>) -> (r: Result<
        (),
        Error,
    >)
        requires
            old(self).wf(),
        ensures
            final(self).wf(),
            match (old(self)@.phase, answer) {
                (SessionPhase::Starting, Ok((id, dir))) => r is Ok && final(self)@ == (ClientView {
                    phase: SessionPhase::Ready,
                    session_id: id@,
                    temp_dir: dir@,
                    ..old(self)@
                }),
                (SessionPhase::Starting, Err(m)) => r is Err && r->Err_0@
                    == ErrorView::OracleTransportError(m@) && final(self)@ == (ClientView {
                    phase: SessionPhase::Terminal,
                    ..old(self)@
                }),
                _ => r is Err && r->Err_0@ == out_of_turn() && final(self)@ == (ClientView {
                    phase: SessionPhase::Terminal,
                    ..old(self)@
                }),
            },
    {
        if self.phase != SessionPhase::Starting {
            self.phase = SessionPhase::Terminal;
            return Err(Error::OracleTransportError("session used out of turn".to_owned()));
        }
        match answer {
            Ok((id, dir)) => {
                self.session_id = id;
                self.temp_dir = dir;
                self.phase = SessionPhase::Ready;
                Ok(())
            },
            Err(m) => {
                self.phase = SessionPhase::Terminal;
                Err(Error::OracleTransportError(m))
            },
        }
    }

    /// Begins a check, which a ready session allows: gives the theory
    /// file for the goal, to be written into the session's directory, and
    /// the request to use it with one round of checking. In any other
    /// phase the session becomes terminal.
    pub fn begin_check(&mut self, lemma: &Lemma) -> (r: Result<UseTheory, Error>)
        requires
            old(self).wf(),
        ensures
            final(self).wf(),
            old(self)@.phase == SessionPhase::Ready ==> final(self)@ == (ClientView {
                phase: SessionPhase::Checking,
                ..old(self)@
            }) && r is Ok && ({
                let u = r->Ok_0;
                &&& u.session_id@ == old(self)@.session_id
                &&& u.dir@ == old(self)@.temp_dir
                &&& u.file_name@ == "Validation.thy"@
                &&& u.theory_name@ == "Validation"@
                &&& u.text@ == theory_text(validation_theory_view(lemma_text(lemma@)))
                &&& u.master_dir@ == old(self)@.theory_root
                &&& u.check_limit == 1
                &&& u.unicode_symbols
            }),
            old(self)@.phase != SessionPhase::Ready ==> final(self)@ == (ClientView {
                phase: SessionPhase::Terminal,
                ..old(self)@
            }) && r is Err && r->Err_0@ == out_of_turn(),
    {
        if self.phase != SessionPhase::Ready {
            self.phase = SessionPhase::Terminal;
            return Err(Error::OracleTransportError("session used out of turn".to_owned()));
        }
        self.phase = SessionPhase::Checking;
        Ok(
            UseTheory {
                session_id: self.session_id.clone(),
                dir: self.temp_dir.clone(),
                file_name: "Validation.thy".to_owned(),
                theory_name: "Validation".to_owned(),
                text: validation_theory(lemma),
                master_dir: self.theory_root.clone(),
                check_limit: 1,
                unicode_symbols: true,
            },
        )
    }

    /// Ends a check with the server's reply: keeps what the reply means
    /// and gives the request to purge the theory, which always follows a
    /// check. In any phase but `Checking` the session becomes terminal.
    pub fn finish_check(&mut self, reply: SessionReply) -> (r: Result<PurgeTheory, Error>)
        requires
            old(self).wf(),
        ensures
            final(self).wf(),
            old(self)@.phase == SessionPhase::Checking ==> final(self)@ == (ClientView {
                phase: SessionPhase::Purging,
                pending: Some(reply_classified(reply@)),
                ..old(self)@
            }) && r is Ok && ({
                let p = r->Ok_0;
                &&& p.session_id@ == old(self)@.session_id
                &&& p.dir@ == old(self)@.temp_dir
                &&& p.theory_name@ == "Validation"@
                &&& p.master_dir@ == old(self)@.theory_root
            }),
            old(self)@.phase != SessionPhase::Checking ==> final(self)@ == (ClientView {
                phase: SessionPhase::Terminal,
                ..old(self)@
            }) && r is Err && r->Err_0@ == out_of_turn(),
    {
        if self.phase != SessionPhase::Checking {
            self.phase = SessionPhase::Terminal;
            return Err(Error::OracleTransportError("session used out of turn".to_owned()));
        }
        let answer = match reply {
            SessionReply::Finished { ok, messages } => match classify(ok, messages.as_str(), "") {
                Ok(c) => Ok(c),
                Err(_) => Ok(CheckResult::FailedUnknown),
            },
            SessionReply::Failed(m) => classify(false, m.as_str(), ""),
            SessionReply::Refused(m) => Err(Error::OracleTerminalFailure(m)),
        };
        proof {
            reveal_strlit("");
            assert(""@ =~= Seq::<char>::empty());
        }
        self.pending = Some(answer);
        self.phase = SessionPhase::Purging;
        Ok(
            PurgeTheory {
                session_id: self.session_id.clone(),
                dir: self.temp_dir.clone(),
                theory_name: "Validation".to_owned(),
                master_dir: self.theory_root.clone(),
            },
        )
    }

    /// Ends the purge. Where the server purged, the session is ready
    /// again and the result is what the reply to the check meant. Where it
    /// did not, or in any phase but `Purging`, the session becomes terminal.
    pub fn finish_purge(&mut self, purged: bool) -> (r: Result<CheckResult, Error>)
        requires
            old(self).wf(),
        ensures
            final(self).wf(),
            match (old(self)@.phase, old(self)@.pending) {
                (SessionPhase::Purging, Some(answer)) => if purged {
                    &&& final(self)@ == (ClientView {
                        phase: SessionPhase::Ready,
                        pending: None,
                        ..old(self)@
                    })
                    &&& match answer {
                        Ok(c) => r == Ok::<CheckResult, Error>(c),
                        Err(e) => r is Err && r->Err_0@ == e,
                    }
                } else {
                    &&& final(self)@ == (ClientView {
                        phase: SessionPhase::Terminal,
                        pending: None,
                        ..old(self)@
                    })
                    &&& r is Err
                    &&& r->Err_0@ == ErrorView::OracleTransportError("failed to purge theory"@)
                },
                _ => r is Err && r->Err_0@ == out_of_turn() && final(self)@ == (ClientView {
                    phase: SessionPhase::Terminal,
                    pending: None,
                    ..old(self)@
                }),
            },
    {
        let answer = self.pending.take();
        if self.phase != SessionPhase::Purging {
            self.phase = SessionPhase::Terminal;
            return Err(Error::OracleTransportError("session used out of turn".to_owned()));
        }
        match answer {
            None => {
                self.phase = SessionPhase::Terminal;
                Err(Error::OracleTransportError("session used out of turn".to_owned()))
            },
            Some(a) => {
                if purged {
                    self.phase = SessionPhase::Ready;
                    a
                } else {
                    self.phase = SessionPhase::Terminal;
                    Err(Error::OracleTransportError("failed to purge theory".to_owned()))
                }
            },
        }
    }
}

} // verus!
