//! The signed-in account as a state machine, driven by the page around it.
//!
//! Responses can't be trusted to arrive in order, and a response that sets
//! or clears the session cookie takes effect in the browser whether or not
//! the page still wants it. So requests that change the session run one at
//! a time (the [`Settle`] lock), each followed by a check of which account
//! the cookie holds, under the same lock, and the displayed account is
//! always the one the server says the cookie holds. Operations that don't
//! change the session are numbered; a response counts only while its number
//! is the latest.
//!
//! The caller performs the [`Request`] each step returns and feeds the
//! response back as an [`AccountEvent`].
use vstd::prelude::*;
use vstd::multiset::Multiset;
use crate::text::owned;

verus! {

broadcast use vstd::multiset::group_multiset_axioms;

/// What the account control asks for.
#[derive(Clone, Debug, PartialEq, Eq)]
pub enum Action {
    Open,
    Close,
    SignIn,
    Register(String),
    AddPasskey,
    SignOut,
}

/// A request that sets or clears the session cookie, or the check that
/// follows one. One runs at a time; until it and its follow-ups have
/// settled, no other operation starts.
#[derive(Clone, Copy, Debug, PartialEq, Eq, Structural)]
pub enum Settle {
    /// A sign-in or registration finish. `current` until the dialog it was
    /// started from closes or a newer ask replaces it.
    Finish { current: bool },
    /// Signing out: on request, or undoing a sign-in cancelled while it
    /// finished.
    SignOut,
    /// Asking the server which account the cookie now holds. `answer`: a
    /// signed-in result answers the waiting ask.
    Check { answer: bool },
}

/// The status line shown while `s` runs.
pub open spec fn status_text(s: Settle) -> Seq<char> {
    match s {
        Settle::Finish { .. } => "Finishing sign-in…"@,
        Settle::SignOut => "Signing out…"@,
        Settle::Check { .. } => "Checking your session…"@,
    }
}

impl Settle {
    /// The status line shown while this runs.
    pub fn status(self) -> (r: &'static str)
        ensures
            r@ == status_text(self),
    {
        match self {
            Settle::Finish { .. } => "Finishing sign-in…",
            Settle::SignOut => "Signing out…",
            Settle::Check { .. } => "Checking your session…",
        }
    }
}

/// What happened: a page's ask, an action from the account control, or
/// the response to a request. Failures arrive as their messages.
#[derive(Debug, PartialEq, Eq)]
pub enum AccountEvent {
    /// A page needs an account, for this reason.
    Ask { reason: String },
    Act(Action),
    /// Which account the cookie holds, as asked at startup under `op`.
    Me { op: u32, result: Result<Option<String>, String> },
    /// A ceremony prepared up to its finish under `op`, or why it wasn't.
    Prepared { op: u32, result: Result<(), String> },
    /// A passkey added under `op`, or why it wasn't.
    Added { op: u32, result: Result<(), String> },
    /// A ceremony's finish: the account signed in, or why it failed.
    Finished(Result<String, String>),
    SignedOut(Result<(), String>),
    /// Which account the cookie holds, after a session change.
    Checked(Result<Option<String>, String>),
}

/// What the caller must send.
#[derive(Clone, Debug, PartialEq, Eq)]
pub enum Request {
    /// Ask which account the cookie holds, under operation `op`.
    Me { op: u32 },
    /// Prepare a sign-in ceremony under operation `op`.
    PrepareSignIn { op: u32 },
    /// Prepare registering `name` under operation `op`.
    PrepareRegistration { op: u32, name: String },
    /// Add a passkey to the signed-in account under operation `op`.
    AddPasskey { op: u32 },
    /// Finish the ceremony just prepared.
    Finish,
    SignOut,
    /// Ask which account the cookie holds, after a session change.
    Check,
}

/// What a step asks of the caller besides the new state.
#[derive(Clone, Debug, PartialEq, Eq)]
pub struct Reaction {
    /// Whether anything shown changed.
    pub redraw: bool,
    /// The dialog is opening: remember the focused element, to give focus
    /// back when it closes.
    pub remember_opener: bool,
    /// Answer the ask that was waiting before this step.
    pub answer: Option<bool>,
    /// The request to send, if any.
    pub request: Option<Request>,
}

/// The account as the page holds it.
#[derive(Clone, Debug, PartialEq, Eq)]
pub struct AccountState {
    /// The signed-in username; `None` when signed out or not yet known.
    pub username: Option<String>,
    /// `Some` while the sign-in dialog is open, with the reason a page
    /// gave, if it was opened for one.
    pub dialog: Option<Option<String>>,
    /// A page's ask is waiting for its answer.
    pub waiting: bool,
    /// A ceremony preparing, or a passkey being added: nothing that changes
    /// the session yet.
    pub preparing: bool,
    pub settle: Option<Settle>,
    /// The last sign-in failure, shown in the dialog.
    pub error: Option<String>,
    /// The outcome of adding a passkey or signing out.
    pub notice: Option<String>,
    /// The number of the latest operation that doesn't change the session.
    pub op: u32,
}

/// [`AccountState`] with its texts as character sequences.
pub struct AccountModel {
    pub username: Option<Seq<char>>,
    pub dialog: Option<Option<Seq<char>>>,
    pub waiting: bool,
    pub preparing: bool,
    pub settle: Option<Settle>,
    pub error: Option<Seq<char>>,
    pub notice: Option<Seq<char>>,
    pub op: u32,
}

/// The characters of an optional text.
pub open spec fn text_of(t: Option<String>) -> Option<Seq<char>> {
    match t {
        Some(s) => Some(s@),
        None => None,
    }
}

impl View for AccountState {
    type V = AccountModel;

    open spec fn view(&self) -> AccountModel {
        AccountModel {
            username: text_of(self.username),
            dialog: match self.dialog {
                Some(reason) => Some(text_of(reason)),
                None => None,
            },
            waiting: self.waiting,
            preparing: self.preparing,
            settle: self.settle,
            error: text_of(self.error),
            notice: text_of(self.notice),
            op: self.op,
        }
    }
}

/// The state before anything has happened.
pub open spec fn initial() -> AccountModel {
    AccountModel {
        username: None,
        dialog: None,
        waiting: false,
        preparing: false,
        settle: None,
        error: None,
        notice: None,
        op: 0,
    }
}

/// Some operation is running, so the control starts no other.
pub open spec fn busy(s: AccountModel) -> bool {
    s.preparing || s.settle is Some
}

/// The lock after its dialog closed or was replaced: a finish or check
/// under way no longer answers anything.
pub open spec fn detached(s: Settle) -> Settle {
    match s {
        Settle::Finish { .. } => Settle::Finish { current: false },
        Settle::SignOut => Settle::SignOut,
        Settle::Check { .. } => Settle::Check { answer: false },
    }
}

/// The dialog closed or a newer ask replaced its ask: a ceremony still
/// preparing is dropped (its number is no longer the latest), and one
/// settling no longer answers anything.
pub open spec fn detach(s: AccountModel) -> AccountModel {
    AccountModel {
        op: (s.op + 1) as u32,
        preparing: false,
        settle: match s.settle {
            Some(x) => Some(detached(x)),
            None => None,
        },
        ..s
    }
}

/// The event is a response under an operation number that is no longer
/// the latest.
pub open spec fn stale(s: AccountModel, e: AccountEvent) -> bool {
    match e {
        AccountEvent::Me { op, .. } => op != s.op,
        AccountEvent::Prepared { op, .. } => op != s.op,
        AccountEvent::Added { op, .. } => op != s.op,
        _ => false,
    }
}

/// The event starts a new operation number.
pub open spec fn numbers(s: AccountModel, e: AccountEvent) -> bool {
    match e {
        AccountEvent::Ask { .. } => true,
        AccountEvent::Act(a) => match a {
            Action::Open => false,
            Action::Close => true,
            _ => !busy(s),
        },
        _ => false,
    }
}

/// The step is defined: a new operation number fits in `u32`.
pub open spec fn update_defined(s: AccountModel, e: AccountEvent) -> bool {
    numbers(s, e) ==> s.op < u32::MAX
}

/// The message shown when a check finds the sign-in didn't take.
pub open spec fn not_taken_text() -> Seq<char> {
    "The sign-in didn't take effect. Try again."@
}

/// The notice after a passkey was added.
pub open spec fn added_text() -> Seq<char> {
    "Passkey added. You can sign in with either."@
}

/// The message shown when the check itself failed with `e`.
pub open spec fn check_failed_text(e: Seq<char>) -> Seq<char> {
    "Couldn't check your sign-in: "@ + e
}

/// The state after event `e` in state `s`.
pub open spec fn next(s: AccountModel, e: AccountEvent) -> AccountModel {
    if stale(s, e) {
        s
    } else {
        match e {
            AccountEvent::Me { result, .. } => match result {
                Ok(Some(u)) => AccountModel { username: Some(u@), dialog: None, ..s },
                _ => s,
            },
            AccountEvent::Ask { reason } => AccountModel {
                username: None,
                waiting: true,
                dialog: Some(Some(reason@)),
                error: None,
                ..detach(s)
            },
            AccountEvent::Act(a) => match a {
                Action::Open => AccountModel {
                    dialog: if s.dialog is None {
                        Some(None)
                    } else {
                        s.dialog
                    },
                    error: None,
                    ..s
                },
                Action::Close => AccountModel { dialog: None, error: None, waiting: false, ..detach(s) },
                _ => if busy(s) {
                    s
                } else {
                    match a {
                        Action::AddPasskey => AccountModel {
                            op: (s.op + 1) as u32,
                            preparing: true,
                            notice: None,
                            ..s
                        },
                        Action::SignOut => AccountModel {
                            op: (s.op + 1) as u32,
                            notice: None,
                            settle: Some(Settle::SignOut),
                            ..s
                        },
                        _ => AccountModel { op: (s.op + 1) as u32, preparing: true, error: None, ..s },
                    }
                },
            },
            AccountEvent::Prepared { result, .. } => match result {
                Ok(_) => AccountModel {
                    preparing: false,
                    settle: Some(Settle::Finish { current: true }),
                    ..s
                },
                Err(m) => AccountModel { preparing: false, error: Some(m@), ..s },
            },
            AccountEvent::Added { result, .. } => AccountModel {
                preparing: false,
                notice: Some(
                    match result {
                        Ok(_) => added_text(),
                        Err(m) => m@,
                    },
                ),
                ..s
            },
            AccountEvent::Finished(result) => {
                let current = s.settle == Some(Settle::Finish { current: true });
                match result {
                    Ok(_) => AccountModel {
                        settle: Some(
                            if current {
                                Settle::Check { answer: true }
                            } else {
                                Settle::SignOut
                            },
                        ),
                        ..s
                    },
                    Err(m) => AccountModel {
                        error: if current {
                            Some(m@)
                        } else {
                            s.error
                        },
                        settle: Some(Settle::Check { answer: false }),
                        ..s
                    },
                }
            },
            AccountEvent::SignedOut(result) => AccountModel {
                notice: match result {
                    Ok(_) => s.notice,
                    Err(m) => Some(m@),
                },
                settle: Some(Settle::Check { answer: false }),
                ..s
            },
            AccountEvent::Checked(result) => {
                let answer = s.settle == Some(Settle::Check { answer: true });
                match result {
                    Ok(Some(u)) => AccountModel {
                        settle: None,
                        username: Some(u@),
                        dialog: None,
                        error: None,
                        waiting: false,
                        ..s
                    },
                    Ok(None) => AccountModel {
                        settle: None,
                        username: None,
                        error: if answer {
                            Some(not_taken_text())
                        } else {
                            s.error
                        },
                        ..s
                    },
                    Err(m) => AccountModel {
                        settle: None,
                        username: None,
                        error: Some(check_failed_text(m@)),
                        ..s
                    },
                }
            },
        }
    }
}

/// A step that changes nothing shown and asks for nothing.
pub open spec fn quiet() -> Reaction {
    Reaction { redraw: false, remember_opener: false, answer: None, request: None }
}

/// A step that redraws and sends `request`.
pub open spec fn sends(request: Option<Request>) -> Reaction {
    Reaction { redraw: true, remember_opener: false, answer: None, request }
}

/// What the waiting ask, if any, is answered.
pub open spec fn answer_if(s: AccountModel, b: bool) -> Option<bool> {
    if s.waiting {
        Some(b)
    } else {
        None
    }
}

/// What the caller must do after event `e` in state `s`.
pub open spec fn reaction(s: AccountModel, e: AccountEvent) -> Reaction {
    if stale(s, e) {
        quiet()
    } else {
        match e {
            AccountEvent::Me { result, .. } => match result {
                Ok(Some(_)) => sends(None),
                _ => quiet(),
            },
            AccountEvent::Ask { .. } => Reaction {
                redraw: true,
                remember_opener: s.dialog is None,
                answer: answer_if(s, false),
                request: None,
            },
            AccountEvent::Act(a) => match a {
                Action::Open => Reaction {
                    redraw: true,
                    remember_opener: s.dialog is None,
                    answer: None,
                    request: None,
                },
                Action::Close => Reaction {
                    redraw: true,
                    remember_opener: false,
                    answer: answer_if(s, false),
                    request: None,
                },
                _ => if busy(s) {
                    quiet()
                } else {
                    sends(
                        Some(
                            match a {
                                Action::Register(name) => Request::PrepareRegistration {
                                    op: (s.op + 1) as u32,
                                    name,
                                },
                                Action::AddPasskey => Request::AddPasskey { op: (s.op + 1) as u32 },
                                Action::SignOut => Request::SignOut,
                                _ => Request::PrepareSignIn { op: (s.op + 1) as u32 },
                            },
                        ),
                    )
                },
            },
            AccountEvent::Prepared { result, .. } => sends(
                if result is Ok {
                    Some(Request::Finish)
                } else {
                    None
                },
            ),
            AccountEvent::Added { .. } => sends(None),
            AccountEvent::Finished(result) => sends(
                Some(
                    if result is Ok && s.settle != Some(Settle::Finish { current: true }) {
                        Request::SignOut
                    } else {
                        Request::Check
                    },
                ),
            ),
            AccountEvent::SignedOut(_) => sends(Some(Request::Check)),
            AccountEvent::Checked(result) => Reaction {
                redraw: true,
                remember_opener: false,
                answer: match result {
                    Ok(Some(_)) => answer_if(s, s.settle == Some(Settle::Check { answer: true })),
                    _ => None,
                },
                request: None,
            },
        }
    }
}

impl AccountState {
    /// The state at startup, and the request for which account the cookie
    /// holds.
    pub fn new() -> (r: (AccountState, Request))
        ensures
            r.0@ == initial(),
            r.1 == (Request::Me { op: 0 }),
    {
        (
            AccountState {
                username: None,
                dialog: None,
                waiting: false,
                preparing: false,
                settle: None,
                error: None,
                notice: None,
                op: 0,
            },
            Request::Me { op: 0 },
        )
    }

    /// Some operation is running.
    pub fn busy(&self) -> (r: bool)
        ensures
            r == busy(self@),
    {
        self.preparing || self.settle.is_some()
    }

    fn detach(&mut self)
        requires
            old(self).op < u32::MAX,
        ensures
            final(self)@ == detach(old(self)@),
    {
        self.op = self.op + 1;
        self.preparing = false;
        self.settle = match self.settle {
            Some(Settle::Finish { .. }) => Some(Settle::Finish { current: false }),
            Some(Settle::Check { .. }) => Some(Settle::Check { answer: false }),
            other => other,
        };
    }

    /// Answer the waiting ask, if any, with `b`.
    fn answer(&mut self, b: bool) -> (r: Option<bool>)
        ensures
            r == answer_if(old(self)@, b),
            final(self)@ == (AccountModel { waiting: false, ..old(self)@ }),
    {
        if self.waiting {
            self.waiting = false;
            Some(b)
        } else {
            None
        }
    }

    /// Take event `e`: the new state, and what the caller must do.
    pub fn update(&mut self, e: AccountEvent) -> (r: Reaction)
        requires
            update_defined(old(self)@, e),
        ensures
            final(self)@ == next(old(self)@, e),
            r == reaction(old(self)@, e),
    {
        let quiet = Reaction { redraw: false, remember_opener: false, answer: None, request: None };
        match e {
            AccountEvent::Me { op, result } => {
                if op != self.op {
                    return quiet;
                }
                match result {
                    Ok(Some(u)) => {
                        self.username = Some(u);
                        self.dialog = None;
                        Reaction { redraw: true, ..quiet }
                    },
                    _ => quiet,
                }
            },
            AccountEvent::Ask { reason } => {
                let remember_opener = self.dialog.is_none();
                self.detach();
                self.username = None;
                let answer = self.answer(false);
                self.waiting = true;
                self.dialog = Some(Some(reason));
                self.error = None;
                Reaction { redraw: true, remember_opener, answer, request: None }
            },
            AccountEvent::Act(a) => {
                match a {
                    Action::Open => {
                        let remember_opener = self.dialog.is_none();
                        if remember_opener {
                            self.dialog = Some(None);
                        }
                        self.error = None;
                        return Reaction { redraw: true, remember_opener, answer: None, request: None };
                    },
                    Action::Close => {
                        self.detach();
                        self.dialog = None;
                        self.error = None;
                        let answer = self.answer(false);
                        return Reaction { redraw: true, remember_opener: false, answer, request: None };
                    },
                    _ => {},
                }
                if self.busy() {
                    return quiet;
                }
                self.op = self.op + 1;
                let request = match a {
                    Action::Register(name) => {
                        self.preparing = true;
                        self.error = None;
                        Request::PrepareRegistration { op: self.op, name }
                    },
                    Action::AddPasskey => {
                        self.preparing = true;
                        self.notice = None;
                        Request::AddPasskey { op: self.op }
                    },
                    Action::SignOut => {
                        self.notice = None;
                        self.settle = Some(Settle::SignOut);
                        Request::SignOut
                    },
                    _ => {
                        self.preparing = true;
                        self.error = None;
                        Request::PrepareSignIn { op: self.op }
                    },
                };
                Reaction { redraw: true, remember_opener: false, answer: None, request: Some(request) }
            },
            AccountEvent::Prepared { op, result } => {
                if op != self.op {
                    return quiet;
                }
                self.preparing = false;
                match result {
                    Ok(()) => {
                        self.settle = Some(Settle::Finish { current: true });
                        Reaction { redraw: true, request: Some(Request::Finish), ..quiet }
                    },
                    Err(m) => {
                        self.error = Some(m);
                        Reaction { redraw: true, ..quiet }
                    },
                }
            },
            AccountEvent::Added { op, result } => {
                if op != self.op {
                    return quiet;
                }
                self.preparing = false;
                self.notice = Some(
                    match result {
                        Ok(()) => owned("Passkey added. You can sign in with either."),
                        Err(m) => m,
                    },
                );
                Reaction { redraw: true, ..quiet }
            },
            AccountEvent::Finished(result) => {
                let current = match self.settle {
                    Some(Settle::Finish { current }) => current,
                    _ => false,
                };
                let request = match result {
                    Ok(_) => {
                        if current {
                            self.settle = Some(Settle::Check { answer: true });
                            Request::Check
                        } else {
                            // Cancelled while it finished, so sign that
                            // session out again before anything else starts.
                            self.settle = Some(Settle::SignOut);
                            Request::SignOut
                        }
                    },
                    Err(m) => {
                        if current {
                            self.error = Some(m);
                        }
                        self.settle = Some(Settle::Check { answer: false });
                        Request::Check
                    },
                };
                Reaction { redraw: true, request: Some(request), ..quiet }
            },
            AccountEvent::SignedOut(result) => {
                if let Err(m) = result {
                    self.notice = Some(m);
                }
                self.settle = Some(Settle::Check { answer: false });
                Reaction { redraw: true, request: Some(Request::Check), ..quiet }
            },
            AccountEvent::Checked(result) => {
                let answer = match self.settle {
                    Some(Settle::Check { answer }) => answer,
                    _ => false,
                };
                self.settle = None;
                match result {
                    Ok(Some(u)) => {
                        // The cookie holds this account, so it is the one
                        // shown. Only a sign-in still wanted answers yes.
                        self.username = Some(u);
                        self.dialog = None;
                        self.error = None;
                        let answer = self.answer(answer);
                        Reaction { redraw: true, answer, ..quiet }
                    },
                    Ok(None) => {
                        self.username = None;
                        if answer {
                            self.error = Some(owned("The sign-in didn't take effect. Try again."));
                        }
                        Reaction { redraw: true, ..quiet }
                    },
                    Err(m) => {
                        self.username = None;
                        let mut text = owned("Couldn't check your sign-in: ");
                        text.append(m.as_str());
                        self.error = Some(text);
                        Reaction { redraw: true, ..quiet }
                    },
                }
            },
        }
    }
}

/// A request in flight, by kind and operation number.
#[derive(Clone, Copy, Debug, PartialEq, Eq, Structural)]
pub enum Pending {
    Me(u32),
    Prep(u32),
    Add(u32),
    Finish,
    SignOut,
    Check,
}

/// The kind of `r` in flight.
pub open spec fn pending_of(r: Request) -> Pending {
    match r {
        Request::Me { op } => Pending::Me(op),
        Request::PrepareSignIn { op } => Pending::Prep(op),
        Request::PrepareRegistration { op, .. } => Pending::Prep(op),
        Request::AddPasskey { op } => Pending::Add(op),
        Request::Finish => Pending::Finish,
        Request::SignOut => Pending::SignOut,
        Request::Check => Pending::Check,
    }
}

/// The request that `e` answers, if it is a response.
pub open spec fn answered(e: AccountEvent) -> Option<Pending> {
    match e {
        AccountEvent::Me { op, .. } => Some(Pending::Me(op)),
        AccountEvent::Prepared { op, .. } => Some(Pending::Prep(op)),
        AccountEvent::Added { op, .. } => Some(Pending::Add(op)),
        AccountEvent::Finished(_) => Some(Pending::Finish),
        AccountEvent::SignedOut(_) => Some(Pending::SignOut),
        AccountEvent::Checked(_) => Some(Pending::Check),
        _ => None,
    }
}

/// The requests in flight after event `e` in state `s`, when `out` were
/// in flight before: the one `e` answers is done, and the one the step
/// sends is added.
pub open spec fn in_flight_after(s: AccountModel, out: Multiset<Pending>, e: AccountEvent) -> Multiset<Pending> {
    let rest = match answered(e) {
        Some(p) => out.remove(p),
        None => out,
    };
    match reaction(s, e).request {
        Some(r) => rest.insert(pending_of(r)),
        None => rest,
    }
}

/// How many requests that change the session, or check it after a change,
/// are in flight.
pub open spec fn session_requests(out: Multiset<Pending>) -> nat {
    out.count(Pending::Finish) + out.count(Pending::SignOut) + out.count(Pending::Check)
}

/// The state and the requests in flight agree: the lock is held exactly
/// while its one session request is out, no request carries a number
/// newer than the latest, and exactly one request under the latest number
/// is preparing while `preparing` holds.
pub open spec fn system_ok(s: AccountModel, out: Multiset<Pending>) -> bool {
    &&& out.count(Pending::Finish) == (if s.settle matches Some(Settle::Finish { .. }) {
        1nat
    } else {
        0nat
    })
    &&& out.count(Pending::SignOut) == (if s.settle == Some(Settle::SignOut) {
        1nat
    } else {
        0nat
    })
    &&& out.count(Pending::Check) == (if s.settle matches Some(Settle::Check { .. }) {
        1nat
    } else {
        0nat
    })
    &&& forall|o: u32| o > s.op ==> #[trigger] out.count(Pending::Me(o)) == 0
    &&& forall|o: u32| o > s.op ==> #[trigger] out.count(Pending::Prep(o)) == 0
    &&& forall|o: u32| o > s.op ==> #[trigger] out.count(Pending::Add(o)) == 0
    &&& out.count(Pending::Prep(s.op)) + out.count(Pending::Add(s.op)) == (if s.preparing {
        1nat
    } else {
        0nat
    })
    &&& !(s.preparing && s.settle is Some)
}

/// At startup the only request in flight is the first check of the
/// account, and the state agrees with it.
pub proof fn law_startup_agrees()
    ensures
        system_ok(initial(), Multiset::singleton(Pending::Me(0))),
{
}

/// Requests that change the session run one at a time: from a state that
/// agrees with the requests in flight, any action, ask, or response to a
/// request in flight leads to a state that agrees with the requests then
/// in flight, and at no point is more than one session request out.
pub proof fn law_session_changes_one_at_a_time(s: AccountModel, out: Multiset<Pending>, e: AccountEvent)
    requires
        system_ok(s, out),
        update_defined(s, e),
        answered(e) matches Some(p) ==> out.count(p) > 0,
    ensures
        system_ok(next(s, e), in_flight_after(s, out, e)),
        session_requests(in_flight_after(s, out, e)) <= 1,
{
    let t = next(s, e);
    let after = in_flight_after(s, out, e);
    assert forall|o: u32| o > t.op implies #[trigger] after.count(Pending::Me(o)) == 0 by {}
    assert forall|o: u32| o > t.op implies #[trigger] after.count(Pending::Prep(o)) == 0 by {}
    assert forall|o: u32| o > t.op implies #[trigger] after.count(Pending::Add(o)) == 0 by {}
}

/// A ceremony cancelled before its finish never sends one: once the
/// dialog closes or a newer ask replaces it, nothing under the latest
/// number is preparing, so the dropped ceremony's response is stale.
pub proof fn law_cancelled_ceremony_is_dropped(s: AccountModel, out: Multiset<Pending>, e: AccountEvent)
    requires
        system_ok(s, out),
        update_defined(s, e),
        e is Ask || e == AccountEvent::Act(Action::Close),
    ensures
        !next(s, e).preparing,
        in_flight_after(s, out, e).count(Pending::Prep(next(s, e).op)) == 0,
        in_flight_after(s, out, e).count(Pending::Add(next(s, e).op)) == 0,
        forall|r: Result<(), String>|
            #[trigger] reaction(next(s, e), (AccountEvent::Prepared { op: s.op, result: r })) == quiet(),
{
    law_session_changes_one_at_a_time(s, out, e);
}

/// A response under a number that is no longer the latest changes
/// nothing and asks for nothing.
pub proof fn law_stale_responses_ignored(s: AccountModel, e: AccountEvent)
    requires
        stale(s, e),
    ensures
        next(s, e) == s,
        reaction(s, e) == quiet(),
{
}

/// One operation at a time, however the form is submitted: while one
/// runs, a sign-in, registration, passkey or sign-out action changes
/// nothing and sends nothing.
pub proof fn law_one_operation_at_a_time(s: AccountModel, a: Action)
    requires
        busy(s),
        a != Action::Open,
        a != Action::Close,
    ensures
        next(s, AccountEvent::Act(a)) == s,
        reaction(s, AccountEvent::Act(a)) == quiet(),
{
}

/// The lock is released only by the check of which account the cookie
/// holds.
pub proof fn law_lock_released_only_by_check(s: AccountModel, e: AccountEvent)
    requires
        s.settle is Some,
        next(s, e).settle is None,
    ensures
        e is Checked,
{
}

/// The displayed account is always the one the server says the cookie
/// holds: it changes only to the answer of a check (or the startup check),
/// or to signed out when a page asks for a sign-in.
pub proof fn law_shown_account_is_the_servers(s: AccountModel, e: AccountEvent)
    requires
        next(s, e).username != s.username,
    ensures
        (e is Ask && next(s, e).username is None) || (e matches AccountEvent::Me {
            result: Ok(Some(u)),
            ..
        } && next(s, e).username == Some(u@)) || (e matches AccountEvent::Checked(r) && next(
            s,
            e,
        ).username == match r {
            Ok(x) => text_of(x),
            Err(_) => None,
        }),
{
}

/// An ask is answered once: an answer goes only to an ask that was
/// waiting, and afterwards no ask waits unless a new one just arrived.
pub proof fn law_answered_once(s: AccountModel, e: AccountEvent)
    requires
        reaction(s, e).answer is Some,
    ensures
        s.waiting,
        e is Ask || !next(s, e).waiting,
{
}

/// A sign-in cancelled while it finished is signed out again before
/// anything else can start, and a dismissed sign-in is never answered yes.
pub proof fn law_cancelled_sign_in_is_undone(s: AccountModel, r: Result<String, String>, c: Result<Option<String>, String>)
    requires
        r is Ok,
    ensures
        s.settle == Some(Settle::Finish { current: false }) ==> reaction(s, AccountEvent::Finished(r)).request
            == Some(Request::SignOut) && next(s, AccountEvent::Finished(r)).settle == Some(Settle::SignOut),
        s.settle != Some(Settle::Check { answer: true }) ==> reaction(s, AccountEvent::Checked(c)).answer
            != Some(true),
{
}

} // verus!
