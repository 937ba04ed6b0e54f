//! Sharing and submitting a board from the play screen, as a state machine.
//!
//! A Share or Submit pressed without a session freezes the board as it was
//! then and asks for a sign-in; the frozen board is sent once, and only if
//! that sign-in succeeds. Asks are numbered, so an answer to a replaced ask
//! is ignored. The caller performs the action each step returns and feeds
//! back what happened.
use vstd::prelude::*;
use crate::shape::{law_names_read_back, spec_plural, Shape};
use crate::text::{decimal, owned, push_decimal};

verus! {

/// A board code with the piece count it is for.
#[derive(Clone, Debug, PartialEq, Eq)]
pub struct BoardCode {
    pub n: u32,
    pub code: String,
}

/// A request frozen while a sign-in is asked for.
#[derive(Clone, Debug, PartialEq, Eq)]
pub enum Pending {
    Share(BoardCode),
    Submit(BoardCode),
}

/// Why a sign-in is needed, or what became of the request that needed it.
#[derive(Clone, Copy, Debug, PartialEq, Eq, Structural)]
pub enum Note {
    Share,
    Submit,
    SubmitUncertified,
    ExpiredShare,
    ExpiredSubmit,
    Unshared,
    Unsubmitted,
}

/// The text of a note.
pub open spec fn note_text(n: Note) -> Seq<char> {
    match n {
        Note::Share => "Sign in to share. This board is kept as it is now and shared once you sign in."@,
        Note::Submit => "Sign in to submit. This board is kept as it is now and submitted once you sign in."@,
        Note::SubmitUncertified => "Sign in to submit, then press Submit packing to settle and submit."@,
        Note::ExpiredShare => "You're signed out. Sign in again to share this board."@,
        Note::ExpiredSubmit => "You're signed out. Sign in again to submit this board."@,
        Note::Unshared => "Not signed in, so nothing was shared."@,
        Note::Unsubmitted => "Not signed in, so nothing was submitted."@,
    }
}

impl Note {
    /// The note as shown.
    pub fn text(self) -> (r: &'static str)
        ensures
            r@ == note_text(self),
    {
        match self {
            Note::Share => "Sign in to share. This board is kept as it is now and shared once you sign in.",
            Note::Submit => "Sign in to submit. This board is kept as it is now and submitted once you sign in.",
            Note::SubmitUncertified => "Sign in to submit, then press Submit packing to settle and submit.",
            Note::ExpiredShare => "You're signed out. Sign in again to share this board.",
            Note::ExpiredSubmit => "You're signed out. Sign in again to submit this board.",
            Note::Unshared => "Not signed in, so nothing was shared.",
            Note::Unsubmitted => "Not signed in, so nothing was submitted.",
        }
    }
}

/// The line under the Share button.
#[derive(Clone, Copy, Debug, PartialEq, Eq, Structural)]
pub enum ShareStatus {
    Empty,
    Creating,
    Copied,
    Ready,
}

/// The text of a share status.
pub open spec fn share_status_text(s: ShareStatus) -> Seq<char> {
    match s {
        ShareStatus::Empty => ""@,
        ShareStatus::Creating => "Creating a short link…"@,
        ShareStatus::Copied => "Board link copied to the clipboard."@,
        ShareStatus::Ready => "Short link ready. Tap Copy link, or select and copy it below."@,
    }
}

impl ShareStatus {
    /// The status as shown.
    pub fn text(self) -> (r: &'static str)
        ensures
            r@ == share_status_text(self),
    {
        match self {
            ShareStatus::Empty => "",
            ShareStatus::Creating => "Creating a short link…",
            ShareStatus::Copied => "Board link copied to the clipboard.",
            ShareStatus::Ready => "Short link ready. Tap Copy link, or select and copy it below.",
        }
    }
}

/// The alert shown after a Share finally failed.
pub open spec fn share_failed_text() -> Seq<char> {
    "Couldn't create a short link. Check your connection, then press Share to try again."@
}

/// The alert shown after a Share finally failed.
pub fn share_failed_message() -> (r: &'static str)
    ensures
        r@ == share_failed_text(),
{
    "Couldn't create a short link. Check your connection, then press Share to try again."
}

/// How a submission ended.
#[derive(Clone, Debug, PartialEq, Eq)]
pub enum SubmitResult {
    /// Saved at this rank.
    Saved { rank: u32 },
    /// The session had ended.
    SignedOut,
    /// Refused or failed, with the message to show.
    Failed(String),
}

/// How creating a short link ended.
#[derive(Clone, Debug, PartialEq, Eq)]
pub enum ShareResult {
    Created { url: String },
    Cancelled,
    SignedOut,
    Failed,
}

/// A status message for the play screen.
#[derive(Clone, Debug, PartialEq, Eq)]
pub enum Status {
    /// A submission was saved at `rank` among boards of `n` pieces of
    /// `shape`.
    Saved { rank: u32, n: u32, shape: Shape },
    /// An error to show as is.
    Error(String),
}

/// The text of a saved submission's status.
pub open spec fn saved_text(rank: u32, n: u32, shape: Shape) -> Seq<char> {
    "Saved! Rank #"@ + decimal(rank as nat) + " for "@ + decimal(n as nat) + " "@ + spec_plural(shape) + "."@
}

impl Status {
    /// The status as shown, and whether it is an error.
    pub fn text(&self) -> (r: (String, bool))
        ensures
            match self {
                Status::Saved { rank, n, shape } => r.0@ == saved_text(*rank, *n, *shape) && !r.1,
                Status::Error(m) => r.0@ == m@ && r.1,
            },
    {
        match self {
            Status::Saved { rank, n, shape } => {
                let mut t = owned("Saved! Rank #");
                push_decimal(&mut t, *rank);
                t.append(" for ");
                push_decimal(&mut t, *n);
                t.append(" ");
                t.append(shape.plural());
                t.append(".");
                (t, false)
            },
            Status::Error(m) => (m.clone(), true),
        }
    }
}

/// What happened.
#[derive(Debug, PartialEq, Eq)]
pub enum PublishEvent {
    /// Submit pressed: whether there is a session, the certified board if
    /// the packing is certified, and whether a settle is running.
    Submit { signed_in: bool, certified: Option<BoardCode>, settling: bool },
    /// A submission of `board` for `n` pieces of `shape` ended.
    Submitted { board: BoardCode, n: u32, shape: Shape, result: SubmitResult },
    /// Share pressed, with the board as it is now.
    Share { signed_in: bool, board: BoardCode },
    /// Creating the short link for `body` ended.
    ShareCreated { body: BoardCode, result: ShareResult },
    /// Copy link pressed.
    CopyShare,
    /// The answer to sign-in ask `id`.
    SignedIn { id: u32, signed_in: bool },
    /// The clipboard write ended.
    Shared { copied: bool },
    /// A measurement ended: the certified board, if the packing certified.
    Measured { certified: Option<BoardCode> },
    /// The settle stopped, failed or was cancelled.
    SettleStopped,
}

/// What the caller must do.
#[derive(Debug, PartialEq, Eq)]
pub enum PublishAction {
    /// Ask the account for a sign-in for `note`; its answer comes back as
    /// [`PublishEvent::SignedIn`] with `id`.
    AskSignIn { id: u32, note: Note },
    /// Submit this board for the signed-in account.
    SendSubmit(BoardCode),
    /// Create a short link for this board, retrying as the policy allows.
    StartShare(BoardCode),
    /// Copy the short link to the clipboard.
    CopyLink,
    /// Settle and measure the packing.
    Measure,
    /// Show a status message.
    ShowStatus(Status),
}

/// The publishing part of the play screen.
#[derive(Clone, Debug, PartialEq, Eq)]
pub struct Publish {
    /// Sent once, and only if the sign-in it asked for succeeds.
    pub pending: Option<Pending>,
    /// The number of the latest sign-in ask.
    pub ask_id: u32,
    pub note: Option<Note>,
    pub submitting: bool,
    pub sharing: bool,
    pub short_share: Option<String>,
    pub share_status: ShareStatus,
    /// A Share finally failed; shown until the next Share.
    pub share_failed: bool,
    /// Submit as soon as the measurement under way certifies the packing.
    pub submit_after_measure: bool,
}

/// What a step asks of the caller.
#[derive(Debug, PartialEq, Eq)]
pub struct PublishStep {
    /// Whether anything shown changed.
    pub redraw: bool,
    pub action: Option<PublishAction>,
}

/// The state after asking for a sign-in for `note`, holding `pending`.
pub open spec fn asked(s: Publish, pending: Option<Pending>, note: Note) -> Publish {
    Publish { ask_id: (s.ask_id + 1) as u32, pending, note: Some(note), ..s }
}

/// The state after sending a submission.
pub open spec fn submitted(s: Publish) -> Publish {
    Publish { submitting: true, note: None, ..s }
}

/// The state after starting a share.
pub open spec fn sharing(s: Publish) -> Publish {
    Publish {
        sharing: true,
        short_share: None,
        share_failed: false,
        note: None,
        share_status: ShareStatus::Creating,
        ..s
    }
}

/// A step that redraws and asks `action`.
pub open spec fn does(action: PublishAction) -> PublishStep {
    PublishStep { redraw: true, action: Some(action) }
}

/// A step that asks nothing, redrawing or not.
pub open spec fn shows(redraw: bool) -> PublishStep {
    PublishStep { redraw, action: None }
}

/// The step is defined: a new ask number fits in `u32`.
pub open spec fn publish_defined(s: Publish, e: PublishEvent) -> bool {
    let asks = match e {
        PublishEvent::Submit { signed_in, .. } => !signed_in,
        PublishEvent::Submitted { result, .. } => result is SignedOut,
        PublishEvent::Share { signed_in, .. } => !s.sharing && !signed_in,
        PublishEvent::ShareCreated { result, .. } => result is SignedOut,
        _ => false,
    };
    asks ==> s.ask_id < u32::MAX
}

/// The state and what to do after event `e` in state `s`.
pub open spec fn spec_publish(s: Publish, e: PublishEvent) -> (Publish, PublishStep) {
    match e {
        PublishEvent::Submit { signed_in, certified, settling } => if !signed_in {
            match certified {
                Some(b) => (
                    asked(s, Some(Pending::Submit(b)), Note::Submit),
                    does(PublishAction::AskSignIn { id: (s.ask_id + 1) as u32, note: Note::Submit }),
                ),
                None => (
                    asked(s, None, Note::SubmitUncertified),
                    does(
                        PublishAction::AskSignIn {
                            id: (s.ask_id + 1) as u32,
                            note: Note::SubmitUncertified,
                        },
                    ),
                ),
            }
        } else {
            match certified {
                Some(b) => (submitted(s), does(PublishAction::SendSubmit(b))),
                None => (
                    Publish { submit_after_measure: true, ..s },
                    if settling {
                        shows(true)
                    } else {
                        does(PublishAction::Measure)
                    },
                ),
            }
        },
        PublishEvent::Submitted { board, n, shape, result } => {
            let t = Publish { submitting: false, ..s };
            match result {
                SubmitResult::Saved { rank } => (
                    t,
                    does(PublishAction::ShowStatus(Status::Saved { rank, n, shape })),
                ),
                SubmitResult::SignedOut => (
                    asked(t, Some(Pending::Submit(board)), Note::ExpiredSubmit),
                    does(PublishAction::AskSignIn { id: (s.ask_id + 1) as u32, note: Note::ExpiredSubmit }),
                ),
                SubmitResult::Failed(m) => (t, does(PublishAction::ShowStatus(Status::Error(m)))),
            }
        },
        PublishEvent::Share { signed_in, board } => if s.sharing {
            (s, shows(false))
        } else if !signed_in {
            (
                asked(s, Some(Pending::Share(board)), Note::Share),
                does(PublishAction::AskSignIn { id: (s.ask_id + 1) as u32, note: Note::Share }),
            )
        } else {
            (sharing(s), does(PublishAction::StartShare(board)))
        },
        PublishEvent::ShareCreated { body, result } => match result {
            ShareResult::Created { url } => (
                Publish { short_share: Some(url), ..s },
                does(PublishAction::CopyLink),
            ),
            ShareResult::Cancelled => (s, shows(false)),
            ShareResult::SignedOut => (
                asked(
                    Publish { sharing: false, share_status: ShareStatus::Empty, ..s },
                    Some(Pending::Share(body)),
                    Note::ExpiredShare,
                ),
                does(PublishAction::AskSignIn { id: (s.ask_id + 1) as u32, note: Note::ExpiredShare }),
            ),
            ShareResult::Failed => (
                Publish { sharing: false, share_status: ShareStatus::Empty, share_failed: true, ..s },
                shows(true),
            ),
        },
        PublishEvent::CopyShare => if s.sharing {
            (s, shows(true))
        } else {
            (Publish { sharing: true, ..s }, does(PublishAction::CopyLink))
        },
        PublishEvent::SignedIn { id, signed_in } => if id != s.ask_id {
            (s, shows(false))
        } else {
            let t = Publish { pending: None, ..s };
            match s.pending {
                Some(Pending::Share(b)) => if signed_in {
                    (sharing(t), does(PublishAction::StartShare(b)))
                } else {
                    (Publish { note: Some(Note::Unshared), ..t }, shows(true))
                },
                Some(Pending::Submit(b)) => if signed_in {
                    (submitted(t), does(PublishAction::SendSubmit(b)))
                } else {
                    (Publish { note: Some(Note::Unsubmitted), ..t }, shows(true))
                },
                None => (Publish { note: None, ..t }, shows(true)),
            }
        },
        PublishEvent::Shared { copied } => (
            Publish {
                sharing: false,
                share_status: if copied {
                    ShareStatus::Copied
                } else {
                    ShareStatus::Ready
                },
                ..s
            },
            shows(true),
        ),
        PublishEvent::Measured { certified } => {
            let t = Publish { submit_after_measure: false, ..s };
            match certified {
                Some(b) => if s.submit_after_measure {
                    (submitted(t), does(PublishAction::SendSubmit(b)))
                } else {
                    (t, shows(true))
                },
                None => (t, shows(true)),
            }
        },
        PublishEvent::SettleStopped => (Publish { submit_after_measure: false, ..s }, shows(true)),
    }
}

impl Publish {
    /// Nothing pending, nothing under way.
    pub fn new() -> (r: Publish)
        ensures
            r.pending is None,
            r.ask_id == 0,
            r.note is None,
            !r.submitting && !r.sharing && !r.share_failed && !r.submit_after_measure,
            r.short_share is None,
            r.share_status == ShareStatus::Empty,
    {
        Publish {
            pending: None,
            ask_id: 0,
            note: None,
            submitting: false,
            sharing: false,
            short_share: None,
            share_status: ShareStatus::Empty,
            share_failed: false,
            submit_after_measure: false,
        }
    }

    /// Hold `pending` and ask for a sign-in for `note`.
    fn ask(&mut self, pending: Option<Pending>, note: Note) -> (r: PublishStep)
        requires
            old(self).ask_id < u32::MAX,
        ensures
            *final(self) == asked(*old(self), pending, note),
            r == does(PublishAction::AskSignIn { id: (old(self).ask_id + 1) as u32, note }),
    {
        self.ask_id = self.ask_id + 1;
        self.pending = pending;
        self.note = Some(note);
        PublishStep { redraw: true, action: Some(PublishAction::AskSignIn { id: self.ask_id, note }) }
    }

    fn send_submit(&mut self, b: BoardCode) -> (r: PublishStep)
        ensures
            *final(self) == submitted(*old(self)),
            r == does(PublishAction::SendSubmit(b)),
    {
        self.submitting = true;
        self.note = None;
        PublishStep { redraw: true, action: Some(PublishAction::SendSubmit(b)) }
    }

    fn start_share(&mut self, b: BoardCode) -> (r: PublishStep)
        ensures
            *final(self) == sharing(*old(self)),
            r == does(PublishAction::StartShare(b)),
    {
        self.sharing = true;
        self.short_share = None;
        self.share_failed = false;
        self.note = None;
        self.share_status = ShareStatus::Creating;
        PublishStep { redraw: true, action: Some(PublishAction::StartShare(b)) }
    }

    /// Take event `e`: the new state, and what the caller must do.
    pub fn update(&mut self, e: PublishEvent) -> (r: PublishStep)
        requires
            publish_defined(*old(self), e),
        ensures
            (*final(self), r) == spec_publish(*old(self), e),
    {
        match e {
            PublishEvent::Submit { signed_in, certified, settling } => {
                if !signed_in {
                    // Only a certified packing can be frozen; without one,
                    // Submit is pressed again after signing in.
                    match certified {
                        Some(b) => self.ask(Some(Pending::Submit(b)), Note::Submit),
                        None => self.ask(None, Note::SubmitUncertified),
                    }
                } else {
                    match certified {
                        Some(b) => self.send_submit(b),
                        None => {
                            self.submit_after_measure = true;
                            // A settle in progress measures (and so submits)
                            // once it settles; restarting it would drop this.
                            if settling {
                                PublishStep { redraw: true, action: None }
                            } else {
                                PublishStep { redraw: true, action: Some(PublishAction::Measure) }
                            }
                        },
                    }
                }
            },
            PublishEvent::Submitted { board, n, shape, result } => {
                self.submitting = false;
                match result {
                    SubmitResult::Saved { rank } => PublishStep {
                        redraw: true,
                        action: Some(PublishAction::ShowStatus(Status::Saved { rank, n, shape })),
                    },
                    SubmitResult::SignedOut => self.ask(Some(Pending::Submit(board)), Note::ExpiredSubmit),
                    SubmitResult::Failed(m) => PublishStep {
                        redraw: true,
                        action: Some(PublishAction::ShowStatus(Status::Error(m))),
                    },
                }
            },
            PublishEvent::Share { signed_in, board } => {
                if self.sharing {
                    return PublishStep { redraw: false, action: None };
                }
                // The board is frozen as it is now: later edits never change
                // what this link contains, even if it waits for a sign-in.
                if !signed_in {
                    self.ask(Some(Pending::Share(board)), Note::Share)
                } else {
                    self.start_share(board)
                }
            },
            PublishEvent::ShareCreated { body, result } => match result {
                ShareResult::Created { url } => {
                    self.short_share = Some(url);
                    PublishStep { redraw: true, action: Some(PublishAction::CopyLink) }
                },
                ShareResult::Cancelled => PublishStep { redraw: false, action: None },
                ShareResult::SignedOut => {
                    self.sharing = false;
                    self.share_status = ShareStatus::Empty;
                    self.ask(Some(Pending::Share(body)), Note::ExpiredShare)
                },
                ShareResult::Failed => {
                    self.sharing = false;
                    self.share_status = ShareStatus::Empty;
                    self.share_failed = true;
                    PublishStep { redraw: true, action: None }
                },
            },
            PublishEvent::CopyShare => {
                if self.sharing {
                    PublishStep { redraw: true, action: None }
                } else {
                    self.sharing = true;
                    PublishStep { redraw: true, action: Some(PublishAction::CopyLink) }
                }
            },
            PublishEvent::SignedIn { id, signed_in } => {
                if id != self.ask_id {
                    return PublishStep { redraw: false, action: None };
                }
                let pending = self.pending.take();
                match pending {
                    Some(Pending::Share(b)) => {
                        if signed_in {
                            self.start_share(b)
                        } else {
                            self.note = Some(Note::Unshared);
                            PublishStep { redraw: true, action: None }
                        }
                    },
                    Some(Pending::Submit(b)) => {
                        if signed_in {
                            self.send_submit(b)
                        } else {
                            self.note = Some(Note::Unsubmitted);
                            PublishStep { redraw: true, action: None }
                        }
                    },
                    None => {
                        self.note = None;
                        PublishStep { redraw: true, action: None }
                    },
                }
            },
            PublishEvent::Shared { copied } => {
                self.sharing = false;
                self.share_status = if copied {
                    ShareStatus::Copied
                } else {
                    ShareStatus::Ready
                };
                PublishStep { redraw: true, action: None }
            },
            PublishEvent::Measured { certified } => {
                let submit = self.submit_after_measure;
                self.submit_after_measure = false;
                match certified {
                    Some(b) => {
                        if submit {
                            self.send_submit(b)
                        } else {
                            PublishStep { redraw: true, action: None }
                        }
                    },
                    None => PublishStep { redraw: true, action: None },
                }
            },
            PublishEvent::SettleStopped => {
                self.submit_after_measure = false;
                PublishStep { redraw: true, action: None }
            },
        }
    }
}

/// A frozen request is sent once, and only if the sign-in it asked for
/// succeeds: the answer to the latest ask sends exactly the frozen board
/// when it is yes and nothing when it is no, and leaves nothing pending, so
/// a repeated answer sends nothing more.
pub proof fn law_frozen_board_sent_once_on_yes(s: Publish, yes: bool)
    requires
        s.pending is Some,
    ensures
        ({
            let (t, r) = spec_publish(s, PublishEvent::SignedIn { id: s.ask_id, signed_in: yes });
            &&& t.pending is None
            &&& yes ==> match s.pending {
                Some(Pending::Share(b)) => r.action == Some(PublishAction::StartShare(b)),
                Some(Pending::Submit(b)) => r.action == Some(PublishAction::SendSubmit(b)),
                None => false,
            }
            &&& !yes ==> r.action is None
            &&& spec_publish(t, PublishEvent::SignedIn { id: s.ask_id, signed_in: yes }).1.action
                is None
        }),
{
}

/// An answer to a replaced ask is ignored.
pub proof fn law_replaced_ask_ignored(s: Publish, id: u32, yes: bool)
    requires
        id != s.ask_id,
    ensures
        spec_publish(s, PublishEvent::SignedIn { id, signed_in: yes }) == (s, shows(false)),
{
}

/// The frozen board stays as it was frozen: only a new ask freezes another
/// one, and only the answer to the latest ask releases it.
pub proof fn law_frozen_board_kept(s: Publish, e: PublishEvent)
    requires
        spec_publish(s, e).0.pending != s.pending,
    ensures
        spec_publish(s, e).1.action matches Some(PublishAction::AskSignIn { .. }) || (e matches PublishEvent::SignedIn { id, .. } && id == s.ask_id),
{
}

/// Every ask gets a new number, so the answer to an earlier one can't be
/// taken for it.
pub proof fn law_asks_are_numbered(s: Publish, e: PublishEvent)
    requires
        publish_defined(s, e),
        spec_publish(s, e).1.action matches Some(PublishAction::AskSignIn { .. }),
    ensures
        spec_publish(s, e).0.ask_id == s.ask_id + 1,
        spec_publish(s, e).1.action matches Some(PublishAction::AskSignIn { id, .. }) && id == spec_publish(s, e).0.ask_id,
{
}

/// One share at a time: Share pressed while one is under way changes
/// nothing.
pub proof fn law_one_share_at_a_time(s: Publish, signed_in: bool, board: BoardCode)
    requires
        s.sharing,
    ensures
        spec_publish(s, PublishEvent::Share { signed_in, board }) == (s, shows(false)),
{
}

/// The saved status names the pieces that were submitted: it reads "Saved!
/// Rank #", the rank, " for ", the count and a space, then the plural of
/// the pieces' shape and a full stop; so two submissions that differ only
/// in their shape read differently.
pub proof fn law_saved_status_names_its_pieces(rank: u32, n: u32, shape: Shape, other: Shape)
    ensures
        ({
            let t = saved_text(rank, n, shape);
            let head = "Saved! Rank #"@ + decimal(rank as nat) + " for "@ + decimal(n as nat) + " "@;
            let tail = spec_plural(shape) + "."@;
            &&& t.len() == head.len() + tail.len()
            &&& t.subrange(0, head.len() as int) == head
            &&& t.subrange(head.len() as int, t.len() as int) == tail
        }),
        shape != other ==> saved_text(rank, n, shape) != saved_text(rank, n, other),
{
    let head = "Saved! Rank #"@ + decimal(rank as nat) + " for "@ + decimal(n as nat) + " "@;
    let t = saved_text(rank, n, shape);
    let tail = spec_plural(shape) + "."@;
    assert(t =~= head + tail);
    assert(t.subrange(0, head.len() as int) =~= head);
    assert(t.subrange(head.len() as int, t.len() as int) =~= tail);
    if shape != other && saved_text(rank, n, shape) == saved_text(rank, n, other) {
        reveal_strlit(".");
        let u = saved_text(rank, n, other);
        let tail2 = spec_plural(other) + "."@;
        assert(u =~= head + tail2);
        assert(tail =~= tail2) by {
            assert(tail =~= t.subrange(head.len() as int, t.len() as int));
            assert(tail2 =~= u.subrange(head.len() as int, u.len() as int));
        }
        assert(spec_plural(shape) =~= tail.subrange(0, tail.len() - 1));
        assert(spec_plural(other) =~= tail2.subrange(0, tail2.len() - 1));
        law_names_read_back(shape);
        law_names_read_back(other);
    }
}

} // verus!
