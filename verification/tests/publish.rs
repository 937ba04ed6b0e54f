use packing::publish::{
    share_failed_message, BoardCode, Note, Pending, Publish, PublishAction, PublishEvent,
    PublishStep, ShareResult, ShareStatus, Status, SubmitResult,
};
use packing::shape::Shape;

fn board(code: &str) -> BoardCode {
    BoardCode { n: 5, code: code.into() }
}

fn does(action: PublishAction) -> PublishStep {
    PublishStep { redraw: true, action: Some(action) }
}

#[test]
fn share_without_a_session_freezes_the_board_and_shares_it_after_sign_in() {
    let mut p = Publish::new();
    let r = p.update(PublishEvent::Share { signed_in: false, board: board("aa") });
    assert_eq!(r, does(PublishAction::AskSignIn { id: 1, note: Note::Share }));
    assert_eq!(p.pending, Some(Pending::Share(board("aa"))));
    assert_eq!(p.note.map(Note::text), Some(
        "Sign in to share. This board is kept as it is now and shared once you sign in."
    ));
    let r = p.update(PublishEvent::SignedIn { id: 1, signed_in: true });
    assert_eq!(r, does(PublishAction::StartShare(board("aa"))));
    assert!(p.sharing);
    assert_eq!(p.share_status.text(), "Creating a short link…");
    assert_eq!(p.pending, None);
    // A repeated answer sends nothing more.
    assert_eq!(p.update(PublishEvent::SignedIn { id: 1, signed_in: true }).action, None);
}

#[test]
fn a_declined_sign_in_sends_nothing() {
    let mut p = Publish::new();
    p.update(PublishEvent::Submit { signed_in: false, certified: Some(board("bb")), settling: false });
    let r = p.update(PublishEvent::SignedIn { id: 1, signed_in: false });
    assert_eq!(r.action, None);
    assert_eq!(p.note, Some(Note::Unsubmitted));
    assert_eq!(Note::Unsubmitted.text(), "Not signed in, so nothing was submitted.");
}

#[test]
fn an_answer_to_a_replaced_ask_is_ignored() {
    let mut p = Publish::new();
    p.update(PublishEvent::Share { signed_in: false, board: board("old") });
    p.update(PublishEvent::Submit { signed_in: false, certified: Some(board("new")), settling: false });
    let before = p.clone();
    let r = p.update(PublishEvent::SignedIn { id: 1, signed_in: true });
    assert_eq!(r, PublishStep { redraw: false, action: None });
    assert_eq!(p, before);
    let r = p.update(PublishEvent::SignedIn { id: 2, signed_in: true });
    assert_eq!(r, does(PublishAction::SendSubmit(board("new"))));
    assert!(p.submitting);
}

#[test]
fn submit_waits_for_a_measurement_when_the_packing_is_not_certified() {
    let mut p = Publish::new();
    let r = p.update(PublishEvent::Submit { signed_in: true, certified: None, settling: false });
    assert_eq!(r, does(PublishAction::Measure));
    assert!(p.submit_after_measure);
    let r = p.update(PublishEvent::Measured { certified: Some(board("cc")) });
    assert_eq!(r, does(PublishAction::SendSubmit(board("cc"))));
    assert!(!p.submit_after_measure);
    // A settle already running measures by itself.
    let r = p.update(PublishEvent::Submit { signed_in: true, certified: None, settling: true });
    assert_eq!(r, PublishStep { redraw: true, action: None });
    p.update(PublishEvent::SettleStopped);
    assert_eq!(p.update(PublishEvent::Measured { certified: Some(board("dd")) }).action, None);
}

#[test]
fn an_uncertified_submit_without_a_session_asks_to_press_again() {
    let mut p = Publish::new();
    let r = p.update(PublishEvent::Submit { signed_in: false, certified: None, settling: false });
    assert_eq!(r, does(PublishAction::AskSignIn { id: 1, note: Note::SubmitUncertified }));
    assert_eq!(p.pending, None);
    assert_eq!(p.update(PublishEvent::SignedIn { id: 1, signed_in: true }).action, None);
    assert_eq!(p.note, None);
}

#[test]
fn submissions_report_their_rank_or_ask_again_when_signed_out() {
    let mut p = Publish::new();
    p.update(PublishEvent::Submit { signed_in: true, certified: Some(board("ee")), settling: false });
    let r = p.update(PublishEvent::Submitted {
        board: board("ee"),
        n: 5,
        shape: Shape::Square,
        result: SubmitResult::Saved { rank: 3 },
    });
    let Some(PublishAction::ShowStatus(status)) = r.action else { panic!("{r:?}") };
    assert_eq!(status.text(), ("Saved! Rank #3 for 5 squares.".to_string(), false));
    assert!(!p.submitting);
    let r = p.update(PublishEvent::Submitted {
        board: board("ee"),
        n: 5,
        shape: Shape::Hexagon,
        result: SubmitResult::SignedOut,
    });
    assert_eq!(r, does(PublishAction::AskSignIn { id: 1, note: Note::ExpiredSubmit }));
    assert_eq!(p.pending, Some(Pending::Submit(board("ee"))));
    let failed = Status::Error("Too slow".into());
    assert_eq!(failed.text(), ("Too slow".to_string(), true));
}

#[test]
fn one_share_at_a_time_and_its_outcomes() {
    let mut p = Publish::new();
    p.update(PublishEvent::Share { signed_in: true, board: board("ff") });
    let before = p.clone();
    assert_eq!(
        p.update(PublishEvent::Share { signed_in: true, board: board("gg") }),
        PublishStep { redraw: false, action: None }
    );
    assert_eq!(p, before);
    let r = p.update(PublishEvent::ShareCreated {
        body: board("ff"),
        result: ShareResult::Created { url: "https://x/s/1".into() },
    });
    assert_eq!(r, does(PublishAction::CopyLink));
    assert_eq!(p.short_share.as_deref(), Some("https://x/s/1"));
    p.update(PublishEvent::Shared { copied: false });
    assert!(!p.sharing);
    assert_eq!(p.share_status, ShareStatus::Ready);
    assert_eq!(p.update(PublishEvent::CopyShare), does(PublishAction::CopyLink));
    p.update(PublishEvent::Shared { copied: true });
    assert_eq!(p.share_status.text(), "Board link copied to the clipboard.");
}

#[test]
fn a_failed_or_expired_share_resets_and_reports() {
    let mut p = Publish::new();
    p.update(PublishEvent::Share { signed_in: true, board: board("hh") });
    p.update(PublishEvent::ShareCreated { body: board("hh"), result: ShareResult::Failed });
    assert!(!p.sharing && p.share_failed);
    assert!(share_failed_message().starts_with("Couldn't create a short link."));
    p.update(PublishEvent::Share { signed_in: true, board: board("ii") });
    assert!(!p.share_failed);
    let r = p.update(PublishEvent::ShareCreated { body: board("ii"), result: ShareResult::SignedOut });
    assert_eq!(r, does(PublishAction::AskSignIn { id: 1, note: Note::ExpiredShare }));
    assert_eq!(p.pending, Some(Pending::Share(board("ii"))));
    let cancelled = p.update(PublishEvent::ShareCreated { body: board("ii"), result: ShareResult::Cancelled });
    assert_eq!(cancelled, PublishStep { redraw: false, action: None });
}
