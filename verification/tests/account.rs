use packing::account::{AccountEvent, AccountState, Action, Reaction, Request, Settle};
use packing::username::{dialog_submit, normalized_username, username_hint};

fn ask(reason: &str) -> AccountEvent {
    AccountEvent::Ask { reason: reason.into() }
}

fn act(a: Action) -> AccountEvent {
    AccountEvent::Act(a)
}

fn quiet() -> Reaction {
    Reaction { redraw: false, remember_opener: false, answer: None, request: None }
}

fn sends(request: Request) -> Reaction {
    Reaction { redraw: true, remember_opener: false, answer: None, request: Some(request) }
}

#[test]
fn startup_asks_which_account_the_cookie_holds() {
    let (mut s, first) = AccountState::new();
    assert_eq!(first, Request::Me { op: 0 });
    assert_eq!(s.username, None);
    let r = s.update(AccountEvent::Me { op: 0, result: Ok(Some("ann".into())) });
    assert!(r.redraw);
    assert_eq!(s.username.as_deref(), Some("ann"));
    assert_eq!(s.dialog, None);
}

#[test]
fn a_sign_in_asked_for_by_a_page_answers_it_once_signed_in() {
    let (mut s, _) = AccountState::new();
    let r = s.update(ask("Sign in to share."));
    assert_eq!(r, Reaction { redraw: true, remember_opener: true, answer: None, request: None });
    assert_eq!(s.dialog, Some(Some("Sign in to share.".into())));
    assert!(s.waiting);
    assert_eq!(s.update(act(Action::SignIn)), sends(Request::PrepareSignIn { op: 2 }));
    assert!(s.busy());
    assert_eq!(s.update(AccountEvent::Prepared { op: 2, result: Ok(()) }), sends(Request::Finish));
    assert_eq!(s.settle, Some(Settle::Finish { current: true }));
    assert_eq!(s.update(AccountEvent::Finished(Ok("ann".into()))), sends(Request::Check));
    let r = s.update(AccountEvent::Checked(Ok(Some("ann".into()))));
    assert_eq!(r.answer, Some(true));
    assert_eq!(s.username.as_deref(), Some("ann"));
    assert_eq!(s.dialog, None);
    assert!(!s.waiting);
    assert!(!s.busy());
}

#[test]
fn registration_sends_the_name_under_a_new_number() {
    let (mut s, _) = AccountState::new();
    s.update(act(Action::Open));
    assert_eq!(
        s.update(act(Action::Register("bo".into()))),
        sends(Request::PrepareRegistration { op: 1, name: "bo".into() })
    );
    let r = s.update(AccountEvent::Prepared { op: 1, result: Err("Name taken".into()) });
    assert_eq!(r.request, None);
    assert_eq!(s.error.as_deref(), Some("Name taken"));
    assert!(!s.busy());
}

#[test]
fn a_ceremony_dismissed_while_preparing_never_finishes() {
    let (mut s, _) = AccountState::new();
    s.update(ask("Sign in to submit."));
    s.update(act(Action::SignIn));
    let r = s.update(act(Action::Close));
    assert_eq!(r.answer, Some(false));
    assert_eq!(s.update(AccountEvent::Prepared { op: 2, result: Ok(()) }), quiet());
    assert_eq!(s.settle, None);
}

#[test]
fn a_sign_in_dismissed_while_finishing_is_signed_out_again() {
    let (mut s, _) = AccountState::new();
    s.update(ask("Sign in to share."));
    s.update(act(Action::SignIn));
    s.update(AccountEvent::Prepared { op: 2, result: Ok(()) });
    let r = s.update(act(Action::Close));
    assert_eq!(r.answer, Some(false));
    assert_eq!(s.settle, Some(Settle::Finish { current: false }));
    assert_eq!(s.update(AccountEvent::Finished(Ok("ann".into()))), sends(Request::SignOut));
    assert_eq!(s.update(AccountEvent::SignedOut(Ok(()))), sends(Request::Check));
    let r = s.update(AccountEvent::Checked(Ok(None)));
    assert_eq!(r.answer, None);
    assert_eq!(s.username, None);
    assert_eq!(s.error, None);
}

#[test]
fn one_operation_at_a_time_however_the_form_is_submitted() {
    let (mut s, _) = AccountState::new();
    s.update(act(Action::Open));
    s.update(act(Action::SignIn));
    let before = s.clone();
    for a in [Action::SignIn, Action::Register("x".into()), Action::AddPasskey, Action::SignOut] {
        assert_eq!(s.update(act(a)), quiet());
        assert_eq!(s, before);
    }
}

#[test]
fn a_check_that_finds_no_session_or_fails_says_so() {
    let (mut s, _) = AccountState::new();
    s.update(ask("why"));
    s.update(act(Action::SignIn));
    s.update(AccountEvent::Prepared { op: 2, result: Ok(()) });
    s.update(AccountEvent::Finished(Ok("ann".into())));
    s.update(AccountEvent::Checked(Ok(None)));
    assert_eq!(s.error.as_deref(), Some("The sign-in didn't take effect. Try again."));
    s.update(act(Action::SignIn));
    s.update(AccountEvent::Prepared { op: 3, result: Ok(()) });
    s.update(AccountEvent::Finished(Err("Passkey refused".into())));
    assert_eq!(s.error.as_deref(), Some("Passkey refused"));
    s.update(AccountEvent::Checked(Err("offline".into())));
    assert_eq!(s.error.as_deref(), Some("Couldn't check your sign-in: offline"));
    assert_eq!(s.username, None);
}

#[test]
fn adding_a_passkey_and_signing_out_report_their_outcome() {
    let (mut s, _) = AccountState::new();
    s.update(AccountEvent::Me { op: 0, result: Ok(Some("ann".into())) });
    assert_eq!(s.update(act(Action::AddPasskey)), sends(Request::AddPasskey { op: 1 }));
    s.update(AccountEvent::Added { op: 1, result: Ok(()) });
    assert_eq!(s.notice.as_deref(), Some("Passkey added. You can sign in with either."));
    assert_eq!(s.update(act(Action::SignOut)), sends(Request::SignOut));
    assert_eq!(s.settle.map(Settle::status), Some("Signing out…"));
    s.update(AccountEvent::SignedOut(Err("Couldn't sign out".into())));
    assert_eq!(s.notice.as_deref(), Some("Couldn't sign out"));
    assert_eq!(s.settle.map(Settle::status), Some("Checking your session…"));
    s.update(AccountEvent::Checked(Ok(Some("ann".into()))));
    assert_eq!(s.username.as_deref(), Some("ann"));
}

#[test]
fn stale_responses_are_ignored() {
    let (mut s, _) = AccountState::new();
    s.update(act(Action::AddPasskey));
    let before = s.clone();
    assert_eq!(s.update(AccountEvent::Me { op: 0, result: Ok(Some("eve".into())) }), quiet());
    assert_eq!(s.update(AccountEvent::Added { op: 0, result: Ok(()) }), quiet());
    assert_eq!(s, before);
}

#[test]
fn a_newer_ask_answers_the_older_one_no() {
    let (mut s, _) = AccountState::new();
    s.update(ask("first"));
    let r = s.update(ask("second"));
    assert_eq!(r.answer, Some(false));
    assert!(!r.remember_opener, "the dialog was already open");
    assert_eq!(s.dialog, Some(Some("second".into())));
}

#[test]
fn the_status_line_names_what_settles() {
    assert_eq!(Settle::Finish { current: true }.status(), "Finishing sign-in…");
    assert_eq!(Settle::SignOut.status(), "Signing out…");
    assert_eq!(Settle::Check { answer: false }.status(), "Checking your session…");
}

/// Law: whatever order responses arrive in, at most one session request is
/// out at a time. Explore every interleaving of a few actions and responses.
#[test]
fn session_requests_never_overlap_in_any_order() {
    fn explore(s: AccountState, out: Vec<Request>, depth: usize, seen: &mut usize) {
        let session = out
            .iter()
            .filter(|r| matches!(r, Request::Finish | Request::SignOut | Request::Check))
            .count();
        assert!(session <= 1, "{out:?}");
        assert_eq!(session == 1, s.settle.is_some(), "{s:?} {out:?}");
        *seen += 1;
        if depth == 0 {
            return;
        }
        let mut events: Vec<(Option<usize>, AccountEvent)> = vec![
            (None, ask("why")),
            (None, act(Action::Close)),
            (None, act(Action::SignIn)),
            (None, act(Action::SignOut)),
        ];
        for (i, r) in out.iter().enumerate() {
            let answers: Vec<AccountEvent> = match r {
                Request::Me { op } => vec![AccountEvent::Me { op: *op, result: Ok(Some("a".into())) }],
                Request::PrepareSignIn { op } | Request::PrepareRegistration { op, .. } => vec![
                    AccountEvent::Prepared { op: *op, result: Ok(()) },
                    AccountEvent::Prepared { op: *op, result: Err("no".into()) },
                ],
                Request::AddPasskey { op } => vec![AccountEvent::Added { op: *op, result: Ok(()) }],
                Request::Finish => vec![
                    AccountEvent::Finished(Ok("a".into())),
                    AccountEvent::Finished(Err("no".into())),
                ],
                Request::SignOut => vec![AccountEvent::SignedOut(Ok(()))],
                Request::Check => vec![
                    AccountEvent::Checked(Ok(Some("a".into()))),
                    AccountEvent::Checked(Ok(None)),
                ],
            };
            events.extend(answers.into_iter().map(|e| (Some(i), e)));
        }
        for (answered, e) in events {
            let mut next = s.clone();
            let mut rest = out.clone();
            if let Some(i) = answered {
                rest.remove(i);
            }
            if let Some(r) = next.update(e).request {
                rest.push(r);
            }
            explore(next, rest, depth - 1, seen);
        }
    }
    let (s, first) = AccountState::new();
    let mut seen = 0;
    explore(s, vec![first], 6, &mut seen);
    assert!(seen > 1000);
}

#[test]
fn usernames_are_trimmed_lowercased_and_checked() {
    assert_eq!(normalized_username("  Alice_99 "), Some("alice_99".to_string()));
    assert_eq!(normalized_username("\u{3000}bob-x\t"), Some("bob-x".to_string()));
    assert_eq!(normalized_username("abc"), Some("abc".to_string()));
    assert_eq!(normalized_username("9lives"), Some("9lives".to_string()));
    assert_eq!(normalized_username(&"a".repeat(24)), Some("a".repeat(24)));
    for refused in ["ab", "  ab  ", "_abc", "-abc", "a b c", "émile", "abc!", "", &"a".repeat(25)] {
        assert_eq!(normalized_username(refused), None, "{refused:?}");
    }
}

#[test]
fn the_username_hint_follows_what_is_typed_and_the_last_answer() {
    assert_eq!(username_hint("  ", None), "Choose a unique username.");
    assert_eq!(
        username_hint("a!", None),
        "Use 3–24 letters, digits, - or _, starting with a letter or digit."
    );
    assert_eq!(username_hint(" Alice ", None), "Checking availability…");
    assert_eq!(username_hint(" Alice ", Some(("alic", Some(true)))), "Checking availability…");
    assert_eq!(username_hint(" Alice ", Some(("alice", Some(true)))), "This username is available.");
    assert_eq!(username_hint("alice", Some(("alice", Some(false)))), "That username is unavailable.");
    assert_eq!(
        username_hint("alice", Some(("alice", None))),
        "Couldn't check availability. Creating the passkey will check again."
    );
}

#[test]
fn submitting_the_dialog_registers_a_valid_name_or_signs_in() {
    assert_eq!(dialog_submit(" Bob_1 ", true, false), Some(Action::Register("bob_1".into())));
    assert_eq!(dialog_submit("b", true, false), None);
    assert_eq!(dialog_submit("b", false, false), Some(Action::SignIn));
    assert_eq!(dialog_submit("bob", true, true), None);
    assert_eq!(dialog_submit("bob", false, true), None);
}
