use packing::anneal::splitmix;
use packing::benchmark::{classify, credits, reference_label, status_label, Headline, Standing, Tone};
use packing::messages::{AppSocket, ClientMsg, CreateShare, ScoresQuery, ServerMsg};
use packing::passkey::{field_bytes, field_from_decoded, field_text, refused, unreadable};
use packing::MAX_N;

#[test]
fn splitmix_gives_the_reference_sequence() {
    assert_eq!(splitmix(0), 0xe220_a839_7b1d_cdaf);
    assert_eq!(splitmix(7), 7_191_089_600_892_374_487);
    // Successive seeds differ.
    let a = splitmix(1);
    assert_ne!(a, splitmix(a));
}

#[test]
fn the_socket_lives_at_ws() {
    assert_eq!(AppSocket::path(), "/ws");
}

#[test]
fn messages_carry_their_fields() {
    let m = ServerMsg::ServerShutdown { reason: "deploy".into(), reconnect_delay_ms: 5000 };
    assert_eq!(m.clone(), m);
    assert_ne!(ServerMsg::Heartbeat, ServerMsg::Error { message: "x".into() });
    assert_eq!(ClientMsg::Ping, ClientMsg::Ping);
    let q = ScoresQuery { n: Some(5), limit: None };
    assert_eq!(q.n, Some(5));
    let s = CreateShare { n: 5, code: "00".into() };
    assert_eq!(s.n, 5);
    assert_eq!(MAX_N, 100);
}

#[test]
fn passkey_fields_drop_padding_before_decoding() {
    assert_eq!(field_bytes("AQID", "challenge"), Ok(vec![1, 2, 3]));
    assert_eq!(field_bytes("AQID==", "challenge"), Ok(vec![1, 2, 3]));
    assert_eq!(field_bytes("AQI=", "id"), Ok(vec![1, 2]));
    assert_eq!(field_bytes("", "id"), Ok(vec![]));
    // The URL-safe alphabet: 0xfb 0xff becomes "-_8".
    assert_eq!(field_bytes("-_8", "id"), Ok(vec![0xfb, 0xff]));
}

#[test]
fn unreadable_passkey_fields_name_the_field() {
    assert_eq!(
        field_bytes("A", "challenge"),
        Err("Unexpected passkey data (challenge).".into())
    );
    assert_eq!(field_bytes("+/8", "id"), Err("Unexpected passkey data (id).".into()));
    assert_eq!(unreadable("user id"), "Unexpected passkey data (user id).");
}

#[test]
fn credential_bytes_become_unpadded_base64url() {
    assert_eq!(field_text(&[1, 2, 3]), "AQID");
    assert_eq!(field_text(&[1, 2]), "AQI");
    assert_eq!(field_text(&[0xfb, 0xff]), "-_8");
    assert_eq!(field_text(&[]), "");
}

#[test]
fn rejected_passkey_calls_read_by_their_exception_name() {
    let cancelled = "The passkey request was cancelled or timed out.";
    assert_eq!(refused("NotAllowedError", Some("x"), true), cancelled);
    assert_eq!(refused("AbortError", None, false), cancelled);
    assert_eq!(
        refused("InvalidStateError", None, true),
        "This device already has a passkey for this account."
    );
    assert_eq!(
        refused("InvalidStateError", Some("stale"), false),
        "The passkey request failed: stale"
    );
    assert_eq!(refused("SecurityError", None, false), "Passkeys can't be used on this address.");
    assert_eq!(
        refused("NotSupportedError", None, true),
        "This device can't make a passkey for this site."
    );
    assert_eq!(refused("TypeError", None, true), "The passkey request failed: TypeError");
    assert_eq!(refused("", Some("boom"), true), "The passkey request failed: boom");
}

#[test]
fn record_only_when_validated_and_unproven() {
    // 3.87 stands below a best known 3.877.
    assert_eq!(classify(Standing::Below, false, true).1, Tone::Record);
    // Unvalidated scenes below the reference are overlapping, not records.
    let live = classify(Standing::Below, false, false);
    assert_eq!(live.1, Tone::Suspect);
    assert_eq!(live.0, Headline::OverlapsLikely);
    // Nothing valid can beat a proven optimum.
    assert_eq!(classify(Standing::Below, true, true).1, Tone::Suspect);
    for proven in [false, true] {
        for validated in [false, true] {
            let (_, below) = classify(Standing::Below, proven, validated);
            assert_eq!(below == Tone::Record, validated && !proven);
            assert_eq!(below == Tone::Suspect, !(validated && !proven));
            let (h, at) = classify(Standing::Matches, proven, validated);
            assert_eq!(h, Headline::Matches);
            assert_eq!(at, if validated { Tone::Match } else { Tone::Live });
            let (h, above) = classify(Standing::Above, proven, validated);
            assert_eq!(h, Headline::Above);
            assert_eq!(above, if validated { Tone::Near } else { Tone::Live });
        }
    }
    assert_eq!(classify(Standing::Below, true, true).0, Headline::BelowCheck);
    assert_eq!(classify(Standing::Below, false, true).0, Headline::NewRecord);
    assert_eq!(Tone::Record.class(), "is-record");
    assert_eq!(Tone::Missing.class(), "is-missing");
    assert_eq!(reference_label(true), "proven optimum");
    assert_eq!(reference_label(false), "best known");
    assert_eq!(status_label(false), "live · unchecked");
    assert_eq!(status_label(true), "validated");
}

#[test]
fn best_label_credits_finders_and_provers() {
    let names = |v: &[&str]| v.iter().map(|s| s.to_string()).collect::<Vec<String>>();
    let side = 3.0 + std::f64::consts::FRAC_1_SQRT_2;
    let best_label = |packing_by: &[&str], disputed: bool, proof_by: &[&str], trivial: bool| {
        format!("Best known {:.4}", side)
            + &credits(&names(packing_by), disputed, &names(proof_by), trivial, trivial || !proof_by.is_empty())
    };
    assert_eq!(
        best_label(&["Frits Göbel"], false, &["Walter Stromquist"], false),
        "Best known 3.7071 · found by Frits Göbel · proved optimal by Walter Stromquist"
    );
    assert_eq!(
        best_label(&["Evert Stenlund", "Frits Göbel"], true, &[], false),
        "Best known 3.7071 · found by Evert Stenlund or Frits Göbel"
    );
    assert_eq!(best_label(&[], false, &[], true), "Best known 3.7071 · optimal");
    assert_eq!(credits(&names(&[]), false, &names(&[]), false, true), " · proved optimal");
    assert_eq!(credits(&names(&[]), false, &names(&[]), false, false), "");
    assert_eq!(
        credits(&names(&["A", "B", "C"]), false, &names(&["D", "E"]), false, true),
        " · found by A, B, C · proved optimal by D, E"
    );
}

#[test]
fn live_scene_above_reference() {
    // 3.0 against the proven 2.7071 stands above it; the scene is live.
    assert_eq!(classify(Standing::Above, true, false), (Headline::Above, Tone::Live));
    assert_eq!(reference_label(true), "proven optimum");
    assert_eq!(status_label(false), "live · unchecked");
}

#[test]
fn validated_match_within_tolerance() {
    // A side within the match tolerance of the proven optimum matches it.
    assert_eq!(classify(Standing::Matches, true, true), (Headline::Matches, Tone::Match));
    assert_eq!(reference_label(true), "proven optimum");
}

#[test]
fn a_decoded_field_is_its_bytes_or_an_unreadable_message() {
    assert_eq!(field_from_decoded(Some(vec![7, 8]), "id"), Ok(vec![7, 8]));
    assert_eq!(field_from_decoded(None, "user.id"), Err("Unexpected passkey data (user.id).".into()));
    assert_eq!(field_text(&[0, 0, 0, 0xff]), "AAAA_w");
    assert_eq!(field_text(&[0x3e, 0xfb]), "Pvs");
}
