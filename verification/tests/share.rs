use packing::board::{Arrangement, Placement};
use packing::shape::Shape;
use packing::share::{decode, encode};

fn sq(cx: f64, cy: f64, theta: f64) -> Placement {
    Placement {
        cx: cx.to_bits(),
        cy: cy.to_bits(),
        theta: theta.to_bits(),
    }
}

fn five() -> Arrangement {
    let s = 2.0 + std::f64::consts::FRAC_1_SQRT_2;
    Arrangement {
        container: Shape::Square,
        shape: Shape::Square,
        n: 5,
        side: s.to_bits(),
        squares: vec![
            sq(0.5, 0.5, 0.0),
            sq(s - 0.5, 0.5, 0.0),
            sq(0.5, s - 0.5, 0.0),
            sq(s - 0.5, s - 0.5, 0.0),
            sq(s / 2.0, s / 2.0, std::f64::consts::FRAC_PI_4),
        ],
    }
}

fn hex_len(n: usize) -> usize {
    2 * (11 + 24 * n)
}

#[test]
fn share_round_trips_bit_exact() {
    let a = five();
    let hex = encode(&a);
    assert_eq!(hex.len(), hex_len(5));
    assert!(hex
        .bytes()
        .all(|b| b.is_ascii_hexdigit() && !b.is_ascii_uppercase()));
    let back = decode(&hex, 5).unwrap();
    assert_eq!(back, a);
    assert_eq!(back.side, a.side);
}

#[test]
fn share_rejects_wrong_length_n_and_version() {
    let hex = encode(&five());
    assert!(decode(&hex, 4).is_err(), "path n must match");
    assert!(decode(&hex[..hex.len() - 2], 5).is_err());
    assert!(decode(&format!("{hex}00"), 5).is_err());
    assert!(decode(&format!("02{}", &hex[2..]), 5).is_err());
    // Right length for n=4 but encoded n=5 in the header.
    let mut short = hex[..hex_len(4)].to_string();
    short.replace_range(0..2, "01");
    assert!(decode(&short, 4).is_err());
}

#[test]
fn share_rejects_bad_hex_and_out_of_range_values() {
    let hex = encode(&five());
    assert!(decode(&hex.replacen('0', "g", 1), 5).is_err());
    // Same length, but "+1" in place of the version byte "01".
    assert!(decode(&format!("+1{}", &hex[2..]), 5).is_err());
    assert!(decode(&hex.replacen('0', "é", 1), 5).is_err());
    assert!(decode("", 1).is_err());
    assert!(
        decode(&"00".repeat(1_000_000), 5).is_err(),
        "oversized input"
    );
    assert!(decode(&encode(&five()), 0).is_err());
    let mut far = five();
    far.squares[0].cx = 1e9f64.to_bits();
    assert!(decode(&encode(&far), 5).is_err());
    let mut nan = five();
    nan.squares[4].theta = f64::NAN.to_bits();
    assert!(decode(&encode(&nan), 5).is_err());
    let mut tiny = five();
    tiny.side = 0.5f64.to_bits();
    assert!(decode(&encode(&tiny), 5).is_err());
}

#[test]
fn share_decode_reports_each_refusal() {
    let hex = encode(&five());
    assert_eq!(decode(&hex, 4), Err("This share link is not for 4 squares".into()));
    assert_eq!(decode(&format!("02{}", &hex[2..]), 5), Err("Unsupported share link version 2".into()));
    assert_eq!(decode(&format!("ff{}", &hex[2..]), 5), Err("Unsupported share link version 255".into()));
    assert_eq!(decode(&hex.replacen('0', "g", 1), 5), Err("This share link is not valid hex".into()));
    assert_eq!(decode(&hex, 0), Err("n must be between 1 and 100".into()));
    let mut tiny = five();
    tiny.side = 0.5f64.to_bits();
    assert_eq!(decode(&encode(&tiny), 5), Err("Expected 5 pieces with finite coordinates".into()));
    // A share code always stands for squares, whatever the pieces were.
    let mut tri = five();
    tri.shape = Shape::Triangle;
    assert_eq!(decode(&encode(&tri), 5).unwrap(), five());
}

#[test]
fn a_share_code_that_decodes_re_encodes_to_itself() {
    // Law: decoding a share code loses nothing.
    let hex = encode(&five()).to_uppercase();
    let a = decode(&hex, 5).unwrap();
    assert_eq!(encode(&a), hex.to_lowercase());
}
