use packing::board::{check_arrangement, decode, encode, from_hex, hex_len, Arrangement, BoardState, Placement, MAX_LEN};
use packing::glue::{Feature, Glue, MAX_GLUES};
use packing::physics::GlueStore;
use packing::play::{board_glue_status, board_link, BoardLink};
use packing::shape::Shape;

fn sq(cx: f64, cy: f64, theta: f64) -> Placement {
    Placement {
        cx: cx.to_bits(),
        cy: cy.to_bits(),
        theta: theta.to_bits(),
    }
}

fn five() -> Arrangement {
    let s = 2.0 + std::f64::consts::FRAC_1_SQRT_2;
    Arrangement {
        container: Shape::Square,
        shape: Shape::Square,
        n: 5,
        side: s.to_bits(),
        squares: vec![
            sq(0.5, 0.5, 0.0),
            sq(s - 0.5, 0.5, 0.0),
            sq(0.5, s - 0.5, 0.0),
            sq(s - 0.5, s - 0.5, 0.0),
            sq(s / 2.0, s / 2.0, std::f64::consts::FRAC_PI_4),
        ],
    }
}

/// Every pairing of feature kinds, walls included.
fn glues() -> Vec<Glue> {
    let kinds = |square: usize, k: u8| {
        [
            Feature::Edge { square, edge: k },
            Feature::Corner { square, corner: k },
            Feature::Midpoint { square, edge: k },
            Feature::Wall(k),
        ]
    };
    let mut glues = Vec::new();
    for (i, a) in kinds(1, 1).into_iter().enumerate() {
        for (j, b) in kinds(4, 3).into_iter().enumerate() {
            if i != 3 || j != 3 {
                glues.push(Glue { a, b });
            }
        }
    }
    glues
}

/// `hex` with the byte at `at` replaced.
fn with_byte(hex: &str, at: usize, byte: u8) -> String {
    let mut hex = hex.to_string();
    hex.replace_range(2 * at..2 * at + 2, &format!("{byte:02x}"));
    hex
}

/// `hex`, a code for `five()`, with its `i`th glue feature set to `bits`.
fn with_feature(hex: &str, i: usize, bits: u16) -> String {
    let at = hex_len(5, 0) / 2 + 4 + i * 2;
    let [lo, hi] = bits.to_le_bytes();
    with_byte(&with_byte(hex, at, lo), at + 1, hi)
}

#[test]
fn board_round_trips_bit_exact() {
    let a = five();
    let hex = encode(&a, &[]);
    assert_eq!(hex.len(), hex_len(5, 0));
    assert!(hex
        .bytes()
        .all(|b| b.is_ascii_hexdigit() && !b.is_ascii_uppercase()));
    let back = decode(&hex, 5).unwrap();
    assert_eq!(back.arrangement, a);
    assert!(back.glues.is_empty());
    assert_eq!(back.arrangement.side, a.side);
}

#[test]
fn round_trips_every_feature_kind() {
    let glues = glues();
    assert_eq!(glues.len(), 15);
    let hex = encode(&five(), &glues);
    assert_eq!(hex.len(), hex_len(5, 15));
    assert!(hex.starts_with(&encode(&five(), &[])));
    assert_eq!(
        decode(&hex, 5).unwrap(),
        BoardState {
            arrangement: five(),
            glues
        }
    );
}

#[test]
fn glue_free_codes_keep_the_original_layout() {
    // A code written before glue existed: one unit square at (1, 1) in a
    // box of side 2.
    let old = [
        "01",
        "0100",
        "0000000000000040",
        "000000000000f03f",
        "000000000000f03f",
        "0000000000000000",
    ]
    .concat();
    let old = old.as_str();
    let snapshot = decode(old, 1).unwrap();
    assert!(snapshot.glues.is_empty());
    assert_eq!(f64::from_bits(snapshot.arrangement.side), 2.0);
    assert_eq!(snapshot.arrangement.squares, [sq(1.0, 1.0, 0.0)]);
    assert_eq!(encode(&snapshot.arrangement, &[]), old);
}

#[test]
fn packs_each_feature_into_two_bytes() {
    let hex = encode(&five(), &glues()[..1]);
    // Tag, version 2, one glue, then Edge { 1, 1 } and Edge { 4, 3 }.
    assert_eq!(&hex[hex_len(5, 0)..], ["47020100", "1400", "4c00"].concat());
    assert_eq!(hex.len(), hex_len(5, 1));
    assert_eq!(MAX_LEN, 37_598);
    assert_eq!(MAX_LEN, hex_len(100, MAX_GLUES));
}

#[test]
fn rejects_malformed_glue_trailers() {
    let base = encode(&five(), &[]);
    let one = &glues()[..1];
    let hex = encode(&five(), one);
    let trailer = base.len() / 2;
    assert!(decode(&hex, 5).is_ok());
    // Edge { square: 1, edge: 3 } against the first feature's square 1.
    let self_glue = with_feature(&hex, 1, (3 << 2) | (1 << 4));
    let duplicate = encode(&five(), &[one[0], one[0]]);
    let reversed = encode(
        &five(),
        &[
            one[0],
            Glue {
                a: one[0].b,
                b: one[0].a,
            },
        ],
    );
    let mut cases = vec![
        (format!("{base}4702"), "truncated trailer header"),
        (format!("{base}47020000"), "zero glue count"),
        (hex[..hex.len() - 2].to_string(), "truncated glue"),
        (format!("{hex}00"), "trailing byte"),
        (format!("{hex}00000000"), "an extra glue's bytes"),
        (with_byte(&hex, trailer, b'H'), "unknown tag"),
        (with_byte(&hex, trailer + 1, 1), "the unshipped version 1"),
        (with_byte(&hex, trailer + 1, 3), "unknown trailer version"),
        (
            with_byte(&hex, trailer + 2, 2),
            "count larger than the data",
        ),
        (with_feature(&hex, 0, 5 << 4), "square equal to n"),
        (with_feature(&hex, 0, 127 << 4), "largest square beyond n"),
        (with_feature(&hex, 0, 3 | (1 << 4)), "wall with a square"),
        (
            with_feature(&hex, 0, 3 | (127 << 4)),
            "wall with square bits",
        ),
        (self_glue, "self glue"),
        (duplicate, "duplicate"),
        (reversed, "reversed duplicate"),
        (hex.replacen("47", "4g", 1), "bad hex"),
    ];
    for bit in 11..16 {
        // Edge { square: 1, edge: 1 } plus one reserved bit.
        cases.push((with_feature(&hex, 0, 0x14 | (1 << bit)), "a reserved bit"));
    }
    for (bad, why) in cases {
        assert!(decode(&bad, 5).is_err(), "{why}: {bad}");
    }
}

#[test]
fn rejects_oversized_glue_counts_before_decoding() {
    let base = encode(&five(), &[]);
    let too_many = (MAX_GLUES as u16 + 1).to_le_bytes();
    // The count is rejected from the trailer header alone, even though
    // the rest of the code is far too short to hold that many glues.
    let over = format!("{base}4702{:02x}{:02x}", too_many[0], too_many[1]);
    assert_eq!(
        decode(&over, 5),
        Err("This board code has an invalid glue count".into())
    );
    assert!(decode(&format!("{base}4702ffff"), 5).is_err());
    let max = (MAX_GLUES as u16).to_le_bytes();
    assert_eq!(
        decode(&format!("{base}4702{:02x}{:02x}", max[0], max[1]), 5),
        Err("This board code's glue data has the wrong length".into())
    );
}

#[test]
fn board_rejects_wrong_length_n_and_version() {
    let hex = encode(&five(), &[]);
    assert!(decode(&hex, 4).is_err(), "path n must match");
    assert!(decode(&hex[..hex.len() - 2], 5).is_err());
    assert!(decode(&format!("{hex}00"), 5).is_err());
    assert!(decode(&format!("02{}", &hex[2..]), 5).is_err());
    // Right length for n=4 but encoded n=5 in the header.
    let mut short = hex[..hex_len(4, 0)].to_string();
    short.replace_range(0..2, "01");
    assert!(decode(&short, 4).is_err());
}

#[test]
fn board_rejects_bad_hex_and_out_of_range_values() {
    let hex = encode(&five(), &[]);
    assert!(decode(&hex.replacen('0', "g", 1), 5).is_err());
    // Same length, but "+1" in place of the version byte "01".
    assert!(decode(&format!("+1{}", &hex[2..]), 5).is_err());
    assert!(decode(&hex.replacen('0', "é", 1), 5).is_err());
    assert!(decode(&format!("{hex}é0000000"), 5).is_err());
    assert!(decode("", 1).is_err());
    assert!(
        decode(&"00".repeat(1_000_000), 5).is_err(),
        "oversized input"
    );
    assert!(decode(&encode(&five(), &[]), 0).is_err());
    let mut far = five();
    far.squares[0].cx = 1e9f64.to_bits();
    assert!(decode(&encode(&far, &[]), 5).is_err());
    let mut nan = five();
    nan.squares[4].theta = f64::NAN.to_bits();
    assert!(decode(&encode(&nan, &[]), 5).is_err());
    let mut tiny = five();
    tiny.side = 0.5f64.to_bits();
    assert!(decode(&encode(&tiny, &[]), 5).is_err());
}

#[test]
fn every_shape_and_last_feature_round_trips() {
    for shape in Shape::ALL {
        let a = Arrangement {
            container: Shape::Square,
            shape,
            n: 1,
            side: 3.0f64.to_bits(),
            squares: vec![sq(1.5, 1.5, 0.2)],
        };
        let glue = Glue {
            a: Feature::Corner {
                square: 0,
                corner: (shape.sides() - 1) as u8,
            },
            b: Feature::Wall(2),
        };
        let code = encode(&a, &[glue]);
        let decoded = decode(&code, 1).unwrap();
        assert_eq!(decoded.arrangement, a);
        assert_eq!(decoded.glues, vec![glue]);
        if !shape.is_square() {
            let mut bytes = from_hex(code.as_bytes()).unwrap();
            let index = 11 + 24 + 4;
            for bit in 12..16 {
                let mut bad = bytes.clone();
                let word = u16::from_le_bytes([bad[index], bad[index + 1]]) | (1 << bit);
                bad[index..index + 2].copy_from_slice(&word.to_le_bytes());
                let hex: String = bad.iter().map(|x| format!("{x:02x}")).collect();
                assert!(decode(&hex, 1).is_err());
            }
            bytes[0] = 2;
            assert!(decode(
                &bytes.iter().map(|x| format!("{x:02x}")).collect::<String>(),
                1
            )
            .is_err());
        }
    }
}

#[test]
fn decode_reports_each_refusal() {
    let hex = encode(&five(), &[]);
    assert_eq!(decode(&hex, 0), Err("n must be between 1 and 100".into()));
    assert_eq!(decode(&hex, 101), Err("n must be between 1 and 100".into()));
    assert_eq!(decode("0", 5), Err("Missing board version".into()));
    assert_eq!(decode("zz", 5), Err("This board code is not valid hex".into()));
    assert_eq!(decode(&format!("04{}", &hex[2..]), 5), Err("Unsupported board code version".into()));
    assert_eq!(decode(&format!("07{}", &hex[2..]), 5), Err("Unsupported board code version".into()));
    assert_eq!(decode(&hex, 6), Err("This board code is not for 6 squares".into()));
    // Read for fewer squares, the extra square looks like a glue trailer.
    assert_eq!(decode(&hex, 4), Err("This board code has unsupported glue data".into()));
    assert_eq!(
        decode(&format!("{hex}4802010000000000"), 5),
        Err("This board code has unsupported glue data".into())
    );
    let mut far = five();
    far.squares[2].cy = (-1000.5f64).to_bits();
    assert_eq!(
        decode(&encode(&far, &[]), 5),
        Err("Expected 5 pieces with finite coordinates".into())
    );
    let one = &glues()[..1];
    let bad = with_feature(&encode(&five(), one), 0, 3 | (1 << 4));
    assert_eq!(decode(&bad, 5), Err("This board code has an unknown glue feature".into()));
    assert_eq!(
        decode(&encode(&five(), &[one[0], one[0]]), 5),
        Err("Duplicate glue constraint".into())
    );
    // Uppercase hex digits decode as well.
    assert_eq!(decode(&hex.to_uppercase(), 5).unwrap().arrangement, five());
}

#[test]
fn check_arrangement_applies_the_loading_limits() {
    assert_eq!(check_arrangement(&five(), 5), Ok(()));
    assert_eq!(
        check_arrangement(&five(), 4),
        Err("Expected 4 pieces with finite coordinates".into())
    );
    let mut edge = five();
    edge.side = 1000.0f64.to_bits();
    edge.squares[0].cx = (-1000.0f64).to_bits();
    assert_eq!(check_arrangement(&edge, 5), Ok(()));
    edge.side = f64::INFINITY.to_bits();
    assert!(check_arrangement(&edge, 5).is_err());
    let mut neg = five();
    neg.side = (-3.0f64).to_bits();
    assert!(check_arrangement(&neg, 5).is_err());
    let mut tri = five();
    tri.shape = Shape::Triangle;
    tri.side = 0.66f64.to_bits();
    assert_eq!(check_arrangement(&tri, 5), Ok(()));
    tri.side = 0.65f64.to_bits();
    assert!(check_arrangement(&tri, 5).is_err());
    let mut inf_theta = five();
    inf_theta.squares[1].theta = f64::NEG_INFINITY.to_bits();
    assert!(check_arrangement(&inf_theta, 5).is_err());
    inf_theta.squares[1].theta = 1e300f64.to_bits();
    assert_eq!(check_arrangement(&inf_theta, 5), Ok(()));
}

#[test]
fn from_hex_reads_pairs_and_ignores_an_odd_tail() {
    assert_eq!(from_hex(b"00ffA0"), Ok(vec![0, 255, 160]));
    assert_eq!(from_hex(b"0a1"), Ok(vec![10]));
    assert_eq!(from_hex(b"+1"), Err("This board code is not valid hex".into()));
    assert_eq!(from_hex(b""), Ok(vec![]));
}

#[test]
fn a_code_that_decodes_is_the_encoding_of_its_board() {
    // Law: decoding loses nothing; re-encoding gives the code back, in
    // lower case.
    let mut poly = five();
    poly.shape = Shape::Pentagon;
    poly.side = 4.0f64.to_bits();
    let pentagon_glue = [Glue {
        a: Feature::Corner { square: 2, corner: 4 },
        b: Feature::Wall(3),
    }];
    for hex in [
        encode(&five(), &[]),
        encode(&five(), &glues()),
        encode(&poly, &pentagon_glue),
        encode(&five(), &glues()).to_uppercase(),
    ] {
        let b = decode(&hex, 5).unwrap();
        assert_eq!(encode(&b.arrangement, &b.glues), hex.to_lowercase());
    }
}

#[test]
fn decoded_boards_pass_the_import_limits_and_small_glue_sets_the_engine() {
    // Law: a decoded board passes the import limits, and the engine takes
    // its glue when there is no more of it than the engine holds.
    let few = glues();
    let b = decode(&encode(&five(), &few), 5).unwrap();
    assert_eq!(check_arrangement(&b.arrangement, 5), Ok(()));
    assert_eq!(GlueStore::new(5, Shape::Square).set_glues(&b.glues), Ok(()));
    // More glue than the engine holds decodes, but the engine refuses it.
    let many: Vec<Glue> = (0..101usize)
        .map(|i| {
            let square = i % 5;
            let other = (square + 1) % 5;
            let k = (i / 20) as u8;
            Glue {
                a: Feature::Edge { square, edge: (i / 5 % 4) as u8 },
                b: if k < 4 {
                    Feature::Corner { square: other, corner: k }
                } else {
                    Feature::Midpoint { square: other, edge: k - 4 }
                },
            }
        })
        .collect();
    let b = decode(&encode(&five(), &many), 5).unwrap();
    assert_eq!(b.glues.len(), 101);
    assert_eq!(GlueStore::new(5, Shape::Square).set_glues(&b.glues), Err("Too many glue constraints".into()));
}

#[test]
fn all_sixteen_games_round_trip_with_their_last_wall_and_feature() {
    for container in Shape::ALL {
        for shape in Shape::ALL {
            let a = Arrangement {
                container,
                shape,
                n: 1,
                side: 5.0f64.to_bits(),
                squares: vec![sq(2.5, 2.5, 0.3)],
            };
            let glue = Glue {
                a: Feature::Corner {
                    square: 0,
                    corner: shape.sides() as u8 - 1,
                },
                b: Feature::Wall(container.sides() as u8 - 1),
            };
            let encoded = encode(&a, &[glue]);
            let b = decode(&encoded, 1).unwrap();
            assert_eq!(a, b.arrangement);
            assert_eq!(b.glues, vec![glue]);
            let invalid = Glue {
                b: Feature::Wall(container.sides() as u8),
                ..glue
            };
            assert!(decode(&encode(&a, &[invalid]), 1).is_err());
        }
    }
}

#[test]
fn polygon_container_codes_name_their_container_in_the_version_byte() {
    let a = Arrangement {
        container: Shape::Hexagon,
        shape: Shape::Triangle,
        n: 1,
        side: 5.0f64.to_bits(),
        squares: vec![sq(2.5, 2.5, 0.3)],
    };
    let code = encode(&a, &[]);
    assert_eq!(&code[..2], "63");
    assert_eq!(decode(&code, 1).unwrap().arrangement, a);
    let glue = Glue { a: Feature::Edge { square: 0, edge: 2 }, b: Feature::Wall(5) };
    let code = encode(&a, &[glue]);
    let bytes = from_hex(code.as_bytes()).unwrap();
    // Tag, the wide trailer version, one glue.
    assert_eq!(&bytes[11 + 24..11 + 24 + 4], &[b'G', 3, 1, 0]);
    // A hexagon container with a square container's version byte is another game.
    let square_box = format!("03{}", &code[2..]);
    assert_eq!(
        decode(&square_box, 1),
        Err("Glue requires valid features on different objects".into())
    );
    // Square pieces in a square container keep the original version byte.
    assert_eq!(&encode(&five(), &[])[..2], "01");
    // Square pieces in a triangle container.
    let mut in_triangle = a.clone();
    in_triangle.container = Shape::Triangle;
    in_triangle.shape = Shape::Square;
    assert_eq!(&encode(&in_triangle, &[])[..2], "34");
    assert_eq!(decode("44", 1), Err("Unsupported board code version".into()));
}

#[test]
fn the_engine_glues_any_piece_to_walls_zero_to_three() {
    for shape in Shape::ALL {
        let mut store = GlueStore::new(1, shape);
        let corner = Feature::Corner { square: 0, corner: shape.sides() as u8 - 1 };
        for wall in 0..4u8 {
            let glue = Glue { a: corner, b: Feature::Wall(wall) };
            assert_eq!(store.set_glues(&[glue]), Ok(()));
            assert_eq!(store.glues(), vec![glue]);
        }
        let past = Glue { a: corner, b: Feature::Wall(4) };
        assert_eq!(
            store.set_glues(&[past]),
            Err("Glue requires valid features on different objects".into())
        );
        assert_eq!(store.glues(), vec![Glue { a: corner, b: Feature::Wall(3) }]);
    }
}

#[test]
fn a_board_link_loads_only_into_its_own_game() {
    let code = encode(&five(), &[]);
    match board_link(decode(&code, 5), Shape::Square, Shape::Square) {
        BoardLink::Load(b) => assert_eq!(b.arrangement, five()),
        other => panic!("{other:?}"),
    }
    match board_link(decode(&code, 5), Shape::Square, Shape::Hexagon) {
        BoardLink::Refuse(m) => {
            assert_eq!(m, "This board uses a different shape. Open its matching shape first.")
        },
        other => panic!("{other:?}"),
    }
    match board_link(decode(&code, 6), Shape::Square, Shape::Square) {
        BoardLink::Refuse(m) => assert_eq!(m, "Board link: This board code is not for 6 squares"),
        other => panic!("{other:?}"),
    }
    assert_eq!(
        board_glue_status(&Ok(())),
        ("Board loaded, not yet validated. Settle to check it.".to_string(), false)
    );
    assert_eq!(
        board_glue_status(&Err("Too many glue constraints".into())),
        ("Board glue: Too many glue constraints".to_string(), true)
    );
}
