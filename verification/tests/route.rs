use packing::route::{picked_count, Page, Route};
use packing::shape::Shape;

#[test]
fn home_plays_seventeen_squares() {
    assert_eq!(
        Route::Home.page(),
        Page::Game { n: 17, shape: Shape::Square, container: Shape::Square }
    );
    assert_eq!(Route::Home.picked(), Some((17, Shape::Square, Shape::Square)));
}

#[test]
fn games_need_a_playable_count_and_known_shapes() {
    assert_eq!(Route::Play { n: 0 }.page(), Page::NotFound);
    assert_eq!(Route::Play { n: 101 }.page(), Page::NotFound);
    assert_eq!(
        Route::Play { n: 100 }.page(),
        Page::Game { n: 100, shape: Shape::Square, container: Shape::Square }
    );
    let tri = Route::Polygon { shape: "triangles".into(), n: 5 };
    assert_eq!(tri.page(), Page::Game { n: 5, shape: Shape::Triangle, container: Shape::Square });
    assert_eq!(Route::Polygon { shape: "circle".into(), n: 5 }.page(), Page::UnknownShape);
    assert_eq!(Route::Polygon { shape: "circle".into(), n: 0 }.page(), Page::NotFound);
    let hex = Route::Container { shape: "square".into(), container: "hexagon".into(), n: 7 };
    assert_eq!(hex.page(), Page::Game { n: 7, shape: Shape::Square, container: Shape::Hexagon });
    assert_eq!(hex.picked(), Some((7, Shape::Square, Shape::Hexagon)));
    let bad = Route::Container { shape: "square".into(), container: "oval".into(), n: 7 };
    assert_eq!(bad.page(), Page::UnknownShape);
    assert_eq!(bad.picked(), None);
}

#[test]
fn leaderboards_take_any_count() {
    assert_eq!(Route::Leaderboard.page(), Page::Leaderboard);
    assert_eq!(
        Route::LeaderboardN { n: 500 }.page(),
        Page::LeaderboardN { n: 500, shape: Shape::Square, container: Shape::Square }
    );
    assert_eq!(
        Route::PolygonLeaderboard { shape: "pentagon".into(), n: 3 }.page(),
        Page::LeaderboardN { n: 3, shape: Shape::Pentagon, container: Shape::Square }
    );
    assert_eq!(
        Route::ContainerLeaderboard { shape: "hexagons".into(), container: "triangle".into(), n: 4 }
            .page(),
        Page::LeaderboardN { n: 4, shape: Shape::Hexagon, container: Shape::Triangle }
    );
    assert_eq!(Route::Score { id: 42 }.page(), Page::Score { id: 42 });
    assert_eq!(Route::Score { id: 42 }.picked(), None);
    assert_eq!(Route::NotFound.page(), Page::NotFound);
}

#[test]
fn links_are_built_in_their_shortest_form() {
    assert_eq!(Route::play(Shape::Square, 9), Route::Play { n: 9 });
    assert_eq!(Route::play(Shape::Pentagon, 9), Route::Polygon { shape: "pentagon".into(), n: 9 });
    assert_eq!(Route::play_in(Shape::Triangle, Shape::Square, 2), Route::Polygon { shape: "triangle".into(), n: 2 });
    assert_eq!(
        Route::play_in(Shape::Triangle, Shape::Hexagon, 2),
        Route::Container { shape: "triangle".into(), container: "hexagon".into(), n: 2 }
    );
    assert_eq!(Route::leaderboard_in(Shape::Square, Shape::Square, 3), Route::LeaderboardN { n: 3 });
    assert_eq!(
        Route::leaderboard_in(Shape::Hexagon, Shape::Square, 3),
        Route::PolygonLeaderboard { shape: "hexagon".into(), n: 3 }
    );
}

#[test]
fn every_game_link_opens_its_game() {
    // Law: the route to any playable game shows that game and picks it.
    for shape in Shape::ALL {
        for container in Shape::ALL {
            for n in [1, 17, 100] {
                let r = Route::play_in(shape, container, n);
                assert_eq!(r.page(), Page::Game { n, shape, container });
                assert_eq!(r.picked(), Some((n, shape, container)));
                let board = Route::leaderboard_in(shape, container, n);
                assert_eq!(board.page(), Page::LeaderboardN { n, shape, container });
            }
        }
    }
}

#[test]
fn the_picker_takes_only_playable_counts() {
    assert_eq!(picked_count("17"), Some(17));
    assert_eq!(picked_count("+5"), Some(5));
    assert_eq!(picked_count("007"), Some(7));
    assert_eq!(picked_count("100"), Some(100));
    assert_eq!(picked_count("1"), Some(1));
    for refused in ["", "0", "101", "+", "-3", " 5", "5 ", "5a", "1e2", "99999999999999999999", "٣"] {
        assert_eq!(picked_count(refused), None, "{refused:?}");
    }
}
