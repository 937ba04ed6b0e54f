//! The site's routes and the page each one shows. Shapes travel in paths by
//! name; a score is named by its 128-bit id.
use vstd::prelude::*;
use crate::shape::{law_names_read_back, shape_named, spec_name, Shape};
use crate::text::{chars_of, owned};
use crate::MAX_N;

verus! {

/// A place in the site.
#[derive(Clone, Debug, PartialEq, Eq)]
pub enum Route {
    Home,
    Play { n: u32 },
    Polygon { shape: String, n: u32 },
    Container { shape: String, container: String, n: u32 },
    ContainerLeaderboard { shape: String, container: String, n: u32 },
    Leaderboard,
    LeaderboardN { n: u32 },
    PolygonLeaderboard { shape: String, n: u32 },
    Score { id: u128 },
    NotFound,
}

/// [`Route`] with its names as character sequences.
pub enum RouteModel {
    Home,
    Play { n: u32 },
    Polygon { shape: Seq<char>, n: u32 },
    Container { shape: Seq<char>, container: Seq<char>, n: u32 },
    ContainerLeaderboard { shape: Seq<char>, container: Seq<char>, n: u32 },
    Leaderboard,
    LeaderboardN { n: u32 },
    PolygonLeaderboard { shape: Seq<char>, n: u32 },
    Score { id: u128 },
    NotFound,
}

impl View for Route {
    type V = RouteModel;

    open spec fn view(&self) -> RouteModel {
        match self {
            Route::Home => RouteModel::Home,
            Route::Play { n } => RouteModel::Play { n: *n },
            Route::Polygon { shape, n } => RouteModel::Polygon { shape: shape@, n: *n },
            Route::Container { shape, container, n } => RouteModel::Container {
                shape: shape@,
                container: container@,
                n: *n,
            },
            Route::ContainerLeaderboard { shape, container, n } => RouteModel::ContainerLeaderboard {
                shape: shape@,
                container: container@,
                n: *n,
            },
            Route::Leaderboard => RouteModel::Leaderboard,
            Route::LeaderboardN { n } => RouteModel::LeaderboardN { n: *n },
            Route::PolygonLeaderboard { shape, n } => RouteModel::PolygonLeaderboard {
                shape: shape@,
                n: *n,
            },
            Route::Score { id } => RouteModel::Score { id: *id },
            Route::NotFound => RouteModel::NotFound,
        }
    }
}

/// What a route shows.
#[derive(Clone, Copy, Debug, PartialEq, Eq, Structural)]
pub enum Page {
    /// The play screen for `n` pieces of `shape` in `container`.
    Game { n: u32, shape: Shape, container: Shape },
    /// The overview of every leaderboard.
    Leaderboard,
    /// The leaderboard for `n` pieces of `shape` in `container`.
    LeaderboardN { n: u32, shape: Shape, container: Shape },
    /// One submitted score.
    Score { id: u128 },
    /// A path naming a shape that doesn't exist.
    UnknownShape,
    NotFound,
}

/// `n` is a piece count that can be played.
pub open spec fn playable(n: u32) -> bool {
    1 <= n <= MAX_N
}

/// The value of a run of decimal digits.
pub open spec fn digits_value(s: Seq<char>) -> nat
    decreases s.len(),
{
    if s.len() == 0 {
        0
    } else {
        digits_value(s.drop_last()) * 10 + ((s.last() as u32) - 48) as nat
    }
}

pub open spec fn is_digit(c: char) -> bool {
    48 <= c as u32 <= 57
}

/// `s` without a leading `+`.
pub open spec fn unsigned_part(s: Seq<char>) -> Seq<char> {
    if s.len() > 0 && s[0] == '+' {
        s.drop_first()
    } else {
        s
    }
}

pub open spec fn all_digits(d: Seq<char>) -> bool {
    forall|i: int| 0 <= i < d.len() ==> #[trigger] is_digit(d[i])
}

/// The count typed in the picker, if it reads as an unsigned decimal
/// number (an optional `+`, then one or more digits) that is playable.
pub open spec fn spec_picked_count(s: Seq<char>) -> Option<u32> {
    let d = unsigned_part(s);
    if d.len() > 0 && all_digits(d) && 1 <= digits_value(d) <= MAX_N {
        Some(digits_value(d) as u32)
    } else {
        None
    }
}

/// The count typed in the picker, when it is a playable number of pieces.
pub fn picked_count(text: &str) -> (r: Option<u32>)
    ensures
        r == spec_picked_count(text@),
{
    let v = chars_of(text);
    let from: usize = if v.len() > 0 && v[0] == '+' {
        1
    } else {
        0
    };
    let ghost d = v@.subrange(from as int, v@.len() as int);
    assert(d =~= (if v@.len() > 0 && v@[0] == '+' {
        v@.drop_first()
    } else {
        v@
    }));
    if from == v.len() {
        return None;
    }
    // The value read so far, held at most one past the largest count.
    let mut value: u32 = 0;
    let mut i: usize = from;
    while i < v.len()
        invariant
            from <= i <= v@.len(),
            d == v@.subrange(from as int, v@.len() as int),
            v@ == text@,
            d == unsigned_part(text@),
            forall|j: int| from <= j < i ==> #[trigger] is_digit(v@[j]),
            value == if digits_value(v@.subrange(from as int, i as int)) <= MAX_N {
                digits_value(v@.subrange(from as int, i as int))
            } else {
                (MAX_N + 1) as nat
            },
        decreases v@.len() - i,
    {
        let c = v[i];
        let u = c as u32;
        if !(48 <= u && u <= 57) {
            assert(d[i - from] == v@[i as int]);
            assert(!is_digit(d[i - from]));
            return None;
        }
        let ghost before = v@.subrange(from as int, i as int);
        assert(v@.subrange(from as int, i + 1).drop_last() =~= before);
        let digit: u32 = u - 48;
        if value <= MAX_N {
            value = value * 10 + digit;
            if value > MAX_N {
                value = MAX_N + 1;
            }
        }
        i = i + 1;
    }
    assert(v@.subrange(from as int, v@.len() as int) == d);
    assert forall|j: int| 0 <= j < d.len() implies #[trigger] is_digit(d[j]) by {
        assert(is_digit(v@[from + j]));
    }
    assert(all_digits(d));
    if 1 <= value && value <= MAX_N {
        Some(value)
    } else {
        None
    }
}

/// The page a route shows: games only for playable counts, and a notice
/// when a path names an unknown shape.
pub open spec fn spec_page(r: RouteModel) -> Page {
    match r {
        RouteModel::Home => Page::Game { n: 17, shape: Shape::Square, container: Shape::Square },
        RouteModel::Play { n } => if playable(n) {
            Page::Game { n, shape: Shape::Square, container: Shape::Square }
        } else {
            Page::NotFound
        },
        RouteModel::Polygon { shape, n } => if !playable(n) {
            Page::NotFound
        } else {
            match shape_named(shape) {
                Some(s) => Page::Game { n, shape: s, container: Shape::Square },
                None => Page::UnknownShape,
            }
        },
        RouteModel::Container { shape, container, n } => if !playable(n) {
            Page::NotFound
        } else {
            match (shape_named(shape), shape_named(container)) {
                (Some(s), Some(c)) => Page::Game { n, shape: s, container: c },
                _ => Page::UnknownShape,
            }
        },
        RouteModel::ContainerLeaderboard { shape, container, n } => match (
            shape_named(shape),
            shape_named(container),
        ) {
            (Some(s), Some(c)) => Page::LeaderboardN { n, shape: s, container: c },
            _ => Page::UnknownShape,
        },
        RouteModel::Leaderboard => Page::Leaderboard,
        RouteModel::LeaderboardN { n } => Page::LeaderboardN {
            n,
            shape: Shape::Square,
            container: Shape::Square,
        },
        RouteModel::PolygonLeaderboard { shape, n } => match shape_named(shape) {
            Some(s) => Page::LeaderboardN { n, shape: s, container: Shape::Square },
            None => Page::UnknownShape,
        },
        RouteModel::Score { id } => Page::Score { id },
        RouteModel::NotFound => Page::NotFound,
    }
}

/// The game the header's picker shows for a route: the one being played,
/// if any and if its count is playable.
pub open spec fn spec_picked(r: RouteModel) -> Option<(u32, Shape, Shape)> {
    let configuration = match r {
        RouteModel::Home => Some((17u32, Shape::Square, Shape::Square)),
        RouteModel::Play { n } => Some((n, Shape::Square, Shape::Square)),
        RouteModel::Polygon { shape, n } => match shape_named(shape) {
            Some(s) => Some((n, s, Shape::Square)),
            None => None,
        },
        RouteModel::Container { shape, container, n } => match (
            shape_named(shape),
            shape_named(container),
        ) {
            (Some(s), Some(c)) => Some((n, s, c)),
            _ => None,
        },
        _ => None,
    };
    match configuration {
        Some((n, s, c)) => if playable(n) {
            Some((n, s, c))
        } else {
            None
        },
        None => None,
    }
}

/// The route to play `n` pieces of `shape` in a square container.
pub open spec fn spec_play(shape: Shape, n: u32) -> RouteModel {
    if shape == Shape::Square {
        RouteModel::Play { n }
    } else {
        RouteModel::Polygon { shape: spec_name(shape), n }
    }
}

/// The route to play `n` pieces of `shape` in `container`.
pub open spec fn spec_play_in(shape: Shape, container: Shape, n: u32) -> RouteModel {
    if container == Shape::Square {
        spec_play(shape, n)
    } else {
        RouteModel::Container { shape: spec_name(shape), container: spec_name(container), n }
    }
}

/// The route of the leaderboard for `n` pieces of `shape` in `container`.
pub open spec fn spec_leaderboard_in(shape: Shape, container: Shape, n: u32) -> RouteModel {
    if container != Shape::Square {
        RouteModel::ContainerLeaderboard {
            shape: spec_name(shape),
            container: spec_name(container),
            n,
        }
    } else if shape == Shape::Square {
        RouteModel::LeaderboardN { n }
    } else {
        RouteModel::PolygonLeaderboard { shape: spec_name(shape), n }
    }
}

/// The name of `s` as a new string.
fn name_string(s: Shape) -> (r: String)
    ensures
        r@ == spec_name(s),
{
    owned(s.name())
}

/// The name `t`, read as a shape.
fn parse_shape(t: &String) -> (r: Option<Shape>)
    ensures
        r == shape_named(t@),
{
    match Shape::from_name(t.as_str()) {
        Ok(s) => Some(s),
        Err(_) => None,
    }
}

impl Route {
    /// The route to play `n` pieces of `shape` in `container`.
    pub fn play_in(shape: Shape, container: Shape, n: u32) -> (r: Route)
        ensures
            r@ == spec_play_in(shape, container, n),
    {
        if container.is_square() {
            Route::play(shape, n)
        } else {
            Route::Container { shape: name_string(shape), container: name_string(container), n }
        }
    }

    /// The route of the leaderboard for `n` pieces of `shape` in
    /// `container`.
    pub fn leaderboard_in(shape: Shape, container: Shape, n: u32) -> (r: Route)
        ensures
            r@ == spec_leaderboard_in(shape, container, n),
    {
        if container.is_square() {
            Route::leaderboard(shape, n)
        } else {
            Route::ContainerLeaderboard {
                shape: name_string(shape),
                container: name_string(container),
                n,
            }
        }
    }

    /// The route to play `n` pieces of `shape` in a square container.
    pub fn play(shape: Shape, n: u32) -> (r: Route)
        ensures
            r@ == spec_play(shape, n),
    {
        if shape.is_square() {
            Route::Play { n }
        } else {
            Route::Polygon { shape: name_string(shape), n }
        }
    }

    fn leaderboard(shape: Shape, n: u32) -> (r: Route)
        ensures
            r@ == spec_leaderboard_in(shape, Shape::Square, n),
    {
        if shape.is_square() {
            Route::LeaderboardN { n }
        } else {
            Route::PolygonLeaderboard { shape: name_string(shape), n }
        }
    }

    /// The page this route shows.
    pub fn page(&self) -> (p: Page)
        ensures
            p == spec_page(self@),
    {
        match self {
            Route::Home => Page::Game { n: 17, shape: Shape::Square, container: Shape::Square },
            Route::Play { n } => {
                if 1 <= *n && *n <= MAX_N {
                    Page::Game { n: *n, shape: Shape::Square, container: Shape::Square }
                } else {
                    Page::NotFound
                }
            },
            Route::Polygon { shape, n } => {
                if !(1 <= *n && *n <= MAX_N) {
                    return Page::NotFound;
                }
                match parse_shape(shape) {
                    Some(s) => Page::Game { n: *n, shape: s, container: Shape::Square },
                    None => Page::UnknownShape,
                }
            },
            Route::Container { shape, container, n } => {
                if !(1 <= *n && *n <= MAX_N) {
                    return Page::NotFound;
                }
                match (parse_shape(shape), parse_shape(container)) {
                    (Some(s), Some(c)) => Page::Game { n: *n, shape: s, container: c },
                    _ => Page::UnknownShape,
                }
            },
            Route::ContainerLeaderboard { shape, container, n } => match (
                parse_shape(shape),
                parse_shape(container),
            ) {
                (Some(s), Some(c)) => Page::LeaderboardN { n: *n, shape: s, container: c },
                _ => Page::UnknownShape,
            },
            Route::Leaderboard => Page::Leaderboard,
            Route::LeaderboardN { n } => Page::LeaderboardN {
                n: *n,
                shape: Shape::Square,
                container: Shape::Square,
            },
            Route::PolygonLeaderboard { shape, n } => match parse_shape(shape) {
                Some(s) => Page::LeaderboardN { n: *n, shape: s, container: Shape::Square },
                None => Page::UnknownShape,
            },
            Route::Score { id } => Page::Score { id: *id },
            Route::NotFound => Page::NotFound,
        }
    }

    /// The game the header's picker shows on this route, if any.
    pub fn picked(&self) -> (r: Option<(u32, Shape, Shape)>)
        ensures
            r == spec_picked(self@),
    {
        let configuration = match self {
            Route::Home => Some((17u32, Shape::Square, Shape::Square)),
            Route::Play { n } => Some((*n, Shape::Square, Shape::Square)),
            Route::Polygon { shape, n } => match parse_shape(shape) {
                Some(s) => Some((*n, s, Shape::Square)),
                None => None,
            },
            Route::Container { shape, container, n } => match (
                parse_shape(shape),
                parse_shape(container),
            ) {
                (Some(s), Some(c)) => Some((*n, s, c)),
                _ => None,
            },
            _ => None,
        };
        match configuration {
            Some((n, s, c)) => {
                if 1 <= n && n <= MAX_N {
                    Some((n, s, c))
                } else {
                    None
                }
            },
            None => None,
        }
    }
}

/// Every game link opens that game: the route to play a playable count of
/// any pieces in any container shows exactly that game, and the header's
/// picker shows the same game.
pub proof fn law_play_route_opens_the_game(shape: Shape, container: Shape, n: u32)
    requires
        playable(n),
    ensures
        spec_page(spec_play_in(shape, container, n)) == (Page::Game { n, shape, container }),
        spec_picked(spec_play_in(shape, container, n)) == Some((n, shape, container)),
{
    law_names_read_back(shape);
    law_names_read_back(container);
}

/// Every leaderboard link shows that leaderboard.
pub proof fn law_leaderboard_route_shows_the_board(shape: Shape, container: Shape, n: u32)
    ensures
        spec_page(spec_leaderboard_in(shape, container, n)) == (Page::LeaderboardN { n, shape, container }),
{
    law_names_read_back(shape);
    law_names_read_back(container);
}

} // verus!
