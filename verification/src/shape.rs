//! Regular polygons with unit edge length: the pieces and the containers.
use vstd::prelude::*;
use vstd::string::*;
use crate::text::{decimal, owned, push_decimal, same_text};

verus! {

/// A regular polygon shape, for pieces and for containers.
#[derive(Clone, Copy, Debug, PartialEq, Eq, Structural)]
pub enum Shape {
    Triangle,
    Square,
    Pentagon,
    Hexagon,
}

/// Number of sides of `s`.
pub open spec fn spec_sides(s: Shape) -> nat {
    match s {
        Shape::Triangle => 3,
        Shape::Square => 4,
        Shape::Pentagon => 5,
        Shape::Hexagon => 6,
    }
}

/// Singular lower-case name of `s`.
pub open spec fn spec_name(s: Shape) -> Seq<char> {
    match s {
        Shape::Triangle => seq!['t', 'r', 'i', 'a', 'n', 'g', 'l', 'e'],
        Shape::Square => seq!['s', 'q', 'u', 'a', 'r', 'e'],
        Shape::Pentagon => seq!['p', 'e', 'n', 't', 'a', 'g', 'o', 'n'],
        Shape::Hexagon => seq!['h', 'e', 'x', 'a', 'g', 'o', 'n'],
    }
}

/// Plural lower-case name of `s`.
pub open spec fn spec_plural(s: Shape) -> Seq<char> {
    spec_name(s).push('s')
}

/// The shape with `n` sides, if there is one.
pub open spec fn spec_from_sides(n: nat) -> Option<Shape> {
    if n == 3 {
        Some(Shape::Triangle)
    } else if n == 4 {
        Some(Shape::Square)
    } else if n == 5 {
        Some(Shape::Pentagon)
    } else if n == 6 {
        Some(Shape::Hexagon)
    } else {
        None
    }
}

/// The shape whose singular or plural name is `t`, if any.
pub open spec fn shape_named(t: Seq<char>) -> Option<Shape> {
    if t == spec_name(Shape::Triangle) || t == spec_plural(Shape::Triangle) {
        Some(Shape::Triangle)
    } else if t == spec_name(Shape::Square) || t == spec_plural(Shape::Square) {
        Some(Shape::Square)
    } else if t == spec_name(Shape::Pentagon) || t == spec_plural(Shape::Pentagon) {
        Some(Shape::Pentagon)
    } else if t == spec_name(Shape::Hexagon) || t == spec_plural(Shape::Hexagon) {
        Some(Shape::Hexagon)
    } else {
        None
    }
}

/// The characters `/play/`.
pub open spec fn play_prefix() -> Seq<char> {
    seq!['/', 'p', 'l', 'a', 'y', '/']
}

/// Path of the play page for `n` pieces of `piece` in `container`: the
/// square-in-square game keeps the short `/play/{n}` form.
pub open spec fn spec_play_path(piece: Shape, container: Shape, n: nat) -> Seq<char> {
    if container != Shape::Square {
        play_prefix() + spec_name(piece) + seq!['/'] + spec_name(container) + seq!['/'] + decimal(n)
    } else if piece == Shape::Square {
        play_prefix() + decimal(n)
    } else {
        play_prefix() + spec_name(piece) + seq!['/'] + decimal(n)
    }
}

impl Default for Shape {
    fn default() -> (s: Shape)
        ensures
            s == Shape::Square,
    {
        Shape::Square
    }
}

impl core::str::FromStr for Shape {
    type Err = String;

    /// The shape named `s`, singular or plural; the error for any other
    /// text.
    fn from_str(s: &str) -> (r: Result<Shape, String>)
        ensures
            r matches Ok(shape) ==> shape_named(s@) == Some(shape),
            r is Err <==> shape_named(s@) is None,
            r matches Err(e) ==> e@ == unknown_shape(),
    {
        Shape::from_name(s)
    }
}

impl Shape {
    /// Every shape, by side count.
    pub const ALL: [Shape; 4] = [Shape::Triangle, Shape::Square, Shape::Pentagon, Shape::Hexagon];

    pub fn is_square(&self) -> (r: bool)
        ensures
            r == (*self == Shape::Square),
    {
        match self {
            Shape::Square => true,
            _ => false,
        }
    }

    pub fn sides(self) -> (r: usize)
        ensures
            r == spec_sides(self),
    {
        match self {
            Shape::Triangle => 3,
            Shape::Square => 4,
            Shape::Pentagon => 5,
            Shape::Hexagon => 6,
        }
    }

    /// The shape with `n` sides; `None` unless `n` is 3, 4, 5 or 6.
    pub fn from_sides(n: u8) -> (r: Option<Shape>)
        ensures
            r == spec_from_sides(n as nat),
            r matches Some(s) ==> spec_sides(s) == n,
    {
        match n {
            3 => Some(Shape::Triangle),
            4 => Some(Shape::Square),
            5 => Some(Shape::Pentagon),
            6 => Some(Shape::Hexagon),
            _ => None,
        }
    }

    pub fn name(self) -> (r: &'static str)
        ensures
            r@ == spec_name(self),
    {
        proof {
            reveal_strlit("triangle");
            reveal_strlit("square");
            reveal_strlit("pentagon");
            reveal_strlit("hexagon");
        }
        match self {
            Shape::Triangle => "triangle",
            Shape::Square => "square",
            Shape::Pentagon => "pentagon",
            Shape::Hexagon => "hexagon",
        }
    }

    pub fn plural(self) -> (r: &'static str)
        ensures
            r@ == spec_plural(self),
    {
        proof {
            reveal_strlit("triangles");
            reveal_strlit("squares");
            reveal_strlit("pentagons");
            reveal_strlit("hexagons");
        }
        match self {
            Shape::Triangle => "triangles",
            Shape::Square => "squares",
            Shape::Pentagon => "pentagons",
            Shape::Hexagon => "hexagons",
        }
    }

    /// Path of the play page for `n` of these pieces in `container`.
    pub fn play_path(self, container: Shape, n: u32) -> (r: String)
        ensures
            r@ == spec_play_path(self, container, n as nat),
    {
        proof {
            reveal_strlit("/play/");
            reveal_strlit("/");
        }
        let mut out = owned("/play/");
        if !container.is_square() {
            out.append(self.name());
            out.append("/");
            out.append(container.name());
            out.append("/");
        } else if !self.is_square() {
            out.append(self.name());
            out.append("/");
        }
        push_decimal(&mut out, n);
        out
    }

    /// The shape named `s`, singular or plural; the error for any other text.
    pub fn from_name(s: &str) -> (r: Result<Shape, String>)
        ensures
            r matches Ok(shape) ==> s@ == spec_name(shape) || s@ == spec_plural(shape),
            r matches Ok(shape) ==> shape_named(s@) == Some(shape),
            r is Err <==> (forall|x: Shape| s@ != spec_name(x) && s@ != spec_plural(x)),
            r is Err <==> shape_named(s@) is None,
            r matches Err(e) ==> e@ == unknown_shape(),
    {
        let all = [Shape::Triangle, Shape::Square, Shape::Pentagon, Shape::Hexagon];
        let mut i: usize = 0;
        while i < 4
            invariant
                i <= 4,
                all@ == seq![Shape::Triangle, Shape::Square, Shape::Pentagon, Shape::Hexagon],
                forall|j: int| 0 <= j < i ==> s@ != spec_name(#[trigger] all@[j]) && s@ != spec_plural(all@[j]),
            decreases 4 - i,
        {
            let x = all[i];
            if same_text(x.name(), s) || same_text(x.plural(), s) {
                proof {
                    lemma_named_is_unique(x, s@);
                }
                return Ok(x);
            }
            i = i + 1;
        }
        proof {
            assert forall|x: Shape| s@ != spec_name(x) && s@ != spec_plural(x) by {
                match x {
                    Shape::Triangle => assert(all@[0] == x),
                    Shape::Square => assert(all@[1] == x),
                    Shape::Pentagon => assert(all@[2] == x),
                    Shape::Hexagon => assert(all@[3] == x),
                }
            }
            reveal_strlit("Unknown shape");
        }
        Err(owned("Unknown shape"))
    }
}

/// The error text for an unrecognized shape name.
pub open spec fn unknown_shape() -> Seq<char> {
    seq!['U', 'n', 'k', 'n', 'o', 'w', 'n', ' ', 's', 'h', 'a', 'p', 'e']
}

/// A text that names `x` names no other shape.
proof fn lemma_named_is_unique(x: Shape, t: Seq<char>)
    requires
        t == spec_name(x) || t == spec_plural(x),
    ensures
        shape_named(t) == Some(x),
{
    law_shape_round_trips(x, Shape::Triangle);
    law_shape_round_trips(x, Shape::Square);
    law_shape_round_trips(x, Shape::Pentagon);
    law_shape_round_trips(x, Shape::Hexagon);
    law_shape_round_trips(Shape::Triangle, x);
    law_shape_round_trips(Shape::Square, x);
    law_shape_round_trips(Shape::Pentagon, x);
    law_shape_round_trips(Shape::Hexagon, x);
}

/// A shape's name and its plural both read back as that shape.
pub proof fn law_names_read_back(x: Shape)
    ensures
        shape_named(spec_name(x)) == Some(x),
        shape_named(spec_plural(x)) == Some(x),
{
    lemma_named_is_unique(x, spec_name(x));
    lemma_named_is_unique(x, spec_plural(x));
}

/// Each shape is named by its own name and plural alone, so reading
/// either back gives the shape; its side count gives it back too.
pub proof fn law_shape_round_trips(x: Shape, y: Shape)
    ensures
        spec_name(x) == spec_name(y) ==> x == y,
        spec_plural(x) == spec_plural(y) ==> x == y,
        spec_name(x) != spec_plural(y),
        spec_from_sides(spec_sides(x)) == Some(x),
{
    assert(spec_plural(y)[0] == spec_name(y)[0]);
    assert(spec_plural(x)[0] == spec_name(x)[0]);
    assert(spec_plural(y).len() == spec_name(y).len() + 1);
    if x != y {
        assert(spec_name(x)[0] != spec_name(y)[0]);
    }
}

} // verus!
