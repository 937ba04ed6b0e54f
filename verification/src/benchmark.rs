//! "How close is this to the record?": how a side compares with the
//! literature value for the same count, and how that is presented. Only a
//! validated packing below an unproven best known value is reported as a
//! record candidate; anything else below the reference is suspect.
use vstd::prelude::*;

verus! {

/// How the bubble is shaded.
#[derive(Clone, Copy, Debug, PartialEq, Eq, Structural)]
pub enum Tone {
    /// Live, unchecked scene at or above the reference.
    Live,
    /// Validated and above the reference.
    Near,
    /// Validated and equal to the reference.
    Match,
    /// Validated and below a best known (unproven) reference.
    Record,
    /// Below the reference without validation, or below a proven optimum.
    Suspect,
    /// No reference loaded.
    Missing,
}

/// The style class of a tone.
pub open spec fn tone_class(t: Tone) -> Seq<char> {
    match t {
        Tone::Live => "is-live"@,
        Tone::Near => "is-near"@,
        Tone::Match => "is-match"@,
        Tone::Record => "is-record"@,
        Tone::Suspect => "is-suspect"@,
        Tone::Missing => "is-missing"@,
    }
}

impl Tone {
    /// The style class of this tone.
    pub fn class(self) -> (r: &'static str)
        ensures
            r@ == tone_class(self),
    {
        match self {
            Tone::Live => "is-live",
            Tone::Near => "is-near",
            Tone::Match => "is-match",
            Tone::Record => "is-record",
            Tone::Suspect => "is-suspect",
            Tone::Missing => "is-missing",
        }
    }
}

/// Where a side stands against the reference, within the match tolerance.
#[derive(Clone, Copy, Debug, PartialEq, Eq, Structural)]
pub enum Standing {
    Below,
    Matches,
    Above,
}

/// What the headline says.
#[derive(Clone, Copy, Debug, PartialEq, Eq, Structural)]
pub enum Headline {
    /// "New record candidate".
    NewRecord,
    /// "Below the {label}? Check it".
    BelowCheck,
    /// "Overlaps likely".
    OverlapsLikely,
    /// "Matches the {label}".
    Matches,
    /// "{gap}% above the {label}".
    Above,
}

/// The headline and tone for a side standing `standing` against a
/// reference that is a proven optimum or not, for a packing validated or
/// not.
pub open spec fn spec_classify(standing: Standing, proven: bool, validated: bool) -> (Headline, Tone) {
    match standing {
        Standing::Below => if validated && !proven {
            (Headline::NewRecord, Tone::Record)
        } else if validated {
            (Headline::BelowCheck, Tone::Suspect)
        } else {
            (Headline::OverlapsLikely, Tone::Suspect)
        },
        Standing::Matches => (Headline::Matches, if validated {
            Tone::Match
        } else {
            Tone::Live
        }),
        Standing::Above => (Headline::Above, if validated {
            Tone::Near
        } else {
            Tone::Live
        }),
    }
}

/// Classify a side's standing against the reference.
pub fn classify(standing: Standing, proven: bool, validated: bool) -> (r: (Headline, Tone))
    ensures
        r == spec_classify(standing, proven, validated),
{
    match standing {
        Standing::Below => {
            if validated && !proven {
                (Headline::NewRecord, Tone::Record)
            } else if validated {
                (Headline::BelowCheck, Tone::Suspect)
            } else {
                (Headline::OverlapsLikely, Tone::Suspect)
            }
        },
        Standing::Matches => (Headline::Matches, if validated {
            Tone::Match
        } else {
            Tone::Live
        }),
        Standing::Above => (Headline::Above, if validated {
            Tone::Near
        } else {
            Tone::Live
        }),
    }
}

/// What the reference is called.
pub fn reference_label(proven: bool) -> (r: &'static str)
    ensures
        r@ == (if proven {
            "proven optimum"@
        } else {
            "best known"@
        }),
{
    if proven {
        "proven optimum"
    } else {
        "best known"
    }
}

/// Whether the side was checked.
pub fn status_label(validated: bool) -> (r: &'static str)
    ensures
        r@ == (if validated {
            "validated"@
        } else {
            "live · unchecked"@
        }),
{
    if validated {
        "validated"
    } else {
        "live · unchecked"
    }
}

/// A record candidate is reported only for a validated packing below an
/// unproven best known value; anything else below the reference is
/// suspect, and nothing at or above it is.
pub proof fn law_records_only_when_validated_and_unproven(standing: Standing, proven: bool, validated: bool)
    ensures
        spec_classify(standing, proven, validated).1 == Tone::Record <==> standing == Standing::Below
            && validated && !proven,
        spec_classify(standing, proven, validated).1 == Tone::Suspect <==> standing == Standing::Below
            && !(validated && !proven),
        !validated ==> spec_classify(standing, proven, validated).1 == Tone::Live
            || spec_classify(standing, proven, validated).1 == Tone::Suspect,
{
}

/// `names` joined with `sep` between each two.
pub open spec fn joined(names: Seq<Seq<char>>, sep: Seq<char>) -> Seq<char>
    decreases names.len(),
{
    if names.len() == 0 {
        Seq::empty()
    } else if names.len() == 1 {
        names[0]
    } else {
        joined(names.drop_last(), sep) + sep + names.last()
    }
}

/// The characters of each name.
pub open spec fn texts(names: Seq<String>) -> Seq<Seq<char>> {
    names.map_values(|s: String| s@)
}

/// The credits after a best known side: who found the packing (every
/// candidate when the sources disagree), then who proved it optimal.
pub open spec fn credits_text(
    packing_by: Seq<Seq<char>>,
    disputed: bool,
    proof_by: Seq<Seq<char>>,
    proof_trivial: bool,
    proven_optimal: bool,
) -> Seq<char> {
    (if packing_by.len() > 0 {
        " · found by "@ + joined(packing_by, if disputed {
            " or "@
        } else {
            ", "@
        })
    } else {
        Seq::empty()
    }) + if proof_trivial {
        " · optimal"@
    } else if proof_by.len() > 0 {
        " · proved optimal by "@ + joined(proof_by, ", "@)
    } else if proven_optimal {
        " · proved optimal"@
    } else {
        Seq::empty()
    }
}

/// Appends `names` joined with `sep` to `out`.
fn push_joined(out: &mut String, names: &Vec<String>, sep: &str)
    ensures
        final(out)@ == old(out)@ + joined(texts(names@), sep@),
{
    let ghost start = out@;
    let mut i: usize = 0;
    while i < names.len()
        invariant
            i <= names@.len(),
            out@ == start + joined(texts(names@.take(i as int)), sep@),
        decreases names@.len() - i,
    {
        let ghost before = texts(names@.take(i as int));
        let ghost after = texts(names@.take(i + 1));
        assert(after.drop_last() =~= before);
        assert(after.last() == names@[i as int]@);
        if i > 0 {
            out.append(sep);
        }
        out.append(names[i].as_str());
        proof {
            if i == 0 {
                assert(before =~= Seq::<Seq<char>>::empty());
                assert(after.len() == 1);
            }
        }
        i = i + 1;
    }
    assert(names@.take(names@.len() as int) =~= names@);
}

/// The credits after a best known side: " · found by …" when someone is
/// credited (joined with " or " when the sources disagree), then
/// " · optimal" for a trivially optimal grid, " · proved optimal by …"
/// naming the provers, or " · proved optimal".
pub fn credits(
    packing_by: &Vec<String>,
    disputed: bool,
    proof_by: &Vec<String>,
    proof_trivial: bool,
    proven_optimal: bool,
) -> (r: String)
    ensures
        r@ == credits_text(texts(packing_by@), disputed, texts(proof_by@), proof_trivial, proven_optimal),
{
    let mut out = String::new();
    if packing_by.len() > 0 {
        out.append(" · found by ");
        push_joined(&mut out, packing_by, if disputed { " or " } else { ", " });
    }
    let ghost found = out@;
    if proof_trivial {
        out.append(" · optimal");
    } else if proof_by.len() > 0 {
        out.append(" · proved optimal by ");
        push_joined(&mut out, proof_by, ", ");
    } else if proven_optimal {
        out.append(" · proved optimal");
    }
    proof {
        if packing_by@.len() == 0 {
            assert(found =~= Seq::<char>::empty());
        }
    }
    out
}

} // verus!
