//! The username rule of the account dialog: what is typed is trimmed and
//! lowercased, and a name is 3 to 24 of `a-z`, `0-9`, `-` and `_`, starting
//! with a letter or a digit.
use vstd::prelude::*;
use crate::account::Action;
use crate::text::{chars_of, same_text};

verus! {

/// Unicode `White_Space`: the characters that trimming removes.
pub open spec fn white_space(c: char) -> bool {
    let u = c as u32;
    ||| 9 <= u <= 13
    ||| u == 32
    ||| u == 0x85
    ||| u == 0xa0
    ||| u == 0x1680
    ||| 0x2000 <= u <= 0x200a
    ||| u == 0x2028
    ||| u == 0x2029
    ||| u == 0x202f
    ||| u == 0x205f
    ||| u == 0x3000
}

/// `s` without its leading white space.
pub open spec fn trim_start(s: Seq<char>) -> Seq<char>
    decreases s.len(),
{
    if s.len() > 0 && white_space(s[0]) {
        trim_start(s.drop_first())
    } else {
        s
    }
}

/// `s` without its trailing white space.
pub open spec fn trim_end(s: Seq<char>) -> Seq<char>
    decreases s.len(),
{
    if s.len() > 0 && white_space(s.last()) {
        trim_end(s.drop_last())
    } else {
        s
    }
}

/// `c` with `A-Z` mapped to `a-z`.
pub open spec fn ascii_lower(c: char) -> char {
    if 65 <= c as u32 <= 90 {
        ((c as u32) + 32) as char
    } else {
        c
    }
}

/// `a-z` or `0-9`.
pub open spec fn lead_char(c: char) -> bool {
    let u = c as u32;
    (97 <= u <= 122) || (48 <= u <= 57)
}

/// `a-z`, `0-9`, `-` or `_`.
pub open spec fn name_char(c: char) -> bool {
    lead_char(c) || c as u32 == 45 || c as u32 == 95
}

/// The name typed as `s`, trimmed and lowercased, if it is a valid
/// username. (Every character of a valid name is ASCII, so counting its
/// characters counts its bytes.)
pub open spec fn spec_username(s: Seq<char>) -> Option<Seq<char>> {
    let typed = trim_end(trim_start(s)).map_values(|c: char| ascii_lower(c));
    if 3 <= typed.len() <= 24 && lead_char(typed[0]) && forall|i: int|
        0 <= i < typed.len() ==> #[trigger] name_char(typed[i]) {
        Some(typed)
    } else {
        None
    }
}

fn is_white_space(c: char) -> (r: bool)
    ensures
        r == white_space(c),
{
    let u = c as u32;
    (9 <= u && u <= 13) || u == 32 || u == 0x85 || u == 0xa0 || u == 0x1680 || (0x2000 <= u && u
        <= 0x200a) || u == 0x2028 || u == 0x2029 || u == 0x202f || u == 0x205f || u == 0x3000
}

fn lower(c: char) -> (r: char)
    ensures
        r == ascii_lower(c),
{
    if 'A' <= c && c <= 'Z' {
        let b: u8 = (c as u8) + 32;
        assert(b as char == ((c as u32) + 32) as char);
        b as char
    } else {
        c
    }
}

fn is_name_char(c: char) -> (r: bool)
    ensures
        r == name_char(c),
{
    ('a' <= c && c <= 'z') || ('0' <= c && c <= '9') || c == '-' || c == '_'
}

/// std's `String::push`. Trusted to append `c` to `s`: the characters of
/// `s` afterwards are those before, followed by `c`.
#[verifier::external_body]
fn push_char(s: &mut String, c: char)
    ensures
        final(s)@ == old(s)@.push(c),
{
    s.push(c);
}

/// Where the text of `v` starts and ends once white space is trimmed from
/// both ends.
fn trim_bounds(v: &Vec<char>) -> (r: (usize, usize))
    ensures
        r.0 <= r.1 <= v@.len(),
        trim_end(trim_start(v@)) == v@.subrange(r.0 as int, r.1 as int),
{
    let len = v.len();
    let mut start: usize = 0;
    assert(v@.subrange(0, len as int) =~= v@);
    while start < len && is_white_space(v[start])
        invariant
            start <= len == v@.len(),
            trim_start(v@) == trim_start(v@.subrange(start as int, len as int)),
        decreases len - start,
    {
        assert(v@.subrange(start as int + 1, len as int) =~= v@.subrange(start as int, len as int).drop_first());
        start = start + 1;
    }
    let ghost tail = v@.subrange(start as int, len as int);
    assert(trim_start(tail) == tail);
    let mut end: usize = len;
    while end > start && is_white_space(v[end - 1])
        invariant
            start <= end <= len == v@.len(),
            trim_end(tail) == trim_end(v@.subrange(start as int, end as int)),
            tail == v@.subrange(start as int, len as int),
        decreases end,
    {
        assert(v@.subrange(start as int, end - 1) =~= v@.subrange(start as int, end as int).drop_last());
        end = end - 1;
    }
    assert(trim_end(v@.subrange(start as int, end as int)) == v@.subrange(start as int, end as int));
    (start, end)
}

/// The username typed as `name`: trimmed and lowercased when it is valid,
/// `None` when it is not.
pub fn normalized_username(name: &str) -> (r: Option<String>)
    ensures
        match r {
            Some(t) => spec_username(name@) == Some(t@),
            None => spec_username(name@) is None,
        },
{
    let v = chars_of(name);
    let (start, end) = trim_bounds(&v);
    assert(name@ == v@);
    let ghost kept = v@.subrange(start as int, end as int);
    let ghost typed = kept.map_values(|c: char| ascii_lower(c));
    assert(trim_end(trim_start(name@)) == kept);
    assert(trim_end(trim_start(name@)).map_values(|c: char| ascii_lower(c)) =~= typed);
    if end - start < 3 || end - start > 24 {
        return None;
    }
    let first = lower(v[start]);
    assert(typed[0] == first);
    if !(('a' <= first && first <= 'z') || ('0' <= first && first <= '9')) {
        return None;
    }
    let mut out = String::new();
    let mut i: usize = start;
    while i < end
        invariant
            start <= i <= end <= v@.len(),
            kept == v@.subrange(start as int, end as int),
            typed == kept.map_values(|c: char| ascii_lower(c)),
            typed == trim_end(trim_start(name@)).map_values(|c: char| ascii_lower(c)),
            out@ == typed.take(i - start),
            forall|j: int| 0 <= j < i - start ==> #[trigger] name_char(typed[j]),
        decreases end - i,
    {
        let c = lower(v[i]);
        assert(c == typed[i - start]);
        if !is_name_char(c) {
            assert(!name_char(typed[i - start]));
            return None;
        }
        push_char(&mut out, c);
        assert(out@ =~= typed.take(i + 1 - start));
        i = i + 1;
    }
    assert(out@ =~= typed);
    Some(out)
}

/// The hint under the new-username field, for the text `name` typed and
/// the last availability answer: the name it was for, and whether it is
/// free (`None` when the check failed).
pub open spec fn hint_text(name: Seq<char>, checked: Option<(Seq<char>, Option<bool>)>) -> Seq<char> {
    if trim_end(trim_start(name)).len() == 0 {
        "Choose a unique username."@
    } else {
        match spec_username(name) {
            None => "Use 3–24 letters, digits, - or _, starting with a letter or digit."@,
            Some(t) => match checked {
                Some((n, answer)) => if n == t {
                    match answer {
                        Some(true) => "This username is available."@,
                        Some(false) => "That username is unavailable."@,
                        None => "Couldn't check availability. Creating the passkey will check again."@,
                    }
                } else {
                    "Checking availability…"@
                },
                None => "Checking availability…"@,
            },
        }
    }
}

/// The hint under the new-username field; an availability answer counts
/// only for the name now typed.
pub fn username_hint(name: &str, checked: Option<(&str, Option<bool>)>) -> (r: &'static str)
    ensures
        r@ == hint_text(
            name@,
            match checked {
                Some((n, answer)) => Some((n@, answer)),
                None => None,
            },
        ),
{
    let v = chars_of(name);
    let (start, end) = trim_bounds(&v);
    if start == end {
        return "Choose a unique username.";
    }
    match normalized_username(name) {
        None => "Use 3–24 letters, digits, - or _, starting with a letter or digit.",
        Some(t) => match checked {
            Some((n, answer)) => {
                if same_text(n, t.as_str()) {
                    match answer {
                        Some(true) => "This username is available.",
                        Some(false) => "That username is unavailable.",
                        None => "Couldn't check availability. Creating the passkey will check again.",
                    }
                } else {
                    "Checking availability…"
                }
            },
            None => "Checking availability…",
        },
    }
}

/// What submitting the dialog asks for: nothing while a request runs;
/// registering the typed name when making a new account and the name is
/// valid; signing in otherwise, when not making a new account.
pub fn dialog_submit(name: &str, new_account: bool, busy: bool) -> (r: Option<Action>)
    ensures
        match r {
            None => busy || (new_account && spec_username(name@) is None),
            Some(Action::SignIn) => !busy && !new_account,
            Some(Action::Register(t)) => !busy && new_account && spec_username(name@) == Some(t@),
            Some(_) => false,
        },
{
    if busy {
        None
    } else if new_account {
        match normalized_username(name) {
            Some(t) => Some(Action::Register(t)),
            None => None,
        }
    } else {
        Some(Action::SignIn)
    }
}

/// A letter `a-z` or a digit `0-9`.
pub open spec fn lower_alnum(c: char) -> bool {
    ('a' <= c && c <= 'z') || ('0' <= c && c <= '9')
}

/// The shape of a username: 3 to 24 characters of `a-z`, `0-9`, `-` and
/// `_`, the first a letter or a digit.
pub open spec fn username_shaped(s: Seq<char>) -> bool {
    &&& 3 <= s.len() <= 24
    &&& lower_alnum(s[0])
    &&& forall|i: int| 0 <= i < s.len() ==> lower_alnum(#[trigger] s[i]) || s[i] == '-' || s[i] == '_'
}

/// The username rule accepts exactly the names of that shape, typed as
/// they are or with white space around them and capitals in place of small
/// letters: a name already in that shape is accepted unchanged, and
/// whatever is accepted has that shape.
pub proof fn law_usernames_are_the_well_shaped_names(s: Seq<char>)
    ensures
        username_shaped(s) ==> spec_username(s) == Some(s),
        spec_username(s) matches Some(t) ==> username_shaped(t),
{
    if username_shaped(s) {
        assert(!white_space(s[0]));
        assert(trim_start(s) == s);
        assert(!white_space(s.last())) by {
            assert(lower_alnum(s[s.len() - 1]) || s[s.len() - 1] == '-' || s[s.len() - 1] == '_');
        }
        assert(trim_end(s) == s);
        let typed = s.map_values(|c: char| ascii_lower(c));
        assert forall|i: int| 0 <= i < s.len() implies typed[i] == s[i] by {
            assert(lower_alnum(s[i]) || s[i] == '-' || s[i] == '_');
        }
        assert(typed =~= s);
        assert forall|i: int| 0 <= i < typed.len() implies #[trigger] name_char(typed[i]) by {
            assert(lower_alnum(s[i]) || s[i] == '-' || s[i] == '_');
        }
    }
    if spec_username(s) is Some {
        let t = spec_username(s)->Some_0;
        assert forall|i: int| 0 <= i < t.len() implies lower_alnum(#[trigger] t[i]) || t[i] == '-' || t[i]
            == '_' by {
            assert(name_char(t[i]));
        }
    }
}

} // verus!
