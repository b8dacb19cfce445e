//! The name this computer goes by: what the platform tools print for it,
//! and which of the candidates is used. Running the tools is the
//! application's.

use vstd::prelude::*;
use crate::proximity::{decode_utf8_lossy, utf8_lossy};
use crate::text::{chars_of, string_of, trim_chars, trim_spec};

verus! {

/// The text with whitespace trimmed, when anything is left.
pub open spec fn nonblank(t: Seq<char>) -> Option<Seq<char>> {
    if trim_spec(t).len() > 0 {
        Some(trim_spec(t))
    } else {
        None
    }
}

/// Index of the first line break.
pub open spec fn first_newline(s: Seq<char>) -> Option<int>
    decreases s.len(),
{
    if s.len() == 0 {
        None
    } else if s[0] == '\n' {
        Some(0)
    } else {
        match first_newline(s.drop_first()) {
            Some(i) => Some(i + 1),
            None => None,
        }
    }
}

/// The second line of the text (empty when there is none); a carriage
/// return ending it is left in place, since it is trimmed away later.
pub open spec fn second_line(s: Seq<char>) -> Seq<char> {
    match first_newline(s) {
        Some(p) => {
            let r = s.skip(p + 1);
            match first_newline(r) {
                Some(q) => r.take(q),
                None => r,
            }
        },
        None => seq![],
    }
}

fn newline_index(cs: &[char], from: usize) -> (r: Option<usize>)
    requires
        from <= cs@.len(),
    ensures
        match first_newline(cs@.skip(from as int)) {
            Some(q) => r matches Some(i) && i == from + q,
            None => r is None,
        },
        r matches Some(i) ==> from <= i < cs@.len(),
{
    let mut i = from;
    while i < cs.len() && cs[i] != '\n'
        invariant
            from <= i <= cs@.len(),
            first_newline(cs@.skip(from as int)) == (match first_newline(cs@.skip(i as int)) {
                Some(q) => Some(q + (i - from)),
                None => None::<int>,
            }),
        decreases cs@.len() - i,
    {
        assert(cs@.skip(i as int).drop_first() =~= cs@.skip(i + 1));
        assert(cs@.skip(i as int)[0] == cs@[i as int]);
        i = i + 1;
    }
    if i == cs.len() {
        assert(cs@.skip(i as int) =~= Seq::<char>::empty());
        None
    } else {
        assert(cs@.skip(i as int)[0] == '\n');
        Some(i)
    }
}

/// The name printed by a tool that prints just the name: the output
/// decoded, trimmed, when not blank.
pub fn name_from_output(stdout: &[u8]) -> (r: Option<String>)
    ensures
        match nonblank(utf8_lossy(stdout@)) {
            Some(n) => r matches Some(s) && s@ == n,
            None => r is None,
        },
{
    let text = decode_utf8_lossy(stdout);
    let cs = chars_of(text.as_str());
    let t = trim_chars(cs.as_slice());
    if t.len() == 0 {
        None
    } else {
        Some(string_of(t.as_slice()))
    }
}

/// The name printed by a tool that prints a heading line first: the second
/// line of the decoded output, trimmed, when not blank.
pub fn name_from_table_output(stdout: &[u8]) -> (r: Option<String>)
    ensures
        match nonblank(second_line(utf8_lossy(stdout@))) {
            Some(n) => r matches Some(s) && s@ == n,
            None => r is None,
        },
{
    let text = decode_utf8_lossy(stdout);
    let cs = chars_of(text.as_str());
    assert(cs@.skip(0) =~= cs@);
    let mut line: Vec<char> = Vec::new();
    let n = cs.len();
    let first = newline_index(cs.as_slice(), 0);
    match first {
        Some(p) => {
            assert(0 <= p < cs@.len());
            assert(first_newline(cs@.skip(0)) == Some(p as int));
            assert(first_newline(cs@) == Some(p as int));
            let rest = &cs[p + 1..n];
            assert(rest@ =~= cs@.skip(p + 1));
            assert(rest@.skip(0) =~= rest@);
            match newline_index(rest, 0) {
                Some(q) => {
                    assert(first_newline(rest@) == Some(q as int));
                    let l = &rest[0..q];
                    assert(l@ =~= rest@.take(q as int));
                    line = chars_of_slice(l);
                },
                None => {
                    assert(first_newline(rest@) is None);
                    line = chars_of_slice(rest);
                },
            }
        },
        None => {
            assert(first_newline(cs@) is None);
        },
    }
    assert(line@ =~= second_line(cs@));
    let t = trim_chars(line.as_slice());
    if t.len() == 0 {
        None
    } else {
        Some(string_of(t.as_slice()))
    }
}

fn chars_of_slice(s: &[char]) -> (v: Vec<char>)
    ensures
        v@ == s@,
{
    let mut v: Vec<char> = Vec::new();
    let mut i: usize = 0;
    while i < s.len()
        invariant
            0 <= i <= s@.len(),
            v@ == s@.take(i as int),
        decreases s@.len() - i,
    {
        v.push(s[i]);
        assert(s@.take(i + 1) =~= s@.take(i as int).push(s@[i as int]));
        i = i + 1;
    }
    assert(s@.take(s@.len() as int) =~= s@);
    v
}

/// The name used for this computer: the descriptive name when there is
/// one, else the name the environment gives, else the host name, else
/// "Desktop".
pub open spec fn hostname_spec(
    pretty: Option<Seq<char>>,
    environment: Option<Seq<char>>,
    host: Option<Seq<char>>,
) -> Seq<char> {
    match pretty {
        Some(p) => p,
        None => match environment {
            Some(e) => e,
            None => match host {
                Some(h) => h,
                None => "Desktop"@,
            },
        },
    }
}

/// Picks the name used for this computer from the candidates found.
pub fn choose_hostname(
    pretty: Option<String>,
    environment: Option<String>,
    host: Option<String>,
) -> (r: String)
    ensures
        r@ == hostname_spec(
            crate::state::opt_view(pretty),
            crate::state::opt_view(environment),
            crate::state::opt_view(host),
        ),
{
    match pretty {
        Some(p) => p,
        None => match environment {
            Some(e) => e,
            None => match host {
                Some(h) => h,
                None => String::from_str("Desktop"),
            },
        },
    }
}

} // verus!
