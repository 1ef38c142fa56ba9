//! Addresses of the relay server, as a person may type them.

use vstd::prelude::*;
use vstd::string::*;
use crate::model::setup::{is_blank, is_blank_char};

verus! {

/// The number of blanks at the start of the first `n` characters, if those
/// are the whole text; the position of the first character that is no blank.
pub open spec fn leading_blanks(s: Seq<char>, n: nat) -> nat
    decreases s.len() - n,
{
    if n < s.len() && is_blank(s[n as int]) {
        leading_blanks(s, n + 1)
    } else {
        n
    }
}

/// The position after the last character that is no blank among the first
/// `n`, but `from` at least.
pub open spec fn trimmed_end(s: Seq<char>, from: nat, n: nat) -> nat
    decreases n,
{
    if n > from && is_blank(s[n - 1]) {
        trimmed_end(s, from, (n - 1) as nat)
    } else {
        n
    }
}

/// The text without the blanks at its start and end.
pub open spec fn trimmed(s: Seq<char>) -> Seq<char> {
    let start = leading_blanks(s, 0);
    if start >= s.len() {
        Seq::empty()
    } else {
        s.subrange(start as int, trimmed_end(s, start, s.len()) as int)
    }
}

/// Whether `://` stands at position `i`.
pub open spec fn scheme_at(s: Seq<char>, i: int) -> bool {
    0 <= i && i + 3 <= s.len() && s[i] == ':' && s[i + 1] == '/' && s[i + 2] == '/'
}

/// The first position at or after `i` at which `://` stands, if there is one.
pub open spec fn first_scheme(s: Seq<char>, i: nat) -> Option<nat>
    decreases s.len() - i,
{
    if i + 3 > s.len() {
        None
    } else if scheme_at(s, i as int) {
        Some(i)
    } else {
        first_scheme(s, i + 1)
    }
}

/// The first position at or after `i` at which `c` stands, if there is one.
pub open spec fn first_char(s: Seq<char>, c: char, i: nat) -> Option<nat>
    decreases s.len() - i,
{
    if i >= s.len() {
        None
    } else if s[i as int] == c {
        Some(i)
    } else {
        first_char(s, c, i + 1)
    }
}

/// The text after the first `://`, or all of it if there is none.
pub open spec fn without_scheme(s: Seq<char>) -> Seq<char> {
    match first_scheme(s, 0) {
        Some(i) => s.subrange(i as int + 3, s.len() as int),
        None => s,
    }
}

/// The text before the first `/`, or all of it if there is none.
pub open spec fn without_path(s: Seq<char>) -> Seq<char> {
    match first_char(s, '/', 0) {
        Some(i) => s.subrange(0, i as int),
        None => s,
    }
}

/// The text with the port 8080 added if it names no port.
pub open spec fn with_port(s: Seq<char>) -> Seq<char> {
    match first_char(s, ':', 0) {
        Some(_) => s,
        None => s + seq![':', '8', '0', '8', '0'],
    }
}

/// The address of the server that a typed text names: the text without the
/// blanks around it, without a scheme before `://`, without a path from the
/// first `/` on, and with the port 8080 if it names none.
pub open spec fn sanitized(addr: Seq<char>) -> Seq<char> {
    with_port(without_path(without_scheme(trimmed(addr))))
}

/// The first position at or after `from`, before `to`, at which `c` stands.
fn find_char(s: &str, c: char, from: usize, to: usize) -> (r: Option<usize>)
    requires
        from <= to <= s@.len(),
    ensures
        r is Some <==> first_char(s@.subrange(from as int, to as int), c, 0) is Some,
        r matches Some(i) ==> from <= i < to && first_char(s@.subrange(from as int, to as int), c, 0)
            == Some((i - from) as nat),
{
    let ghost part = s@.subrange(from as int, to as int);
    let mut i: usize = from;
    while i < to
        invariant
            from <= i <= to,
            to <= s@.len(),
            part == s@.subrange(from as int, to as int),
            first_char(part, c, 0) == first_char(part, c, (i - from) as nat),
        decreases to - i,
    {
        if s.get_char(i) == c {
            return Some(i);
        }
        i += 1;
    }
    None
}

/// The first position at or after `from` at which `://` stands and ends at
/// or before `to`.
fn find_scheme(s: &str, from: usize, to: usize) -> (r: Option<usize>)
    requires
        from <= to <= s@.len(),
    ensures
        r is Some <==> first_scheme(s@.subrange(from as int, to as int), 0) is Some,
        r matches Some(i) ==> from <= i && i + 3 <= to && first_scheme(
            s@.subrange(from as int, to as int),
            0,
        ) == Some((i - from) as nat),
{
    let ghost part = s@.subrange(from as int, to as int);
    let mut i: usize = from;
    while to - i >= 3
        invariant
            from <= i <= to,
            to <= s@.len(),
            part == s@.subrange(from as int, to as int),
            first_scheme(part, 0) == first_scheme(part, (i - from) as nat),
        decreases to - i,
    {
        if s.get_char(i) == ':' && s.get_char(i + 1) == '/' && s.get_char(i + 2) == '/' {
            return Some(i);
        }
        i += 1;
    }
    None
}

/// The address of the server that a typed text names.
pub fn sanitize_addr(addr: &str) -> (r: String)
    ensures
        r@ == sanitized(addr@),
{
    let n = addr.unicode_len();
    let mut start: usize = 0;
    while start < n && is_blank_char(addr.get_char(start))
        invariant
            n == addr@.len(),
            start <= n,
            leading_blanks(addr@, 0) == leading_blanks(addr@, start as nat),
        decreases n - start,
    {
        start += 1;
    }
    let mut end: usize = n;
    if start >= n {
        end = start;
    } else {
        while end > start && is_blank_char(addr.get_char(end - 1))
            invariant
                n == addr@.len(),
                start <= end <= n,
                trimmed_end(addr@, start as nat, n as nat) == trimmed_end(
                    addr@,
                    start as nat,
                    end as nat,
                ),
            decreases end,
        {
            end -= 1;
        }
    }
    let ghost t = trimmed(addr@);
    proof {
        assert(t =~= addr@.subrange(start as int, end as int));
    }
    let from = match find_scheme(addr, start, end) {
        Some(p) => p + 3,
        None => start,
    };
    let ghost u = without_scheme(t);
    proof {
        assert(u =~= addr@.subrange(from as int, end as int));
    }
    // the path
    let to = match find_char(addr, '/', from, end) {
        Some(p) => p,
        None => end,
    };
    let ghost w = without_path(u);
    proof {
        assert(w =~= addr@.subrange(from as int, to as int));
    }
    let has_port = find_char(addr, ':', from, to).is_some();
    let mut r = addr.substring_char(from, to).to_string();
    if !has_port {
        proof {
            reveal_strlit(":8080");
        }
        r.append(":8080");
        proof {
            assert(":8080"@ =~= seq![':', '8', '0', '8', '0']);
        }
    }
    r
}

} // verus!
