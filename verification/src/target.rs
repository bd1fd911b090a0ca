//! Deriving the destination host, port, and TLS requirement from a
//! client request's addressing information.

use vstd::prelude::*;
use vstd::string::StrSliceExecFns;

verus! {

/// Destination derived from one client request; computed fresh per
/// request and never cached.
pub struct TargetInfo {
    pub host: String,
    pub port: u16,
    pub use_tls: bool,
}

/// The suffix of `s` after its last `@`, or all of `s` when it holds
/// none: an authority with its userinfo dropped.
pub open spec fn after_last_at(s: Seq<char>) -> Seq<char>
    decreases s.len(),
{
    if s.len() == 0 {
        s
    } else if s[s.len() - 1] == '@' {
        Seq::empty()
    } else {
        after_last_at(s.drop_last()).push(s[s.len() - 1])
    }
}

/// The prefix of `t` before its first `:`, or all of `t` when it
/// holds none: a `host[:port]` form with the port dropped.
pub open spec fn until_colon(t: Seq<char>) -> Seq<char>
    decreases t.len(),
{
    if t.len() == 0 {
        t
    } else if t[0] == ':' {
        Seq::empty()
    } else {
        seq![t[0]] + until_colon(t.drop_first())
    }
}

/// The prefix of `t` through its first `]`, or all of `t` when it
/// holds none: the rest of a bracketed address literal.
pub open spec fn through_bracket(t: Seq<char>) -> Seq<char>
    decreases t.len(),
{
    if t.len() == 0 {
        t
    } else if t[0] == ']' {
        seq![']']
    } else {
        seq![t[0]] + through_bracket(t.drop_first())
    }
}

/// The host component of an authority: userinfo (through the last
/// `@`) dropped, then either the whole bracketed address literal, or
/// everything before the `:` that starts the port.
pub open spec fn authority_host(s: Seq<char>) -> Seq<char> {
    let t = after_last_at(s);
    if t.len() > 0 && t[0] == '[' {
        seq!['['] + through_bracket(t.drop_first())
    } else {
        until_colon(t)
    }
}

/// The resolved host: the host component of the request's authority,
/// or the literal `localhost` when the request carries none.
pub open spec fn resolved_host(authority: Option<String>) -> Seq<char> {
    match authority {
        Option::Some(a) => authority_host(a@),
        Option::None => "localhost"@,
    }
}

/// Whether the request's scheme is exactly `https`.
pub open spec fn scheme_is_https(scheme: Option<String>) -> bool {
    match scheme {
        Option::Some(s) => s@ == "https"@,
        Option::None => false,
    }
}

/// The scheme-determined default port: 443 under TLS, 80 otherwise.
pub open spec fn default_port(use_tls: bool) -> u16 {
    if use_tls {
        443
    } else {
        80
    }
}

/// The resolved port: the explicit port when the request carries one,
/// else the scheme-determined default.
pub open spec fn resolved_port(explicit_port: Option<u16>, use_tls: bool) -> u16 {
    match explicit_port {
        Option::Some(p) => p,
        Option::None => default_port(use_tls),
    }
}

proof fn lemma_after_last_at_skip(s: Seq<char>, start: int)
    requires
        0 <= start <= s.len(),
        start > 0 ==> s[start - 1] == '@',
        forall|j: int| start <= j < s.len() ==> s[j] != '@',
    ensures
        after_last_at(s) == s.skip(start),
    decreases s.len(),
{
    if s.len() == 0 {
        assert(s.skip(0) =~= s);
    } else if start == s.len() {
        assert(s[s.len() - 1] == '@');
        assert(s.skip(start) =~= Seq::<char>::empty());
    } else {
        let u = s.drop_last();
        assert(forall|j: int| start <= j < u.len() ==> #[trigger] u[j] == s[j]);
        lemma_after_last_at_skip(u, start);
        assert(u.skip(start).push(s[s.len() - 1]) =~= s.skip(start));
    }
}

proof fn lemma_until_colon_take(t: Seq<char>, k: int)
    requires
        0 <= k <= t.len(),
        forall|j: int| 0 <= j < k ==> t[j] != ':',
        k == t.len() || t[k] == ':',
    ensures
        until_colon(t) == t.take(k),
    decreases k,
{
    if k == 0 {
        assert(t.take(0) =~= Seq::<char>::empty());
        if t.len() == 0 {
            assert(t.take(0) =~= t);
        }
    } else {
        let u = t.drop_first();
        assert(forall|j: int| 0 <= j < k - 1 ==> #[trigger] u[j] == t[j + 1]);
        lemma_until_colon_take(u, k - 1);
        assert(seq![t[0]] + u.take(k - 1) =~= t.take(k));
    }
}

proof fn lemma_through_bracket_take(t: Seq<char>, k: int)
    requires
        0 <= k <= t.len(),
        forall|j: int| 0 <= j < k ==> t[j] != ']',
        k == t.len() || t[k] == ']',
    ensures
        through_bracket(t) == if k < t.len() {
            t.take(k + 1)
        } else {
            t
        },
    decreases k,
{
    if k == 0 {
        if t.len() > 0 {
            assert(t[0] == ']');
            assert(t.take(1) =~= seq![']']);
        }
    } else {
        let u = t.drop_first();
        assert(forall|j: int| 0 <= j < k - 1 ==> #[trigger] u[j] == t[j + 1]);
        lemma_through_bracket_take(u, k - 1);
        if k < t.len() {
            assert(seq![t[0]] + u.take(k) =~= t.take(k + 1));
        } else {
            assert(seq![t[0]] + u =~= t);
        }
    }
}

/// First index in `[from, end)` of `raw` holding `target`, or `end`
/// when there is none.
fn find_char(raw: &str, from: usize, end: usize, target: char) -> (j: usize)
    requires
        from <= end <= raw@.len(),
    ensures
        from <= j <= end,
        forall|k: int| from <= k < j ==> raw@[k] != target,
        j < end ==> raw@[j as int] == target,
    decreases end - from,
{
    if from < end {
        let c = raw.get_char(from);
        if c == target {
            from
        } else {
            find_char(raw, from + 1, end, target)
        }
    } else {
        from
    }
}

/// The host component of an authority string: userinfo and port
/// dropped, a bracketed address literal kept whole.
pub fn host_component(authority: &str) -> (host: String)
    ensures
        host@ == authority_host(authority@),
{
    let n = authority.unicode_len();
    let mut start: usize = 0;
    let mut i: usize = 0;
    while i < n
        invariant
            start <= i <= n,
            n == authority@.len(),
            start > 0 ==> authority@[start - 1] == '@',
            forall|j: int| start <= j < i ==> authority@[j] != '@',
        decreases n - i,
    {
        if authority.get_char(i) == '@' {
            start = i + 1;
        }
        i = i + 1;
    }
    proof {
        lemma_after_last_at_skip(authority@, start as int);
    }
    let ghost t = authority@.skip(start as int);

    if start < n && authority.get_char(start) == '[' {
        let j = find_char(authority, start + 1, n, ']');
        let end = if j < n {
            j + 1
        } else {
            n
        };
        let host = authority.substring_char(start, end).to_owned();
        proof {
            let u = t.drop_first();
            assert(u =~= authority@.skip(start + 1));
            assert(forall|k: int| 0 <= k < j - (start + 1) ==> #[trigger] u[k] != ']');
            lemma_through_bracket_take(u, j - (start + 1));
            assert(seq!['['] + through_bracket(u) =~= authority@.subrange(
                start as int,
                end as int,
            ));
        }
        host
    } else {
        let j = find_char(authority, start, n, ':');
        let host = authority.substring_char(start, j).to_owned();
        proof {
            assert(forall|k: int| 0 <= k < j - start ==> #[trigger] t[k] != ':');
            lemma_until_colon_take(t, j - start as int);
            assert(t.take(j - start as int) =~= authority@.subrange(start as int, j as int));
        }
        host
    }
}

/// Derives the destination from a request's addressing information:
/// authority (if any), scheme (if any), and explicit port (if any).
/// Pure and deterministic; performs no I/O.
pub fn extract_target_info(
    authority: Option<String>,
    scheme: Option<String>,
    explicit_port: Option<u16>,
) -> (t: TargetInfo)
    ensures
        t.host@ == resolved_host(authority),
        t.use_tls == scheme_is_https(scheme),
        t.port == resolved_port(explicit_port, t.use_tls),
{
    let use_tls: bool = match &scheme {
        Option::Some(s) => {
            let https: String = "https".to_owned();
            *s == https
        },
        Option::None => false,
    };

    let host: String = match &authority {
        Option::Some(a) => host_component(a.as_str()),
        Option::None => "localhost".to_owned(),
    };

    let port: u16 = match explicit_port {
        Option::Some(p) => p,
        Option::None => if use_tls {
            443
        } else {
            80
        },
    };

    TargetInfo { host, port, use_tls }
}

} // verus!
