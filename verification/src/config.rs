//! Process configuration: the comma-separated egress pool and the
//! startup checks that make a configuration usable.

use vstd::prelude::*;
use vstd::string::StrSliceExecFns;

verus! {

/// The whitespace stripped from each pool entry: the characters with
/// Unicode's `White_Space` property, as `str::trim` strips them.
pub open spec fn is_pool_space(c: char) -> bool {
    ||| c == ' '
    ||| c == '\t'
    ||| c == '\n'
    ||| c == '\r'
    ||| c == '\u{b}'
    ||| c == '\u{c}'
    ||| c == '\u{85}'
    ||| c == '\u{a0}'
    ||| c == '\u{1680}'
    ||| c == '\u{2000}'
    ||| c == '\u{2001}'
    ||| c == '\u{2002}'
    ||| c == '\u{2003}'
    ||| c == '\u{2004}'
    ||| c == '\u{2005}'
    ||| c == '\u{2006}'
    ||| c == '\u{2007}'
    ||| c == '\u{2008}'
    ||| c == '\u{2009}'
    ||| c == '\u{200a}'
    ||| c == '\u{2028}'
    ||| c == '\u{2029}'
    ||| c == '\u{202f}'
    ||| c == '\u{205f}'
    ||| c == '\u{3000}'
}

/// `s` with its leading whitespace removed.
pub open spec fn trim_front(s: Seq<char>) -> Seq<char>
    decreases s.len(),
{
    if s.len() > 0 && is_pool_space(s[0]) {
        trim_front(s.drop_first())
    } else {
        s
    }
}

/// `s` with its trailing whitespace removed.
pub open spec fn trim_back(s: Seq<char>) -> Seq<char>
    decreases s.len(),
{
    if s.len() > 0 && is_pool_space(s[s.len() - 1]) {
        trim_back(s.drop_last())
    } else {
        s
    }
}

/// `s` with leading and trailing whitespace removed.
pub open spec fn trimmed(s: Seq<char>) -> Seq<char> {
    trim_back(trim_front(s))
}

/// A trimmed segment's contribution to the pool: kept if non-empty,
/// dropped otherwise.
pub open spec fn kept_entry(t: Seq<char>) -> Seq<Seq<char>> {
    if t.len() == 0 {
        Seq::empty()
    } else {
        seq![t]
    }
}

/// Splits `s` on commas, with `cur` the segment read so far; each
/// finished segment is trimmed and kept only if non-empty.
pub open spec fn split_acc(s: Seq<char>, cur: Seq<char>) -> Seq<Seq<char>>
    decreases s.len(),
{
    if s.len() == 0 {
        kept_entry(trimmed(cur))
    } else if s[0] == ',' {
        kept_entry(trimmed(cur)) + split_acc(s.drop_first(), Seq::empty())
    } else {
        split_acc(s.drop_first(), cur.push(s[0]))
    }
}

/// The egress pool a raw configuration string yields: comma-separated
/// entries, each trimmed, empty entries dropped.
pub open spec fn pool_entries(s: Seq<char>) -> Seq<Seq<char>> {
    split_acc(s, Seq::empty())
}

proof fn lemma_trim_front_skip(t: Seq<char>, k: int)
    requires
        0 <= k <= t.len(),
        forall|j: int| 0 <= j < k ==> is_pool_space(t[j]),
        k == t.len() || !is_pool_space(t[k]),
    ensures
        trim_front(t) == t.skip(k),
    decreases k,
{
    if k == 0 {
        assert(t.skip(0) =~= t);
    } else {
        let u = t.drop_first();
        assert(forall|j: int| 0 <= j < k - 1 ==> is_pool_space(#[trigger] u[j]));
        lemma_trim_front_skip(u, k - 1);
        assert(u.skip(k - 1) =~= t.skip(k));
    }
}

proof fn lemma_trim_back_take(t: Seq<char>, k: int)
    requires
        0 <= k <= t.len(),
        forall|j: int| k <= j < t.len() ==> is_pool_space(t[j]),
        k == 0 || !is_pool_space(t[k - 1]),
    ensures
        trim_back(t) == t.take(k),
    decreases t.len(),
{
    if k == t.len() {
        assert(t.take(k) =~= t);
    } else {
        let u = t.drop_last();
        assert(is_pool_space(t[t.len() - 1]));
        assert(forall|j: int| k <= j < u.len() ==> is_pool_space(#[trigger] u[j]));
        lemma_trim_back_take(u, k);
        assert(u.take(k) =~= t.take(k));
    }
}

proof fn lemma_trimmed_is_subrange(s: Seq<char>, a0: int, a: int, b: int, b0: int)
    requires
        0 <= a0 <= a <= b <= b0 <= s.len(),
        forall|j: int| a0 <= j < a ==> is_pool_space(s[j]),
        forall|j: int| b <= j < b0 ==> is_pool_space(s[j]),
        a < b ==> !is_pool_space(s[a]) && !is_pool_space(s[b - 1]),
        a == b ==> a == b0,
    ensures
        trimmed(s.subrange(a0, b0)) == s.subrange(a, b),
{
    let t = s.subrange(a0, b0);
    assert(forall|j: int| 0 <= j < a - a0 ==> is_pool_space(#[trigger] t[j]));
    lemma_trim_front_skip(t, a - a0);
    let u = t.skip(a - a0);
    assert(u =~= s.subrange(a, b0));
    assert(forall|j: int| b - a <= j < u.len() ==> is_pool_space(#[trigger] u[j]));
    lemma_trim_back_take(u, b - a);
    assert(u.take(b - a) =~= s.subrange(a, b));
}

fn is_pool_space_char(c: char) -> (r: bool)
    ensures
        r == is_pool_space(c),
{
    c == ' ' || c == '\t' || c == '\n' || c == '\r' || c == '\u{b}' || c == '\u{c}' || c == '\u{85}'
        || c == '\u{a0}' || c == '\u{1680}' || c == '\u{2000}' || c == '\u{2001}' || c == '\u{2002}'
        || c == '\u{2003}' || c == '\u{2004}' || c == '\u{2005}' || c == '\u{2006}'
        || c == '\u{2007}' || c == '\u{2008}' || c == '\u{2009}' || c == '\u{200a}'
        || c == '\u{2028}' || c == '\u{2029}' || c == '\u{202f}' || c == '\u{205f}'
        || c == '\u{3000}'
}

/// First index in `[a0, b0)` holding a non-whitespace character, or
/// `b0` if there is none.
fn scan_front(raw: &str, a0: usize, b0: usize) -> (a: usize)
    requires
        a0 <= b0 <= raw@.len(),
    ensures
        a0 <= a <= b0,
        forall|j: int| a0 <= j < a ==> is_pool_space(raw@[j]),
        a < b0 ==> !is_pool_space(raw@[a as int]),
    decreases b0 - a0,
{
    if a0 < b0 {
        let c = raw.get_char(a0);
        if is_pool_space_char(c) {
            scan_front(raw, a0 + 1, b0)
        } else {
            a0
        }
    } else {
        a0
    }
}

/// One past the last index in `[a, b0)` holding a non-whitespace
/// character, or `a` if there is none.
fn scan_back(raw: &str, a: usize, b0: usize) -> (b: usize)
    requires
        a <= b0 <= raw@.len(),
    ensures
        a <= b <= b0,
        forall|j: int| b <= j < b0 ==> is_pool_space(raw@[j]),
        b > a ==> !is_pool_space(raw@[b - 1]),
    decreases b0 - a,
{
    if a < b0 {
        let c = raw.get_char(b0 - 1);
        if is_pool_space_char(c) {
            scan_back(raw, a, b0 - 1)
        } else {
            b0
        }
    } else {
        b0
    }
}

/// Trims the segment `[a0, b0)` of `raw` and appends it to the pool
/// when non-empty.
fn push_trimmed(pool: &mut Vec<String>, raw: &str, a0: usize, b0: usize)
    requires
        a0 <= b0 <= raw@.len(),
    ensures
        final(pool)@.map_values(|s: String| s@) == old(pool)@.map_values(|s: String| s@)
            + kept_entry(trimmed(raw@.subrange(a0 as int, b0 as int))),
{
    let a = scan_front(raw, a0, b0);
    let b = scan_back(raw, a, b0);
    proof {
        if a == b && a < b0 {
            assert(!is_pool_space(raw@[a as int]));
            assert(is_pool_space(raw@[a as int]));
        }
        lemma_trimmed_is_subrange(raw@, a0 as int, a as int, b as int, b0 as int);
    }
    if b > a {
        let entry = raw.substring_char(a, b).to_owned();
        pool.push(entry);
        proof {
            assert(final(pool)@.map_values(|s: String| s@) =~= old(pool)@.map_values(
                |s: String| s@,
            ) + kept_entry(trimmed(raw@.subrange(a0 as int, b0 as int))));
        }
    } else {
        proof {
            assert(final(pool)@.map_values(|s: String| s@) =~= old(pool)@.map_values(
                |s: String| s@,
            ) + kept_entry(trimmed(raw@.subrange(a0 as int, b0 as int))));
        }
    }
}

/// A process configuration, constructed once at startup.
pub struct ProxyConfig {
    pub ip_addresses: Vec<String>,
    pub username: String,
    pub password: String,
    pub listen_address: String,
}

impl ProxyConfig {
    /// A usable configuration: non-empty pool, username, and password.
    pub open spec fn valid(&self) -> bool {
        &&& self.ip_addresses@.len() > 0
        &&& self.username@.len() > 0
        &&& self.password@.len() > 0
    }

    /// Parses the raw egress-pool string: comma-separated entries,
    /// each trimmed, empty entries dropped.
    pub fn parse_ip_pool(raw: &str) -> (pool: Vec<String>)
        ensures
            pool@.map_values(|s: String| s@) == pool_entries(raw@),
    {
        let n = raw.unicode_len();
        let mut pool: Vec<String> = Vec::new();
        let mut seg_start: usize = 0;
        let mut i: usize = 0;
        proof {
            assert(raw@.skip(0) =~= raw@);
            assert(raw@.subrange(0, 0) =~= Seq::<char>::empty());
            assert(pool@.map_values(|s: String| s@) + split_acc(raw@, Seq::empty()) =~= split_acc(
                raw@,
                Seq::empty(),
            ));
        }
        while i < n
            invariant
                seg_start <= i <= n,
                n == raw@.len(),
                pool_entries(raw@) == pool@.map_values(|s: String| s@) + split_acc(
                    raw@.skip(i as int),
                    raw@.subrange(seg_start as int, i as int),
                ),
            decreases n - i,
        {
            let ghost prev_pool = pool@;
            let ghost rem = raw@.skip(i as int);
            let ghost cur = raw@.subrange(seg_start as int, i as int);
            let c = raw.get_char(i);
            assert(rem[0] == c);
            if c == ',' {
                proof {
                    assert(rem.drop_first() =~= raw@.skip(i + 1));
                    assert(split_acc(rem, cur) == kept_entry(trimmed(cur)) + split_acc(
                        raw@.skip(i + 1),
                        Seq::empty(),
                    ));
                }
                push_trimmed(&mut pool, raw, seg_start, i);
                seg_start = i + 1;
                proof {
                    assert(raw@.subrange(i + 1, i + 1) =~= Seq::<char>::empty());
                    assert(pool@.map_values(|s: String| s@) == prev_pool.map_values(|s: String| s@)
                        + kept_entry(trimmed(cur)));
                    assert(pool@.map_values(|s: String| s@) + split_acc(
                        raw@.skip(i + 1),
                        raw@.subrange(i + 1, i + 1),
                    ) =~= prev_pool.map_values(|s: String| s@) + split_acc(rem, cur));
                }
            } else {
                proof {
                    assert(rem.drop_first() =~= raw@.skip(i + 1));
                    assert(cur.push(c) =~= raw@.subrange(seg_start as int, i + 1));
                    assert(split_acc(rem, cur) == split_acc(
                        raw@.skip(i + 1),
                        raw@.subrange(seg_start as int, i + 1),
                    ));
                }
            }
            i = i + 1;
        }
        proof {
            assert(raw@.skip(n as int) =~= Seq::<char>::empty());
            assert(split_acc(raw@.skip(n as int), raw@.subrange(seg_start as int, n as int))
                == kept_entry(trimmed(raw@.subrange(seg_start as int, n as int))));
        }
        let ghost done_pool = pool@;
        push_trimmed(&mut pool, raw, seg_start, n);
        proof {
            assert(pool@.map_values(|s: String| s@) == done_pool.map_values(|s: String| s@)
                + kept_entry(trimmed(raw@.subrange(seg_start as int, n as int))));
        }
        pool
    }

    /// Checks the startup constraints, in order: non-empty pool, then
    /// non-empty username, then non-empty password. Returns `Ok` on
    /// exactly the usable configurations, and names the first failing
    /// constraint otherwise.
    pub fn validate(&self) -> (r: Result<(), String>)
        ensures
            r is Ok <==> self.valid(),
            self.ip_addresses@.len() == 0 ==> (r matches Err(m) && m@
                == "IP_POOL is empty. Please set IP_POOL environment variable."@),
            self.ip_addresses@.len() > 0 && self.username@.len() == 0 ==> (r matches Err(m) && m@
                == "PROXY_USER cannot be empty."@),
            self.ip_addresses@.len() > 0 && self.username@.len() > 0 && self.password@.len() == 0
                ==> (r matches Err(m) && m@ == "PROXY_PASS cannot be empty."@),
    {
        if self.ip_addresses.len() == 0 {
            return Result::Err("IP_POOL is empty. Please set IP_POOL environment variable.".to_owned());
        }
        if self.username.as_str().is_empty() {
            return Result::Err("PROXY_USER cannot be empty.".to_owned());
        }
        if self.password.as_str().is_empty() {
            return Result::Err("PROXY_PASS cannot be empty.".to_owned());
        }
        Result::Ok(())
    }
}

} // verus!
