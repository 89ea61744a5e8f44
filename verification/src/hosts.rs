//! The configured list of time server hosts: its default and its text form.

use vstd::prelude::*;
use vstd::string::*;

verus! {

/// The character that parts two host names in a configured list.
pub const HOST_SEPARATOR: char = ';';

/// `c` is white space: a character with the Unicode property `White_Space`.
pub open spec fn is_whitespace(c: char) -> bool {
    let code = c as u32;
    ||| 0x09 <= code <= 0x0D
    ||| code == 0x20
    ||| code == 0x85
    ||| code == 0xA0
    ||| code == 0x1680
    ||| 0x2000 <= code <= 0x200A
    ||| code == 0x2028
    ||| code == 0x2029
    ||| code == 0x202F
    ||| code == 0x205F
    ||| code == 0x3000
}

/// `s` without the white space it begins with.
pub open spec fn trim_start(s: Seq<char>) -> Seq<char>
    decreases s.len(),
{
    if s.len() > 0 && is_whitespace(s[0]) {
        trim_start(s.skip(1))
    } else {
        s
    }
}

/// `s` without the white space it ends with.
pub open spec fn trim_end(s: Seq<char>) -> Seq<char>
    decreases s.len(),
{
    if s.len() > 0 && is_whitespace(s.last()) {
        trim_end(s.drop_last())
    } else {
        s
    }
}

/// `s` without the white space at either end.
pub open spec fn trimmed(s: Seq<char>) -> Seq<char> {
    trim_end(trim_start(s))
}

/// The position of the first `c` in `s`; the length of `s` where there is
/// none.
pub open spec fn position_of(s: Seq<char>, c: char) -> int
    decreases s.len(),
{
    if s.len() == 0 || s[0] == c {
        0
    } else {
        1 + position_of(s.skip(1), c)
    }
}

/// The parts of `s` between its separators: one more than there are
/// separators, empty parts included.
pub open spec fn split_on(s: Seq<char>, separator: char) -> Seq<Seq<char>>
    decreases s.len(),
{
    let at = position_of(s, separator);
    if 0 <= at < s.len() {
        seq![s.take(at)] + split_on(s.skip(at + 1), separator)
    } else {
        seq![s]
    }
}

/// The host names that the list `s` holds: its parts between semicolons,
/// each without the white space around it.
pub open spec fn host_list(s: Seq<char>) -> Seq<Seq<char>> {
    split_on(s, HOST_SEPARATOR).map_values(|part: Seq<char>| trimmed(part))
}

/// The texts of a list of strings.
pub open spec fn texts(names: Seq<String>) -> Seq<Seq<char>> {
    names.map_values(|name: String| name@)
}

/// The hosts that are asked where none is configured.
pub open spec fn default_host_list() -> Seq<Seq<char>> {
    seq![
        "time.google.com"@,
        "ntp.qix.ca"@,
        "ntp.nict.jp"@,
        "pool.ntp.org"@,
        "time.cloudflare.com"@,
        "ntp.fizyka.umk.pl"@,
        "time.apple.com"@,
        "time.fu-berlin.de"@,
        "time.facebook.com"@,
    ]
}

/// Whether `c` is white space.
pub fn is_whitespace_char(c: char) -> (white: bool)
    ensures
        white == is_whitespace(c),
{
    let code: u32 = c as u32;
    (0x09 <= code && code <= 0x0D) || code == 0x20 || code == 0x85 || code == 0xA0 || code
        == 0x1680 || (0x2000 <= code && code <= 0x200A) || code == 0x2028 || code == 0x2029
        || code == 0x202F || code == 0x205F || code == 0x3000
}

/// The hosts that are asked where none is configured: nine public pools.
pub fn default_hosts() -> (hosts: Vec<String>)
    ensures
        texts(hosts@) == default_host_list(),
{
    let mut hosts: Vec<String> = Vec::new();
    hosts.push("time.google.com".to_owned());
    hosts.push("ntp.qix.ca".to_owned());
    hosts.push("ntp.nict.jp".to_owned());
    hosts.push("pool.ntp.org".to_owned());
    hosts.push("time.cloudflare.com".to_owned());
    hosts.push("ntp.fizyka.umk.pl".to_owned());
    hosts.push("time.apple.com".to_owned());
    hosts.push("time.fu-berlin.de".to_owned());
    hosts.push("time.facebook.com".to_owned());
    proof {
        assert(texts(hosts@) =~= default_host_list());
    }
    hosts
}

/// Where the first `n` characters of `s` are not `c`, the first `c` stands
/// at `n` if one stands there, and nowhere if `s` ends there.
pub proof fn lemma_position_of(s: Seq<char>, c: char, n: int)
    requires
        0 <= n <= s.len(),
        forall|k: int| 0 <= k < n ==> s[k] != c,
        n < s.len() ==> s[n] == c,
    ensures
        position_of(s, c) == n,
    decreases n,
{
    if n > 0 {
        assert forall|k: int| 0 <= k < n - 1 implies s.skip(1)[k] != c by {
            assert(s.skip(1)[k] == s[k + 1]);
        }
        lemma_position_of(s.skip(1), c, n - 1);
    }
}

/// The characters of `list` from `from` up to, and without, `to`, without
/// the white space at either end.
fn trimmed_part(list: &str, from: usize, to: usize) -> (part: String)
    requires
        from <= to <= list@.len(),
    ensures
        part@ == trimmed(list@.subrange(from as int, to as int)),
{
    let ghost s = list@;
    let mut first: usize = from;
    while first < to && is_whitespace_char(list.get_char(first))
        invariant
            from <= first <= to <= s.len(),
            s == list@,
            trim_start(s.subrange(from as int, to as int)) == trim_start(
                s.subrange(first as int, to as int),
            ),
        decreases to - first,
    {
        proof {
            assert(s.subrange(first as int, to as int).skip(1) == s.subrange(
                first + 1,
                to as int,
            ));
        }
        first = first + 1;
    }
    let mut last: usize = to;
    while first < last && is_whitespace_char(list.get_char((last - 1) as usize))
        invariant
            first <= last <= to <= s.len(),
            s == list@,
            trim_end(s.subrange(first as int, to as int)) == trim_end(
                s.subrange(first as int, last as int),
            ),
        decreases last - first,
    {
        proof {
            assert(s.subrange(first as int, last as int).drop_last() == s.subrange(
                first as int,
                last - 1,
            ));
        }
        last = last - 1;
    }
    list.substring_char(first, last).to_owned()
}

/// Reads a configured list of hosts: the names between semicolons, each
/// without the white space around it, in order. A part that is empty or
/// blank gives an empty name.
pub fn parse_hosts(list: &str) -> (hosts: Vec<String>)
    ensures
        texts(hosts@) == host_list(list@),
        hosts@.len() >= 1,
{
    let ghost s = list@;
    let len = list.unicode_len();
    let mut hosts: Vec<String> = Vec::new();
    let mut start: usize = 0;
    let mut i: usize = 0;
    proof {
        assert(s.skip(0) == s);
        assert(texts(hosts@) + host_list(s) =~= host_list(s));
    }
    while i < len
        invariant
            start <= i <= len,
            len == s.len(),
            s == list@,
            forall|k: int| start <= k < i ==> s[k] != HOST_SEPARATOR,
            texts(hosts@) + host_list(s.skip(start as int)) == host_list(s),
        decreases len - i,
    {
        if list.get_char(i) == HOST_SEPARATOR {
            let part = trimmed_part(list, start, i);
            proof {
                let rest = s.skip(start as int);
                lemma_position_of(rest, HOST_SEPARATOR, i - start);
                assert(rest.take(i - start) == s.subrange(start as int, i as int));
                assert(rest.skip(i - start + 1) == s.skip(i + 1));
                assert(host_list(rest) =~= seq![part@] + host_list(s.skip(i + 1)));
                assert(texts(hosts@.push(part)) =~= texts(hosts@).push(part@));
                assert(texts(hosts@).push(part@) + host_list(s.skip(i + 1)) =~= texts(hosts@)
                    + host_list(rest));
            }
            hosts.push(part);
            start = i + 1;
        }
        i = i + 1;
    }
    let part = trimmed_part(list, start, len);
    proof {
        let rest = s.skip(start as int);
        lemma_position_of(rest, HOST_SEPARATOR, len - start);
        assert(rest == s.subrange(start as int, len as int));
        assert(host_list(rest) =~= seq![part@]);
        assert(texts(hosts@.push(part)) =~= texts(hosts@).push(part@));
        assert(texts(hosts@).push(part@) =~= texts(hosts@) + host_list(rest));
    }
    hosts.push(part);
    hosts
}

} // verus!
