use vstd::prelude::*;

verus! {

/// The scheme prefixes that a `Host` value may carry.
pub open spec fn http_scheme() -> Seq<char> {
    seq!['h', 't', 't', 'p', ':', '/', '/']
}

pub open spec fn https_scheme() -> Seq<char> {
    seq!['h', 't', 't', 'p', 's', ':', '/', '/']
}

pub open spec fn ws_scheme() -> Seq<char> {
    seq!['w', 's', ':', '/', '/']
}

pub open spec fn wss_scheme() -> Seq<char> {
    seq!['w', 's', 's', ':', '/', '/']
}

/// The host with a leading `http://`, `https://`, `ws://` or `wss://`
/// removed. At most one of them can lead a given host.
pub open spec fn strip_scheme(h: Seq<char>) -> Seq<char> {
    if http_scheme().is_prefix_of(h) {
        h.skip(7)
    } else if https_scheme().is_prefix_of(h) {
        h.skip(8)
    } else if ws_scheme().is_prefix_of(h) {
        h.skip(5)
    } else if wss_scheme().is_prefix_of(h) {
        h.skip(6)
    } else {
        h
    }
}

/// `l` is the first dot-delimited label of `h`: the longest prefix of `h`
/// that holds no `.`.
pub open spec fn is_first_label(h: Seq<char>, l: Seq<char>) -> bool {
    &&& l.is_prefix_of(h)
    &&& forall|i: int| 0 <= i < l.len() ==> l[i] != '.'
    &&& (l.len() == h.len() || h[l.len() as int] == '.')
}

/// `l` is the endpoint name that a `Host` value `h` addresses: the first
/// label of the host once its scheme is stripped.
pub open spec fn is_endpoint_of(h: Seq<char>, l: Seq<char>) -> bool {
    is_first_label(strip_scheme(h), l)
}

/// The endpoint name that a `Host` value addresses.
pub open spec fn endpoint_of(h: Seq<char>) -> Seq<char> {
    choose|l: Seq<char>| is_endpoint_of(h, l)
}

/// A host has at most one first label.
pub proof fn lemma_first_label_unique(h: Seq<char>, l1: Seq<char>, l2: Seq<char>)
    requires
        is_first_label(h, l1),
        is_first_label(h, l2),
    ensures
        l1 == l2,
{
    if l1.len() < l2.len() {
        assert(l2[l1.len() as int] == h[l1.len() as int]);
    } else if l2.len() < l1.len() {
        assert(l1[l2.len() as int] == h[l2.len() as int]);
    } else {
        assert(l1 =~= l2);
    }
}

/// Whether `p` leads `s`, whose length in characters is `n`.
fn has_prefix(s: &str, n: usize, p: &[char]) -> (r: bool)
    requires
        n == s@.len(),
    ensures
        r == p@.is_prefix_of(s@),
{
    if p.len() > n {
        return false;
    }
    let mut i: usize = 0;
    while i < p.len()
        invariant
            p@.len() <= n == s@.len(),
            i <= p@.len(),
            forall|j: int| 0 <= j < i ==> p@[j] == s@[j],
        decreases p@.len() - i,
    {
        if p[i] != s.get_char(i) {
            return false;
        }
        i = i + 1;
    }
    true
}

/// The number of leading characters of `h` that form its scheme prefix.
fn scheme_len(h: &str, n: usize) -> (r: usize)
    requires
        n == h@.len(),
    ensures
        r <= n,
        strip_scheme(h@) == h@.skip(r as int),
{
    let http = ['h', 't', 't', 'p', ':', '/', '/'];
    let https = ['h', 't', 't', 'p', 's', ':', '/', '/'];
    let ws = ['w', 's', ':', '/', '/'];
    let wss = ['w', 's', 's', ':', '/', '/'];
    assert(http@ == http_scheme());
    assert(https@ == https_scheme());
    assert(ws@ == ws_scheme());
    assert(wss@ == wss_scheme());
    if has_prefix(h, n, &http) {
        7
    } else if has_prefix(h, n, &https) {
        8
    } else if has_prefix(h, n, &ws) {
        5
    } else if has_prefix(h, n, &wss) {
        6
    } else {
        assert(h@.skip(0) =~= h@);
        0
    }
}

/// The endpoint name addressed by a `Host` value: any leading `http://`,
/// `https://`, `ws://` or `wss://` is stripped, then everything from the
/// first `.` on is dropped (`"https://bar.example.com:8080"` gives `"bar"`).
pub fn extract(hostname: String) -> (r: String)
    ensures
        is_endpoint_of(hostname@, r@),
        r@ == endpoint_of(hostname@),
{
    let h = hostname.as_str();
    let n = h.unicode_len();
    let start = scheme_len(h, n);
    let ghost rest = strip_scheme(h@);
    let mut end: usize = start;
    while end < n && h.get_char(end) != '.'
        invariant
            n == h@.len(),
            start <= end <= n,
            rest == h@.skip(start as int),
            forall|j: int| start <= j < end ==> h@[j] != '.',
        decreases n - end,
    {
        end = end + 1;
    }
    let label = h.substring_char(start, end);
    assert(label@ =~= rest.take(end - start));
    proof {
        assert(is_endpoint_of(h@, label@));
        lemma_first_label_unique(rest, label@, endpoint_of(h@));
    }
    label.to_owned()
}

} // verus!
