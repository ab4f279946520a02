//! Local proxies in the environment that nobody listens on.
use crate::gemini_auth;
use crate::text;
use vstd::prelude::*;
use vstd::string::*;

verus! {

/// A local proxy that a variable names and that is to be tried.
#[derive(Debug, Clone, PartialEq)]
pub struct ProxyProbe {
    pub key: String,
    pub host: String,
    pub port: u16,
}

/// What a proxy to be tried holds.
pub struct ProbeView {
    pub key: Seq<char>,
    pub host: Seq<char>,
    pub port: u16,
}

impl View for ProxyProbe {
    type V = ProbeView;

    open spec fn view(&self) -> ProbeView {
        ProbeView { key: self.key@, host: self.host@, port: self.port }
    }
}

/// What a list of proxies to be tried holds.
pub open spec fn probe_views(probes: Seq<ProxyProbe>) -> Seq<ProbeView> {
    Seq::new(probes.len(), |i: int| probes[i]@)
}

/// The variables that name unreachable proxies, and those to be removed for it.
#[derive(Debug)]
pub struct ProxyGuard {
    pub disabled: Vec<String>,
    pub removed: Vec<String>,
}

// ---------------------------------------------------------------------------
// Models
// ---------------------------------------------------------------------------

/// The variables that name proxies.
pub open spec fn proxy_keys() -> Seq<Seq<char>> {
    seq![
        "HTTP_PROXY"@,
        "HTTPS_PROXY"@,
        "ALL_PROXY"@,
        "http_proxy"@,
        "https_proxy"@,
        "all_proxy"@,
        "NO_PROXY"@,
        "no_proxy"@,
    ]
}

/// The name is one of a proxy variable, whatever its case and outer space.
pub open spec fn proxy_key(key: Seq<char>) -> bool {
    let n = text::lowered(text::trimmed(key));
    n == "http_proxy"@ || n == "https_proxy"@ || n == "all_proxy"@ || n == "no_proxy"@
}

/// The host is the local machine.
pub open spec fn loopback_host(host: Seq<char>) -> bool {
    let n = text::lowered(text::trimmed(host));
    n == "127.0.0.1"@ || n == "localhost"@ || n == "::1"@
}

/// What follows the first `pat` in `s`, or all of `s`.
pub open spec fn after_first(s: Seq<char>, pat: Seq<char>) -> Seq<char> {
    if text::has_text(s, pat) {
        s.skip(first_occurrence(s, pat) + pat.len())
    } else {
        s
    }
}

/// The first position of `pat` in a text that has it.
pub open spec fn first_occurrence(s: Seq<char>, pat: Seq<char>) -> int {
    choose|i: int|
        text::occurs_at(s, pat, i) && forall|j: int| 0 <= j < i ==> !text::occurs_at(s, pat, j)
}

/// The part of a proxy address that names the host and the port.
pub open spec fn authority(proxy: Seq<char>) -> Seq<char> {
    let t = after_first(text::trimmed(proxy), "://"@);
    let u = text::before(text::before(text::before(t, '/'), '?'), '#');
    u.skip(text::last_index(u, '@') + 1)
}

/// A decimal digit.
pub open spec fn is_digit(c: char) -> bool {
    '0' <= c <= '9'
}

/// The number that decimal digits write down.
pub open spec fn decimal(s: Seq<char>) -> nat
    decreases s.len(),
{
    if s.len() == 0 {
        0
    } else {
        decimal(s.drop_last()) * 10 + (s.last() as u32 - '0' as u32) as nat
    }
}

/// Nothing but decimal digits, and at least one.
pub open spec fn all_digits(s: Seq<char>) -> bool {
    s.len() > 0 && forall|i: int| 0 <= i < s.len() ==> is_digit(#[trigger] s[i])
}

/// The number behind a plus sign.
pub open spec fn without_plus(s: Seq<char>) -> Seq<char> {
    if s.len() > 0 && s[0] == '+' {
        s.skip(1)
    } else {
        s
    }
}

/// The port that a text writes down: digits, perhaps behind a plus sign.
pub open spec fn port_of(s: Seq<char>) -> Option<u16> {
    let digits = without_plus(s);
    if all_digits(digits) && decimal(digits) <= u16::MAX {
        Some(decimal(digits) as u16)
    } else {
        None
    }
}

/// The host and the port, where neither is missing.
pub open spec fn host_and_port(host: Seq<char>, port: Option<u16>) -> Option<(Seq<char>, u16)> {
    match port {
        Some(p) => if host.len() > 0 {
            Some((host, p))
        } else {
            None
        },
        None => None,
    }
}

/// The host and the port that a proxy address names.
pub open spec fn proxy_address(proxy: Seq<char>) -> Option<(Seq<char>, u16)> {
    let a = authority(proxy);
    if text::has_prefix(a, "["@) {
        let rest = a.skip(1);
        let end = text::first_index(rest, ']');
        if end == rest.len() {
            None
        } else {
            match text::after_prefix(text::trimmed(rest.skip(end + 1)), ":"@) {
                Some(port) => host_and_port(text::trimmed(rest.take(end)), port_of(port)),
                None => None,
            }
        }
    } else {
        let colon = text::last_index(a, ':');
        if colon < 0 {
            None
        } else {
            host_and_port(
                text::trimmed(a.take(colon)),
                port_of(text::trimmed(a.skip(colon + 1))),
            )
        }
    }
}

/// The model of an optional address.
pub open spec fn opt_address(address: Option<(String, u16)>) -> Option<(Seq<char>, u16)> {
    match address {
        Some((host, port)) => Some((host@, port)),
        None => None,
    }
}

/// The local proxy that the value of a variable names.
pub open spec fn probe_of(key: Seq<char>, value: Option<Seq<char>>) -> Option<ProbeView> {
    match text::non_blank(value) {
        Some(proxy) => match proxy_address(proxy) {
            Some((host, port)) => if loopback_host(host) {
                Some(ProbeView { key, host, port })
            } else {
                None
            },
            None => None,
        },
        None => None,
    }
}

/// The local proxies that variables name, in the order of the variables.
pub open spec fn probes_of(keys: Seq<Seq<char>>, values: Seq<Option<Seq<char>>>) -> Seq<ProbeView>
    decreases keys.len(),
{
    if keys.len() == 0 || keys.len() != values.len() {
        Seq::empty()
    } else {
        let before = probes_of(keys.drop_last(), values.drop_last());
        match probe_of(keys.last(), values.last()) {
            Some(probe) => before.push(probe),
            None => before,
        }
    }
}

/// The vendor configuration sets a proxy of its own.
pub open spec fn vendor_sets_proxy(env: Seq<(Seq<char>, Seq<char>)>) -> bool {
    exists|i: int| 0 <= i < env.len() && proxy_key(#[trigger] env[i].0)
}

/// The texts of optional strings.
pub open spec fn value_texts(values: Seq<Option<String>>) -> Seq<Option<Seq<char>>> {
    Seq::new(values.len(), |i: int| text::opt_string(values[i]))
}

/// The variables whose proxies did not answer.
pub open spec fn unanswered(tried: Seq<(ProbeView, bool)>) -> Seq<Seq<char>>
    decreases tried.len(),
{
    if tried.len() == 0 {
        Seq::empty()
    } else {
        let before = unanswered(tried.drop_last());
        if tried.last().1 {
            before
        } else {
            before.push(tried.last().0.key)
        }
    }
}

/// The proxies that were tried, and whether they answered.
pub open spec fn tried_views(tried: Seq<(ProxyProbe, bool)>) -> Seq<(ProbeView, bool)> {
    Seq::new(tried.len(), |i: int| (tried[i].0@, tried[i].1))
}

// ---------------------------------------------------------------------------
// Functions
// ---------------------------------------------------------------------------

/// Whether the name is one of a proxy variable.
pub fn is_proxy_key(key: &str) -> (r: bool)
    ensures
        r == proxy_key(key@),
{
    let lowered = text::lower(text::trim(key));
    let n = lowered.as_str();
    text::same(n, "http_proxy") || text::same(n, "https_proxy") || text::same(n, "all_proxy")
        || text::same(n, "no_proxy")
}

/// Whether the host is the local machine.
pub fn is_loopback_proxy_host(host: &str) -> (r: bool)
    ensures
        r == loopback_host(host@),
{
    let lowered = text::lower(text::trim(host));
    let n = lowered.as_str();
    text::same(n, "127.0.0.1") || text::same(n, "localhost") || text::same(n, "::1")
}

/// The first position of a text is the one that it stands at and before which it
/// does not.
pub proof fn lemma_first_occurrence(s: Seq<char>, pat: Seq<char>, i: int)
    requires
        text::occurs_at(s, pat, i),
        forall|j: int| 0 <= j < i ==> !text::occurs_at(s, pat, j),
    ensures
        first_occurrence(s, pat) == i,
{
    let k = first_occurrence(s, pat);
    assert(text::occurs_at(s, pat, k) && forall|j: int|
        0 <= j < k ==> !text::occurs_at(s, pat, j));
    assert(k >= i);
    assert(i >= k);
}

/// What follows the first `pat` in `s`, or all of `s`.
fn cut_after_first<'a>(s: &'a str, pat: &str) -> (r: &'a str)
    ensures
        r@ == after_first(s@, pat@),
{
    match text::find_text(s, pat) {
        Some(i) => {
            proof {
                lemma_first_occurrence(s@, pat@, i as int);
            }
            let rest = text::rest_from(s, i);
            let n = pat.unicode_len();
            let out = text::rest_from(rest, n);
            assert(out@ =~= s@.skip(i + pat@.len()));
            out
        },
        None => s,
    }
}

/// The part of a proxy address that names the host and the port.
fn authority_of<'a>(proxy: &'a str) -> (r: &'a str)
    ensures
        r@ == authority(proxy@),
{
    let without_scheme = cut_after_first(text::trim(proxy), "://");
    let without_path = text::cut_before(
        text::cut_before(text::cut_before(without_scheme, '/'), '?'),
        '#',
    );
    proof {
        text::lemma_last_index(without_path@, '@');
    }
    match text::last_index_of(without_path, '@') {
        Some(i) => {
            let n = without_path.unicode_len();
            let out = without_path.substring_char(i + 1, n);
            assert(out@ =~= without_path@.skip(i + 1));
            out
        },
        None => {
            assert(without_path@.skip(0) =~= without_path@);
            without_path
        },
    }
}

proof fn lemma_decimal_grows(s: Seq<char>, n: int)
    requires
        0 <= n <= s.len(),
        forall|i: int| 0 <= i < s.len() ==> is_digit(#[trigger] s[i]),
    ensures
        decimal(s.take(n)) <= decimal(s),
    decreases s.len(),
{
    if n < s.len() {
        let rest = s.drop_last();
        lemma_decimal_grows(rest, n);
        assert(rest.take(n) =~= s.take(n));
        assert(is_digit(s.last()));
    } else {
        assert(s.take(n) =~= s);
    }
}

/// The number that decimal digits write down, if it is a port.
fn parse_digits(digits: &Vec<char>) -> (r: Option<u16>)
    ensures
        r == (if all_digits(digits@) && decimal(digits@) <= u16::MAX {
            Some(decimal(digits@) as u16)
        } else {
            None
        }),
{
    if digits.is_empty() {
        return None;
    }
    let mut value: u32 = 0;
    assert(digits@.take(0).len() == 0);
    for i in 0..digits.len()
        invariant
            forall|j: int| 0 <= j < i ==> is_digit(#[trigger] digits@[j]),
            value == decimal(digits@.take(i as int)),
            value <= 65535,
    {
        let c = digits[i];
        if !('0' <= c && c <= '9') {
            assert(!is_digit(digits@[i as int]));
            return None;
        }
        let digit: u32 = c as u32 - '0' as u32;
        value = value * 10 + digit;
        proof {
            let next = digits@.take(i + 1);
            assert(next.drop_last() =~= digits@.take(i as int));
            assert(next.last() == c);
            if all_digits(digits@) {
                lemma_decimal_grows(digits@, i + 1);
            }
        }
        if value > 65535 {
            return None;
        }
    }
    assert(digits@.take(digits@.len() as int) =~= digits@);
    Some(value as u16)
}

/// The port that a text writes down.
pub fn parse_port(s: &str) -> (r: Option<u16>)
    ensures
        r == port_of(s@),
{
    let chars = text::chars_of(s);
    if chars.len() > 0 && chars[0] == '+' {
        parse_digits(&text::chars_of(text::rest_from(s, 1)))
    } else {
        parse_digits(&chars)
    }
}

/// The host and the port, where neither is missing.
fn pair_up(host: &str, port: Option<u16>) -> (r: Option<(String, u16)>)
    ensures
        opt_address(r) == host_and_port(host@, port),
{
    match port {
        Some(p) => if host.is_empty() {
            None
        } else {
            Some((host.to_owned(), p))
        },
        None => None,
    }
}

/// The host and the port that a proxy address names.
pub fn parse_proxy_host_port(proxy: &str) -> (r: Option<(String, u16)>)
    ensures
        opt_address(r) == proxy_address(proxy@),
{
    let a = authority_of(proxy);
    match text::strip_prefix(a, "[") {
        Some(rest) => {
            proof {
                reveal_strlit("[");
                text::lemma_first_index(rest@, ']');
            }
            assert(rest@ == a@.skip(1));
            let end = text::index_of(rest, ']');
            let n = rest.unicode_len();
            if end == n {
                return None;
            }
            let host_part = rest.substring_char(0, end);
            assert(host_part@ =~= rest@.take(end as int));
            let tail = text::trim(text::rest_from(rest, end + 1));
            match text::strip_prefix(tail, ":") {
                Some(port) => pair_up(text::trim(host_part), parse_port(port)),
                None => None,
            }
        },
        None => {
            proof {
                text::lemma_last_index(a@, ':');
            }
            match text::last_index_of(a, ':') {
                Some(colon) => {
                    let n = a.unicode_len();
                    let host_part = a.substring_char(0, colon);
                    assert(host_part@ =~= a@.take(colon as int));
                    let port_part = a.substring_char(colon + 1, n);
                    assert(port_part@ =~= a@.skip(colon + 1));
                    pair_up(text::trim(host_part), parse_port(text::trim(port_part)))
                },
                None => None,
            }
        },
    }
}

/// The variables that name proxies.
pub fn proxy_env_keys() -> (r: Vec<String>)
    ensures
        text::texts(r@) == proxy_keys(),
{
    let mut out: Vec<String> = Vec::new();
    out.push("HTTP_PROXY".to_owned());
    out.push("HTTPS_PROXY".to_owned());
    out.push("ALL_PROXY".to_owned());
    out.push("http_proxy".to_owned());
    out.push("https_proxy".to_owned());
    out.push("all_proxy".to_owned());
    out.push("NO_PROXY".to_owned());
    out.push("no_proxy".to_owned());
    assert(text::texts(out@) =~= proxy_keys());
    out
}

/// Whether the vendor configuration sets a proxy of its own.
fn vendor_has_proxy(env: &Vec<(String, String)>) -> (r: bool)
    ensures
        r == vendor_sets_proxy(gemini_auth::pair_texts(env@)),
{
    let ghost all = gemini_auth::pair_texts(env@);
    for i in 0..env.len()
        invariant
            all == gemini_auth::pair_texts(env@),
            forall|j: int| 0 <= j < i ==> !proxy_key(#[trigger] all[j].0),
    {
        if is_proxy_key(env[i].0.as_str()) {
            assert(proxy_key(all[i as int].0));
            return true;
        }
    }
    false
}

/// The local proxies that are to be tried, given the vendor configuration and
/// the values of the proxy variables in their order.
pub fn proxy_probes(vendor_env: &Vec<(String, String)>, values: &[Option<String>; 8]) -> (r: Vec<
    ProxyProbe,
>)
    ensures
        probe_views(r@) == (if vendor_sets_proxy(gemini_auth::pair_texts(vendor_env@)) {
            Seq::empty()
        } else {
            probes_of(proxy_keys(), value_texts(values@))
        }),
{
    let mut out: Vec<ProxyProbe> = Vec::new();
    assert(probe_views(out@) =~= Seq::empty());
    if vendor_has_proxy(vendor_env) {
        return out;
    }
    let keys = proxy_env_keys();
    let ghost wanted = proxy_keys();
    let ghost given = value_texts(values@);
    assert(keys@.len() == wanted.len());
    for i in 0..keys.len()
        invariant
            keys@.len() == values@.len(),
            wanted == text::texts(keys@),
            given == value_texts(values@),
            probe_views(out@) == probes_of(wanted.take(i as int), given.take(i as int)),
    {
        proof {
            assert(wanted.take(i + 1).drop_last() =~= wanted.take(i as int));
            assert(given.take(i + 1).drop_last() =~= given.take(i as int));
            assert(wanted.take(i + 1).last() == keys@[i as int]@);
            assert(given.take(i + 1).last() == text::opt_string(values@[i as int]));
        }
        if let Some(proxy) = text::trim_non_empty(text::as_text(&values[i])) {
            if let Some((host, port)) = parse_proxy_host_port(proxy) {
                if is_loopback_proxy_host(host.as_str()) {
                    let ghost before = probe_views(out@);
                    let probe = ProxyProbe { key: keys[i].clone(), host, port };
                    let ghost added = probe@;
                    out.push(probe);
                    assert(probe_views(out@) =~= before.push(added));
                }
            }
        }
    }
    assert(wanted.take(keys@.len() as int) =~= wanted);
    assert(given.take(keys@.len() as int) =~= given);
    out
}

/// What becomes of the proxy variables, given the proxies that were tried and
/// whether they answered: all of the variables go where one did not.
pub fn dead_loopback_proxy_guard(tried: &Vec<(ProxyProbe, bool)>) -> (r: ProxyGuard)
    ensures
        text::texts(r.disabled@) == unanswered(tried_views(tried@)),
        text::texts(r.removed@) == (if unanswered(tried_views(tried@)).len() == 0 {
            Seq::empty()
        } else {
            proxy_keys()
        }),
{
    let ghost all = tried_views(tried@);
    let mut disabled: Vec<String> = Vec::new();
    assert(text::texts(disabled@) =~= Seq::empty());
    for i in 0..tried.len()
        invariant
            all == tried_views(tried@),
            text::texts(disabled@) == unanswered(all.take(i as int)),
    {
        proof {
            assert(all.take(i + 1).drop_last() =~= all.take(i as int));
            assert(all.take(i + 1).last() == all[i as int]);
        }
        if !tried[i].1 {
            let ghost before = text::texts(disabled@);
            disabled.push(tried[i].0.key.clone());
            assert(text::texts(disabled@) =~= before.push(tried@[i as int].0.key@));
        }
    }
    assert(all.take(tried@.len() as int) =~= all);
    if disabled.is_empty() {
        let none: Vec<String> = Vec::new();
        assert(text::texts(none@) =~= Seq::empty());
        ProxyGuard { disabled, removed: none }
    } else {
        ProxyGuard { disabled, removed: proxy_env_keys() }
    }
}

} // verus!
