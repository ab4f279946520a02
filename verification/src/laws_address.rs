//! How proxy variables and proxy addresses are read, part by part.
use crate::laws_text;
use crate::proxy_guard;
use crate::proxy_guard::ProbeView;
use crate::text;
use vstd::prelude::*;
use vstd::string::*;

verus! {

// ---------------------------------------------------------------------------
// Names
// ---------------------------------------------------------------------------

/// The eight variables that are looked at, in their order.
pub proof fn law_variables_of_proxies(i: int)
    ensures
        proxy_guard::proxy_keys().len() == 8,
        i == 0 ==> proxy_guard::proxy_keys()[i] == "HTTP_PROXY"@,
        i == 1 ==> proxy_guard::proxy_keys()[i] == "HTTPS_PROXY"@,
        i == 2 ==> proxy_guard::proxy_keys()[i] == "ALL_PROXY"@,
        i == 3 ==> proxy_guard::proxy_keys()[i] == "http_proxy"@,
        i == 4 ==> proxy_guard::proxy_keys()[i] == "https_proxy"@,
        i == 5 ==> proxy_guard::proxy_keys()[i] == "all_proxy"@,
        i == 6 ==> proxy_guard::proxy_keys()[i] == "NO_PROXY"@,
        i == 7 ==> proxy_guard::proxy_keys()[i] == "no_proxy"@,
{
}

/// A name is one of a proxy variable exactly if it is one of four, whatever the
/// case of its letters and the white space at its ends.
pub proof fn law_names_of_proxies(key: Seq<char>)
    ensures
        proxy_guard::proxy_key(key) <==> ({
            let n = text::lowered(text::trimmed(key));
            n == "http_proxy"@ || n == "https_proxy"@ || n == "all_proxy"@ || n == "no_proxy"@
        }),
{
}

/// A host is the local machine exactly if it is one of three, whatever the case
/// of its letters and the white space at its ends.
pub proof fn law_local_hosts(host: Seq<char>)
    ensures
        proxy_guard::loopback_host(host) <==> ({
            let n = text::lowered(text::trimmed(host));
            n == "127.0.0.1"@ || n == "localhost"@ || n == "::1"@
        }),
{
}

/// The vendor configuration sets a proxy exactly if the name of one of its
/// variables is one of the four.
pub proof fn law_vendor_proxies(env: Seq<(Seq<char>, Seq<char>)>)
    ensures
        proxy_guard::vendor_sets_proxy(env) <==> exists|i: int|
            0 <= i < env.len() && ({
                let n = text::lowered(text::trimmed((#[trigger] env[i]).0));
                n == "http_proxy"@ || n == "https_proxy"@ || n == "all_proxy"@ || n == "no_proxy"@
            }),
{
    if proxy_guard::vendor_sets_proxy(env) {
        let i = choose|i: int| 0 <= i < env.len() && proxy_guard::proxy_key(#[trigger] env[i].0);
        assert(0 <= i < env.len());
        law_names_of_proxies(env[i].0);
    }
    if exists|i: int|
        0 <= i < env.len() && ({
            let n = text::lowered(text::trimmed((#[trigger] env[i]).0));
            n == "http_proxy"@ || n == "https_proxy"@ || n == "all_proxy"@ || n == "no_proxy"@
        }) {
        let i = choose|i: int|
            0 <= i < env.len() && ({
                let n = text::lowered(text::trimmed((#[trigger] env[i]).0));
                n == "http_proxy"@ || n == "https_proxy"@ || n == "all_proxy"@ || n == "no_proxy"@
            });
        assert(proxy_guard::proxy_key(env[i].0));
    }
}

// ---------------------------------------------------------------------------
// The parts of an address
// ---------------------------------------------------------------------------

/// A text without the characters that end the part with the host.
pub open spec fn before_the_path(s: Seq<char>) -> bool {
    forall|i: int| 0 <= i < s.len() ==> #[trigger] s[i] != '/' && s[i] != '?' && s[i] != '#'
}

proof fn lemma_before_joined(s: Seq<char>, tail: Seq<char>, c: char)
    requires
        forall|i: int| 0 <= i < s.len() ==> #[trigger] s[i] != c,
    ensures
        text::before(s + tail, c) == s + text::before(tail, c),
{
    let n = text::first_index(tail, c);
    text::lemma_first_index(tail, c);
    let all = s + tail;
    assert forall|i: int| 0 <= i < s.len() + n implies #[trigger] all[i] != c by {
        if i < s.len() {
            assert(all[i] == s[i]);
        } else {
            assert(all[i] == tail[i - s.len()]);
        }
    }
    if n < tail.len() {
        assert(all[s.len() + n] == tail[n]);
    }
    text::lemma_first_index_at(all, c, s.len() + n);
    assert(all.take(s.len() + n) =~= s + tail.take(n));
}

proof fn lemma_before_at_once(tail: Seq<char>, c: char)
    requires
        tail.len() > 0,
        tail[0] == c,
    ensures
        text::before(tail, c).len() == 0,
{
}

proof fn lemma_before_later(tail: Seq<char>, c: char)
    requires
        tail.len() > 0,
        tail[0] != c,
    ensures
        text::before(tail, c).len() > 0,
        text::before(tail, c)[0] == tail[0],
{
    text::lemma_first_index(tail, c);
}

/// The part of an address that names the host and the port is what is left when
/// four things are taken off: the white space at the ends; the scheme, up to the
/// first `://`; the path, the query and the fragment, from the first of the three
/// characters that start them on; and the user, up to the last at sign before
/// those.
pub proof fn law_parts_of_an_address(
    proxy: Seq<char>,
    scheme: Seq<char>,
    user: Seq<char>,
    core: Seq<char>,
    tail: Seq<char>,
)
    requires
        text::trimmed(proxy) == scheme + (user + core + tail),
        scheme.len() == 0 ==> !text::has_text(text::trimmed(proxy), "://"@),
        scheme.len() > 0 ==> scheme.len() >= 3 && text::occurs_at(
            text::trimmed(proxy),
            "://"@,
            scheme.len() - 3,
        ) && forall|j: int|
            0 <= j < scheme.len() - 3 ==> !text::occurs_at(text::trimmed(proxy), "://"@, j),
        before_the_path(user),
        before_the_path(core),
        user.len() > 0 ==> user.last() == '@',
        forall|i: int| 0 <= i < core.len() ==> #[trigger] core[i] != '@',
        tail.len() > 0 ==> tail[0] == '/' || tail[0] == '?' || tail[0] == '#',
    ensures
        proxy_guard::authority(proxy) == core,
{
    let t = text::trimmed(proxy);
    let rest = user + core + tail;
    let uc = user + core;
    reveal_strlit("://");
    assert("://"@.len() == 3);
    if scheme.len() > 0 {
        proxy_guard::lemma_first_occurrence(t, "://"@, scheme.len() - 3);
        assert(t.skip(scheme.len() as int) =~= rest);
    } else {
        assert(t =~= rest);
    }
    assert(proxy_guard::after_first(t, "://"@) == rest);
    assert forall|i: int| 0 <= i < uc.len() implies #[trigger] uc[i] != '/' && uc[i] != '?' && uc[i]
        != '#' by {
        if i < user.len() {
            assert(uc[i] == user[i]);
        } else {
            assert(uc[i] == core[i - user.len()]);
        }
    }
    assert(rest =~= uc + tail);
    let none = Seq::<char>::empty();
    let t1 = text::before(tail, '/');
    lemma_before_joined(uc, tail, '/');
    let t2 = text::before(t1, '?');
    lemma_before_joined(uc, t1, '?');
    let t3 = text::before(t2, '#');
    lemma_before_joined(uc, t2, '#');
    if tail.len() > 0 {
        if tail[0] == '/' {
            lemma_before_at_once(tail, '/');
        } else {
            lemma_before_later(tail, '/');
            if tail[0] == '?' {
                lemma_before_at_once(t1, '?');
            } else {
                lemma_before_later(t1, '?');
                lemma_before_at_once(t2, '#');
            }
        }
    }
    assert(t3 =~= none);
    let u = text::before(text::before(text::before(rest, '/'), '?'), '#');
    assert(u =~= uc);
    let n = user.len() - 1;
    assert forall|i: int| n < i < u.len() implies #[trigger] u[i] != '@' by {
        assert(u[i] == core[i - user.len()]);
    }
    if n >= 0 {
        assert(u[n] == user[n]);
    }
    text::lemma_last_index_at(u, '@', n);
    assert(u.skip(n + 1) =~= core);
}

/// The host and the port, each as it is read; neither may be missing.
pub open spec fn reads_as(r: Option<(Seq<char>, u16)>, host: Seq<char>, port: Seq<char>) -> bool {
    match proxy_guard::port_of(port) {
        Some(p) => if host.len() > 0 {
            r == Some((host, p))
        } else {
            r is None
        },
        None => r is None,
    }
}

/// A host that does not start with a bracket ends at the last colon, and the port
/// follows it; white space around either does not count. Without a colon there is
/// no address.
pub proof fn law_plain_addresses(proxy: Seq<char>, host: Seq<char>, port: Seq<char>)
    requires
        proxy_guard::authority(proxy).len() > 0 ==> proxy_guard::authority(proxy)[0] != '[',
    ensures
        proxy_guard::authority(proxy) == host + seq![':'] + port && (forall|i: int|
            0 <= i < port.len() ==> #[trigger] port[i] != ':') ==> reads_as(
            proxy_guard::proxy_address(proxy),
            text::trimmed(host),
            text::trimmed(port),
        ),
        !proxy_guard::authority(proxy).contains(':') ==> proxy_guard::proxy_address(proxy) is None,
{
    let a = proxy_guard::authority(proxy);
    reveal_strlit("[");
    if text::has_prefix(a, "["@) {
        assert(a.subrange(0, 1)[0] == a[0]);
    }
    text::lemma_last_index(a, ':');
    if a == host + seq![':'] + port && (forall|i: int|
        0 <= i < port.len() ==> #[trigger] port[i] != ':') {
        let n = host.len() as int;
        assert(a[n] == ':');
        assert forall|i: int| n < i < a.len() implies #[trigger] a[i] != ':' by {
            assert(a[i] == port[i - n - 1]);
        }
        text::lemma_last_index_at(a, ':', n);
        assert(a.take(n) =~= host);
        assert(a.skip(n + 1) =~= port);
    }
}

/// A host in brackets ends at the first closing bracket. A colon must follow, and
/// then the port; white space around the host and before the colon does not
/// count. Without the bracket or the colon there is no address.
pub proof fn law_bracketed_addresses(
    proxy: Seq<char>,
    host: Seq<char>,
    behind: Seq<char>,
    port: Seq<char>,
)
    requires
        forall|i: int| 0 <= i < host.len() ==> #[trigger] host[i] != ']',
    ensures
        proxy_guard::authority(proxy) == seq!['['] + host + seq![']'] + behind && text::trimmed(
            behind,
        ) == seq![':'] + port ==> reads_as(
            proxy_guard::proxy_address(proxy),
            text::trimmed(host),
            port,
        ),
        proxy_guard::authority(proxy) == seq!['['] + host + seq![']'] + behind && (text::trimmed(
            behind,
        ).len() == 0 || text::trimmed(behind)[0] != ':') ==> proxy_guard::proxy_address(proxy)
            is None,
        proxy_guard::authority(proxy) == seq!['['] + host ==> proxy_guard::proxy_address(proxy)
            is None,
{
    let a = proxy_guard::authority(proxy);
    let n = host.len() as int;
    reveal_strlit("[");
    reveal_strlit(":");
    assert("["@ =~= seq!['[']);
    assert(":"@ =~= seq![':']);
    if a == seq!['['] + host + seq![']'] + behind {
        assert(a.subrange(0, 1) =~= "["@);
        let rest = a.skip(1);
        assert(rest =~= host + seq![']'] + behind);
        assert forall|i: int| 0 <= i < n implies #[trigger] rest[i] != ']' by {
            assert(rest[i] == host[i]);
        }
        assert(rest[n] == ']');
        text::lemma_first_index_at(rest, ']', n);
        assert(rest.take(n) =~= host);
        assert(rest.skip(n + 1) =~= behind);
        let t = text::trimmed(behind);
        laws_text::law_prefix_is_found(t, ":"@, port);
        if t.len() > 0 && t[0] != ':' && text::has_prefix(t, ":"@) {
            assert(t.subrange(0, 1)[0] == t[0]);
        }
    }
    if a == seq!['['] + host {
        assert(a.subrange(0, 1) =~= "["@);
        assert(a.skip(1) =~= host);
        text::lemma_first_index_at(host, ']', n);
    }
}

/// A number that goes on by a digit is ten times what it was and the digit.
pub proof fn law_decimal_numbers(s: Seq<char>, c: char)
    requires
        '0' <= c <= '9',
    ensures
        proxy_guard::decimal(Seq::empty()) == 0,
        proxy_guard::decimal(s.push(c)) == proxy_guard::decimal(s) * 10 + (c as u32 - 48),
{
    assert(s.push(c).drop_last() =~= s);
}

/// A port is written in digits from 0 to 9, at least one of them, perhaps with a
/// plus sign before them, and is no larger than 65535. Anything else is none.
pub proof fn law_ports(s: Seq<char>)
    ensures
        ({
            let digits = s.len() > 0 && forall|i: int|
                0 <= i < s.len() ==> '0' <= #[trigger] s[i] <= '9';
            let n = proxy_guard::decimal(s);
            &&& digits && n <= 65535 ==> (proxy_guard::port_of(s) matches Some(p) && p == n) && (
            proxy_guard::port_of(seq!['+'] + s) matches Some(p) && p == n)
            &&& !digits || n > 65535 ==> proxy_guard::port_of(seq!['+'] + s) is None
            &&& (!digits || n > 65535) && (s.len() == 0 || s[0] != '+') ==> proxy_guard::port_of(s)
                is None
        }),
{
    let signed = seq!['+'] + s;
    assert(signed[0] == '+');
    assert(signed.skip(1) =~= s);
    if s.len() > 0 && forall|i: int| 0 <= i < s.len() ==> '0' <= #[trigger] s[i] <= '9' {
        assert('0' <= s[0] <= '9');
    }
}

// ---------------------------------------------------------------------------
// Trying
// ---------------------------------------------------------------------------

/// A variable names a proxy to be tried exactly if its value is not blank and is
/// an address of the local machine.
pub proof fn law_proxies_to_try(key: Seq<char>, value: Seq<char>)
    ensures
        proxy_guard::probe_of(key, None) is None,
        text::trimmed(value).len() == 0 ==> proxy_guard::probe_of(key, Some(value)) is None,
        text::trimmed(value).len() > 0 ==> (match proxy_guard::proxy_address(
            text::trimmed(value),
        ) {
            Some((host, port)) => {
                &&& proxy_guard::loopback_host(host) ==> proxy_guard::probe_of(key, Some(value))
                    == Some(ProbeView { key, host, port })
                &&& !proxy_guard::loopback_host(host) ==> proxy_guard::probe_of(key, Some(value))
                    is None
            },
            None => proxy_guard::probe_of(key, Some(value)) is None,
        }),
{
}

/// The proxies are tried in the order of the variables, one for each variable that
/// names one.
pub proof fn law_order_of_trying(
    keys: Seq<Seq<char>>,
    values: Seq<Option<Seq<char>>>,
    key: Seq<char>,
    value: Option<Seq<char>>,
)
    requires
        keys.len() == values.len(),
    ensures
        proxy_guard::probes_of(Seq::empty(), Seq::empty()).len() == 0,
        proxy_guard::probe_of(key, value) matches Some(probe) ==> proxy_guard::probes_of(
            keys.push(key),
            values.push(value),
        ) == proxy_guard::probes_of(keys, values).push(probe),
        proxy_guard::probe_of(key, value) is None ==> proxy_guard::probes_of(
            keys.push(key),
            values.push(value),
        ) == proxy_guard::probes_of(keys, values),
{
    assert(keys.push(key).drop_last() =~= keys);
    assert(values.push(value).drop_last() =~= values);
}

/// The variables whose proxies did not answer come in the order in which they
/// were tried.
pub proof fn law_silent_proxies(tried: Seq<(ProbeView, bool)>, probe: ProbeView)
    ensures
        proxy_guard::unanswered(Seq::empty()).len() == 0,
        proxy_guard::unanswered(tried.push((probe, true))) == proxy_guard::unanswered(tried),
        proxy_guard::unanswered(tried.push((probe, false))) == proxy_guard::unanswered(
            tried,
        ).push(probe.key),
{
    assert(tried.push((probe, true)).drop_last() =~= tried);
    assert(tried.push((probe, false)).drop_last() =~= tried);
}

} // verus!
