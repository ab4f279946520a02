//! What holds of proxies in the environment.
use crate::proxy_guard;
use crate::proxy_guard::ProbeView;
use crate::text;
use vstd::prelude::*;
use vstd::string::*;

verus! {

/// Every variable that is looked at is one that names a proxy, also where the
/// vendor configuration sets it.
pub proof fn law_proxy_keys_are_recognised(i: int)
    requires
        0 <= i < proxy_guard::proxy_keys().len(),
    ensures
        proxy_guard::proxy_key(proxy_guard::proxy_keys()[i]),
{
    reveal_strlit("HTTP_PROXY");
    reveal_strlit("HTTPS_PROXY");
    reveal_strlit("ALL_PROXY");
    reveal_strlit("NO_PROXY");
    reveal_strlit("http_proxy");
    reveal_strlit("https_proxy");
    reveal_strlit("all_proxy");
    reveal_strlit("no_proxy");
    let key = proxy_guard::proxy_keys()[i];
    text::lemma_trimmed_start_at(key, 0);
    assert(key.skip(0) =~= key);
    text::lemma_trimmed_end_at(key, key.len() as int);
    assert(key.take(key.len() as int) =~= key);
    let n = text::lowered(key);
    if i == 0 || i == 3 {
        assert(n =~= "http_proxy"@);
    } else if i == 1 || i == 4 {
        assert(n =~= "https_proxy"@);
    } else if i == 2 || i == 5 {
        assert(n =~= "all_proxy"@);
    } else {
        assert(n =~= "no_proxy"@);
    }
}

/// Every proxy that is tried is on the local machine and is named by one of
/// the variables.
pub proof fn law_only_local_proxies_are_tried(
    keys: Seq<Seq<char>>,
    values: Seq<Option<Seq<char>>>,
    i: int,
)
    requires
        0 <= i < proxy_guard::probes_of(keys, values).len(),
    ensures
        proxy_guard::loopback_host(proxy_guard::probes_of(keys, values)[i].host),
        keys.contains(proxy_guard::probes_of(keys, values)[i].key),
    decreases keys.len(),
{
    if keys.len() > 0 && keys.len() == values.len() {
        let before = proxy_guard::probes_of(keys.drop_last(), values.drop_last());
        if i < before.len() {
            law_only_local_proxies_are_tried(keys.drop_last(), values.drop_last(), i);
            let k = choose|k: int|
                0 <= k < keys.drop_last().len() && keys.drop_last()[k] == before[i].key;
            assert(keys[k] == before[i].key);
        } else {
            assert(keys[keys.len() - 1] == keys.last());
        }
    }
}

/// The variables stay as they are exactly when every proxy that was tried
/// answered.
pub proof fn law_guard_acts_on_silence(tried: Seq<(ProbeView, bool)>)
    ensures
        proxy_guard::unanswered(tried).len() == 0 <==> forall|i: int|
            0 <= i < tried.len() ==> (#[trigger] tried[i]).1,
    decreases tried.len(),
{
    if tried.len() > 0 {
        let front = tried.drop_last();
        law_guard_acts_on_silence(front);
        if proxy_guard::unanswered(tried).len() == 0 {
            assert forall|i: int| 0 <= i < tried.len() implies (#[trigger] tried[i]).1 by {
                if i < front.len() {
                    assert(front[i].1);
                }
            }
        }
        if forall|i: int| 0 <= i < tried.len() ==> (#[trigger] tried[i]).1 {
            assert forall|i: int| 0 <= i < front.len() implies (#[trigger] front[i]).1 by {
                assert(tried[i].1);
            }
            assert(tried[tried.len() - 1].1);
        }
    }
}

/// The digits of a number write it down.
proof fn lemma_digits(n: nat)
    ensures
        proxy_guard::all_digits(text::digits(n)),
        proxy_guard::decimal(text::digits(n)) == n,
    decreases n,
{
    let s = text::digits(n);
    if n < 10 {
        assert(s.drop_last().len() == 0);
        assert(proxy_guard::decimal(s.drop_last()) == 0);
        assert(s.last() == text::digit(n));
    } else {
        lemma_digits(n / 10);
        let front = text::digits(n / 10);
        assert(s.drop_last() =~= front);
        assert(s.last() == text::digit(n % 10));
        assert forall|i: int| 0 <= i < s.len() implies proxy_guard::is_digit(#[trigger] s[i]) by {
            if i < front.len() {
                assert(s[i] == front[i]);
            }
        }
    }
}

/// A port that is written down in digits is read back.
pub proof fn law_port_is_read_back(port: u16)
    ensures
        proxy_guard::port_of(text::digits(port as nat)) == Some(port),
{
    let s = text::digits(port as nat);
    lemma_digits(port as nat);
    assert(proxy_guard::is_digit(s[0]));
}

/// A text without the characters that end or start a part of an address.
pub open spec fn in_one_part(s: Seq<char>) -> bool {
    forall|i: int|
        0 <= i < s.len() ==> #[trigger] s[i] != '/' && s[i] != '?' && s[i] != '#' && s[i] != '@'
}

/// `c` does not stand in `s`.
proof fn lemma_absent(s: Seq<char>, c: char)
    requires
        forall|i: int| 0 <= i < s.len() ==> #[trigger] s[i] != c,
    ensures
        text::before(s, c) == s,
        text::last_index(s, c) == -1,
{
    text::lemma_first_index_at(s, c, s.len() as int);
    assert(s.take(s.len() as int) =~= s);
    text::lemma_last_index_at(s, c, -1);
}

/// A text that neither starts nor ends with white space is trimmed.
proof fn lemma_trimmed_already(s: Seq<char>)
    requires
        s.len() > 0,
        !text::is_white(s[0]),
        !text::is_white(s.last()),
    ensures
        text::trimmed(s) == s,
{
    text::lemma_trimmed_start_at(s, 0);
    assert(s.skip(0) =~= s);
    text::lemma_trimmed_end_at(s, s.len() as int);
    assert(s.take(s.len() as int) =~= s);
}

/// A trimmed text neither starts nor ends with white space.
proof fn lemma_trimmed_ends(s: Seq<char>)
    requires
        s.len() > 0,
        text::trimmed(s) == s,
    ensures
        !text::is_white(s[0]),
        !text::is_white(s.last()),
{
    text::lemma_trimmed_start(s);
    text::lemma_trimmed_end(text::trimmed_start(s));
    assert(s.skip(0) =~= s);
}

/// An address in one part is all host and port.
proof fn lemma_bare_authority(s: Seq<char>)
    requires
        s.len() > 0,
        !text::is_white(s[0]),
        !text::is_white(s.last()),
        in_one_part(s),
    ensures
        proxy_guard::authority(s) == s,
{
    lemma_trimmed_already(s);
    reveal_strlit("://");
    assert forall|i: int| !text::occurs_at(s, "://"@, i) by {
        if text::occurs_at(s, "://"@, i) {
            assert(s.subrange(i, i + 3)[1] == s[i + 1]);
        }
    }
    lemma_absent(s, '/');
    lemma_absent(s, '?');
    lemma_absent(s, '#');
    lemma_absent(s, '@');
    assert(s.skip(0) =~= s);
}

/// The host and the port of an address are read back. The host may hold colons;
/// the port is what follows the last one.
pub proof fn law_address_is_read_back(host: Seq<char>, port: u16)
    requires
        host.len() > 0,
        text::trimmed(host) == host,
        in_one_part(host),
        host[0] != '[',
    ensures
        proxy_guard::proxy_address(host + seq![':'] + text::digits(port as nat)) == Some(
            (host, port),
        ),
{
    let tail = text::digits(port as nat);
    let s = host + seq![':'] + tail;
    let colon = host.len() as int;
    lemma_digits(port as nat);
    law_port_is_read_back(port);
    lemma_trimmed_ends(host);
    assert forall|i: int| colon < i < s.len() implies proxy_guard::is_digit(#[trigger] s[i]) by {
        assert(s[i] == tail[i - colon - 1]);
    }
    assert(proxy_guard::is_digit(tail[0]));
    assert(proxy_guard::is_digit(s[s.len() - 1]));
    assert(s[0] == host[0] && s[colon] == ':');
    assert forall|i: int| 0 <= i < s.len() implies #[trigger] s[i] != '/' && s[i] != '?' && s[i]
        != '#' && s[i] != '@' by {
        if i < colon {
            assert(s[i] == host[i]);
        } else if i > colon {
            assert(proxy_guard::is_digit(s[i]));
        }
    }
    lemma_bare_authority(s);
    reveal_strlit("[");
    if text::has_prefix(s, "["@) {
        assert(s.subrange(0, 1)[0] == s[0]);
    }
    assert forall|i: int| colon < i < s.len() implies #[trigger] s[i] != ':' by {
        assert(proxy_guard::is_digit(s[i]));
    }
    text::lemma_last_index_at(s, ':', colon);
    assert(s.take(colon) =~= host);
    assert(s.skip(colon + 1) =~= tail);
    assert(proxy_guard::is_digit(tail[tail.len() - 1]));
    lemma_trimmed_already(tail);
}

/// The host and the port of an address with the host in brackets are read back.
pub proof fn law_bracketed_address_is_read_back(host: Seq<char>, port: u16)
    requires
        host.len() > 0,
        text::trimmed(host) == host,
        in_one_part(host),
        forall|i: int| 0 <= i < host.len() ==> #[trigger] host[i] != ']',
    ensures
        proxy_guard::proxy_address(
            seq!['['] + host + seq![']', ':'] + text::digits(port as nat),
        ) == Some((host, port)),
{
    let tail = text::digits(port as nat);
    let s = seq!['['] + host + seq![']', ':'] + tail;
    let end = host.len() as int;
    lemma_digits(port as nat);
    law_port_is_read_back(port);
    assert forall|i: int| end + 2 < i < s.len() implies proxy_guard::is_digit(#[trigger] s[i]) by {
        assert(s[i] == tail[i - end - 3]);
    }
    assert(proxy_guard::is_digit(tail[tail.len() - 1]));
    assert(proxy_guard::is_digit(s[s.len() - 1]));
    assert(s[0] == '[' && s[end + 1] == ']' && s[end + 2] == ':');
    assert forall|i: int| 0 <= i < s.len() implies #[trigger] s[i] != '/' && s[i] != '?' && s[i]
        != '#' && s[i] != '@' by {
        if 0 < i <= end {
            assert(s[i] == host[i - 1]);
        } else if i > end + 2 {
            assert(proxy_guard::is_digit(s[i]));
        }
    }
    lemma_bare_authority(s);
    reveal_strlit("[");
    reveal_strlit(":");
    assert(s.subrange(0, 1) =~= "["@);
    let rest = s.skip(1);
    assert forall|i: int| 0 <= i < end implies #[trigger] rest[i] != ']' by {
        assert(rest[i] == host[i]);
    }
    assert(rest[end] == ']');
    text::lemma_first_index_at(rest, ']', end);
    assert(rest.take(end) =~= host);
    let behind = rest.skip(end + 1);
    assert(behind =~= seq![':'] + tail);
    lemma_trimmed_already(behind);
    assert(behind.subrange(0, 1) =~= ":"@);
    assert(behind.skip(1) =~= tail);
}

} // verus!
