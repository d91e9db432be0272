//! Hosts of model backends: which ones are valid, and how they stand in a URL.

use crate::address::check_ip_address;
use crate::text::{chars_of, has_char, is_alphanumeric_char, natural, split};
use vstd::prelude::*;

verus! {

/// One label of a host name: at most 63 ASCII letters, digits and hyphens, with a letter or a
/// digit at both ends.
pub open spec fn is_label(label: Seq<char>) -> bool {
    &&& 1 <= label.len() <= 63
    &&& forall|k: int|
        0 <= k < label.len() ==> crate::text::is_alphanumeric(#[trigger] label[k]) || label[k]
            == '-'
    &&& label[0] != '-'
    &&& label.last() != '-'
}

/// Labels joined by dots, at most 253 characters in all (each is one byte).
pub open spec fn is_host_name(host: Seq<char>) -> bool {
    let labels = crate::text::split_on(host, '.');
    &&& 1 <= host.len() <= 253
    &&& forall|i: int| 0 <= i < labels.len() ==> is_label(#[trigger] labels[i])
}

/// A host on which a backend may listen: an IP address or a host name.
pub open spec fn is_valid_host(host: Seq<char>) -> bool {
    crate::address::is_ip_address(host) || is_host_name(host)
}

/// A host as it stands in a URL: between brackets where it holds a colon.
pub open spec fn url_host(host: Seq<char>) -> Seq<char> {
    if host.contains(':') {
        "["@ + host + "]"@
    } else {
        host
    }
}

/// The `http` origin of a backend.
pub open spec fn origin_text(host: Seq<char>, port: u16) -> Seq<char> {
    "http://"@ + url_host(host) + ":"@ + crate::text::natural_text(port as nat)
}

/// Whether a piece is one label of a host name.
pub fn check_label(label: &Vec<char>) -> (ok: bool)
    ensures
        ok == is_label(label@),
{
    if label.len() < 1 || label.len() > 63 {
        return false;
    }
    for k in 0..label.len()
        invariant
            forall|j: int|
                0 <= j < k ==> crate::text::is_alphanumeric(#[trigger] label@[j]) || label@[j]
                    == '-',
    {
        if !is_alphanumeric_char(label[k]) && label[k] != '-' {
            return false;
        }
    }
    label[0] != '-' && label[label.len() - 1] != '-'
}

/// Whether a host is an IP address or a host name. No lookup is made.
pub fn check_host(host: &str) -> (ok: bool)
    ensures
        ok == is_valid_host(host@),
{
    let chars = chars_of(host);
    if check_ip_address(chars.as_slice()) {
        return true;
    }
    if chars.len() < 1 || chars.len() > 253 {
        return false;
    }
    let labels = split(chars.as_slice(), '.');
    let ghost texts = crate::text::piece_texts(labels@);
    for i in 0..labels.len()
        invariant
            texts == crate::text::piece_texts(labels@),
            texts == crate::text::split_on(host@, '.'),
            !crate::address::is_ip_address(host@),
            forall|j: int| 0 <= j < i ==> is_label(#[trigger] texts[j]),
    {
        if !check_label(&labels[i]) {
            assert(!is_label(texts[i as int]));
            return false;
        }
    }
    true
}

/// Writes a host as it stands in a URL.
pub fn render_url_host(host: &str) -> (text: String)
    ensures
        text@ == url_host(host@),
{
    if has_char(chars_of(host).as_slice(), ':') {
        "[".to_owned().concat(host).concat("]")
    } else {
        host.to_owned()
    }
}

/// Writes the origin of a backend.
pub fn render_origin(host: &str, port: u16) -> (text: String)
    ensures
        text@ == origin_text(host@, port),
{
    "http://".to_owned().concat(render_url_host(host).as_str()).concat(":").concat(
        natural(port as u64).as_str(),
    )
}

/// A valid host is at most 253 characters long and made of ASCII letters, digits, hyphens, dots
/// and colons. So it holds no IPv6 zone, no port separator of a longer authority, no blank and
/// no part of a path.
pub proof fn law_valid_host_characters(host: Seq<char>)
    requires
        is_valid_host(host),
    ensures
        1 <= host.len() <= 253,
        forall|k: int|
            0 <= k < host.len() ==> crate::text::is_alphanumeric(#[trigger] host[k]) || host[k]
                == '-' || host[k] == '.' || host[k] == ':',
        !host.contains('%'),
{
    if crate::address::is_ipv4(host) {
        crate::address::lemma_ipv4_shape(host);
        crate::text::lemma_split_count(host, '.');
    } else if crate::address::is_ipv6(host) {
        crate::address::lemma_ipv6_shape(host);
    } else {
        lemma_host_name_characters(host);
    }
}

/// An IPv4 address has the form of a host name, so the valid hosts are the host names and the
/// IPv6 addresses.
pub proof fn law_valid_hosts(host: Seq<char>)
    ensures
        crate::address::is_ipv4(host) ==> is_host_name(host),
        is_valid_host(host) <==> is_host_name(host) || crate::address::is_ipv6(host),
{
    if crate::address::is_ipv4(host) {
        let labels = crate::text::split_on(host, '.');
        crate::address::lemma_ipv4_shape(host);
        crate::text::lemma_split_count(host, '.');
        assert forall|i: int| 0 <= i < labels.len() implies is_label(#[trigger] labels[i]) by {
            assert(crate::address::is_octet(labels[i]));
            assert forall|k: int| 0 <= k < labels[i].len() implies crate::text::is_alphanumeric(
                #[trigger] labels[i][k],
            ) by {
                assert(crate::text::is_digit(labels[i][k]));
            }
        }
    }
}

/// A text without dots is a host name exactly if it is one to 63 ASCII letters, digits and
/// hyphens, with no hyphen at either end; where else hyphens stand does not matter.
pub proof fn law_host_name_of_one_label(label: Seq<char>)
    requires
        !label.contains('.'),
    ensures
        is_host_name(label) <==> {
            &&& 1 <= label.len() <= 63
            &&& forall|k: int|
                0 <= k < label.len() ==> '0' <= #[trigger] label[k] <= '9' || 'A' <= label[k] <= 'Z'
                    || 'a' <= label[k] <= 'z' || label[k] == '-'
            &&& label[0] != '-'
            &&& label[label.len() - 1] != '-'
        },
{
    assert forall|k: int| 0 <= k < label.len() implies #[trigger] label[k] != '.' by {
        assert(label.contains(label[k]));
    }
    crate::text::lemma_split_absent(label, '.');
    let labels = crate::text::split_on(label, '.');
    assert(labels[0] == label);
    if is_host_name(label) {
        assert(is_label(labels[0]));
    }
}

/// Two host names without dots make one with a hyphen between them, if that is not too long.
pub proof fn law_hyphen_joins_labels(front: Seq<char>, back: Seq<char>)
    requires
        is_host_name(front),
        is_host_name(back),
        !front.contains('.'),
        !back.contains('.'),
        front.len() + 1 + back.len() <= 63,
    ensures
        is_valid_host(front.push('-') + back),
{
    let whole = front.push('-') + back;
    law_host_name_of_one_label(front);
    law_host_name_of_one_label(back);
    assert forall|k: int| 0 <= k < whole.len() implies ('0' <= #[trigger] whole[k] <= '9' || 'A'
        <= whole[k] <= 'Z' || 'a' <= whole[k] <= 'z' || whole[k] == '-') && whole[k] != '.' by {
        if k < front.len() {
            assert(whole[k] == front[k]);
            assert(front.contains(front[k]));
        } else if k > front.len() {
            assert(whole[k] == back[k - front.len() - 1]);
            assert(back.contains(back[k - front.len() - 1]));
        }
    }
    law_host_name_of_one_label(whole);
}

/// Labels joined by dots, up to 253 characters in all, are a valid host.
pub proof fn law_labels_make_a_host(labels: Seq<Seq<char>>)
    requires
        labels.len() >= 1,
        forall|i: int|
            0 <= i < labels.len() ==> is_host_name(#[trigger] labels[i]) && !labels[i].contains(
                '.',
            ),
        crate::text::joined(labels, '.').len() <= 253,
    ensures
        is_host_name(crate::text::joined(labels, '.')),
        is_valid_host(crate::text::joined(labels, '.')),
    decreases labels.len(),
{
    assert(is_host_name(labels[labels.len() - 1]));
    if labels.len() > 1 {
        let front = labels.drop_last();
        assert forall|i: int| 0 <= i < front.len() implies is_host_name(#[trigger] front[i])
            && !front[i].contains('.') by {
            assert(front[i] == labels[i]);
        }
        law_labels_make_a_host(front);
        law_host_name_by_labels(crate::text::joined(front, '.'), labels.last());
    }
}

/// A host stands in a URL as it is, but between brackets where it holds a colon.
pub proof fn law_url_host(host: Seq<char>)
    ensures
        host.contains(':') ==> url_host(host) == seq!['['] + host + seq![']'],
        !host.contains(':') ==> url_host(host) == host,
{
    reveal_strlit("[");
    reveal_strlit("]");
}

/// An origin is the scheme, the host as it stands in a URL, a colon and the digits of the port.
pub proof fn law_origin_parts(host: Seq<char>, port: u16)
    ensures
        origin_text(host, port) == seq!['h', 't', 't', 'p', ':', '/', '/'] + (if host.contains(
            ':',
        ) {
            seq!['['] + host + seq![']']
        } else {
            host
        }) + seq![':'] + crate::text::natural_text(port as nat),
{
    reveal_strlit("http://");
    reveal_strlit(":");
    law_url_host(host);
    assert("http://"@ == seq!['h', 't', 't', 'p', ':', '/', '/']);
    assert(":"@ == seq![':']);
}

/// A host name is valid label by label: joined by a dot, two texts make one exactly if both of
/// them are one, as long as the whole is not too long.
pub proof fn law_host_name_by_labels(front: Seq<char>, back: Seq<char>)
    requires
        front.len() + 1 + back.len() <= 253,
    ensures
        is_host_name(front.push('.') + back) <==> is_host_name(front) && is_host_name(back),
{
    let whole = front.push('.') + back;
    let left = crate::text::split_on(front, '.');
    let right = crate::text::split_on(back, '.');
    let labels = crate::text::split_on(whole, '.');
    crate::text::lemma_split_concat(front, '.', back);
    if is_host_name(whole) {
        assert forall|i: int| 0 <= i < left.len() implies is_label(#[trigger] left[i]) by {
            assert(labels[i] == left[i]);
        }
        assert forall|i: int| 0 <= i < right.len() implies is_label(#[trigger] right[i]) by {
            assert(labels[left.len() + i] == right[i]);
        }
        if front.len() == 0 {
            assert(left[0].len() == 0);
        }
        if back.len() == 0 {
            assert(right[0].len() == 0);
        }
    }
}

/// Among the valid hosts, a colon stands in exactly the IPv6 addresses: they alone are put
/// between brackets.
pub proof fn law_brackets_mark_ipv6(host: Seq<char>)
    requires
        is_valid_host(host),
    ensures
        host.contains(':') <==> crate::address::is_ipv6(host),
        crate::address::is_ipv6(host) ==> url_host(host) == "["@ + host + "]"@,
        !crate::address::is_ipv6(host) ==> url_host(host) == host,
{
    if crate::address::is_ipv6(host) {
        crate::address::lemma_ipv6_shape(host);
    } else if crate::address::is_ipv4(host) {
        crate::address::lemma_ipv4_shape(host);
    } else {
        lemma_host_name_characters(host);
    }
}

/// The origin of a backend on a valid host is an HTTP origin of ASCII characters.
pub proof fn law_origin_of_valid_host(host: Seq<char>, port: u16)
    requires
        is_valid_host(host),
    ensures
        crate::uri::is_http_origin(origin_text(host, port)),
        vstd::utf8::is_ascii_chars(origin_text(host, port)),
        origin_text(host, port).len() <= 268,
{
    let shown = url_host(host);
    let digits = crate::text::natural_text(port as nat);
    reveal_strlit("http://");
    reveal_strlit(":");
    reveal_strlit("[");
    reveal_strlit("]");
    law_valid_host_characters(host);
    law_brackets_mark_ipv6(host);
    crate::text::lemma_natural_text_digits(port as nat);
    crate::text::lemma_natural_text_short(port as nat);
    if crate::address::is_ipv6(host) {
        crate::address::lemma_ipv6_shape(host);
        assert forall|k: int| 0 <= k < host.len() implies crate::text::is_hex_digit(
            #[trigger] host[k],
        ) || host[k] == ':' || host[k] == '.' by {
            assert(crate::address::is_ipv6_char(host[k]));
        }
        assert("["@ + host + "]"@ == shown);
        assert(crate::uri::is_bracketed_uri_host(shown));
    } else {
        assert forall|k: int| 0 <= k < host.len() implies crate::text::is_alphanumeric(
            #[trigger] host[k],
        ) || host[k] == '-' || host[k] == '.' by {
            assert(host.contains(host[k]));
        }
        assert(crate::uri::is_plain_uri_host(shown));
    }
    assert("http://"@ + shown + ":"@ + digits == origin_text(host, port));
}

/// Backends on valid hosts have the same origin only if they are the same backend.
pub proof fn law_origin_determines_backend(
    host: Seq<char>,
    port: u16,
    other_host: Seq<char>,
    other_port: u16,
)
    requires
        is_valid_host(host),
        is_valid_host(other_host),
        origin_text(host, port) == origin_text(other_host, other_port),
    ensures
        host == other_host,
        port == other_port,
{
    reveal_strlit("http://");
    reveal_strlit(":");
    reveal_strlit("[");
    reveal_strlit("]");
    let a = origin_text(host, port);
    let shown = url_host(host);
    let other_shown = url_host(other_host);
    let digits = crate::text::natural_text(port as nat);
    let other_digits = crate::text::natural_text(other_port as nat);
    crate::text::lemma_natural_text_digits(port as nat);
    crate::text::lemma_natural_text_digits(other_port as nat);
    law_valid_host_characters(host);
    law_valid_host_characters(other_host);
    // The last colon stands in front of the port.
    let colon: int = 7 + shown.len() as int;
    let other_colon: int = 7 + other_shown.len() as int;
    assert(a.len() == colon + 1 + digits.len());
    assert(a.len() == other_colon + 1 + other_digits.len());
    assert(a[colon] == ':');
    assert(a[other_colon] == ':');
    if colon < other_colon {
        assert(a[other_colon] == digits[other_colon - colon - 1]);
    }
    if other_colon < colon {
        assert(a[colon] == other_digits[colon - other_colon - 1]);
    }
    assert(digits == a.skip(colon + 1));
    assert(other_digits == a.skip(colon + 1));
    crate::text::law_natural_text_reads_back(port as nat);
    crate::text::law_natural_text_reads_back(other_port as nat);
    assert(shown == a.subrange(7, colon));
    assert(other_shown == a.subrange(7, colon));
    if host.contains(':') {
        assert(shown[0] == '[');
        assert(host == shown.subrange(1, shown.len() - 1));
    } else {
        assert(shown[0] == host[0]);
    }
    if other_host.contains(':') {
        assert(other_shown[0] == '[');
        assert(other_host == other_shown.subrange(1, other_shown.len() - 1));
    } else {
        assert(other_shown[0] == other_host[0]);
    }
}

proof fn lemma_host_name_characters(host: Seq<char>)
    requires
        is_host_name(host),
    ensures
        forall|k: int|
            0 <= k < host.len() ==> crate::text::is_alphanumeric(#[trigger] host[k]) || host[k]
                == '-' || host[k] == '.',
{
    let labels = crate::text::split_on(host, '.');
    let allowed = |c: char| crate::text::is_alphanumeric(c) || c == '-';
    assert forall|i: int, j: int|
        #![trigger labels[i][j]]
        0 <= i < labels.len() && 0 <= j < labels[i].len() implies allowed(labels[i][j]) by {
        assert(is_label(labels[i]));
    }
    crate::text::lemma_split_chars(host, '.', allowed);
}

} // verus!
