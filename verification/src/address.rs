//! What the crate reads of a URL: its scheme, its host and its port, and
//! which hosts belong to a private network.

use crate::json::opt_str;
use crate::text::{
    all_in, decimal, digits_value, ends_with, finishes_with, law_decimal_reads_back,
    law_digits_are_the_decimal_form, law_split_first, lower, lower_char, only, range_of,
    same_ignoring_case, same_letters, split, split_at_first, split_once, split_text, texts,
    to_chars, CharClass,
};
use vstd::prelude::*;
use vstd::string::*;

verus! {

/// The host of a URL. Addresses are numbers, most significant part first.
pub enum Host {
    Domain(String),
    Ipv4(u32),
    Ipv6(u128),
}

pub enum HostView {
    Domain(Seq<char>),
    Ipv4(u32),
    Ipv6(u128),
}

impl View for Host {
    type V = HostView;

    open spec fn view(&self) -> HostView {
        match self {
            Host::Domain(name) => HostView::Domain(name@),
            Host::Ipv4(a) => HostView::Ipv4(*a),
            Host::Ipv6(a) => HostView::Ipv6(*a),
        }
    }
}

pub open spec fn host_view(host: Option<Host>) -> Option<HostView> {
    match host {
        Some(h) => Some(h@),
        None => None,
    }
}

/// A URL taken apart. `port` is the one written in the URL, or else the one
/// that its scheme is known to use.
pub struct ParsedUrl {
    pub scheme: String,
    pub host: Option<Host>,
    pub port: Option<u16>,
}

pub struct UrlView {
    pub scheme: Seq<char>,
    pub host: Option<HostView>,
    pub port: Option<u16>,
}

impl View for ParsedUrl {
    type V = UrlView;

    open spec fn view(&self) -> UrlView {
        UrlView { scheme: self.scheme@, host: host_view(self.host), port: self.port }
    }
}

pub open spec fn url_view(url: Option<ParsedUrl>) -> Option<UrlView> {
    match url {
        Some(u) => Some(u@),
        None => None,
    }
}

/// The number that the digits of `s` write.
pub open spec fn number_of(s: Seq<char>) -> int
    decreases s.len(),
{
    if s.len() == 0 {
        0
    } else {
        10 * number_of(s.drop_last()) + (s.last() as int - '0' as int)
    }
}

/// One part of an IPv4 address: up to three digits without a leading zero.
pub open spec fn octet(s: Seq<char>) -> Option<int> {
    if 1 <= s.len() <= 3 && all_in(s, CharClass::Digit) && (s.len() == 1 || s[0] != '0')
        && number_of(s) <= 255 {
        Some(number_of(s))
    } else {
        None
    }
}

/// The IPv4 address that a text writes: four parts with dots between them.
pub open spec fn ipv4_of(s: Seq<char>) -> Option<int> {
    let parts = split(s, '.');
    if parts.len() == 4 {
        match (octet(parts[0]), octet(parts[1]), octet(parts[2]), octet(parts[3])) {
            (Some(a), Some(b), Some(c), Some(d)) => Some(
                ((a * 256 + b) * 256 + c) * 256 + d,
            ),
            _ => None,
        }
    } else {
        None
    }
}

fn octet_of(s: &str) -> (r: Option<u32>)
    ensures
        match r {
            Some(n) => octet(s@) == Some(n as int) && n <= 255,
            None => octet(s@) is None,
        },
{
    let chars = to_chars(s);
    if chars.len() == 0 || chars.len() > 3 || !only(s, CharClass::Digit) || (chars.len() > 1
        && chars[0] == '0') {
        return None;
    }
    let mut n: u32 = 0;
    let mut i: usize = 0;
    while i < chars.len()
        invariant
            chars@ == s@,
            chars@.len() <= 3,
            all_in(s@, CharClass::Digit),
            i <= chars@.len(),
            n == number_of(s@.take(i as int)),
            i == 0 ==> n == 0,
            i == 1 ==> n <= 9,
            i == 2 ==> n <= 99,
            i == 3 ==> n <= 999,
        decreases chars@.len() - i,
    {
        assert(CharClass::Digit.holds(s@[i as int]));
        assert(s@.take(i + 1).drop_last() =~= s@.take(i as int));
        n = 10 * n + (chars[i] as u32 - '0' as u32);
        i = i + 1;
    }
    assert(s@.take(i as int) =~= s@);
    if n <= 255 {
        Some(n)
    } else {
        None
    }
}

/// The IPv4 address that a text writes.
pub fn parse_ipv4(s: &str) -> (r: Option<u32>)
    ensures
        match r {
            Some(a) => ipv4_of(s@) == Some(a as int),
            None => ipv4_of(s@) is None,
        },
{
    let parts = split_text(s, '.');
    if parts.len() != 4 {
        return None;
    }
    assert(texts(parts@)[0] == parts@[0]@);
    assert(texts(parts@)[1] == parts@[1]@);
    assert(texts(parts@)[2] == parts@[2]@);
    assert(texts(parts@)[3] == parts@[3]@);
    let a = octet_of(parts[0].as_str());
    let b = octet_of(parts[1].as_str());
    let c = octet_of(parts[2].as_str());
    let d = octet_of(parts[3].as_str());
    match (a, b, c, d) {
        (Some(a), Some(b), Some(c), Some(d)) => Some(((a * 256 + b) * 256 + c) * 256 + d),
        _ => None,
    }
}

/// 127.0.0.0/8.
pub open spec fn ipv4_loopback(a: u32) -> bool {
    a / 0x100_0000 == 127
}

/// 10.0.0.0/8, 172.16.0.0/12 and 192.168.0.0/16.
pub open spec fn ipv4_private(a: u32) -> bool {
    a / 0x100_0000 == 10 || a / 0x10_0000 == 172 * 16 + 1 || a / 0x1_0000 == 192 * 256 + 168
}

/// 169.254.0.0/16.
pub open spec fn ipv4_link_local(a: u32) -> bool {
    a / 0x1_0000 == 169 * 256 + 254
}

/// fe80::/10.
pub open spec fn ipv6_link_local(a: u128) -> bool {
    a / 0x40_0000_0000_0000_0000_0000_0000_0000 == 0x3fa
}

/// fc00::/7.
pub open spec fn ipv6_unique_local(a: u128) -> bool {
    a / 0x200_0000_0000_0000_0000_0000_0000_0000 == 0x7e
}

/// What keeps a file from being sent to an IPv4 address.
pub open spec fn ipv4_refusal(a: u32) -> Option<Seq<char>> {
    if ipv4_loopback(a) {
        Some("a loopback address"@)
    } else if ipv4_private(a) {
        Some("a private (RFC 1918) address"@)
    } else if ipv4_link_local(a) {
        Some("a link-local address (this range includes cloud metadata endpoints)"@)
    } else if a == 0 {
        Some("the unspecified address"@)
    } else {
        None
    }
}

/// What keeps a file from being sent to an IPv6 address.
pub open spec fn ipv6_refusal(a: u128) -> Option<Seq<char>> {
    if a == 1 {
        Some("a loopback address"@)
    } else if a == 0 {
        Some("the unspecified address"@)
    } else if ipv6_link_local(a) {
        Some("a link-local address (this range includes cloud metadata endpoints)"@)
    } else if ipv6_unique_local(a) {
        Some("a unique local (private) IPv6 address"@)
    } else {
        None
    }
}

/// A name up to its zone.
pub open spec fn without_zone(name: Seq<char>) -> Seq<char> {
    match split_once(name, '%') {
        Some(p) => p.0,
        None => name,
    }
}

/// What keeps a file from being sent to a host. A name is refused only where
/// it writes an address: what a name resolves to is not known here.
pub open spec fn host_refusal(host: Option<HostView>) -> Option<Seq<char>> {
    match host {
        None => Some("a URL with no host"@),
        Some(HostView::Ipv4(a)) => ipv4_refusal(a),
        Some(HostView::Ipv6(a)) => ipv6_refusal(a),
        Some(HostView::Domain(name)) => match ipv4_of(without_zone(name)) {
            Some(a) => ipv4_refusal(a as u32),
            None => None,
        },
    }
}

fn ipv4_refusal_reason(a: u32) -> (r: Option<&'static str>)
    ensures
        opt_str(r) == ipv4_refusal(a),
{
    if a / 0x100_0000 == 127 {
        Some("a loopback address")
    } else if a / 0x100_0000 == 10 || a / 0x10_0000 == 172 * 16 + 1 || a / 0x1_0000 == 192 * 256
        + 168 {
        Some("a private (RFC 1918) address")
    } else if a / 0x1_0000 == 169 * 256 + 254 {
        Some("a link-local address (this range includes cloud metadata endpoints)")
    } else if a == 0 {
        Some("the unspecified address")
    } else {
        None
    }
}

fn ipv6_refusal_reason(a: u128) -> (r: Option<&'static str>)
    ensures
        opt_str(r) == ipv6_refusal(a),
{
    if a == 1 {
        Some("a loopback address")
    } else if a == 0 {
        Some("the unspecified address")
    } else if a / 0x40_0000_0000_0000_0000_0000_0000_0000 == 0x3fa {
        Some("a link-local address (this range includes cloud metadata endpoints)")
    } else if a / 0x200_0000_0000_0000_0000_0000_0000_0000 == 0x7e {
        Some("a unique local (private) IPv6 address")
    } else {
        None
    }
}

/// Why nothing may be uploaded to this URL, if it may not.
pub fn private_network_rejection_reason_for_parsed_url(url: &ParsedUrl) -> (r: Option<&'static str>)
    ensures
        opt_str(r) == host_refusal(url@.host),
{
    match &url.host {
        None => Some("a URL with no host"),
        Some(Host::Ipv4(a)) => ipv4_refusal_reason(*a),
        Some(Host::Ipv6(a)) => ipv6_refusal_reason(*a),
        Some(Host::Domain(name)) => {
            let bare = match split_at_first(name.as_str(), '%') {
                Some(p) => p.0,
                None => name.clone(),
            };
            match parse_ipv4(bare.as_str()) {
                Some(a) => ipv4_refusal_reason(a),
                None => None,
            }
        },
    }
}

/// A host that only the machine itself can be: an address of its own, or
/// `localhost`, with or without the final dot.
pub open spec fn loopback_host(host: Option<HostView>) -> bool {
    match host {
        None => false,
        Some(HostView::Ipv4(a)) => ipv4_loopback(a),
        Some(HostView::Ipv6(a)) => a == 1,
        Some(HostView::Domain(name)) => same_letters(
            if ends_with(name, "."@) {
                name.take(name.len() - 1)
            } else {
                name
            },
            "localhost"@,
        ),
    }
}

/// Whether a host can only be the machine itself.
pub fn is_loopback_host(host: &Option<Host>) -> (r: bool)
    ensures
        r == loopback_host(host_view(*host)),
{
    match host {
        None => false,
        Some(Host::Ipv4(a)) => *a / 0x100_0000 == 127,
        Some(Host::Ipv6(a)) => *a == 1,
        Some(Host::Domain(name)) => {
            proof {
                reveal_strlit(".");
            }
            let chars = to_chars(name.as_str());
            if finishes_with(name.as_str(), ".") {
                let bare = range_of(chars.as_slice(), 0, chars.len() - 1);
                assert(name@.take(name@.len() - 1) =~= name@.subrange(0, name@.len() - 1));
                same_ignoring_case(bare.as_str(), "localhost")
            } else {
                same_ignoring_case(name.as_str(), "localhost")
            }
        },
    }
}

/// Which IPv4 addresses no file is sent to, by their parts: those of the
/// machine itself, of private networks, of the link, and the one that says
/// nothing.
pub proof fn law_private_ipv4(a: u32, o1: int, o2: int, o3: int, o4: int)
    requires
        0 <= o1 < 256,
        0 <= o2 < 256,
        0 <= o3 < 256,
        0 <= o4 < 256,
        a == ((o1 * 256 + o2) * 256 + o3) * 256 + o4,
    ensures
        ipv4_refusal(a) is Some <==> o1 == 127 || o1 == 10 || (o1 == 172 && 16 <= o2 < 32) || (o1
            == 192 && o2 == 168) || (o1 == 169 && o2 == 254) || (o1 == 0 && o2 == 0 && o3 == 0 && o4
            == 0),
        o1 == 127 ==> ipv4_refusal(a) == Some("a loopback address"@),
        o1 == 10 || (o1 == 172 && 16 <= o2 < 32) || (o1 == 192 && o2 == 168) ==> ipv4_refusal(a)
            == Some("a private (RFC 1918) address"@),
        host_refusal(Some(HostView::Ipv4(a))) == ipv4_refusal(a),
        loopback_host(Some(HostView::Ipv4(a))) <==> o1 == 127,
{
}

/// Which IPv6 addresses no file is sent to.
pub proof fn law_private_ipv6(a: u128)
    ensures
        ipv6_refusal(a) is Some <==> a == 0 || a == 1 || (
        0xfe80_0000_0000_0000_0000_0000_0000_0000 <= a
            < 0xfec0_0000_0000_0000_0000_0000_0000_0000) || (
        0xfc00_0000_0000_0000_0000_0000_0000_0000 <= a
            < 0xfe00_0000_0000_0000_0000_0000_0000_0000),
        host_refusal(Some(HostView::Ipv6(a))) == ipv6_refusal(a),
        host_refusal(None) is Some,
        loopback_host(Some(HostView::Ipv6(a))) <==> a == 1,
        !loopback_host(None),
{
}

/// A host that is a name is the machine itself only where it is `localhost`,
/// whatever its case, with or without the final dot.
pub proof fn law_only_localhost_is_local(name: Seq<char>)
    ensures
        loopback_host(Some(HostView::Domain(name))) <==> lower(name) == lower("localhost"@) || lower(
            name,
        ) == lower("localhost."@),
{
    reveal_strlit("localhost");
    reveal_strlit("localhost.");
    reveal_strlit(".");
    let n = name.len() as int;
    if ends_with(name, "."@) {
        assert(name.skip(n - 1)[0] == '.');
        assert(name.last() == '.');
        let bare = name.take(n - 1);
        assert(lower(name) =~= lower(bare).push('.'));
        assert(lower("localhost."@) =~= lower("localhost"@).push('.'));
        if lower(name) == lower("localhost."@) {
            assert(lower(bare) =~= lower(name).drop_last());
            assert(lower("localhost"@) =~= lower("localhost."@).drop_last());
        }
        if lower(name) == lower("localhost"@) {
            assert(lower(name).last() == '.');
            assert(lower("localhost"@).last() == 't');
        }
    } else {
        if lower(name) == lower("localhost."@) {
            assert(lower("localhost."@).last() == '.');
            assert(lower(name).last() == lower_char(name.last()));
            assert(name.last() == '.');
            assert(name.skip(n - 1) =~= "."@);
        }
    }
}

/// A name that writes an IPv4 address is treated as that address, whatever
/// zone follows it.
pub proof fn law_written_addresses_count(
    name: Seq<char>,
    zone: Seq<char>,
    a: u32,
    o1: nat,
    o2: nat,
    o3: nat,
    o4: nat,
)
    requires
        o1 < 256,
        o2 < 256,
        o3 < 256,
        o4 < 256,
        a == ((o1 * 256 + o2) * 256 + o3) * 256 + o4,
        name == decimal(o1) + seq!['.'] + (decimal(o2) + seq!['.'] + (decimal(o3) + seq!['.']
            + decimal(o4))),
    ensures
        ipv4_of(name) == Some(a as int),
        host_refusal(Some(HostView::Domain(name))) == ipv4_refusal(a),
        host_refusal(Some(HostView::Domain(name + seq!['%'] + zone))) == ipv4_refusal(a),
{
    lemma_octet(o1);
    lemma_octet(o2);
    lemma_octet(o3);
    lemma_octet(o4);
    let d = decimal(o4);
    let c = decimal(o3) + seq!['.'] + d;
    let b = decimal(o2) + seq!['.'] + c;
    law_split_first(d, '.', d);
    law_split_first(decimal(o3), '.', d);
    law_split_first(decimal(o2), '.', c);
    law_split_first(decimal(o1), '.', b);
    let parts = split(name, '.');
    assert(parts =~= seq![decimal(o1), decimal(o2), decimal(o3), decimal(o4)]);
    assert(!name.contains('%'));
    law_split_first(name, '%', zone);
}

proof fn lemma_octet(n: nat)
    requires
        n < 256,
    ensures
        octet(decimal(n)) == Some(n as int),
        !decimal(n).contains('.'),
        !decimal(n).contains('%'),
{
    law_decimal_reads_back(n);
    lemma_number_of(decimal(n));
    let s = decimal(n);
    if n < 10 {
        assert(s.len() == 1);
    } else if n < 100 {
        assert(decimal(n / 10).len() == 1);
    } else {
        assert(decimal(n / 10 / 10).len() == 1);
        assert(decimal(n / 10).len() == 2);
    }
    assert forall|i: int| 0 <= i < s.len() implies #[trigger] s[i] != '.' && s[i] != '%' by {
        assert(CharClass::Digit.holds(s[i]));
    }
}

proof fn lemma_number_of(s: Seq<char>)
    ensures
        number_of(s) == digits_value(s),
    decreases s.len(),
{
    if s.len() > 0 {
        lemma_number_of(s.drop_last());
    }
}

/// A text writes an IPv4 address only where it is four numbers below 256 in
/// decimal, with dots between them.
pub proof fn law_addresses_are_written_one_way(s: Seq<char>)
    ensures
        ipv4_of(s) is Some ==> exists|o1: nat, o2: nat, o3: nat, o4: nat|
            o1 < 256 && o2 < 256 && o3 < 256 && o4 < 256 && split(s, '.') == seq![
                #[trigger] decimal(o1),
                #[trigger] decimal(o2),
                #[trigger] decimal(o3),
                #[trigger] decimal(o4),
            ] && ipv4_of(s) == Some((((o1 * 256 + o2) * 256 + o3) * 256 + o4) as int),
{
    if ipv4_of(s) is Some {
        let parts = split(s, '.');
        lemma_octet_text(parts[0]);
        lemma_octet_text(parts[1]);
        lemma_octet_text(parts[2]);
        lemma_octet_text(parts[3]);
        let o1 = octet(parts[0])->0 as nat;
        let o2 = octet(parts[1])->0 as nat;
        let o3 = octet(parts[2])->0 as nat;
        let o4 = octet(parts[3])->0 as nat;
        assert(parts =~= seq![decimal(o1), decimal(o2), decimal(o3), decimal(o4)]);
    }
}

proof fn lemma_octet_text(s: Seq<char>)
    requires
        octet(s) is Some,
    ensures
        0 <= octet(s)->0 < 256,
        decimal(octet(s)->0 as nat) == s,
{
    lemma_number_of(s);
    law_digits_are_the_decimal_form(s);
}

/// A part of an address is a number below two hundred and fifty-six in its usual
/// form, and every such number is one.
pub proof fn law_octets(n: nat, s: Seq<char>)
    ensures
        n < 256 ==> octet(decimal(n)) == Some(n as int),
        octet(s) matches Some(o) ==> 0 <= o < 256 && s == decimal(o as nat),
{
    if n < 256 {
        lemma_octet(n);
    }
    if octet(s) is Some {
        lemma_octet_text(s);
    }
}

} // verus!
