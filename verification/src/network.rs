use vstd::prelude::*;

use crate::models::{InterfaceAddresses, InterfaceStatus, InterfaceType, InternetSnapshot, NetworkInterface, NetworkSnapshot};
use crate::outside::{char_lowercase, lowercase_of};
use crate::text::{lex_lt, sorted_insert, string_views, strictly_sorted, same_chars, slice_chars, all_digits, digits_value, parse_unsigned, concat_chars, decimal, decimal_chars, lemma_decimal_injective, string_of, 
    ascii_lower, ascii_lower_seq, chars_of, contains_seq, contains_str, equals_str, starts_with, starts_with_str,
    to_ascii_lowercase,
};

verus! {

pub open spec fn is_ascii_digit(c: char) -> bool {
    '0' <= c && c <= '9'
}

/// A lowered interface name that denotes the loopback interface.
pub open spec fn loopback_name(n: Seq<char>) -> bool {
    ||| n == "lo"@
    ||| (starts_with(n, "lo"@) && n.len() > 2 && forall|i: int| 2 <= i < n.len() ==> is_ascii_digit(#[trigger] n[i]))
    ||| contains_seq(n, "loopback"@)
}

pub open spec fn wifi_name(n: Seq<char>) -> bool {
    contains_seq(n, "wi-fi"@) || contains_seq(n, "wifi"@) || contains_seq(n, "wlan"@)
        || contains_seq(n, "wireless"@) || contains_seq(n, "\u{65e0}\u{7ebf}"@) || n == "en0"@
        || n == "en1"@
}

pub open spec fn vpn_name(n: Seq<char>) -> bool {
    starts_with(n, "utun"@) || starts_with(n, "tun"@) || starts_with(n, "tap"@) || contains_seq(n, "vpn"@)
        || contains_seq(n, "tunnel"@) || contains_seq(n, "meta"@) || contains_seq(n, "tailscale"@)
        || contains_seq(n, "zerotier"@) || contains_seq(n, "clash"@) || contains_seq(n, "mihomo"@)
}

pub open spec fn ethernet_name(n: Seq<char>) -> bool {
    contains_seq(n, "ethernet"@) || contains_seq(n, "\u{4ee5}\u{592a}"@) || contains_seq(n, "local area connection"@)
        || contains_seq(n, "\u{672c}\u{5730}\u{8fde}\u{63a5}"@) || starts_with(n, "eth"@) || starts_with(n, "en"@)
}

/// The interface type that a name suggests, tested on the ASCII-lowered name in this order:
/// loopback, Wi-Fi, VPN, Ethernet.
pub open spec fn classify_spec(name: Seq<char>) -> InterfaceType {
    let n = ascii_lower_seq(name);
    if loopback_name(n) {
        InterfaceType::Loopback
    } else if wifi_name(n) {
        InterfaceType::Wifi
    } else if vpn_name(n) {
        InterfaceType::Vpn
    } else if ethernet_name(n) {
        InterfaceType::Ethernet
    } else {
        InterfaceType::Unknown
    }
}

/// The ASCII upper-case form of a character (other characters are kept).
pub open spec fn ascii_upper(c: char) -> char {
    if 'a' <= c && c <= 'z' {
        ((c as u32) - 32) as char
    } else {
        c
    }
}

pub open spec fn ascii_upper_seq(s: Seq<char>) -> Seq<char> {
    s.map_values(|c: char| ascii_upper(c))
}

/// Letter case does not matter to the classification of a name: the name, its ASCII upper-case
/// form and its ASCII lower-case form are classified alike. A name whose lower-case form is a
/// loopback name is a loopback interface, whatever else it holds.
pub proof fn lemma_classification_ignores_case(name: Seq<char>)
    ensures
        classify_spec(ascii_upper_seq(name)) == classify_spec(name),
        classify_spec(ascii_lower_seq(name)) == classify_spec(name),
        loopback_name(ascii_lower_seq(name)) ==> classify_spec(name) == InterfaceType::Loopback,
{
    assert forall|i: int| 0 <= i < name.len() implies ascii_lower(ascii_upper(#[trigger] name[i])) == ascii_lower(
        name[i],
    ) && ascii_lower(ascii_lower(name[i])) == ascii_lower(name[i]) by {
        let c = name[i];
        let u = c as u32;
        if 'a' <= c && c <= 'z' {
            assert(97 <= u <= 122);
            assert(((u - 32) as char) as u32 == u - 32);
        } else if 'A' <= c && c <= 'Z' {
            assert(65 <= u <= 90);
            assert(((u + 32) as char) as u32 == u + 32);
        }
    }
    assert(ascii_lower_seq(ascii_upper_seq(name)) =~= ascii_lower_seq(name));
    assert(ascii_lower_seq(ascii_lower_seq(name)) =~= ascii_lower_seq(name));
}

fn all_ascii_digits_from(n: &Vec<char>, start: usize) -> (b: bool)
    requires
        start <= n.len(),
    ensures
        b == forall|i: int| start <= i < n.len() ==> is_ascii_digit(#[trigger] n@[i]),
{
    let mut i = start;
    while i < n.len()
        invariant
            start <= i <= n.len(),
            forall|j: int| start <= j < i ==> is_ascii_digit(#[trigger] n@[j]),
        decreases n.len() - i,
    {
        if !('0' <= n[i] && n[i] <= '9') {
            return false;
        }
        i = i + 1;
    }
    true
}

pub fn is_loopback_name(normalized: &Vec<char>) -> (b: bool)
    ensures
        b == loopback_name(normalized@),
{
    if equals_str(normalized, "lo") {
        return true;
    }
    if starts_with_str(normalized, "lo") && normalized.len() > 2 && all_ascii_digits_from(normalized, 2) {
        return true;
    }
    contains_str(normalized, "loopback")
}

/// The interface type that an interface's name suggests.
pub fn classify_interface(name: &str) -> (t: InterfaceType)
    ensures
        t == classify_spec(name@),
{
    let chars = chars_of(name);
    let n = to_ascii_lowercase(&chars);
    if is_loopback_name(&n) {
        InterfaceType::Loopback
    } else if contains_str(&n, "wi-fi") || contains_str(&n, "wifi") || contains_str(&n, "wlan")
        || contains_str(&n, "wireless") || contains_str(&n, "\u{65e0}\u{7ebf}") || equals_str(&n, "en0")
        || equals_str(&n, "en1") {
        InterfaceType::Wifi
    } else if starts_with_str(&n, "utun") || starts_with_str(&n, "tun") || starts_with_str(&n, "tap")
        || contains_str(&n, "vpn") || contains_str(&n, "tunnel") || contains_str(&n, "meta")
        || contains_str(&n, "tailscale") || contains_str(&n, "zerotier") || contains_str(&n, "clash")
        || contains_str(&n, "mihomo") {
        InterfaceType::Vpn
    } else if contains_str(&n, "ethernet") || contains_str(&n, "\u{4ee5}\u{592a}")
        || contains_str(&n, "local area connection") || contains_str(&n, "\u{672c}\u{5730}\u{8fde}\u{63a5}")
        || starts_with_str(&n, "eth") || starts_with_str(&n, "en") {
        InterfaceType::Ethernet
    } else {
        InterfaceType::Unknown
    }
}

/// An interface that is up, not loopback and has an address.
pub open spec fn available(i: NetworkInterface) -> bool {
    i.status == InterfaceStatus::Up && i.interface_type != InterfaceType::Loopback && (i.addresses.ipv4@.len() > 0
        || i.addresses.ipv6@.len() > 0)
}

/// Whether some interface of the snapshot is available.
pub fn has_available_interface(snapshot: &NetworkSnapshot) -> (b: bool)
    ensures
        b == exists|k: int| 0 <= k < snapshot.interfaces@.len() && available(#[trigger] snapshot.interfaces@[k]),
{
    let n = snapshot.interfaces.len();
    let mut k: usize = 0;
    while k < n
        invariant
            n == snapshot.interfaces@.len(),
            k <= n,
            forall|j: int| 0 <= j < k ==> !available(#[trigger] snapshot.interfaces@[j]),
        decreases n - k,
    {
        let i = &snapshot.interfaces[k];
        if i.status == InterfaceStatus::Up && i.interface_type != InterfaceType::Loopback
            && (i.addresses.ipv4.len() > 0 || i.addresses.ipv6.len() > 0) {
            assert(available(snapshot.interfaces@[k as int]));
            return true;
        }
        k = k + 1;
    }
    false
}

/// Interface types by the IANA `ifType` numbers that Windows reports.
pub fn interface_type_from_windows_iana_type(interface_type: u32) -> (t: InterfaceType)
    ensures
        t == (if interface_type == 6 || interface_type == 135 {
            InterfaceType::Ethernet
        } else if interface_type == 71 {
            InterfaceType::Wifi
        } else {
            InterfaceType::Unknown
        }),
{
    if interface_type == 6 || interface_type == 135 {
        InterfaceType::Ethernet
    } else if interface_type == 71 {
        InterfaceType::Wifi
    } else {
        InterfaceType::Unknown
    }
}

pub open spec fn is_ascii_alphanumeric(c: char) -> bool {
    ('0' <= c && c <= '9') || ('a' <= c && c <= 'z') || ('A' <= c && c <= 'Z')
}

/// The lowercase mapping of every character of `s`, in order.
pub open spec fn lower_all(s: Seq<char>) -> Seq<char>
    decreases s.len(),
{
    if s.len() == 0 {
        s
    } else {
        lower_all(s.drop_last()) + char_lowercase(s.last())
    }
}

/// Builds an id from `s`: `if_`, then the ASCII letters and digits of `s`, with one `_` for each
/// run of other characters that follows something already written. The flag says whether the
/// last character written was such a `_`.
pub open spec fn sanitize_fold(s: Seq<char>) -> (Seq<char>, bool)
    decreases s.len(),
{
    if s.len() == 0 {
        (seq!['i', 'f', '_'], false)
    } else {
        let (out, separated) = sanitize_fold(s.drop_last());
        let c = s.last();
        if is_ascii_alphanumeric(c) {
            (out.push(c), false)
        } else if !separated && out.len() > 3 {
            (out.push('_'), true)
        } else {
            (out, separated)
        }
    }
}

/// `s` without the underscores at its end.
pub open spec fn strip_trailing_underscores(s: Seq<char>) -> Seq<char>
    decreases s.len(),
{
    if s.len() > 0 && s.last() == '_' {
        strip_trailing_underscores(s.drop_last())
    } else {
        s
    }
}

/// The id that an interface name gives: the built id without trailing underscores, and
/// `if_unknown` where only the three-character prefix would remain.
pub open spec fn sanitize_spec(name: Seq<char>) -> Seq<char> {
    let t = strip_trailing_underscores(sanitize_fold(lower_all(name)).0);
    if t.len() == 3 {
        t + "unknown"@
    } else {
        t
    }
}

/// An interface id from its name.
pub fn sanitize_id(name: &str) -> (id: String)
    ensures
        id@ == sanitize_spec(name@),
{
    let chars = chars_of(name);
    let mut lowered: Vec<char> = Vec::new();
    let mut i: usize = 0;
    while i < chars.len()
        invariant
            i <= chars.len(),
            lowered@ == lower_all(chars@.take(i as int)),
        decreases chars.len() - i,
    {
        assert(chars@.take(i + 1).drop_last() =~= chars@.take(i as int));
        let mut low = lowercase_of(chars[i]);
        let ghost before = lowered@;
        lowered.append(&mut low);
        assert(lowered@ =~= before + char_lowercase(chars@[i as int]));
        i = i + 1;
    }
    assert(chars@.take(chars.len() as int) =~= chars@);
    let mut out: Vec<char> = Vec::new();
    out.push('i');
    out.push('f');
    out.push('_');
    let mut separated = false;
    let mut j: usize = 0;
    assert(out@ =~= seq!['i', 'f', '_']);
    while j < lowered.len()
        invariant
            j <= lowered.len(),
            (out@, separated) == sanitize_fold(lowered@.take(j as int)),
        decreases lowered.len() - j,
    {
        assert(lowered@.take(j + 1).drop_last() =~= lowered@.take(j as int));
        let c = lowered[j];
        if ('0' <= c && c <= '9') || ('a' <= c && c <= 'z') || ('A' <= c && c <= 'Z') {
            out.push(c);
            separated = false;
        } else if !separated && out.len() > 3 {
            out.push('_');
            separated = true;
        }
        j = j + 1;
    }
    assert(lowered@.take(lowered.len() as int) =~= lowered@);
    let ghost built = out@;
    while out.len() > 0 && out[out.len() - 1] == '_'
        invariant
            strip_trailing_underscores(out@) == strip_trailing_underscores(built),
        decreases out.len(),
    {
        let ghost before = out@;
        out.pop();
        assert(out@ =~= before.drop_last());
    }
    if out.len() == 3 {
        out.push('u');
        out.push('n');
        out.push('k');
        out.push('n');
        out.push('o');
        out.push('w');
        out.push('n');
        proof {
            reveal_strlit("unknown");
        }
        assert(out@ =~= strip_trailing_underscores(built) + "unknown"@);
    }
    string_of(&out)
}

proof fn lemma_fold_shape(s: Seq<char>)
    ensures
        ({
            let (out, separated) = sanitize_fold(s);
            &&& out.len() >= 3
            &&& out.take(3) == seq!['i', 'f', '_']
            &&& out.len() > 3 ==> out[3] != '_'
            &&& forall|i: int| 3 <= i < out.len() ==> is_ascii_alphanumeric(#[trigger] out[i]) || out[i] == '_'
            &&& forall|i: int| 3 <= i < out.len() - 1 ==> !(#[trigger] out[i] == '_' && out[i + 1] == '_')
            &&& separated == (out.len() > 3 && out.last() == '_')
        }),
    decreases s.len(),
{
    if s.len() > 0 {
        lemma_fold_shape(s.drop_last());
        let (out, separated) = sanitize_fold(s.drop_last());
        let c = s.last();
        if is_ascii_alphanumeric(c) {
            assert(out.push(c).take(3) =~= out.take(3));
        } else if !separated && out.len() > 3 {
            assert(out.push('_').take(3) =~= out.take(3));
        }
    }
}

/// Interface ids have one shape: `if`, when the name has no ASCII letter or digit, or else
/// `if_` followed by ASCII letters, digits and single underscores, ending in a letter or digit.
pub proof fn lemma_sanitized_id_shape(name: Seq<char>)
    ensures
        ({
            let id = sanitize_spec(name);
            ||| id == seq!['i', 'f']
            ||| {
                &&& id.len() > 3
                &&& id.take(3) == seq!['i', 'f', '_']
                &&& forall|i: int| 3 <= i < id.len() ==> is_ascii_alphanumeric(#[trigger] id[i]) || id[i] == '_'
                &&& forall|i: int| 3 <= i < id.len() - 1 ==> !(#[trigger] id[i] == '_' && id[i + 1] == '_')
                &&& is_ascii_alphanumeric(id.last())
            }
        }),
{
    let out = sanitize_fold(lower_all(name)).0;
    lemma_fold_shape(lower_all(name));
    if out.len() == 3 {
        assert(out.last() == '_');
        assert(out.drop_last() =~= seq!['i', 'f']);
        assert(strip_trailing_underscores(out.drop_last()) == seq!['i', 'f']);
    } else if out.last() == '_' {
        let d = out.drop_last();
        assert(d.last() == out[out.len() - 2]);
        assert(d.last() != '_');
        assert(strip_trailing_underscores(d) == d);
        assert(d.take(3) =~= out.take(3));
        assert(is_ascii_alphanumeric(d.last()));
    } else {
        assert(is_ascii_alphanumeric(out.last()));
    }
}

/// `base` with the suffix `_k`.
pub open spec fn suffixed(base: Seq<char>, k: nat) -> Seq<char> {
    base + seq!['_'] + decimal(k)
}

/// `id` is the id that the next interface with base id `base` gets, when the ids in `assigned`
/// are taken and the base ids of all interfaces are `reserved`: its base id if that is free, or
/// else the base id with the least suffix `_2`, `_3`, ... that is neither taken nor reserved.
pub open spec fn id_choice(base: Seq<char>, assigned: Set<Seq<char>>, reserved: Set<Seq<char>>, id: Seq<char>) -> bool {
    if !assigned.contains(base) {
        id == base
    } else {
        exists|k: nat|
            k >= 2 && id == suffixed(base, k) && !assigned.contains(id) && !reserved.contains(id) && forall|j: nat|
                2 <= j < k ==> #[trigger] assigned.contains(suffixed(base, j)) || reserved.contains(suffixed(base, j))
    }
}

pub open spec fn ids_of(s: Seq<NetworkInterface>) -> Seq<Seq<char>> {
    s.map_values(|x: NetworkInterface| x.id@)
}

pub open spec fn bases_of(s: Seq<NetworkInterface>) -> Seq<Seq<char>> {
    s.map_values(|x: NetworkInterface| sanitize_spec(x.name@))
}

pub open spec fn views(s: Seq<Vec<char>>) -> Seq<Seq<char>> {
    s.map_values(|v: Vec<char>| v@)
}

proof fn lemma_suffixed_injective(base: Seq<char>, j: nat, k: nat)
    requires
        suffixed(base, j) == suffixed(base, k),
    ensures
        j == k,
{
    let a = suffixed(base, j);
    let b = suffixed(base, k);
    assert(a.subrange(base.len() as int + 1, a.len() as int) =~= decimal(j));
    assert(b.subrange(base.len() as int + 1, b.len() as int) =~= decimal(k));
    lemma_decimal_injective(j, k);
}

fn chars_equal(a: &Vec<char>, b: &Vec<char>) -> (r: bool)
    ensures
        r == (a@ == b@),
{
    if a.len() != b.len() {
        return false;
    }
    let mut i: usize = 0;
    while i < a.len()
        invariant
            a.len() == b.len(),
            i <= a.len(),
            forall|j: int| 0 <= j < i ==> a@[j] == b@[j],
        decreases a.len() - i,
    {
        if a[i] != b[i] {
            return false;
        }
        i = i + 1;
    }
    assert(a@ =~= b@);
    true
}

fn seq_member(v: &Vec<Vec<char>>, x: &Vec<char>) -> (r: bool)
    ensures
        r == views(v@).contains(x@),
{
    let mut i: usize = 0;
    while i < v.len()
        invariant
            i <= v.len(),
            forall|j: int| 0 <= j < i ==> v@[j]@ != x@,
        decreases v.len() - i,
    {
        if chars_equal(&v[i], x) {
            assert(views(v@)[i as int] == x@);
            return true;
        }
        i = i + 1;
    }
    assert forall|j: int| 0 <= j < views(v@).len() implies views(v@)[j] != x@ by {
        assert(views(v@)[j] == v@[j]@);
    }
    false
}

fn suffixed_id(base: &Vec<char>, k: u64) -> (r: Vec<char>)
    ensures
        r@ == suffixed(base@, k as nat),
{
    let mut underscore: Vec<char> = Vec::new();
    underscore.push('_');
    let with_separator = concat_chars(base, &underscore);
    let digits = decimal_chars(k);
    let r = concat_chars(&with_separator, &digits);
    assert(underscore@ =~= seq!['_']);
    r
}

/// Gives every interface a distinct id: its base id, made from its name, or that id with the
/// least free numeric suffix (see `id_choice`). Only the ids change.
///
/// More interfaces than a quarter of the address space cannot exist; the bound keeps the
/// suffix counter in range.
pub fn assign_unique_ids(interfaces: &mut Vec<NetworkInterface>)
    requires
        old(interfaces)@.len() <= usize::MAX / 4,
    ensures
        final(interfaces)@.len() == old(interfaces)@.len(),
        forall|i: int|
            0 <= i < final(interfaces)@.len() ==> #[trigger] final(interfaces)@[i] == (NetworkInterface {
                id: final(interfaces)@[i].id,
                ..old(interfaces)@[i]
            }),
        forall|i: int|
            0 <= i < final(interfaces)@.len() ==> id_choice(
                #[trigger] bases_of(old(interfaces)@)[i],
                ids_of(final(interfaces)@).take(i).to_set(),
                bases_of(old(interfaces)@).to_set(),
                ids_of(final(interfaces)@)[i],
            ),
{
    let n = interfaces.len();
    let ghost initial = interfaces@;
    let mut bases: Vec<Vec<char>> = Vec::new();
    let mut b: usize = 0;
    while b < n
        invariant
            n == interfaces@.len(),
            interfaces@ == initial,
            b <= n,
            bases@.len() == b,
            forall|j: int| 0 <= j < b ==> #[trigger] bases@[j]@ == sanitize_spec(initial[j].name@),
        decreases n - b,
    {
        let id = sanitize_id(interfaces[b].name.as_str());
        bases.push(chars_of(id.as_str()));
        b = b + 1;
    }
    let ghost reserved = views(bases@).to_set();
    assert(views(bases@) =~= bases_of(initial));
    let mut assigned: Vec<Vec<char>> = Vec::new();
    let mut i: usize = 0;
    while i < n
        invariant
            n == interfaces@.len(),
            n == initial.len(),
            n <= usize::MAX / 4,
            bases@.len() == n,
            views(bases@) == bases_of(initial),
            reserved == bases_of(initial).to_set(),
            i <= n,
            views(assigned@) == ids_of(interfaces@).take(i as int),
            forall|j: int|
                0 <= j < n ==> #[trigger] interfaces@[j] == (NetworkInterface { id: interfaces@[j].id, ..initial[j] }),
            forall|j: int|
                0 <= j < i ==> id_choice(
                    #[trigger] bases_of(initial)[j],
                    ids_of(interfaces@).take(j).to_set(),
                    reserved,
                    ids_of(interfaces@)[j],
                ),
        decreases n - i,
    {
        let ghost taken = views(assigned@).to_set();
        let ghost base_view = bases@[i as int]@;
        assert(base_view == bases_of(initial)[i as int]);
        let candidate: Vec<char>;
        if !seq_member(&assigned, &bases[i]) {
            candidate = bases[i].clone();
            assert(!taken.contains(base_view));
        } else {
            assert(taken.contains(base_view));
            let ghost universe = taken.union(reserved);
            proof {
                views(assigned@).lemma_cardinality_of_set();
                views(bases@).lemma_cardinality_of_set();
                vstd::set_lib::lemma_len_union(taken, reserved);
            }
            assert(universe.finite());
            assert(universe.len() <= 2 * n);
            let mut k: u64 = 2;
            let ghost mut tried: Set<Seq<char>> = Set::empty();
            let mut found: Vec<char> = Vec::new();
            loop
                invariant
                    2 <= k,
                    i < n,
                    bases@.len() == n,
                    taken.contains(base_view),
                    universe == taken.union(reserved),
                    universe.finite(),
                    universe.len() <= 2 * n,
                    n <= usize::MAX / 4,
                    base_view == bases@[i as int]@,
                    taken == views(assigned@).to_set(),
                    reserved == views(bases@).to_set(),
                    tried.finite(),
                    tried.len() == k - 2,
                    tried.subset_of(universe),
                    k <= universe.len() + 2,
                    forall|y: Seq<char>| tried.contains(y) ==> exists|j: nat| 2 <= j < k && y == suffixed(base_view, j),
                    forall|j: nat| 2 <= j < k ==> #[trigger] taken.contains(suffixed(base_view, j)) || reserved.contains(suffixed(base_view, j)),
                ensures
                    id_choice(base_view, taken, reserved, found@),
                decreases universe.len() + 2 - k,
            {
                let c = suffixed_id(&bases[i], k);
                if !seq_member(&assigned, &c) && !seq_member(&bases, &c) {
                    assert(!taken.contains(c@));
                    assert(!reserved.contains(c@));
                    assert(id_choice(base_view, taken, reserved, c@)) by {
                        let kk = k as nat;
                        assert(kk >= 2 && c@ == suffixed(base_view, kk) && !taken.contains(c@) && !reserved.contains(c@)
                            && forall|j: nat| 2 <= j < kk ==> #[trigger] taken.contains(suffixed(base_view, j))
                                || reserved.contains(suffixed(base_view, j)));
                    }
                    found = c;
                    break;
                }
                proof {
                    assert(universe.contains(c@));
                    if tried.contains(c@) {
                        let j = choose|j: nat| 2 <= j < k && c@ == suffixed(base_view, j);
                        lemma_suffixed_injective(base_view, j, k as nat);
                    }
                    let next = tried.insert(c@);
                    assert(next.len() == tried.len() + 1);
                    vstd::set_lib::lemma_len_subset(next, universe);
                    tried = next;
                }
                k = k + 1;
            }
            candidate = found;
        }
        assert(id_choice(base_view, taken, reserved, candidate@));
        let ghost before = interfaces@;
        let ghost assigned_before = assigned@;
        assigned.push(candidate.clone());
        interfaces[i].id = string_of(&candidate);
        proof {
            assert(interfaces@[i as int].id@ == candidate@);
            assert(views(assigned@) =~= views(assigned_before).push(candidate@));
            assert(ids_of(interfaces@).take(i + 1) =~= ids_of(before).take(i as int).push(candidate@));
            assert(views(assigned@) =~= ids_of(interfaces@).take(i + 1));
            assert(ids_of(interfaces@).take(i as int) =~= ids_of(before).take(i as int));
            assert forall|j: int| 0 <= j <= i implies ids_of(interfaces@).take(j) =~= ids_of(before).take(j) by {}
            assert(taken == ids_of(interfaces@).take(i as int).to_set());
        }
        i = i + 1;
    }
}

/// No two interfaces end with the same id.
pub proof fn lemma_assigned_ids_are_distinct(bases: Seq<Seq<char>>, ids: Seq<Seq<char>>, reserved: Set<Seq<char>>)
    requires
        bases.len() == ids.len(),
        forall|i: int| 0 <= i < ids.len() ==> id_choice(#[trigger] bases[i], ids.take(i).to_set(), reserved, ids[i]),
    ensures
        forall|i: int, j: int| 0 <= i < j < ids.len() ==> ids[i] != ids[j],
{
    assert forall|i: int, j: int| 0 <= i < j < ids.len() implies ids[i] != ids[j] by {
        assert(id_choice(bases[j], ids.take(j).to_set(), reserved, ids[j]));
        assert(ids.take(j)[i] == ids[i]);
        assert(ids.take(j).to_set().contains(ids[i]));
        if !ids.take(j).to_set().contains(bases[j]) {
        } else {
            let k = choose|k: nat|
                k >= 2 && ids[j] == suffixed(bases[j], k) && !ids.take(j).to_set().contains(ids[j]) && !reserved.contains(ids[j]) && forall|m: nat|
                    2 <= m < k ==> #[trigger] ids.take(j).to_set().contains(suffixed(bases[j], m)) || reserved.contains(suffixed(bases[j], m));
        }
    }
}

/// `s` cut at every `.`: the pieces between the dots, in order.
pub open spec fn split_dots(s: Seq<char>) -> Seq<Seq<char>>
    decreases s.len(),
{
    if s.len() == 0 {
        seq![Seq::<char>::empty()]
    } else if s.last() == '.' {
        split_dots(s.drop_last()).push(Seq::<char>::empty())
    } else {
        let parts = split_dots(s.drop_last());
        parts.update(parts.len() - 1, parts.last().push(s.last()))
    }
}

proof fn lemma_split_dots_nonempty(s: Seq<char>)
    ensures
        split_dots(s).len() >= 1,
    decreases s.len(),
{
    if s.len() > 0 {
        lemma_split_dots_nonempty(s.drop_last());
    }
}

/// A decimal octet as an IPv4 address writes it: one to three digits, no leading zero, at most
/// 255.
pub open spec fn octet_spec(s: Seq<char>) -> Option<u8> {
    if 1 <= s.len() <= 3 && all_digits(s, 10) && (s.len() == 1 || s[0] != '0') && digits_value(s, 10) <= 255 {
        Some(digits_value(s, 10) as u8)
    } else {
        None
    }
}

/// The octets of a dotted-quad IPv4 address.
pub open spec fn ipv4_spec(s: Seq<char>) -> Option<(u8, u8, u8, u8)> {
    let parts = split_dots(s);
    if parts.len() == 4 && octet_spec(parts[0]) is Some && octet_spec(parts[1]) is Some && octet_spec(parts[2]) is Some
        && octet_spec(parts[3]) is Some {
        Some((octet_spec(parts[0])->0, octet_spec(parts[1])->0, octet_spec(parts[2])->0, octet_spec(parts[3])->0))
    } else {
        None
    }
}

fn parse_octet(s: &Vec<char>) -> (r: Option<u8>)
    ensures
        r == octet_spec(s@),
{
    if s.len() < 1 || s.len() > 3 || (s.len() > 1 && s[0] == '0') {
        return None;
    }
    if s[0] == '+' {
        assert(!all_digits(s@, 10)) by {
            assert(crate::text::digit_value(s@[0], 10) is None);
        }
        return None;
    }
    match parse_unsigned(s, 10, 255) {
        Some(v) => {
            assert(s@.len() >= 1 && s@[0] != '+');
            Some(v as u8)
        },
        None => None,
    }
}

fn split_on_dots(s: &Vec<char>) -> (parts: Vec<Vec<char>>)
    ensures
        views(parts@) == split_dots(s@),
{
    let mut parts: Vec<Vec<char>> = Vec::new();
    let mut current: Vec<char> = Vec::new();
    let mut i: usize = 0;
    assert(s@.take(0) =~= Seq::<char>::empty());
    assert(views(parts@).push(current@) =~= split_dots(s@.take(0)));
    while i < s.len()
        invariant
            i <= s.len(),
            views(parts@).push(current@) == split_dots(s@.take(i as int)),
        decreases s.len() - i,
    {
        assert(s@.take(i + 1).drop_last() =~= s@.take(i as int));
        let ghost before = views(parts@).push(current@);
        proof {
            lemma_split_dots_nonempty(s@.take(i as int));
        }
        if s[i] == '.' {
            let done = current;
            parts.push(done);
            current = Vec::new();
            assert(views(parts@).push(current@) =~= before.push(Seq::<char>::empty()));
        } else {
            current.push(s[i]);
            assert(views(parts@).push(current@) =~= before.update(before.len() - 1, before.last().push(s@[i as int])));
        }
        i = i + 1;
    }
    assert(s@.take(s.len() as int) =~= s@);
    let ghost before = views(parts@);
    parts.push(current);
    assert(views(parts@) =~= before.push(current@));
    parts
}

/// The octets of `s` read as a dotted-quad IPv4 address.
pub fn parse_ipv4(s: &str) -> (r: Option<(u8, u8, u8, u8)>)
    ensures
        r == ipv4_spec(s@),
{
    let chars = chars_of(s);
    let parts = split_on_dots(&chars);
    if parts.len() != 4 {
        return None;
    }
    assert(views(parts@)[0] == parts@[0]@);
    assert(views(parts@)[1] == parts@[1]@);
    assert(views(parts@)[2] == parts@[2]@);
    assert(views(parts@)[3] == parts@[3]@);
    let a = parse_octet(&parts[0]);
    let b = parse_octet(&parts[1]);
    let c = parse_octet(&parts[2]);
    let d = parse_octet(&parts[3]);
    match (a, b, c, d) {
        (Some(a), Some(b), Some(c), Some(d)) => Some((a, b, c, d)),
        _ => None,
    }
}

/// `169.254.0.0/16`, the link-local block.
pub open spec fn is_link_local(o: (u8, u8, u8, u8)) -> bool {
    o.0 == 169 && o.1 == 254
}

/// `a` is an IPv4 address outside the link-local block.
pub open spec fn routable_address(a: Seq<char>) -> bool {
    match ipv4_spec(a) {
        Some(o) => !is_link_local(o),
        None => false,
    }
}

/// Some IPv4 address of the interface parses and is not link-local.
pub open spec fn has_routable_ipv4(i: NetworkInterface) -> bool {
    exists|k: int| 0 <= k < i.addresses.ipv4@.len() && #[trigger] routable_address(i.addresses.ipv4@[k]@)
}

pub open spec fn can_be_primary_spec(i: NetworkInterface) -> bool {
    i.status == InterfaceStatus::Up && i.interface_type != InterfaceType::Loopback && i.addresses.ipv4@.len() > 0
}

/// An interface's rank as the primary one, lower first: one with a routable IPv4 address
/// before one without, then Wi-Fi and Ethernet, VPN, unknown, loopback.
pub open spec fn priority_spec(i: NetworkInterface) -> (u8, u8) {
    (
        if has_routable_ipv4(i) {
            0
        } else {
            1
        },
        match i.interface_type {
            InterfaceType::Wifi | InterfaceType::Ethernet => 0,
            InterfaceType::Vpn => 1,
            InterfaceType::Unknown => 2,
            InterfaceType::Loopback => 3,
        },
    )
}

pub open spec fn priority_lt(a: (u8, u8), b: (u8, u8)) -> bool {
    a.0 < b.0 || (a.0 == b.0 && a.1 < b.1)
}

pub fn has_non_link_local_ipv4(interface: &NetworkInterface) -> (b: bool)
    ensures
        b == has_routable_ipv4(*interface),
{
    let v = &interface.addresses.ipv4;
    let mut k: usize = 0;
    while k < v.len()
        invariant
            k <= v.len(),
            v@ == interface.addresses.ipv4@,
            forall|j: int| 0 <= j < k ==> !(#[trigger] routable_address(v@[j]@)),
        decreases v.len() - k,
    {
        match parse_ipv4(v[k].as_str()) {
            Some(o) => {
                if !(o.0 == 169 && o.1 == 254) {
                    assert(routable_address(v@[k as int]@));
                    return true;
                }
            },
            None => {},
        }
        k = k + 1;
    }
    false
}

pub fn can_be_primary(interface: &NetworkInterface) -> (b: bool)
    ensures
        b == can_be_primary_spec(*interface),
{
    interface.status == InterfaceStatus::Up && interface.interface_type != InterfaceType::Loopback
        && interface.addresses.ipv4.len() > 0
}

pub fn primary_priority(interface: &NetworkInterface) -> (p: (u8, u8))
    ensures
        p == priority_spec(*interface),
{
    let routable: u8 = if has_non_link_local_ipv4(interface) {
        0
    } else {
        1
    };
    let kind: u8 = match interface.interface_type {
        InterfaceType::Wifi | InterfaceType::Ethernet => 0,
        InterfaceType::Vpn => 1,
        InterfaceType::Unknown => 2,
        InterfaceType::Loopback => 3,
    };
    (routable, kind)
}

/// `i` is the interface that becomes primary: the first of those that can be primary whose
/// rank is least.
pub open spec fn is_primary_choice(s: Seq<NetworkInterface>, i: int) -> bool {
    &&& 0 <= i < s.len()
    &&& can_be_primary_spec(s[i])
    &&& forall|j: int| 0 <= j < s.len() && can_be_primary_spec(#[trigger] s[j]) ==> !priority_lt(priority_spec(s[j]), priority_spec(s[i]))
    &&& forall|j: int| 0 <= j < i && can_be_primary_spec(#[trigger] s[j]) ==> priority_lt(priority_spec(s[i]), priority_spec(s[j]))
}

/// Marks the primary interface; nothing changes when no interface can be primary.
pub fn mark_primary(interfaces: &mut Vec<NetworkInterface>) -> (chosen: Option<usize>)
    ensures
        match chosen {
            Some(i) => is_primary_choice(old(interfaces)@, i as int) && final(interfaces)@ == old(interfaces)@.update(
                i as int,
                NetworkInterface { is_primary: true, ..old(interfaces)@[i as int] },
            ),
            None => final(interfaces)@ == old(interfaces)@ && forall|j: int|
                0 <= j < old(interfaces)@.len() ==> !can_be_primary_spec(#[trigger] old(interfaces)@[j]),
        },
{
    let mut best: Option<usize> = None;
    let mut best_priority: (u8, u8) = (0, 0);
    let mut k: usize = 0;
    while k < interfaces.len()
        invariant
            k <= interfaces.len(),
            interfaces@ == old(interfaces)@,
            match best {
                Some(b) => b < k && can_be_primary_spec(interfaces@[b as int]) && best_priority == priority_spec(interfaces@[b as int])
                    && (forall|j: int| 0 <= j < k && can_be_primary_spec(#[trigger] interfaces@[j]) ==> !priority_lt(priority_spec(interfaces@[j]), best_priority))
                    && (forall|j: int| 0 <= j < b && can_be_primary_spec(#[trigger] interfaces@[j]) ==> priority_lt(best_priority, priority_spec(interfaces@[j]))),
                None => forall|j: int| 0 <= j < k ==> !can_be_primary_spec(#[trigger] interfaces@[j]),
            },
        decreases interfaces.len() - k,
    {
        if can_be_primary(&interfaces[k]) {
            let p = primary_priority(&interfaces[k]);
            match best {
                None => {
                    best = Some(k);
                    best_priority = p;
                },
                Some(_) => {
                    if p.0 < best_priority.0 || (p.0 == best_priority.0 && p.1 < best_priority.1) {
                        best = Some(k);
                        best_priority = p;
                    }
                },
            }
        }
        k = k + 1;
    }
    match best {
        Some(b) => {
            interfaces[b].is_primary = true;
            Some(b)
        },
        None => None,
    }
}

pub open spec fn is_brace(c: char) -> bool {
    c == '{' || c == '}'
}

pub open spec fn drop_leading_braces(s: Seq<char>) -> Seq<char>
    decreases s.len(),
{
    if s.len() > 0 && is_brace(s[0]) {
        drop_leading_braces(s.drop_first())
    } else {
        s
    }
}

pub open spec fn drop_trailing_braces(s: Seq<char>) -> Seq<char>
    decreases s.len(),
{
    if s.len() > 0 && is_brace(s.last()) {
        drop_trailing_braces(s.drop_last())
    } else {
        s
    }
}

/// The key under which platform details of an interface are kept: its name without the braces
/// around it, in ASCII lower case, so that adapter GUIDs match whatever their case.
pub open spec fn interface_key_spec(name: Seq<char>) -> Seq<char> {
    ascii_lower_seq(drop_trailing_braces(drop_leading_braces(name)))
}

pub fn normalize_interface_key(name: &str) -> (key: Vec<char>)
    ensures
        key@ == interface_key_spec(name@),
{
    let s = chars_of(name);
    let mut start: usize = 0;
    assert(s@.skip(0) =~= s@);
    while start < s.len() && (s[start] == '{' || s[start] == '}')
        invariant
            start <= s.len(),
            drop_leading_braces(s@) == drop_leading_braces(s@.skip(start as int)),
        decreases s.len() - start,
    {
        assert(s@.skip(start as int).drop_first() =~= s@.skip(start + 1));
        start = start + 1;
    }
    let ghost lead = s@.skip(start as int);
    assert(drop_leading_braces(lead) == lead);
    let mut end = s.len();
    assert(lead =~= s@.subrange(start as int, end as int));
    while end > start && (s[end - 1] == '{' || s[end - 1] == '}')
        invariant
            start <= end <= s.len(),
            drop_trailing_braces(lead) == drop_trailing_braces(s@.subrange(start as int, end as int)),
        decreases end,
    {
        assert(s@.subrange(start as int, end as int).drop_last() =~= s@.subrange(start as int, end - 1));
        end = end - 1;
    }
    let trimmed = slice_chars(&s, start, end);
    to_ascii_lowercase(&trimmed)
}

/// What a platform reports of an interface.
#[derive(Debug)]
pub struct PlatformInterfaceDetails {
    pub interface_type: Option<InterfaceType>,
    pub gateway: Option<String>,
    pub dns_servers: Vec<String>,
    pub mac: Option<String>,
}

impl Default for PlatformInterfaceDetails {
    fn default() -> (d: Self)
        ensures
            d.interface_type is None,
            d.gateway is None,
            d.dns_servers@.len() == 0,
            d.mac is None,
    {
        PlatformInterfaceDetails { interface_type: None, gateway: None, dns_servers: Vec::new(), mac: None }
    }
}

/// The values of platform details.
pub open spec fn dview(d: PlatformInterfaceDetails) -> (Option<InterfaceType>, Option<String>, Seq<String>, Option<String>) {
    (d.interface_type, d.gateway, d.dns_servers@, d.mac)
}

impl Clone for PlatformInterfaceDetails {
    fn clone(&self) -> (d: Self)
        ensures
            dview(d) == dview(*self),
    {
        PlatformInterfaceDetails {
            interface_type: self.interface_type,
            gateway: self.gateway.clone(),
            dns_servers: clone_strings(&self.dns_servers),
            mac: self.mac.clone(),
        }
    }
}

fn clone_strings(v: &Vec<String>) -> (r: Vec<String>)
    ensures
        r@ == v@,
{
    let mut r: Vec<String> = Vec::new();
    let mut i: usize = 0;
    while i < v.len()
        invariant
            i <= v.len(),
            r@ == v@.take(i as int),
        decreases v.len() - i,
    {
        r.push(v[i].clone());
        i = i + 1;
        assert(r@ =~= v@.take(i as int));
    }
    assert(v@.take(v.len() as int) =~= v@);
    r
}

/// What merging `other` into `base` gives: every value that `other` has replaces `base`'s.
pub open spec fn merged_view(
    base: (Option<InterfaceType>, Option<String>, Seq<String>, Option<String>),
    other: (Option<InterfaceType>, Option<String>, Seq<String>, Option<String>),
) -> (Option<InterfaceType>, Option<String>, Seq<String>, Option<String>) {
    (
        if other.0 is Some {
            other.0
        } else {
            base.0
        },
        if other.1 is Some {
            other.1
        } else {
            base.1
        },
        if other.2.len() > 0 {
            other.2
        } else {
            base.2
        },
        if other.3 is Some {
            other.3
        } else {
            base.3
        },
    )
}

impl PlatformInterfaceDetails {
    pub fn merge(&mut self, other: Self)
        ensures
            dview(*final(self)) == merged_view(dview(*old(self)), dview(other)),
    {
        let PlatformInterfaceDetails { interface_type, gateway, dns_servers, mac } = other;
        if interface_type.is_some() {
            self.interface_type = interface_type;
        }
        if gateway.is_some() {
            self.gateway = gateway;
        }
        if dns_servers.len() > 0 {
            self.dns_servers = dns_servers;
        }
        if mac.is_some() {
            self.mac = mac;
        }
    }
}

/// Platform details by interface key.
#[derive(Debug)]
pub struct PlatformDetailsEntry {
    pub key: String,
    pub details: PlatformInterfaceDetails,
}

/// Platform details of interfaces, by key; a later entry for a key replaces an earlier one.
#[derive(Debug)]
pub struct PlatformDetailsMap {
    pub entries: Vec<PlatformDetailsEntry>,
}

/// The details kept under `key`.
pub open spec fn details_lookup(s: Seq<PlatformDetailsEntry>, key: Seq<char>) -> Option<PlatformInterfaceDetails>
    decreases s.len(),
{
    if s.len() == 0 {
        None
    } else if s.last().key@ == key {
        Some(s.last().details)
    } else {
        details_lookup(s.drop_last(), key)
    }
}

pub open spec fn key_is_not(key: Seq<char>) -> spec_fn(PlatformDetailsEntry) -> bool {
    |e: PlatformDetailsEntry| e.key@ != key
}

impl PlatformDetailsMap {
    pub fn new() -> (m: Self)
        ensures
            m.entries@.len() == 0,
    {
        PlatformDetailsMap { entries: Vec::new() }
    }

    pub fn get(&self, key: &Vec<char>) -> (r: Option<&PlatformInterfaceDetails>)
        ensures
            match r {
                Some(d) => details_lookup(self.entries@, key@) == Some(*d),
                None => details_lookup(self.entries@, key@) is None,
            },
    {
        let mut i = self.entries.len();
        assert(self.entries@.take(i as int) =~= self.entries@);
        while i > 0
            invariant
                i <= self.entries.len(),
                details_lookup(self.entries@, key@) == details_lookup(self.entries@.take(i as int), key@),
            decreases i,
        {
            assert(self.entries@.take(i as int).drop_last() =~= self.entries@.take(i - 1));
            if same_chars(&chars_of(self.entries[i - 1].key.as_str()), key) {
                return Some(&self.entries[i - 1].details);
            }
            i = i - 1;
        }
        None
    }

    /// Keeps `details` under `key`, in place of what was there.
    pub fn insert(&mut self, key: String, details: PlatformInterfaceDetails)
        ensures
            final(self).entries@ == old(self).entries@.filter(key_is_not(key@)).push(PlatformDetailsEntry { key, details }),
    {
        let ghost pred = key_is_not(key@);
        let ghost all = self.entries@;
        let kc = chars_of(key.as_str());
        let mut rest: Vec<PlatformDetailsEntry> = Vec::new();
        std::mem::swap(&mut rest, &mut self.entries);
        let mut kept: Vec<PlatformDetailsEntry> = Vec::new();
        let ghost mut i: int = 0;
        assert(all.skip(0) =~= all);
        while rest.len() > 0
            invariant
                pred == key_is_not(key@),
                kc@ == key@,
                0 <= i <= all.len(),
                rest@ == all.skip(i),
                kept@ == all.take(i).filter(pred),
            decreases rest.len(),
        {
            let e = rest.remove(0);
            assert(e == all[i]);
            assert(all.take(i + 1) =~= all.take(i).push(all[i]));
            proof {
                all.take(i).lemma_filter_push(all[i], pred);
            }
            if !same_chars(&chars_of(e.key.as_str()), &kc) {
                kept.push(e);
            }
            proof {
                i = i + 1;
            }
            assert(rest@ =~= all.skip(i));
        }
        assert(all.take(all.len() as int) =~= all);
        kept.push(PlatformDetailsEntry { key, details });
        self.entries = kept;
    }

    /// Merges `other` into the details under `key`, starting from empty details.
    pub fn merge_into(&mut self, key: String, other: PlatformInterfaceDetails)
        ensures
            final(self).entries@.len() >= 1,
            final(self).entries@.drop_last() == old(self).entries@.filter(key_is_not(key@)),
            final(self).entries@.last().key == key,
            dview(final(self).entries@.last().details) == merged_view(
                match details_lookup(old(self).entries@, key@) {
                    Some(d) => dview(d),
                    None => (None, None, Seq::<String>::empty(), None),
                },
                dview(other),
            ),
    {
        let kc = chars_of(key.as_str());
        let mut base = match self.get(&kc) {
            Some(d) => d.clone(),
            None => PlatformInterfaceDetails::default(),
        };
        base.merge(other);
        let ghost before = self.entries@;
        self.insert(key, base);
        assert(self.entries@.drop_last() =~= before.filter(key_is_not(key@)));
    }
}

proof fn lemma_lookup_skips_other_keys(s: Seq<PlatformDetailsEntry>, key: Seq<char>, k: Seq<char>)
    requires
        k != key,
    ensures
        details_lookup(s.filter(key_is_not(key)), k) == details_lookup(s, k),
    decreases s.len(),
{
    if s.len() > 0 {
        let rest = s.drop_last();
        assert(rest.push(s.last()) =~= s);
        rest.lemma_filter_push(s.last(), key_is_not(key));
        lemma_lookup_skips_other_keys(rest, key, k);
        if key_is_not(key)(s.last()) {
            assert(rest.filter(key_is_not(key)).push(s.last()).drop_last() =~= rest.filter(key_is_not(key)));
        }
    }
}

/// What the details map answers after a write: the details just written under their key, and
/// what it answered before under every other key.
pub proof fn lemma_details_read_after_write(
    entries: Seq<PlatformDetailsEntry>,
    key: String,
    details: PlatformInterfaceDetails,
    k: Seq<char>,
)
    ensures
        details_lookup(entries.filter(key_is_not(key@)).push(PlatformDetailsEntry { key, details }), k) == (if k
            == key@ {
            Some(details)
        } else {
            details_lookup(entries, k)
        }),
{
    let next = entries.filter(key_is_not(key@)).push(PlatformDetailsEntry { key, details });
    assert(next.drop_last() =~= entries.filter(key_is_not(key@)));
    if k != key@ {
        lemma_lookup_skips_other_keys(entries, key@, k);
    }
}

/// The interface type that an IANA interface type number names on Windows.
pub open spec fn iana_interface_type(interface_type: u32) -> InterfaceType {
    if interface_type == 6 || interface_type == 135 {
        InterfaceType::Ethernet
    } else if interface_type == 71 {
        InterfaceType::Wifi
    } else {
        InterfaceType::Unknown
    }
}

/// What one Windows adapter reports: its type, its gateway while it is up, its DNS servers.
pub open spec fn adapter_details_view(
    interface_type: u32,
    gateway: Option<String>,
    dns_servers: Seq<String>,
    up: bool,
) -> (Option<InterfaceType>, Option<String>, Seq<String>, Option<String>) {
    (Some(iana_interface_type(interface_type)), if up { gateway } else { None }, dns_servers, None)
}

pub open spec fn opt_key(name: Option<String>) -> Option<Seq<char>> {
    match name {
        Some(n) => Some(interface_key_spec(n@)),
        None => None,
    }
}

/// Records what one Windows adapter reports under the keys of its adapter name and its
/// friendly name, where it has them.
pub fn record_windows_adapter(
    details: &mut PlatformDetailsMap,
    adapter_name: Option<String>,
    friendly_name: Option<String>,
    interface_type: u32,
    gateway: Option<String>,
    dns_servers: Vec<String>,
    up: bool,
)
    ensures
        forall|k: Seq<char>|
            #![trigger details_lookup(final(details).entries@, k)]
            (opt_key(adapter_name) == Some(k) || opt_key(friendly_name) == Some(k)) ==> (details_lookup(
                final(details).entries@,
                k,
            ) matches Some(d) && dview(d) == adapter_details_view(interface_type, gateway, dns_servers@, up)),
        forall|k: Seq<char>|
            #![trigger details_lookup(final(details).entries@, k)]
            (opt_key(adapter_name) != Some(k) && opt_key(friendly_name) != Some(k)) ==> details_lookup(
                final(details).entries@,
                k,
            ) == details_lookup(old(details).entries@, k),
{
    let entry = PlatformInterfaceDetails {
        interface_type: Some(interface_type_from_windows_iana_type(interface_type)),
        gateway: if up {
            gateway
        } else {
            None
        },
        dns_servers,
        mac: None,
    };
    let ghost view = dview(entry);
    let ghost before = details.entries@;
    match &adapter_name {
        Some(name) => {
            let key = string_of(&normalize_interface_key(name.as_str()));
            let ghost k1 = key@;
            let copy = entry.clone();
            details.insert(key, copy);
            proof {
                assert forall|k: Seq<char>| #![trigger details_lookup(details.entries@, k)]
                    true implies details_lookup(details.entries@, k) == (if k == k1 {
                        Some(details.entries@.last().details)
                    } else {
                        details_lookup(before, k)
                    }) by {
                    lemma_details_read_after_write(before, details.entries@.last().key, details.entries@.last().details, k);
                }
                assert(dview(details.entries@.last().details) == view);
            }
        },
        None => {},
    }
    let ghost middle = details.entries@;
    assert(forall|k: Seq<char>|
        #![trigger details_lookup(middle, k)]
        opt_key(adapter_name) == Some(k) ==> (details_lookup(middle, k) matches Some(d) && dview(d) == view));
    assert(forall|k: Seq<char>|
        #![trigger details_lookup(middle, k)]
        opt_key(adapter_name) != Some(k) ==> details_lookup(middle, k) == details_lookup(before, k));
    match &friendly_name {
        Some(name) => {
            let key = string_of(&normalize_interface_key(name.as_str()));
            let ghost k2 = key@;
            details.insert(key, entry);
            proof {
                assert forall|k: Seq<char>| #![trigger details_lookup(details.entries@, k)]
                    true implies details_lookup(details.entries@, k) == (if k == k2 {
                        Some(details.entries@.last().details)
                    } else {
                        details_lookup(middle, k)
                    }) by {
                    lemma_details_read_after_write(middle, details.entries@.last().key, details.entries@.last().details, k);
                }
                assert(dview(details.entries@.last().details) == view);
            }
        },
        None => {},
    }
}

/// The interface type that a macOS service value names, in any case.
pub open spec fn service_value_type(value: Seq<char>) -> Option<InterfaceType> {
    let v = ascii_lower_seq(value);
    if v == "airport"@ || v == "ieee80211"@ {
        Some(InterfaceType::Wifi)
    } else if v == "ethernet"@ || v == "bond"@ || v == "vlan"@ {
        Some(InterfaceType::Ethernet)
    } else if v == "ipsec"@ || v == "l2tp"@ || v == "ppp"@ || v == "pptp"@ {
        Some(InterfaceType::Vpn)
    } else {
        None
    }
}

fn service_value_type_of(value: &str) -> (t: Option<InterfaceType>)
    ensures
        t == service_value_type(value@),
{
    let v = to_ascii_lowercase(&chars_of(value));
    if equals_str(&v, "airport") || equals_str(&v, "ieee80211") {
        Some(InterfaceType::Wifi)
    } else if equals_str(&v, "ethernet") || equals_str(&v, "bond") || equals_str(&v, "vlan") {
        Some(InterfaceType::Ethernet)
    } else if equals_str(&v, "ipsec") || equals_str(&v, "l2tp") || equals_str(&v, "ppp") || equals_str(&v, "pptp") {
        Some(InterfaceType::Vpn)
    } else {
        None
    }
}

/// The type of the primary service's interface: from its hardware value if that names one,
/// else from its interface type value.
pub fn macos_service_interface_type(hardware: Option<&str>, interface_type: Option<&str>) -> (t: Option<InterfaceType>)
    ensures
        t == match (match hardware {
            Some(h) => service_value_type(h@),
            None => None,
        }) {
            Some(found) => Some(found),
            None => match interface_type {
                Some(i) => service_value_type(i@),
                None => None,
            },
        },
{
    let from_hardware = match hardware {
        Some(h) => service_value_type_of(h),
        None => None,
    };
    match from_hardware {
        Some(found) => Some(found),
        None => match interface_type {
            Some(i) => service_value_type_of(i),
            None => None,
        },
    }
}

/// What macOS reports of the primary network service's interface.
#[derive(Debug)]
pub struct MacosPrimaryServiceInterface {
    pub bsd_name: String,
    pub hardware: Option<String>,
    pub interface_type: Option<String>,
}

/// Records the primary service's interface type under its interface's key, where the service
/// names one; other details stay.
pub fn apply_macos_primary_service_interface_type(
    interface_details: &mut PlatformDetailsMap,
    interface: MacosPrimaryServiceInterface,
)
    ensures
        match macos_service_interface_type_spec(interface) {
            None => final(interface_details).entries@ == old(interface_details).entries@,
            Some(t) => {
                let key = interface_key_spec(interface.bsd_name@);
                &&& final(interface_details).entries@.len() >= 1
                &&& final(interface_details).entries@.last().key@ == key
                &&& final(interface_details).entries@.drop_last() == old(interface_details).entries@.filter(key_is_not(key))
                &&& final(interface_details).entries@.last().details.interface_type == Some(t)
                &&& dview(final(interface_details).entries@.last().details) == match details_lookup(old(interface_details).entries@, key) {
                    Some(d) => (Some(t), d.gateway, d.dns_servers@, d.mac),
                    None => (Some(t), None, Seq::<String>::empty(), None),
                }
            },
        },
{
    let hardware = match &interface.hardware {
        Some(h) => Some(h.as_str()),
        None => None,
    };
    let kind = match &interface.interface_type {
        Some(k) => Some(k.as_str()),
        None => None,
    };
    let t = macos_service_interface_type(hardware, kind);
    match t {
        Some(t) => {
            let key = string_of(&normalize_interface_key(interface.bsd_name.as_str()));
            let kc = chars_of(key.as_str());
            let mut details = match interface_details.get(&kc) {
                Some(d) => d.clone(),
                None => PlatformInterfaceDetails::default(),
            };
            details.interface_type = Some(t);
            interface_details.insert(key, details);
            proof {
                let e = interface_details.entries@;
                assert(e.drop_last() =~= old(interface_details).entries@.filter(key_is_not(interface_key_spec(interface.bsd_name@))));
            }
        },
        None => {},
    }
}

pub open spec fn macos_service_interface_type_spec(interface: MacosPrimaryServiceInterface) -> Option<InterfaceType> {
    match (match interface.hardware {
        Some(h) => service_value_type(h@),
        None => None,
    }) {
        Some(found) => Some(found),
        None => match interface.interface_type {
            Some(i) => service_value_type(i@),
            None => None,
        },
    }
}

/// The interface type overrides that Windows' current connection profile gives: the adapter's
/// type under its key, and nothing for an unknown type or a missing adapter id.
pub fn platform_interface_type_overrides_from_type(adapter_id: Option<&str>, interface_type: InterfaceType) -> (m: PlatformDetailsMap)
    ensures
        interface_type == InterfaceType::Unknown || adapter_id is None ==> m.entries@.len() == 0,
        interface_type != InterfaceType::Unknown && adapter_id is Some ==> {
            &&& m.entries@.len() == 1
            &&& m.entries@[0].key@ == interface_key_spec(adapter_id->0@)
            &&& m.entries@[0].details.interface_type == Some(interface_type)
            &&& m.entries@[0].details.gateway is None
            &&& m.entries@[0].details.dns_servers@.len() == 0
            &&& m.entries@[0].details.mac is None
        },
{
    let mut m = PlatformDetailsMap::new();
    if interface_type == InterfaceType::Unknown {
        return m;
    }
    match adapter_id {
        Some(id) => {
            let key = string_of(&normalize_interface_key(id));
            let mut details = PlatformInterfaceDetails::default();
            details.interface_type = Some(interface_type);
            m.insert(key, details);
            assert(m.entries@.len() == 1);
        },
        None => {},
    }
    m
}

/// As above, from the IANA type number of the adapter.
pub fn platform_interface_type_overrides(adapter_id: Option<&str>, iana_interface_type: Option<u32>) -> (m: PlatformDetailsMap)
    ensures
        ({
            let t = match iana_interface_type {
                Some(n) => if n == 6 || n == 135 {
                    InterfaceType::Ethernet
                } else if n == 71 {
                    InterfaceType::Wifi
                } else {
                    InterfaceType::Unknown
                },
                None => InterfaceType::Unknown,
            };
            &&& t == InterfaceType::Unknown || adapter_id is None ==> m.entries@.len() == 0
            &&& t != InterfaceType::Unknown && adapter_id is Some ==> m.entries@.len() == 1 && m.entries@[0].key@
                == interface_key_spec(adapter_id->0@) && m.entries@[0].details.interface_type == Some(t)
        }),
{
    let t = match iana_interface_type {
        Some(n) => interface_type_from_windows_iana_type(n),
        None => InterfaceType::Unknown,
    };
    platform_interface_type_overrides_from_type(adapter_id, t)
}

/// The operating system the interfaces are read on: on macOS a name that says Wi-Fi, VPN or
/// loopback is trusted over the platform's own type.
#[derive(Debug, Clone, Copy, PartialEq, Eq, Structural)]
pub enum HostPlatform {
    MacOs,
    Windows,
    Other,
}

/// The type of an interface: the one its name suggests where that is trusted, else the
/// platform's type when known, else the name's.
pub open spec fn resolve_type_spec(name: Seq<char>, platform_type: Option<InterfaceType>, platform: HostPlatform) -> InterfaceType {
    let name_type = classify_spec(name);
    if platform == HostPlatform::MacOs && (name_type == InterfaceType::Wifi || name_type == InterfaceType::Vpn
        || name_type == InterfaceType::Loopback) {
        name_type
    } else {
        match platform_type {
            Some(t) => if t != InterfaceType::Unknown {
                t
            } else {
                name_type
            },
            None => name_type,
        }
    }
}

pub fn resolve_interface_type(name: &str, details: &PlatformInterfaceDetails, platform: HostPlatform) -> (t: InterfaceType)
    ensures
        t == resolve_type_spec(name@, details.interface_type, platform),
{
    let name_type = classify_interface(name);
    if platform == HostPlatform::MacOs && (name_type == InterfaceType::Wifi || name_type == InterfaceType::Vpn
        || name_type == InterfaceType::Loopback) {
        return name_type;
    }
    match details.interface_type {
        Some(t) => if t != InterfaceType::Unknown {
            t
        } else {
            name_type
        },
        None => name_type,
    }
}

/// One address of one interface, as the system lists them.
#[derive(Debug)]
pub struct AddressEntry {
    pub name: String,
    pub address: String,
    pub ipv4: bool,
}

/// The names that the entries list.
pub open spec fn entry_names(e: Seq<AddressEntry>) -> Set<Seq<char>> {
    e.map_values(|x: AddressEntry| x.name@).to_set()
}

pub open spec fn address_of(name: Seq<char>, ipv4: bool) -> spec_fn(AddressEntry) -> bool {
    |x: AddressEntry| x.name@ == name && x.ipv4 == ipv4
}

/// The IPv4 (or IPv6) addresses that the entries list for `name`.
pub open spec fn entry_addresses(e: Seq<AddressEntry>, name: Seq<char>, ipv4: bool) -> Set<Seq<char>> {
    e.filter(address_of(name, ipv4)).map_values(|x: AddressEntry| x.address@).to_set()
}

proof fn lemma_entry_names_push(e: Seq<AddressEntry>, a: AddressEntry)
    ensures
        entry_names(e.push(a)) == entry_names(e).insert(a.name@),
{
    let m = e.push(a).map_values(|x: AddressEntry| x.name@);
    let m0 = e.map_values(|x: AddressEntry| x.name@);
    assert(m =~= m0.push(a.name@));
    assert forall|y: Seq<char>| m.to_set().contains(y) <==> m0.to_set().insert(a.name@).contains(y) by {
        if m.contains(y) {
            let k = choose|k: int| 0 <= k < m.len() && m[k] == y;
            if k < m0.len() {
                assert(m0[k] == y);
            }
        }
        if m0.contains(y) {
            let k = choose|k: int| 0 <= k < m0.len() && m0[k] == y;
            assert(m[k] == y);
        }
        if y == a.name@ {
            assert(m[m0.len() as int] == y);
        }
    }
    assert(m.to_set() =~= m0.to_set().insert(a.name@));
}

proof fn lemma_entry_addresses_push(e: Seq<AddressEntry>, a: AddressEntry, name: Seq<char>, ipv4: bool)
    ensures
        entry_addresses(e.push(a), name, ipv4) == (if a.name@ == name && a.ipv4 == ipv4 {
            entry_addresses(e, name, ipv4).insert(a.address@)
        } else {
            entry_addresses(e, name, ipv4)
        }),
{
    let p = address_of(name, ipv4);
    e.lemma_filter_push(a, p);
    let f0 = e.filter(p);
    if p(a) {
        let m = f0.push(a).map_values(|x: AddressEntry| x.address@);
        let m0 = f0.map_values(|x: AddressEntry| x.address@);
        assert(m =~= m0.push(a.address@));
        assert forall|y: Seq<char>| m.to_set().contains(y) <==> m0.to_set().insert(a.address@).contains(y) by {
            if m.contains(y) {
                let k = choose|k: int| 0 <= k < m.len() && m[k] == y;
                if k < m0.len() {
                    assert(m0[k] == y);
                }
            }
            if m0.contains(y) {
                let k = choose|k: int| 0 <= k < m0.len() && m0[k] == y;
                assert(m[k] == y);
            }
            if y == a.address@ {
                assert(m[m0.len() as int] == y);
            }
        }
        assert(m.to_set() =~= m0.to_set().insert(a.address@));
    }
}

pub open spec fn interface_names(s: Seq<NetworkInterface>) -> Seq<Seq<char>> {
    s.map_values(|x: NetworkInterface| x.name@)
}

/// The platform details of interface `name`, where the platform has any.
pub open spec fn details_of(details: Seq<PlatformDetailsEntry>, name: Seq<char>) -> Option<PlatformInterfaceDetails> {
    details_lookup(details, interface_key_spec(name))
}

/// `i` is the interface built for `name` from the entries and the platform details, before ids
/// are made unique.
pub open spec fn built_interface(
    i: NetworkInterface,
    name: Seq<char>,
    entries: Seq<AddressEntry>,
    details: Seq<PlatformDetailsEntry>,
    platform: HostPlatform,
) -> bool {
    let d = details_of(details, name);
    let t = resolve_type_spec(
        name,
        match d {
            Some(d) => d.interface_type,
            None => None,
        },
        platform,
    );
    &&& i.name@ == name
    &&& i.display_name@ == name
    &&& i.interface_type == t
    &&& i.status == (if t == InterfaceType::Loopback {
        InterfaceStatus::Down
    } else {
        InterfaceStatus::Up
    })
    &&& !i.is_primary
    &&& strictly_sorted(string_views(i.addresses.ipv4@))
    &&& string_views(i.addresses.ipv4@).to_set() == entry_addresses(entries, name, true)
    &&& strictly_sorted(string_views(i.addresses.ipv6@))
    &&& string_views(i.addresses.ipv6@).to_set() == entry_addresses(entries, name, false)
    &&& match d {
        Some(d) => i.addresses.mac == d.mac && i.gateway == d.gateway && i.dns_servers@ == d.dns_servers@,
        None => i.addresses.mac is None && i.gateway is None && i.dns_servers@.len() == 0,
    }
}

fn addresses_for(entries: &Vec<AddressEntry>, name: &Vec<char>, ipv4: bool) -> (r: Vec<String>)
    ensures
        strictly_sorted(string_views(r@)),
        string_views(r@).to_set() == entry_addresses(entries@, name@, ipv4),
{
    let mut r: Vec<String> = Vec::new();
    let mut j: usize = 0;
    assert(entries@.take(0) =~= Seq::<AddressEntry>::empty());
    assert(string_views(r@).to_set() =~= entry_addresses(entries@.take(0), name@, ipv4));
    while j < entries.len()
        invariant
            j <= entries.len(),
            strictly_sorted(string_views(r@)),
            string_views(r@).to_set() == entry_addresses(entries@.take(j as int), name@, ipv4),
        decreases entries.len() - j,
    {
        assert(entries@.take(j + 1) =~= entries@.take(j as int).push(entries@[j as int]));
        proof {
            lemma_entry_addresses_push(entries@.take(j as int), entries@[j as int], name@, ipv4);
        }
        if entries[j].ipv4 == ipv4 && same_chars(&chars_of(entries[j].name.as_str()), name) {
            sorted_insert(&mut r, entries[j].address.clone());
        }
        j = j + 1;
    }
    assert(entries@.take(entries.len() as int) =~= entries@);
    r
}

fn build_interface(name: &String, entries: &Vec<AddressEntry>, details: &PlatformDetailsMap, platform: HostPlatform) -> (i: NetworkInterface)
    ensures
        built_interface(i, name@, entries@, details.entries@, platform),
        i.id@ == sanitize_spec(name@),
{
    let name_chars = chars_of(name.as_str());
    let key = normalize_interface_key(name.as_str());
    let found = details.get(&key);
    let platform_type = match found {
        Some(d) => d.interface_type,
        None => None,
    };
    let name_type = classify_interface(name.as_str());
    let interface_type = if platform == HostPlatform::MacOs && (name_type == InterfaceType::Wifi || name_type
        == InterfaceType::Vpn || name_type == InterfaceType::Loopback) {
        name_type
    } else {
        match platform_type {
            Some(t) => if t != InterfaceType::Unknown {
                t
            } else {
                name_type
            },
            None => name_type,
        }
    };
    let status = if interface_type == InterfaceType::Loopback {
        InterfaceStatus::Down
    } else {
        InterfaceStatus::Up
    };
    let (mac, gateway, dns_servers) = match found {
        Some(d) => (d.mac.clone(), d.gateway.clone(), clone_strings(&d.dns_servers)),
        None => (None, None, Vec::new()),
    };
    NetworkInterface {
        id: sanitize_id(name.as_str()),
        name: name.clone(),
        display_name: name.clone(),
        interface_type,
        status,
        is_primary: false,
        addresses: InterfaceAddresses {
            ipv4: addresses_for(entries, &name_chars, true),
            ipv6: addresses_for(entries, &name_chars, false),
            mac,
        },
        gateway,
        dns_servers,
    }
}

/// The interfaces that the address entries describe, one per name in name order, with their
/// addresses sorted and deduplicated, enriched with the platform details kept under each name's
/// key, and with distinct ids.
pub fn build_interfaces_from_entries_with_platform_details(
    entries: &Vec<AddressEntry>,
    details: &PlatformDetailsMap,
    platform: HostPlatform,
) -> (r: Vec<NetworkInterface>)
    requires
        entries@.len() <= usize::MAX / 4,
    ensures
        strictly_sorted(interface_names(r@)),
        interface_names(r@).to_set() == entry_names(entries@),
        forall|k: int|
            0 <= k < r@.len() ==> built_interface(#[trigger] r@[k], r@[k].name@, entries@, details.entries@, platform),
        forall|k: int|
            0 <= k < r@.len() ==> id_choice(
                #[trigger] bases_of(r@)[k],
                ids_of(r@).take(k).to_set(),
                bases_of(r@).to_set(),
                ids_of(r@)[k],
            ),
{
    let mut names: Vec<String> = Vec::new();
    let mut i: usize = 0;
    assert(entries@.take(0) =~= Seq::<AddressEntry>::empty());
    assert(string_views(names@).to_set() =~= entry_names(entries@.take(0)));
    while i < entries.len()
        invariant
            i <= entries.len(),
            strictly_sorted(string_views(names@)),
            string_views(names@).to_set() == entry_names(entries@.take(i as int)),
        decreases entries.len() - i,
    {
        assert(entries@.take(i + 1) =~= entries@.take(i as int).push(entries@[i as int]));
        proof {
            lemma_entry_names_push(entries@.take(i as int), entries@[i as int]);
        }
        sorted_insert(&mut names, entries[i].name.clone());
        i = i + 1;
    }
    assert(entries@.take(entries.len() as int) =~= entries@);
    proof {
        string_views(names@).lemma_cardinality_of_set();
        entries@.map_values(|x: AddressEntry| x.name@).lemma_cardinality_of_set();
        lemma_sorted_has_no_duplicates(string_views(names@));
    }
    let mut interfaces: Vec<NetworkInterface> = Vec::new();
    let mut k: usize = 0;
    while k < names.len()
        invariant
            k <= names.len(),
            interfaces@.len() == k,
            forall|j: int| 0 <= j < k ==> #[trigger] interfaces@[j].name@ == names@[j]@,
            forall|j: int|
                0 <= j < k ==> built_interface(#[trigger] interfaces@[j], names@[j]@, entries@, details.entries@, platform),
        decreases names.len() - k,
    {
        let it = build_interface(&names[k], entries, details, platform);
        interfaces.push(it);
        k = k + 1;
    }
    assert(interface_names(interfaces@) =~= string_views(names@));
    assert(interfaces@.len() <= usize::MAX / 4);
    let ghost before = interfaces@;
    assign_unique_ids(&mut interfaces);
    proof {
        assert(interface_names(interfaces@) =~= interface_names(before));
        assert(bases_of(interfaces@) =~= bases_of(before));
        assert forall|j: int| 0 <= j < interfaces@.len() implies built_interface(
            #[trigger] interfaces@[j],
            interfaces@[j].name@,
            entries@,
            details.entries@,
            platform,
        ) by {
            assert(interfaces@[j] == (NetworkInterface { id: interfaces@[j].id, ..before[j] }));
        }
    }
    interfaces
}

proof fn lemma_sorted_has_no_duplicates(s: Seq<Seq<char>>)
    requires
        strictly_sorted(s),
    ensures
        s.len() == s.to_set().len(),
{
    assert(s.no_duplicates()) by {
        assert forall|i: int, j: int| 0 <= i < s.len() && 0 <= j < s.len() && i != j implies s[i] != s[j] by {
            if i < j {
                assert(lex_lt(s[i], s[j]));
                crate::text::lemma_lex_irreflexive(s[i]);
            } else {
                assert(lex_lt(s[j], s[i]));
                crate::text::lemma_lex_irreflexive(s[j]);
            }
        }
    }
    s.unique_seq_to_set();
}

/// The interfaces and primary interface of the system, from its address entries and platform
/// details. Reading MAC addresses is not supported: that request is an `InvalidConfig` error.
pub fn read_network_snapshot(
    include_mac_address: bool,
    entries: &Vec<AddressEntry>,
    details: &PlatformDetailsMap,
    platform: HostPlatform,
) -> (r: Result<NetworkSnapshot, crate::error::Error>)
    requires
        entries@.len() <= usize::MAX / 4,
    ensures
        include_mac_address <==> r is Err,
        r matches Err(e) ==> e.code == crate::error::ErrorCode::InvalidConfig,
        r matches Ok(snapshot) ==> {
            &&& strictly_sorted(interface_names(snapshot.interfaces@))
            &&& interface_names(snapshot.interfaces@).to_set() == entry_names(entries@)
            &&& match snapshot.primary_interface_id {
                Some(id) => exists|p: int|
                    0 <= p < snapshot.interfaces@.len() && #[trigger] snapshot.interfaces@[p].is_primary && snapshot.interfaces@[p].id
                        == id,
                None => forall|p: int| 0 <= p < snapshot.interfaces@.len() ==> !(#[trigger] snapshot.interfaces@[p]).is_primary,
            }
        },
{
    if include_mac_address {
        return Err(
            crate::error::Error::invalid_config(
                "MAC address collection is not supported by the get_if_addrs backend".to_string(),
            ),
        );
    }
    let mut interfaces = build_interfaces_from_entries_with_platform_details(entries, details, platform);
    let ghost built = interfaces@;
    let chosen = mark_primary(&mut interfaces);
    proof {
        assert(interface_names(interfaces@) =~= interface_names(built)) by {
            if let Some(c) = chosen {
                assert forall|j: int| 0 <= j < interfaces@.len() implies interface_names(interfaces@)[j] == interface_names(built)[j] by {
                    if j == c {
                    }
                }
            }
        }
    }
    let mut primary: Option<String> = None;
    let mut p: usize = 0;
    while p < interfaces.len()
        invariant
            p <= interfaces.len(),
            primary is None ==> forall|j: int| 0 <= j < p ==> !(#[trigger] interfaces@[j]).is_primary,
            primary matches Some(id) ==> exists|q: int| 0 <= q < interfaces@.len() && #[trigger] interfaces@[q].is_primary && interfaces@[q].id == id,
        ensures
            primary is None ==> forall|j: int| 0 <= j < interfaces@.len() ==> !(#[trigger] interfaces@[j]).is_primary,
            primary matches Some(id) ==> exists|q: int| 0 <= q < interfaces@.len() && #[trigger] interfaces@[q].is_primary && interfaces@[q].id == id,
        decreases interfaces.len() - p,
    {
        if interfaces[p].is_primary {
            let id = interfaces[p].id.clone();
            assert(interfaces@[p as int].is_primary && interfaces@[p as int].id == id);
            primary = Some(id);
            break;
        }
        p = p + 1;
    }
    assert(strictly_sorted(interface_names(interfaces@)));
    assert(interface_names(interfaces@).to_set() == entry_names(entries@));
    Ok(NetworkSnapshot { primary_interface_id: primary, interfaces, internet: InternetSnapshot::unchecked() })
}

} // verus!
