//! Internet addresses in text form, and their rank.

use crate::text::{comes_before, precedes, precedes_is_an_order};
use vstd::prelude::*;
use vstd::utf8::encode_utf8;

verus! {

/// An internet address as its octets, four or sixteen of them.
#[derive(Debug)]
pub enum IpAddress {
    V4(Vec<u8>),
    V6(Vec<u8>),
}

/// What an address is.
pub enum AddressV {
    V4(Seq<u8>),
    V6(Seq<u8>),
}

impl View for IpAddress {
    type V = AddressV;

    open spec fn view(&self) -> AddressV {
        match self {
            IpAddress::V4(octets) => AddressV::V4(octets@),
            IpAddress::V6(octets) => AddressV::V6(octets@),
        }
    }
}

/// The value of a digit in a base of up to sixteen, in either case.
pub open spec fn digit(byte: u8, base: nat) -> Option<nat> {
    let value: int = if 48 <= byte <= 57 {
        byte - 48
    } else if 97 <= byte <= 102 {
        byte - 87
    } else if 65 <= byte <= 70 {
        byte - 55
    } else {
        16
    };
    if value < base {
        Some(value as nat)
    } else {
        None
    }
}

/// The number that digits write.
pub open spec fn number(digits: Seq<u8>, base: nat) -> Option<nat>
    decreases digits.len(),
{
    if digits.len() == 0 {
        Some(0)
    } else {
        match (number(digits.drop_last(), base), digit(digits.last(), base)) {
            (Some(front), Some(last)) => Some(front * base + last),
            _ => None,
        }
    }
}

/// The pieces of a text between separators.
pub open spec fn pieces(text: Seq<u8>, separator: u8) -> Seq<Seq<u8>>
    decreases text.len(),
{
    if text.len() == 0 {
        seq![Seq::<u8>::empty()]
    } else {
        let front = pieces(text.drop_last(), separator);
        if text.last() == separator {
            front.push(Seq::<u8>::empty())
        } else {
            front.drop_last().push(front.last().push(text.last()))
        }
    }
}

/// One of the four numbers of a version 4 address: up to three digits, no leading
/// zero.
pub open spec fn octet(text: Seq<u8>) -> Option<u8> {
    if 1 <= text.len() <= 3 && (text.len() == 1 || text[0] != 48) {
        match number(text, 10) {
            Some(value) => if value <= 255 {
                Some(value as u8)
            } else {
                None
            },
            None => None,
        }
    } else {
        None
    }
}

/// A version 4 address: four numbers between dots.
pub open spec fn v4_octets(text: Seq<u8>) -> Option<Seq<u8>> {
    let parts = pieces(text, 46);
    if parts.len() == 4 {
        match (octet(parts[0]), octet(parts[1]), octet(parts[2]), octet(parts[3])) {
            (Some(a), Some(b), Some(c), Some(d)) => Some(seq![a, b, c, d]),
            _ => None,
        }
    } else {
        None
    }
}

/// One group of a version 6 address: up to four hexadecimal digits for two octets.
pub open spec fn group(text: Seq<u8>) -> Option<Seq<u8>> {
    if 1 <= text.len() <= 4 {
        match number(text, 16) {
            Some(value) => Some(seq![(value / 256) as u8, (value % 256) as u8]),
            None => None,
        }
    } else {
        None
    }
}

/// The octets of groups, the last of which may be a version 4 address.
pub open spec fn group_octets(parts: Seq<Seq<u8>>, v4_at_end: bool) -> Option<Seq<u8>>
    decreases parts.len(),
{
    if parts.len() == 0 {
        Some(seq![])
    } else {
        match (
            group_octets(parts.drop_last(), false),
            group(parts.last()),
            v4_octets(parts.last()),
        ) {
            (Some(front), Some(two), _) => Some(front + two),
            (Some(front), None, Some(four)) => if v4_at_end {
                Some(front + four)
            } else {
                None
            },
            _ => None,
        }
    }
}

/// The octets of a run of groups, which may be empty.
pub open spec fn run_octets(text: Seq<u8>, v4_at_end: bool) -> Option<Seq<u8>> {
    if text.len() == 0 {
        Some(seq![])
    } else {
        group_octets(pieces(text, 58), v4_at_end)
    }
}

/// Whether a double colon stands at a place.
pub open spec fn gap_at(text: Seq<u8>, i: int) -> bool {
    0 <= i && i + 1 < text.len() && text[i] == 58 && text[i + 1] == 58
}

/// The place of the first double colon from a place on.
pub open spec fn gap_from(text: Seq<u8>, i: int) -> Option<int>
    decreases text.len() - i,
{
    if i >= text.len() {
        None
    } else if gap_at(text, i) {
        Some(i)
    } else {
        gap_from(text, i + 1)
    }
}

/// A version 6 address: eight groups between colons, of which one run of zeros
/// may be left out for a double colon.
pub open spec fn v6_octets(text: Seq<u8>) -> Option<Seq<u8>> {
    match gap_from(text, 0) {
        None => match run_octets(text, true) {
            Some(octets) => if octets.len() == 16 {
                Some(octets)
            } else {
                None
            },
            None => None,
        },
        Some(i) => match (run_octets(text.take(i), false), run_octets(text.skip(i + 2), true)) {
            (Some(head), Some(tail)) => if head.len() + tail.len() <= 14 {
                Some(head + Seq::new((16 - head.len() - tail.len()) as nat, |k: int| 0u8) + tail)
            } else {
                None
            },
            _ => None,
        },
    }
}

/// The address that a text writes.
pub open spec fn address(text: Seq<u8>) -> Option<AddressV> {
    match v4_octets(text) {
        Some(octets) => Some(AddressV::V4(octets)),
        None => match v6_octets(text) {
            Some(octets) => Some(AddressV::V6(octets)),
            None => None,
        },
    }
}

/// Whether octets are all zero.
pub open spec fn zeros(octets: Seq<u8>) -> bool {
    forall|i: int| 0 <= i < octets.len() ==> octets[i] == 0
}

/// Whether an address has only zero octets.
pub open spec fn is_unspecified(address: AddressV) -> bool {
    match address {
        AddressV::V4(octets) => zeros(octets),
        AddressV::V6(octets) => zeros(octets),
    }
}

/// Whether an address ranks above another: by its octets, and version 6 above
/// version 4.
pub open spec fn outranks(a: AddressV, b: AddressV) -> bool {
    match (a, b) {
        (AddressV::V4(x), AddressV::V4(y)) => precedes(y, x),
        (AddressV::V6(x), AddressV::V6(y)) => precedes(y, x),
        (AddressV::V6(_), AddressV::V4(_)) => true,
        (AddressV::V4(_), AddressV::V6(_)) => false,
    }
}

/// Whether a host ranks above another, each given as text. An unspecified address
/// of one's own ranks above all. What is no address goes by the order of its text.
pub open spec fn text_outranks(local: Seq<char>, peer: Seq<char>) -> bool {
    let by_text = precedes(encode_utf8(peer), encode_utf8(local));
    match address(encode_utf8(local)) {
        None => by_text,
        Some(own) => if is_unspecified(own) {
            true
        } else {
            match address(encode_utf8(peer)) {
                None => by_text,
                Some(other) => outranks(own, other),
            }
        },
    }
}

fn digit_value(byte: u8, base: u32) -> (value: Option<u32>)
    requires
        base <= 16,
    ensures
        match value {
            Some(v) => digit(byte, base as nat) == Some(v as nat) && v < base,
            None => digit(byte, base as nat) is None,
        },
{
    let value: u32 = if 48 <= byte && byte <= 57 {
        (byte - 48) as u32
    } else if 97 <= byte && byte <= 102 {
        (byte - 87) as u32
    } else if 65 <= byte && byte <= 70 {
        (byte - 55) as u32
    } else {
        16
    };
    if value < base {
        Some(value)
    } else {
        None
    }
}

proof fn lemma_number_fails(digits: Seq<u8>, base: nat, n: int)
    requires
        0 <= n <= digits.len(),
        number(digits.take(n), base) is None,
    ensures
        number(digits, base) is None,
    decreases digits.len() - n,
{
    if n < digits.len() {
        assert(digits.take(n + 1).drop_last() =~= digits.take(n));
        lemma_number_fails(digits, base, n + 1);
    } else {
        assert(digits.take(n) =~= digits);
    }
}

/// Reads up to four digits.
fn read_number(digits: &[u8], base: u32) -> (value: Option<u32>)
    requires
        digits@.len() <= 4,
        1 <= base <= 16,
    ensures
        match value {
            Some(v) => number(digits@, base as nat) == Some(v as nat) && v < 65536,
            None => number(digits@, base as nat) is None,
        },
{
    let mut value: u32 = 0;
    let mut i: usize = 0;
    let ghost mut bound: int = 1;
    assert(digits@.take(0) =~= Seq::<u8>::empty());
    while i < digits.len()
        invariant
            i <= digits@.len() <= 4,
            1 <= base <= 16,
            number(digits@.take(i as int), base as nat) == Some(value as nat),
            value < bound,
            bound == (if i == 0 {
                1int
            } else if i == 1 {
                16
            } else if i == 2 {
                256
            } else if i == 3 {
                4096
            } else {
                65536
            }),
        decreases digits@.len() - i,
    {
        assert(digits@.take(i + 1).drop_last() =~= digits@.take(i as int));
        match digit_value(digits[i], base) {
            Some(d) => {
                assert(value * base <= (bound - 1) * 16 && 0 <= value * base) by (nonlinear_arith)
                    requires
                        0 <= value < bound,
                        1 <= base <= 16,
                ;
                value = value * base + d;
                proof {
                    bound = bound * 16;
                }
            },
            None => {
                proof {
                    lemma_number_fails(digits@, base as nat, i + 1);
                }
                return None;
            },
        }
        i = i + 1;
    }
    assert(digits@.take(i as int) =~= digits@);
    Some(value)
}

/// What lists of bytes hold.
pub open spec fn byte_lists(lists: Seq<Vec<u8>>) -> Seq<Seq<u8>> {
    Seq::new(lists.len(), |i: int| lists[i]@)
}

/// Takes a text apart at its separators.
fn split(text: &[u8], separator: u8) -> (parts: Vec<Vec<u8>>)
    ensures
        byte_lists(parts@) == pieces(text@, separator),
        parts@.len() >= 1,
{
    let mut done: Vec<Vec<u8>> = Vec::new();
    let mut current: Vec<u8> = Vec::new();
    let mut i: usize = 0;
    assert(byte_lists(done@).push(current@) =~= pieces(text@.take(0), separator));
    while i < text.len()
        invariant
            i <= text@.len(),
            byte_lists(done@).push(current@) == pieces(text@.take(i as int), separator),
        decreases text@.len() - i,
    {
        let ghost front = byte_lists(done@).push(current@);
        proof {
            assert(text@.take(i + 1).drop_last() =~= text@.take(i as int));
            assert(text@.take(i + 1).last() == text@[i as int]);
            assert(front.drop_last() =~= byte_lists(done@));
        }
        let byte: u8 = text[i];
        if byte == separator {
            let ghost finished = current@;
            let ghost earlier = byte_lists(done@);
            done.push(current);
            current = Vec::new();
            proof {
                assert(byte_lists(done@) =~= earlier.push(finished));
                assert(current@ =~= Seq::<u8>::empty());
            }
        } else {
            current.push(byte);
        }
        i = i + 1;
    }
    assert(text@.take(i as int) =~= text@);
    let ghost earlier = byte_lists(done@);
    let ghost finished = current@;
    done.push(current);
    assert(byte_lists(done@) =~= earlier.push(finished));
    done
}

fn read_octet(text: &[u8]) -> (value: Option<u8>)
    ensures
        value == octet(text@),
{
    let n: usize = text.len();
    if n < 1 || n > 3 || (n > 1 && text[0] == 48) {
        return None;
    }
    match read_number(text, 10) {
        Some(v) => if v <= 255 {
            Some(v as u8)
        } else {
            None
        },
        None => None,
    }
}

fn read_v4(text: &[u8]) -> (octets: Option<Vec<u8>>)
    ensures
        match octets {
            Some(o) => v4_octets(text@) == Some(o@),
            None => v4_octets(text@) is None,
        },
{
    let parts = split(text, 46);
    if parts.len() != 4 {
        return None;
    }
    proof {
        assert(pieces(text@, 46)[0] == parts@[0]@);
        assert(pieces(text@, 46)[1] == parts@[1]@);
        assert(pieces(text@, 46)[2] == parts@[2]@);
        assert(pieces(text@, 46)[3] == parts@[3]@);
    }
    match (
        read_octet(parts[0].as_slice()),
        read_octet(parts[1].as_slice()),
        read_octet(parts[2].as_slice()),
        read_octet(parts[3].as_slice()),
    ) {
        (Some(a), Some(b), Some(c), Some(d)) => {
            let mut octets: Vec<u8> = Vec::new();
            octets.push(a);
            octets.push(b);
            octets.push(c);
            octets.push(d);
            assert(octets@ =~= seq![a, b, c, d]);
            Some(octets)
        },
        _ => None,
    }
}

fn read_group(text: &[u8]) -> (two: Option<(u8, u8)>)
    ensures
        match two {
            Some(pair) => group(text@) == Some(seq![pair.0, pair.1]),
            None => group(text@) is None,
        },
{
    let n: usize = text.len();
    if n < 1 || n > 4 {
        return None;
    }
    match read_number(text, 16) {
        Some(v) => Some(((v / 256) as u8, (v % 256) as u8)),
        None => None,
    }
}

proof fn lemma_group_fails(parts: Seq<Seq<u8>>, n: int, v4_at_end: bool)
    requires
        0 <= n < parts.len(),
        group_octets(parts.take(n), false) is None,
    ensures
        group_octets(parts, v4_at_end) is None,
    decreases parts.len() - n,
{
    if n + 1 == parts.len() {
        assert(parts.drop_last() =~= parts.take(n));
    } else {
        assert(parts.take(n + 1).drop_last() =~= parts.take(n));
        lemma_group_fails(parts, n + 1, v4_at_end);
    }
}

fn read_run(text: &[u8], v4_at_end: bool) -> (octets: Option<Vec<u8>>)
    ensures
        match octets {
            Some(o) => run_octets(text@, v4_at_end) == Some(o@),
            None => run_octets(text@, v4_at_end) is None,
        },
{
    let mut octets: Vec<u8> = Vec::new();
    if text.len() == 0 {
        assert(octets@ =~= seq![]);
        return Some(octets);
    }
    let parts = split(text, 58);
    let n: usize = parts.len();
    let ghost all = pieces(text@, 58);
    let mut i: usize = 0;
    assert(all.take(0) =~= seq![]);
    assert(octets@ =~= seq![]);
    while i < n
        invariant
            i <= n,
            n == parts@.len(),
            all == byte_lists(parts@),
            group_octets(all.take(i as int), i == n && v4_at_end) == Some(octets@),
            run_octets(text@, v4_at_end) == group_octets(all, v4_at_end),
        decreases n - i,
    {
        let ghost before = octets@;
        let ghost upto = all.take(i + 1);
        proof {
            assert(upto.drop_last() =~= all.take(i as int));
            assert(upto.last() == parts@[i as int]@);
            assert(all.take(n as int) =~= all);
        }
        match read_group(parts[i].as_slice()) {
            Some((high, low)) => {
                octets.push(high);
                octets.push(low);
                assert(octets@ =~= before + seq![high, low]);
            },
            None => {
                if i + 1 < n || !v4_at_end {
                    proof {
                        assert(group_octets(upto, false) is None);
                        if i + 1 < n {
                            lemma_group_fails(all, i + 1, v4_at_end);
                        }
                    }
                    return None;
                }
                match read_v4(parts[i].as_slice()) {
                    Some(four) => {
                        let mut k: usize = 0;
                        while k < four.len()
                            invariant
                                k <= four@.len(),
                                octets@ == before + four@.take(k as int),
                            decreases four@.len() - k,
                        {
                            octets.push(four[k]);
                            k = k + 1;
                            assert(octets@ =~= before + four@.take(k as int));
                        }
                        assert(four@.take(k as int) =~= four@);
                    },
                    None => {
                        return None;
                    },
                }
            },
        }
        i = i + 1;
    }
    assert(all.take(n as int) =~= all);
    Some(octets)
}

fn find_gap(text: &[u8]) -> (place: Option<usize>)
    ensures
        match place {
            Some(i) => gap_from(text@, 0) == Some(i as int) && i + 1 < text@.len(),
            None => gap_from(text@, 0) is None,
        },
{
    let mut i: usize = 0;
    while i < text.len()
        invariant
            i <= text@.len(),
            gap_from(text@, 0) == gap_from(text@, i as int),
        decreases text@.len() - i,
    {
        if i + 1 < text.len() && text[i] == 58 && text[i + 1] == 58 {
            return Some(i);
        }
        i = i + 1;
    }
    None
}

fn copy_range(text: &[u8], from: usize, to: usize) -> (copy: Vec<u8>)
    requires
        from <= to <= text@.len(),
    ensures
        copy@ == text@.subrange(from as int, to as int),
{
    let mut copy: Vec<u8> = Vec::new();
    let mut i: usize = from;
    while i < to
        invariant
            from <= i <= to <= text@.len(),
            copy@ == text@.subrange(from as int, i as int),
        decreases to - i,
    {
        copy.push(text[i]);
        i = i + 1;
        assert(copy@ =~= text@.subrange(from as int, i as int));
    }
    copy
}

fn read_v6(text: &[u8]) -> (octets: Option<Vec<u8>>)
    ensures
        match octets {
            Some(o) => v6_octets(text@) == Some(o@),
            None => v6_octets(text@) is None,
        },
{
    match find_gap(text) {
        None => match read_run(text, true) {
            Some(octets) => if octets.len() == 16 {
                Some(octets)
            } else {
                None
            },
            None => None,
        },
        Some(i) => {
            let n: usize = text.len();
            let front = copy_range(text, 0, i);
            let back = copy_range(text, i + 2, n);
            proof {
                assert(front@ =~= text@.take(i as int));
                assert(back@ =~= text@.skip(i + 2));
            }
            match (read_run(front.as_slice(), false), read_run(back.as_slice(), true)) {
                (Some(head), Some(tail)) => {
                    if head.len() > 14 || tail.len() > 14 || head.len() + tail.len() > 14 {
                        return None;
                    }
                    let ghost start = head@;
                    let missing: usize = 16 - head.len() - tail.len();
                    let mut octets = head;
                    let mut k: usize = 0;
                    while k < missing
                        invariant
                            k <= missing,
                            octets@ == start + Seq::new(k as nat, |j: int| 0u8),
                        decreases missing - k,
                    {
                        octets.push(0);
                        k = k + 1;
                        assert(octets@ =~= start + Seq::new(k as nat, |j: int| 0u8));
                    }
                    let ghost filled = octets@;
                    let mut m: usize = 0;
                    while m < tail.len()
                        invariant
                            m <= tail@.len(),
                            octets@ == filled + tail@.take(m as int),
                        decreases tail@.len() - m,
                    {
                        octets.push(tail[m]);
                        m = m + 1;
                        assert(octets@ =~= filled + tail@.take(m as int));
                    }
                    assert(tail@.take(m as int) =~= tail@);
                    Some(octets)
                },
                _ => None,
            }
        },
    }
}

/// Reads an address.
pub fn parse_address(text: &str) -> (parsed: Option<IpAddress>)
    ensures
        match parsed {
            Some(found) => address(encode_utf8(text@)) == Some(found@),
            None => address(encode_utf8(text@)) is None,
        },
{
    let bytes = text.as_bytes();
    match read_v4(bytes) {
        Some(octets) => Some(IpAddress::V4(octets)),
        None => match read_v6(bytes) {
            Some(octets) => Some(IpAddress::V6(octets)),
            None => None,
        },
    }
}

fn all_zero(octets: &Vec<u8>) -> (yes: bool)
    ensures
        yes == zeros(octets@),
{
    let mut i: usize = 0;
    while i < octets.len()
        invariant
            i <= octets@.len(),
            forall|j: int| 0 <= j < i ==> octets@[j] == 0,
        decreases octets@.len() - i,
    {
        if octets[i] != 0 {
            return false;
        }
        i = i + 1;
    }
    true
}

impl IpAddress {
    /// Whether the address has only zero octets.
    pub fn is_unspecified(&self) -> (yes: bool)
        ensures
            yes == is_unspecified(self@),
    {
        match self {
            IpAddress::V4(octets) => all_zero(octets),
            IpAddress::V6(octets) => all_zero(octets),
        }
    }

    /// Whether the address ranks above another.
    pub fn ranks_above(&self, other: &IpAddress) -> (above: bool)
        ensures
            above == outranks(self@, other@),
    {
        match (self, other) {
            (IpAddress::V4(a), IpAddress::V4(b)) => comes_before(b.as_slice(), a.as_slice()),
            (IpAddress::V6(a), IpAddress::V6(b)) => comes_before(b.as_slice(), a.as_slice()),
            (IpAddress::V6(_), IpAddress::V4(_)) => true,
            (IpAddress::V4(_), IpAddress::V6(_)) => false,
        }
    }
}

/// Whether one's own host ranks above a peer.
pub fn host_ranks_above(local: &str, peer: &str) -> (above: bool)
    ensures
        above == text_outranks(local@, peer@),
{
    if let Some(own) = parse_address(local) {
        if own.is_unspecified() {
            return true;
        }
        if let Some(other) = parse_address(peer) {
            return own.ranks_above(&other);
        }
    }
    comes_before(peer.as_bytes(), local.as_bytes())
}

/// Of two different hosts exactly one ranks above the other, so exactly one of
/// them dials.
pub proof fn one_side_dials(a: Seq<char>, b: Seq<char>)
    requires
        a != b,
        address(encode_utf8(a)) matches Some(own) ==> !is_unspecified(own),
        address(encode_utf8(b)) matches Some(own) ==> !is_unspecified(own),
        address(encode_utf8(a)) is Some ==> address(encode_utf8(a)) != address(encode_utf8(b)),
    ensures
        text_outranks(a, b) != text_outranks(b, a),
{
    vstd::utf8::encode_utf8_decode_utf8(a);
    vstd::utf8::encode_utf8_decode_utf8(b);
    let (x, y) = (encode_utf8(a), encode_utf8(b));
    precedes_is_an_order(x, y, x);
    match (address(x), address(y)) {
        (Some(AddressV::V4(p)), Some(AddressV::V4(q))) => {
            precedes_is_an_order(p, q, p);
        },
        (Some(AddressV::V6(p)), Some(AddressV::V6(q))) => {
            precedes_is_an_order(p, q, p);
        },
        _ => {},
    }
}

/// The address with the larger number at the first place where two differ ranks above
/// the other, and any address of version 6 above any of version 4.
pub proof fn larger_numbers_rank_higher(head: Seq<u8>, a: Seq<u8>, b: Seq<u8>, x: Seq<u8>, y: Seq<u8>)
    requires
        a.len() > 0,
        b.len() > 0,
        a[0] > b[0],
    ensures
        outranks(AddressV::V4(head + a), AddressV::V4(head + b)),
        !outranks(AddressV::V4(head + b), AddressV::V4(head + a)),
        outranks(AddressV::V6(head + a), AddressV::V6(head + b)),
        !outranks(AddressV::V6(head + b), AddressV::V6(head + a)),
        outranks(AddressV::V6(x), AddressV::V4(y)),
        !outranks(AddressV::V4(y), AddressV::V6(x)),
{
    crate::text::first_difference_decides(head, b, a);
}

/// Hosts that are written as addresses rank as the addresses do; a host whose own
/// address is unspecified ranks above every other.
pub proof fn hosts_rank_as_their_addresses(local: Seq<char>, peer: Seq<char>)
    ensures
        address(encode_utf8(local)) matches Some(own) && is_unspecified(own) ==> text_outranks(
            local,
            peer,
        ),
        address(encode_utf8(local)) matches Some(own) ==> (address(
            encode_utf8(peer),
        ) matches Some(other) ==> (!is_unspecified(own) ==> (text_outranks(local, peer)
            <==> outranks(own, other)))),
        address(encode_utf8(local)) is None ==> (text_outranks(local, peer) <==> precedes(
            encode_utf8(peer),
            encode_utf8(local),
        )),
{
}

/// A further digit of a base makes a number that many times as large and adds itself;
/// anything else makes it none. Decimal digits are those from 0 to 9, hexadecimal ones
/// also the letters from a to f in either case.
pub proof fn digits_make_numbers(digits: Seq<u8>, byte: u8, base: nat)
    requires
        base <= 16,
    ensures
        number(seq![], base) == Some(0nat),
        number(digits.push(byte), base) == (match (number(digits, base), digit(byte, base)) {
            (Some(front), Some(last)) => Some(front * base + last),
            _ => None,
        }),
        48 <= byte <= 57 && byte - 48 < base ==> digit(byte, base) == Some((byte - 48) as nat),
        97 <= byte <= 102 && byte - 87 < base ==> digit(byte, base) == Some((byte - 87) as nat),
        65 <= byte <= 70 && byte - 55 < base ==> digit(byte, base) == Some((byte - 55) as nat),
        !(48 <= byte <= 57) && !(97 <= byte <= 102) && !(65 <= byte <= 70) ==> digit(
            byte,
            base,
        ) is None,
{
    assert(digits.push(byte).drop_last() =~= digits);
}

/// A number of a version 4 address has one to three digits, is 255 at most and does not
/// begin with a zero, unless it is zero.
pub proof fn octets_are_small_numbers(text: Seq<u8>)
    ensures
        octet(text) matches Some(value) ==> number(text, 10) == Some(value as nat),
        octet(text) is Some <==> {
            &&& 1 <= text.len() <= 3
            &&& number(text, 10) matches Some(value) && value <= 255
            &&& text.len() > 1 ==> text[0] != 48
        },
{
}

proof fn lemma_pieces(text: Seq<u8>, tail: Seq<u8>, separator: u8)
    requires
        forall|i: int| 0 <= i < tail.len() ==> tail[i] != separator,
    ensures
        pieces(tail, separator) == seq![tail],
        pieces(text + seq![separator] + tail, separator) == pieces(text, separator).push(tail),
    decreases tail.len(),
{
    let all = text + seq![separator] + tail;
    if tail.len() == 0 {
        assert(all.last() == separator);
        assert(all.drop_last() =~= text);
        assert(tail =~= Seq::<u8>::empty());
        assert(pieces(tail, separator) =~= seq![tail]);
    } else {
        let front = tail.drop_last();
        assert forall|i: int| 0 <= i < front.len() implies front[i] != separator by {
            assert(front[i] == tail[i]);
        }
        lemma_pieces(text, front, separator);
        assert(all.last() == tail.last());
        assert(tail[tail.len() - 1] != separator);
        assert(all.drop_last() =~= text + seq![separator] + front);
        assert(front.push(tail.last()) =~= tail);
        let held = pieces(text, separator);
        assert(held.push(front).drop_last() =~= held);
        assert(seq![front].drop_last().push(tail) =~= seq![tail]);
    }
}

/// Four numbers between dots are a version 4 address of these numbers.
pub proof fn four_numbers_are_an_address(p: Seq<u8>, q: Seq<u8>, r: Seq<u8>, s: Seq<u8>)
    requires
        octet(p) is Some,
        octet(q) is Some,
        octet(r) is Some,
        octet(s) is Some,
        forall|i: int| 0 <= i < p.len() ==> p[i] != 46,
        forall|i: int| 0 <= i < q.len() ==> q[i] != 46,
        forall|i: int| 0 <= i < r.len() ==> r[i] != 46,
        forall|i: int| 0 <= i < s.len() ==> s[i] != 46,
    ensures
        address(p + seq![46u8] + q + seq![46u8] + r + seq![46u8] + s) == Some(
            AddressV::V4(seq![octet(p)->0, octet(q)->0, octet(r)->0, octet(s)->0]),
        ),
{
    lemma_pieces(p, p, 46);
    lemma_pieces(p, q, 46);
    lemma_pieces(p + seq![46u8] + q, r, 46);
    lemma_pieces(p + seq![46u8] + q + seq![46u8] + r, s, 46);
    let parts = pieces(p + seq![46u8] + q + seq![46u8] + r + seq![46u8] + s, 46);
    assert(parts =~= seq![p, q, r, s]);
}

/// An address is unspecified exactly when all its numbers are zero.
pub proof fn unspecified_means_zero(octets: Seq<u8>)
    ensures
        is_unspecified(AddressV::V4(octets)) <==> !(exists|i: int|
            0 <= i < octets.len() && octets[i] != 0),
        is_unspecified(AddressV::V6(octets)) <==> !(exists|i: int|
            0 <= i < octets.len() && octets[i] != 0),
{
}

} // verus!
