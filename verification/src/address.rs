use vstd::prelude::*;

use crate::text::{decimal, hex, push_char, push_decimal, push_hex};

verus! {

/// Dotted-decimal text of an IPv4 address, e.g. `192.168.0.1`.
pub open spec fn ipv4_text(octets: Seq<u8>) -> Seq<char> {
    decimal(octets[0] as nat) + seq!['.'] + decimal(octets[1] as nat) + seq!['.'] + decimal(
        octets[2] as nat,
    ) + seq!['.'] + decimal(octets[3] as nat)
}

/// Number of consecutive zero segments starting at `i`.
pub open spec fn zero_run(seg: Seq<u16>, i: int) -> nat
    decreases seg.len() - i,
{
    if 0 <= i < seg.len() && seg[i] == 0 {
        1 + zero_run(seg, i + 1)
    } else {
        0
    }
}

/// Start and length of the first longest run of zero segments at or after `i`
/// (`(0, 0)` where there is none).
pub open spec fn longest_zero_run(seg: Seq<u16>, i: int) -> (int, nat)
    decreases seg.len() - i,
{
    if i < 0 || i >= seg.len() {
        (0, 0)
    } else {
        let rest = longest_zero_run(seg, i + 1);
        let here = zero_run(seg, i);
        if here > 0 && here >= rest.1 {
            (i, here)
        } else {
            rest
        }
    }
}

/// Segments in lowercase hexadecimal, separated by colons.
pub open spec fn join_hex(s: Seq<u16>) -> Seq<char>
    decreases s.len(),
{
    if s.len() == 0 {
        Seq::empty()
    } else if s.len() == 1 {
        hex(s[0] as nat)
    } else {
        join_hex(s.drop_last()) + seq![':'] + hex(s.last() as nat)
    }
}

/// `::ffff:a.b.c.d`, an IPv4 address mapped into IPv6.
pub open spec fn is_ipv4_mapped(seg: Seq<u16>) -> bool {
    &&& seg[0] == 0
    &&& seg[1] == 0
    &&& seg[2] == 0
    &&& seg[3] == 0
    &&& seg[4] == 0
    &&& seg[5] == 0xffff
}

/// The octets `a.b.c.d` held by the last two segments.
pub open spec fn embedded_ipv4(seg: Seq<u16>) -> Seq<u8> {
    seq![
        (seg[6] / 256) as u8,
        (seg[6] % 256) as u8,
        (seg[7] / 256) as u8,
        (seg[7] % 256) as u8,
    ]
}

/// Canonical text of an IPv6 address given by its eight segments: IPv4-mapped addresses
/// as `::ffff:a.b.c.d`; otherwise the segments in lowercase hexadecimal without leading
/// zeros, the first longest run of two or more zero segments replaced by `::`.
pub open spec fn ipv6_text(seg: Seq<u16>) -> Seq<char> {
    if is_ipv4_mapped(seg) {
        seq![':', ':', 'f', 'f', 'f', 'f', ':'] + ipv4_text(embedded_ipv4(seg))
    } else {
        let (start, len) = longest_zero_run(seg, 0);
        if len > 1 {
            join_hex(seg.subrange(0, start)) + seq![':', ':'] + join_hex(
                seg.subrange(start + len, seg.len() as int),
            )
        } else {
            join_hex(seg)
        }
    }
}

fn push_ipv4(s: &mut String, octets: &[u8; 4])
    ensures
        final(s)@ == old(s)@ + ipv4_text(octets@),
{
    push_decimal(s, octets[0] as u64);
    push_char(s, '.');
    push_decimal(s, octets[1] as u64);
    push_char(s, '.');
    push_decimal(s, octets[2] as u64);
    push_char(s, '.');
    push_decimal(s, octets[3] as u64);
}

/// Renders an IPv4 address as `Ipv4Addr`'s `Display` does.
pub fn ipv4_to_string(octets: &[u8; 4]) -> (r: String)
    ensures
        r@ == ipv4_text(octets@),
{
    let mut s = String::new();
    push_ipv4(&mut s, octets);
    s
}

proof fn lemma_join_hex_push(s: Seq<u16>, x: u16)
    requires
        s.len() > 0,
    ensures
        join_hex(s.push(x)) == join_hex(s) + seq![':'] + hex(x as nat),
{
    assert(s.push(x).drop_last() =~= s);
}

/// Appends `join_hex(seg[from..to])`.
fn push_join_hex(s: &mut String, seg: &[u16; 8], from: usize, to: usize)
    requires
        from <= to <= 8,
    ensures
        final(s)@ == old(s)@ + join_hex(seg@.subrange(from as int, to as int)),
{
    let ghost start = s@;
    let mut k = from;
    assert(seg@.subrange(from as int, from as int) =~= Seq::<u16>::empty());
    while k < to
        invariant
            from <= k <= to <= 8,
            s@ == start + join_hex(seg@.subrange(from as int, k as int)),
        decreases to - k,
    {
        let ghost before = seg@.subrange(from as int, k as int);
        assert(seg@.subrange(from as int, k + 1) =~= before.push(seg@[k as int]));
        if k > from {
            push_char(s, ':');
            proof {
                lemma_join_hex_push(before, seg@[k as int]);
            }
        } else {
            assert(seg@.subrange(from as int, k + 1) =~= seq![seg@[k as int]]);
        }
        push_hex(s, seg[k] as u64);
        k = k + 1;
    }
}

/// Renders an IPv6 address as `Ipv6Addr`'s `Display` does.
pub fn ipv6_to_string(seg: &[u16; 8]) -> (r: String)
    ensures
        r@ == ipv6_text(seg@),
{
    let mut s = String::new();
    if seg[0] == 0 && seg[1] == 0 && seg[2] == 0 && seg[3] == 0 && seg[4] == 0 && seg[5]
        == 0xffff {
        push_char(&mut s, ':');
        push_char(&mut s, ':');
        push_char(&mut s, 'f');
        push_char(&mut s, 'f');
        push_char(&mut s, 'f');
        push_char(&mut s, 'f');
        push_char(&mut s, ':');
        let octets: [u8; 4] = [
            (seg[6] / 256) as u8,
            (seg[6] % 256) as u8,
            (seg[7] / 256) as u8,
            (seg[7] % 256) as u8,
        ];
        assert(octets@ =~= embedded_ipv4(seg@));
        push_ipv4(&mut s, &octets);
        return s;
    }
    // Scan from the end, tracking the zero run starting at `i` and the longest run after it.

    let mut i: usize = 8;
    let mut run: usize = 0;
    let mut best_start: usize = 0;
    let mut best_len: usize = 0;
    while i > 0
        invariant
            i <= 8,
            run == zero_run(seg@, i as int),
            (best_start as int, best_len as nat) == longest_zero_run(seg@, i as int),
            run <= 8 - i,
            best_start + best_len <= 8,
        decreases i,
    {
        i = i - 1;
        if seg[i] == 0 {
            run = run + 1;
        } else {
            run = 0;
        }
        if run > 0 && run >= best_len {
            best_start = i;
            best_len = run;
        }
        proof {
            reveal_with_fuel(zero_run, 2);
            reveal_with_fuel(longest_zero_run, 2);
        }
    }
    if best_len > 1 {
        push_join_hex(&mut s, seg, 0, best_start);
        push_char(&mut s, ':');
        push_char(&mut s, ':');
        push_join_hex(&mut s, seg, best_start + best_len, 8);
    } else {
        push_join_hex(&mut s, seg, 0, 8);
        assert(seg@.subrange(0, 8) =~= seg@);
    }
    s
}

proof fn lemma_longest_bounded(seg: Seq<u16>, i: int, len: nat)
    requires
        forall|j: int| 0 <= j < seg.len() ==> zero_run(seg, j) <= len,
    ensures
        longest_zero_run(seg, i).1 <= len,
    decreases seg.len() - i,
{
    if 0 <= i < seg.len() {
        lemma_longest_bounded(seg, i + 1, len);
    }
}

proof fn lemma_longest_found(seg: Seq<u16>, i: int, start: int, len: nat)
    requires
        0 <= i <= start < seg.len(),
        len > 0,
        zero_run(seg, start) == len,
        forall|j: int| 0 <= j < seg.len() ==> zero_run(seg, j) <= len,
        forall|j: int| 0 <= j < start ==> zero_run(seg, j) < len,
    ensures
        longest_zero_run(seg, i) == (start, len),
    decreases start - i,
{
    if i < start {
        lemma_longest_found(seg, i + 1, start, len);
    } else {
        lemma_longest_bounded(seg, i + 1, len);
    }
}

/// How an IPv6 address is shortened: when the first longest run of zero segments starts
/// at `start` and has `len >= 2` segments, exactly that run is replaced by `::`, the
/// segments before and after it written in hexadecimal separated by colons.
pub proof fn lemma_ipv6_compression(seg: Seq<u16>, start: int, len: nat)
    requires
        seg.len() == 8,
        !is_ipv4_mapped(seg),
        0 <= start < 8,
        len >= 2,
        zero_run(seg, start) == len,
        forall|j: int| 0 <= j < 8 ==> zero_run(seg, j) <= len,
        forall|j: int| 0 <= j < start ==> zero_run(seg, j) < len,
    ensures
        ipv6_text(seg) == join_hex(seg.subrange(0, start)) + seq![':', ':'] + join_hex(
            seg.subrange(start + len, 8),
        ),
{
    lemma_longest_found(seg, 0, start, len);
}

/// Without two consecutive zero segments, every segment is written, in hexadecimal,
/// separated by colons; an IPv4-mapped address is written `::ffff:` and its dotted
/// IPv4 address.
pub proof fn lemma_ipv6_uncompressed(seg: Seq<u16>)
    requires
        seg.len() == 8,
    ensures
        is_ipv4_mapped(seg) ==> ipv6_text(seg) == seq![':', ':', 'f', 'f', 'f', 'f', ':']
            + ipv4_text(embedded_ipv4(seg)),
        !is_ipv4_mapped(seg) && (forall|j: int| 0 <= j < 8 ==> zero_run(seg, j) <= 1)
            ==> ipv6_text(seg) == join_hex(seg),
{
    if forall|j: int| 0 <= j < 8 ==> zero_run(seg, j) <= 1 {
        lemma_longest_bounded(seg, 0, 1);
    }
}

} // verus!
