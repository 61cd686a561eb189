use vstd::prelude::*;

use crate::number::{
    div_round_half_even, div_round_half_even_exec, hundredths, int_as_f64, int_as_f64_exec,
    lemma_int_as_f64_exact, lemma_rounding_error, push_hundredths,
};
use crate::text::{decimal, push_decimal};

verus! {

/// What the capture reports of one packet.
#[derive(Clone)]
pub struct NetworkPacket {
    /// Size of the captured frame in bytes.
    pub length: usize,
    /// `length` in human-readable form (see `get_length_str`).
    pub length_str: String,
    /// Protocol label such as `"TCP / IPv4"`.
    pub protocol: String,
    /// Source address, `"-"` when unknown.
    pub src_ip: String,
    /// Destination address, `"-"` when unknown.
    pub dst_ip: String,
    /// Whether the frame carried an IPv4 or IPv6 packet that could be read.
    pub identified: bool,
}

impl NetworkPacket {
    /// The packet with the given fields.
    pub fn new(
        length: usize,
        length_str: String,
        protocol: String,
        src_ip: String,
        dst_ip: String,
        identified: bool,
    ) -> (r: NetworkPacket)
        ensures
            r.length == length,
            r.length_str@ == length_str@,
            r.protocol@ == protocol@,
            r.src_ip@ == src_ip@,
            r.dst_ip@ == dst_ip@,
            r.identified == identified,
    {
        NetworkPacket { length, length_str, protocol, src_ip, dst_ip, identified }
    }

    /// A field-by-field copy.
    pub fn duplicate(&self) -> (r: NetworkPacket)
        ensures
            r.length == self.length,
            r.length_str@ == self.length_str@,
            r.protocol@ == self.protocol@,
            r.src_ip@ == self.src_ip@,
            r.dst_ip@ == self.dst_ip@,
            r.identified == self.identified,
    {
        NetworkPacket {
            length: self.length,
            length_str: self.length_str.clone(),
            protocol: self.protocol.clone(),
            src_ip: self.src_ip.clone(),
            dst_ip: self.dst_ip.clone(),
            identified: self.identified,
        }
    }
}

impl Default for NetworkPacket {
    /// An empty, unidentified packet: protocol `"Unknown"`, addresses `"-"`.
    fn default() -> (r: NetworkPacket)
        ensures
            r.length == 0,
            r.length_str@ == Seq::<char>::empty(),
            r.protocol@ == "Unknown"@,
            r.src_ip@ == "-"@,
            r.dst_ip@ == "-"@,
            !r.identified,
    {
        NetworkPacket {
            length: 0,
            length_str: String::new(),
            protocol: String::from_str("Unknown"),
            src_ip: String::from_str("-"),
            dst_ip: String::from_str("-"),
            identified: false,
        }
    }
}

/// Hundredths of a kibibyte in `length` bytes, as `{:.2}` rounds `length as f64 / 1024.0`.
pub open spec fn kib_hundredths(length: nat) -> nat {
    div_round_half_even(length * 100, 1024)
}

/// Hundredths of a mebibyte in `length` bytes, as `{:.2}` rounds `length as f64 / 1048576.0`.
pub open spec fn mib_hundredths(length: nat) -> nat {
    div_round_half_even(int_as_f64(length) * 100, 1048576)
}

/// The human-readable size: bytes below 1000, kibibytes below a million, mebibytes above.
pub open spec fn length_text(length: nat) -> Seq<char> {
    if length < 1000 {
        decimal(length) + " Б"@
    } else if length < 1_000_000 {
        hundredths(kib_hundredths(length)) + " КБ"@
    } else {
        hundredths(mib_hundredths(length)) + " МБ"@
    }
}

/// The kibibyte figure is within half a hundredth of `length / 1024`:
/// `|kib_hundredths(length) / 100 - length / 1024| <= 1 / 200`.
pub proof fn lemma_kib_within_half_hundredth(length: nat)
    ensures
        2 * length * 100 <= 2 * kib_hundredths(length) * 1024 + 1024,
        2 * kib_hundredths(length) * 1024 <= 2 * length * 100 + 1024,
{
    lemma_rounding_error(length * 100, 1024);
}

/// Below `2^53` bytes the mebibyte figure is within half a hundredth of
/// `length / 1048576` (the conversion to a double is exact there).
pub proof fn lemma_mib_within_half_hundredth(length: nat)
    requires
        length < 0x20_0000_0000_0000,
    ensures
        2 * length * 100 <= 2 * mib_hundredths(length) * 1048576 + 1048576,
        2 * mib_hundredths(length) * 1048576 <= 2 * length * 100 + 1048576,
{
    lemma_int_as_f64_exact(length);
    lemma_rounding_error(length * 100, 1048576);
}

/// Converts a packet length to a string: `"<n> Б"` below 1000 bytes, `"<x.xx> КБ"`
/// (kibibytes) below 1 000 000 bytes, `"<x.xx> МБ"` (mebibytes) from there on.
pub fn get_length_str(length: usize) -> (r: String)
    ensures
        r@ == length_text(length as nat),
{
    let mut s = String::new();
    if length < 1000 {
        push_decimal(&mut s, length as u64);
        s.append(" Б");
    } else if length >= 1000 && length < 1_000_000 {
        let n = div_round_half_even_exec((length as u128) * 100, 1024);
        assert(n <= 100_000_000);
        push_hundredths(&mut s, n as u64);
        s.append(" КБ");
    } else {
        let f = int_as_f64_exec(length as u64);
        let n = div_round_half_even_exec(f * 100, 1048576);
        assert(n <= 0x1_0000_0000_0000_0000 * 100 / 1048576 + 1);
        push_hundredths(&mut s, n as u64);
        s.append(" МБ");
    }
    s
}

/// Sizes below 1000 bytes are written exactly, in bytes. From 1000 to 999 999 bytes the
/// size is written in kibibytes with the hundredths `n` nearest to `length / 1024`
/// (a tie going to the even `n`).
pub proof fn lemma_length_text_shape(length: nat, n: nat)
    ensures
        length < 1000 ==> length_text(length) == decimal(length) + " Б"@,
        1000 <= length < 1_000_000 && 2 * n * 1024 < 2 * length * 100 + 1024 && 2 * length * 100
            < 2 * n * 1024 + 1024 ==> length_text(length) == hundredths(n) + " КБ"@,
        1000 <= length < 1_000_000 && (2 * n * 1024 == 2 * length * 100 + 1024 || 2 * length
            * 100 == 2 * n * 1024 + 1024) && n % 2 == 0 ==> length_text(length) == hundredths(n)
            + " КБ"@,
{
    if 1000 <= length < 1_000_000 {
        let a = length * 100;
        let q = a / 1024;
        let r = a % 1024;
        assert(a == q * 1024 + r && r < 1024);
        let k = kib_hundredths(length);
        lemma_kib_within_half_hundredth(length);
        // Two integers within half a unit of the same value on both sides are equal.
        if 2 * n * 1024 < 2 * length * 100 + 1024 && 2 * length * 100 < 2 * n * 1024 + 1024 {
            assert(k == n) by (nonlinear_arith)
                requires
                    2 * n * 1024 < 2 * a + 1024,
                    2 * a < 2 * n * 1024 + 1024,
                    2 * a <= 2 * k * 1024 + 1024,
                    2 * k * 1024 <= 2 * a + 1024;
        }
        if (2 * n * 1024 == 2 * a + 1024 || 2 * a == 2 * n * 1024 + 1024) && n % 2 == 0 {
            assert(2 * r == 1024 && (n == q || n == q + 1)) by (nonlinear_arith)
                requires
                    a == q * 1024 + r,
                    r < 1024,
                    2 * n * 1024 == 2 * a + 1024 || 2 * a == 2 * n * 1024 + 1024;
        }
    }
}

} // verus!
