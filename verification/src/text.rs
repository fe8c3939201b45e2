use vstd::prelude::*;

verus! {

use vstd::string::StringSliceAdditionalSpecFns;

/// The decimal digits of `x`, most significant first, as ASCII bytes.
pub open spec fn spec_decimal(x: nat) -> Seq<u8>
    decreases x,
{
    if x < 10 {
        seq![(48 + x) as u8]
    } else {
        spec_decimal(x / 10).push((48 + x % 10) as u8)
    }
}

/// Append the decimal digits of `x` to `out`.
pub fn push_decimal(out: &mut Vec<u8>, x: u32)
    ensures
        final(out)@ == old(out)@ + spec_decimal(x as nat),
    decreases x,
{
    if x < 10 {
        out.push((48 + x) as u8);
        assert(out@ =~= old(out)@ + spec_decimal(x as nat));
    } else {
        push_decimal(out, x / 10);
        out.push((48 + x % 10) as u8);
        assert(out@ =~= old(out)@ + spec_decimal(x as nat));
    }
}

/// Append all of `s` to `out`.
pub fn push_bytes(out: &mut Vec<u8>, s: &[u8])
    ensures
        final(out)@ == old(out)@ + s@,
{
    let mut i: usize = 0;
    while i < s.len()
        invariant
            i <= s@.len(),
            out@ == old(out)@ + s@.subrange(0, i as int),
        decreases s@.len() - i,
    {
        out.push(s[i]);
        i = i + 1;
        assert(out@ =~= old(out)@ + s@.subrange(0, i as int));
    }
    assert(out@ =~= old(out)@ + s@);
}

/// An IPv4 address in dotted-decimal notation, as ASCII bytes.
pub open spec fn spec_ipv4(ip: u32) -> Seq<u8> {
    spec_decimal(((ip >> 24) & 0xff) as nat) + seq![46u8] + spec_decimal(
        ((ip >> 16) & 0xff) as nat,
    ) + seq![46u8] + spec_decimal(((ip >> 8) & 0xff) as nat) + seq![46u8] + spec_decimal(
        (ip & 0xff) as nat,
    )
}

/// Append the dotted-decimal form of `ip` to `out`.
pub fn push_ipv4(out: &mut Vec<u8>, ip: u32)
    ensures
        final(out)@ == old(out)@ + spec_ipv4(ip),
{
    push_decimal(out, (ip >> 24) & 0xff);
    out.push(46);
    push_decimal(out, (ip >> 16) & 0xff);
    out.push(46);
    push_decimal(out, (ip >> 8) & 0xff);
    out.push(46);
    push_decimal(out, ip & 0xff);
    assert(out@ =~= old(out)@ + spec_ipv4(ip));
}

/// The dotted-decimal form of `ip` as a fresh byte string.
pub fn ipv4_to_bytes(ip: u32) -> (r: Vec<u8>)
    ensures
        r@ == spec_ipv4(ip),
{
    let mut out: Vec<u8> = Vec::new();
    push_ipv4(&mut out, ip);
    assert(out@ =~= spec_ipv4(ip));
    out
}

/// The bytes of an ASCII string constant.
pub fn lit(s: &str) -> (r: Vec<u8>)
    ensures
        r@ == s.spec_bytes(),
{
    vstd::slice::slice_to_vec(s.as_bytes())
}

/// A fresh copy of a byte string.
pub fn copy_bytes(v: &Vec<u8>) -> (r: Vec<u8>)
    ensures
        r@ == v@,
{
    vstd::slice::slice_to_vec(v.as_slice())
}

/// Whether two byte strings hold the same bytes.
pub fn bytes_eq(a: &Vec<u8>, b: &Vec<u8>) -> (r: bool)
    ensures
        r == (a@ == b@),
{
    if a.len() != b.len() {
        assert(a@ != b@);
        return false;
    }
    let n = a.len();
    let mut i: usize = 0;
    while i < n
        invariant
            n == a@.len() == b@.len(),
            i <= n,
            forall|j: int| 0 <= j < i ==> a@[j] == b@[j],
        decreases n - i,
    {
        if a[i] != b[i] {
            return false;
        }
        i = i + 1;
    }
    assert(a@ =~= b@);
    true
}

/// The low 4 bits of `x` as an ASCII hex digit (lower case).
pub open spec fn spec_hex_digit(x: u8) -> u8 {
    if x & 0xf < 10 {
        ((x & 0xf) + 48) as u8
    } else {
        ((x & 0xf) + 87) as u8
    }
}

/// Append one hex digit for the low 4 bits of `x`.
pub fn push_hex_digit(out: &mut Vec<u8>, x: u8)
    ensures
        final(out)@ == old(out)@ + seq![spec_hex_digit(x)],
{
    let d: u8 = x & 0xf;
    assert(x & 0xf < 16) by (bit_vector);
    if d < 10 {
        out.push(d + 48);
    } else {
        out.push(d + 87);
    }
    assert(out@ =~= old(out)@ + seq![spec_hex_digit(x)]);
}

} // verus!
