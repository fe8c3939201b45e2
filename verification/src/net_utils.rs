use vstd::prelude::*;

use crate::text::{lit, push_hex_digit, spec_hex_digit};

verus! {

use vstd::string::StringSliceAdditionalSpecFns;

/// FNV-1a over `s`, the usual 64-bit offset basis and prime.
pub open spec fn spec_fnv1a(s: Seq<u8>) -> u64
    decreases s.len(),
{
    if s.len() == 0 {
        0xcbf2_9ce4_8422_2325u64
    } else {
        vstd::wrapping::u64_specs::wrapping_mul(
            spec_fnv1a(s.drop_last()) ^ (s.last() as u64),
            0x0000_0100_0000_01b3u64,
        )
    }
}

/// FNV-1a of `s`.
pub fn fnv1a(s: &Vec<u8>) -> (r: u64)
    ensures
        r == spec_fnv1a(s@),
{
    let mut h: u64 = 0xcbf2_9ce4_8422_2325;
    let mut i: usize = 0;
    while i < s.len()
        invariant
            i <= s@.len(),
            h == spec_fnv1a(s@.subrange(0, i as int)),
        decreases s@.len() - i,
    {
        h = (h ^ (s[i] as u64)).wrapping_mul(0x0000_0100_0000_01b3);
        i = i + 1;
        assert(s@.subrange(0, i as int).drop_last() =~= s@.subrange(0, i - 1));
    }
    assert(s@.subrange(0, s@.len() as int) =~= s@);
    h
}

/// The hex digits of the low 44 bits of `h`, most significant nibble first.
pub open spec fn spec_hash_digits(h: u64) -> Seq<u8> {
    Seq::new(11, |j: int| spec_hex_digit(((h >> ((40 - 4 * j) as u64)) & 0xff) as u8))
}

/// The host-side interface name for an instance: `tap_` followed by eleven
/// hex digits of a hash of the instance id. Deterministic, so that an
/// orphan sweep can find interfaces left behind by a previous agent run;
/// 15 bytes, the kernel's limit on interface names.
pub open spec fn spec_tap_name(instance_id: Seq<u8>) -> Seq<u8> {
    "tap_".spec_bytes() + spec_hash_digits(spec_fnv1a(instance_id))
}

/// The tap device name derived from `instance_id`.
pub fn tap_name(instance_id: &Vec<u8>) -> (r: Vec<u8>)
    ensures
        r@ == spec_tap_name(instance_id@),
{
    let h = fnv1a(instance_id);
    let mut out = lit("tap_");
    let mut j: usize = 0;
    while j < 11
        invariant
            j <= 11,
            h == spec_fnv1a(instance_id@),
            out@ == "tap_".spec_bytes() + spec_hash_digits(h).subrange(0, j as int),
        decreases 11 - j,
    {
        let shift: u64 = 40 - 4 * (j as u64);
        push_hex_digit(&mut out, ((h >> shift) & 0xff) as u8);
        j = j + 1;
        assert(out@ =~= "tap_".spec_bytes() + spec_hash_digits(h).subrange(0, j as int));
    }
    assert(out@ =~= spec_tap_name(instance_id@));
    out
}

/// The tap name is at most 15 bytes, as the kernel requires.
pub proof fn lemma_tap_name_len(instance_id: Seq<u8>)
    ensures
        spec_tap_name(instance_id).len() == 15,
{
    broadcast use vstd::string::group_string_axioms;

    reveal_strlit("tap_");
    assert(vstd::utf8::is_ascii_chars("tap_"@));
    vstd::utf8::is_ascii_chars_encode_utf8("tap_"@);
}

/// The comment tag that keys an instance's firewall rules: `rik/` followed
/// by the instance id, so that removal can match exactly this instance.
pub open spec fn spec_rule_tag(instance_id: Seq<u8>) -> Seq<u8> {
    "rik/".spec_bytes() + instance_id
}

/// The firewall comment tag for `instance_id`.
pub fn rule_tag(instance_id: &Vec<u8>) -> (r: Vec<u8>)
    ensures
        r@ == spec_rule_tag(instance_id@),
{
    let mut out = lit("rik/");
    crate::text::push_bytes(&mut out, instance_id.as_slice());
    out
}

/// A guest MAC address drawn from six bytes of entropy: the first byte
/// keeps its six high entropy bits but gets the locally-administered bit
/// set and the multicast bit cleared, so the address is always a valid
/// locally-administered unicast one.
pub fn mac_from_entropy(entropy: &[u8; 6]) -> (r: Vec<u8>)
    ensures
        r@.len() == 6,
        r@[0] == (entropy@[0] & 0xfc) | 0x02,
        r@[0] & 0x01 == 0,
        r@[0] & 0x02 == 0x02,
        forall|i: int| 1 <= i < 6 ==> r@[i] == entropy@[i],
{
    let mut out: Vec<u8> = Vec::new();
    let b0: u8 = (entropy[0] & 0xfc) | 0x02;
    assert(forall|x: u8| ((x & 0xfc) | 0x02) & 0x01 == 0) by (bit_vector);
    assert(forall|x: u8| ((x & 0xfc) | 0x02) & 0x02 == 0x02) by (bit_vector);
    out.push(b0);
    out.push(entropy[1]);
    out.push(entropy[2]);
    out.push(entropy[3]);
    out.push(entropy[4]);
    out.push(entropy[5]);
    out
}

/// A byte sequence as colon-separated hex pairs, `ab:cd:...`.
pub open spec fn spec_hex_pairs(s: Seq<u8>) -> Seq<u8>
    decreases s.len(),
{
    if s.len() == 0 {
        Seq::empty()
    } else if s.len() == 1 {
        seq![spec_hex_digit((s[0] >> 4) as u8), spec_hex_digit(s[0])]
    } else {
        spec_hex_pairs(s.drop_last()) + seq![
            58u8,
            spec_hex_digit((s.last() >> 4) as u8),
            spec_hex_digit(s.last()),
        ]
    }
}

/// A MAC address as colon-separated hex pairs.
pub fn mac_to_text(mac: &Vec<u8>) -> (r: Vec<u8>)
    ensures
        r@ == spec_hex_pairs(mac@),
{
    let mut out: Vec<u8> = Vec::new();
    let mut i: usize = 0;
    while i < mac.len()
        invariant
            i <= mac@.len(),
            out@ == spec_hex_pairs(mac@.subrange(0, i as int)),
        decreases mac@.len() - i,
    {
        if i > 0 {
            out.push(58);
        }
        push_hex_digit(&mut out, mac[i] >> 4);
        push_hex_digit(&mut out, mac[i]);
        i = i + 1;
        assert(mac@.subrange(0, i as int).drop_last() =~= mac@.subrange(0, i - 1));
        assert(out@ =~= spec_hex_pairs(mac@.subrange(0, i as int)));
    }
    assert(mac@.subrange(0, mac@.len() as int) =~= mac@);
    out
}

} // verus!
