use vstd::prelude::*;
use vstd::arithmetic::power2::{lemma2_to64, pow2};
use vstd::bits::lemma_u16_shl_is_mul;
use vstd::set_lib::{lemma_int_range, lemma_len_subset, lemma_map_size_bound, set_int_range};

verus! {

/// Distance between two neighbouring levels when a byte keeps `bit_depth` bits:
/// `256 / 2^bit_depth`.
pub open spec fn level_step(bit_depth: nat) -> nat {
    256nat / pow2(bit_depth)
}

/// Byte `b` brought down to the nearest level at or below it: `⌊b / step⌋ · step`.
pub open spec fn quantized(b: u8, bit_depth: nat) -> u8 {
    (b as nat / level_step(bit_depth) * level_step(bit_depth)) as u8
}

/// Every byte of `pixels` quantized to `bit_depth` bits.
pub open spec fn quantized_all(pixels: Seq<u8>, bit_depth: nat) -> Seq<u8> {
    pixels.map_values(|b: u8| quantized(b, bit_depth))
}

/// For `1 <= bit_depth <= 8` the levels tile the byte range exactly.
proof fn lemma_levels_tile(bit_depth: nat)
    requires
        1 <= bit_depth <= 8,
    ensures
        1 <= level_step(bit_depth) <= 128,
        level_step(bit_depth) * pow2(bit_depth) == 256,
{
    lemma2_to64();
    if bit_depth == 1 {
        vstd::arithmetic::div_mod::lemma_fundamental_div_mod_converse(256, pow2(bit_depth) as int, 128, 0);
    } else if bit_depth == 2 {
        vstd::arithmetic::div_mod::lemma_fundamental_div_mod_converse(256, pow2(bit_depth) as int, 64, 0);
    } else if bit_depth == 3 {
        vstd::arithmetic::div_mod::lemma_fundamental_div_mod_converse(256, pow2(bit_depth) as int, 32, 0);
    } else if bit_depth == 4 {
        vstd::arithmetic::div_mod::lemma_fundamental_div_mod_converse(256, pow2(bit_depth) as int, 16, 0);
    } else if bit_depth == 5 {
        vstd::arithmetic::div_mod::lemma_fundamental_div_mod_converse(256, pow2(bit_depth) as int, 8, 0);
    } else if bit_depth == 6 {
        vstd::arithmetic::div_mod::lemma_fundamental_div_mod_converse(256, pow2(bit_depth) as int, 4, 0);
    } else if bit_depth == 7 {
        vstd::arithmetic::div_mod::lemma_fundamental_div_mod_converse(256, pow2(bit_depth) as int, 2, 0);
    } else {
        vstd::arithmetic::div_mod::lemma_fundamental_div_mod_converse(256, pow2(bit_depth) as int, 1, 0);
    }
}

/// Replaces each byte of `pixels` by the highest of `2^bit_depth` evenly spaced
/// levels that does not exceed it.
pub fn reduce_bit_depth(pixels: &mut [u8], bit_depth: u8)
    requires
        1 <= bit_depth <= 8,
    ensures
        final(pixels)@ == quantized_all(old(pixels)@, bit_depth as nat),
{
    proof {
        lemma2_to64();
        lemma_u16_shl_is_mul(1u16, bit_depth as u16);
        lemma_levels_tile(bit_depth as nat);
    }
    let levels: u16 = 1u16 << (bit_depth as u16);
    let step: u8 = (256u16 / levels) as u8;
    assert(step as nat == level_step(bit_depth as nat));
    let ghost orig = pixels@;
    let mut i: usize = 0;
    while i < pixels.len()
        invariant
            pixels@.len() == orig.len(),
            step as nat == level_step(bit_depth as nat),
            step >= 1,
            i <= pixels@.len(),
            forall|j: int| 0 <= j < i ==> pixels@[j] == quantized(orig[j], bit_depth as nat),
            forall|j: int| i <= j < pixels@.len() ==> pixels@[j] == orig[j],
        decreases pixels@.len() - i,
    {
        let b = pixels[i];
        assert((b / step) * step <= b) by (nonlinear_arith)
            requires
                step >= 1,
        ;
        pixels[i] = (b / step) * step;
        i = i + 1;
    }
    assert(pixels@ =~= quantized_all(orig, bit_depth as nat));
}

/// At eight bits every byte is its own level, so quantizing changes nothing.
pub proof fn lemma_full_depth_keeps(pixels: Seq<u8>)
    ensures
        quantized_all(pixels, 8) == pixels,
{
    lemma2_to64();
    vstd::arithmetic::div_mod::lemma_fundamental_div_mod_converse(256, pow2(8) as int, 1, 0);
    assert forall|i: int| 0 <= i < pixels.len() implies quantized_all(pixels, 8)[i] == pixels[i] by {
        assert(pixels[i] as nat / 1 * 1 == pixels[i]);
    }
    assert(quantized_all(pixels, 8) =~= pixels);
}

/// Whatever the input, quantizing to `bit_depth` bits leaves at most
/// `2^bit_depth` distinct byte values.
pub proof fn lemma_quantized_levels(pixels: Seq<u8>, bit_depth: u8)
    requires
        1 <= bit_depth <= 8,
    ensures
        quantized_all(pixels, bit_depth as nat).to_set().len() <= pow2(bit_depth as nat),
{
    let d = bit_depth as nat;
    let step = level_step(d);
    let out = quantized_all(pixels, d);
    let f = |k: int| (k * step) as u8;
    let ks = set_int_range(0, pow2(d) as int);
    let levels = ks.map(f);
    lemma_levels_tile(d);
    assert forall|v: u8| out.to_set().contains(v) implies levels.contains(v) by {
        let j = choose|j: int| 0 <= j < out.len() && out[j] == v;
        let b = pixels[j];
        let k = b as nat / step;
        assert(k < pow2(d)) by (nonlinear_arith)
            requires
                k == b as nat / step,
                b < 256,
                step * pow2(d) == 256,
                step >= 1,
        {
            assert(k * step <= b) by (nonlinear_arith)
                requires
                    k == b as nat / step,
                    step >= 1,
                    b >= 0,
            ;
        }
        assert(ks.contains(k as int));
        assert(f(k as int) == v);
    }
    lemma_int_range(0, pow2(d) as int);
    lemma_map_size_bound(ks, levels, f);
    lemma_len_subset(out.to_set(), levels);
}

} // verus!
