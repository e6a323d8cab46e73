//! Streaming linear resampler.
//!
//! The read position is kept as an exact fraction: a whole number of input
//! samples plus `weight / output_rate`. Each output sample is a blend of two
//! neighbouring input samples; this module decides which two, and with what
//! weight, and keeps the input that later output still needs.

use vstd::arithmetic::div_mod::{
    lemma_fundamental_div_mod,
    lemma_fundamental_div_mod_converse,
};
use vstd::prelude::*;
use vstd::string::*;

verus! {

/// One output sample: `current * (1 - w) + next * w`, with
/// `w = weight / output_rate`.
#[derive(Debug, Clone, Copy)]
pub struct Tap<T> {
    pub current: T,
    pub next: T,
    pub weight: u32,
}

/// What a resampler makes of a block of input.
#[derive(Debug, Clone)]
pub enum Resampled<T> {
    /// The rates agree: the input, unchanged.
    Copied(Vec<T>),
    /// One blend for each output sample.
    Blended(Vec<Tap<T>>),
}

/// Linear resampler from `input_rate` to `output_rate`.
#[derive(Debug, Clone)]
pub struct MonoResampler<T> {
    input_rate: u32,
    output_rate: u32,
    whole: u64,
    weight: u32,
    source: Vec<T>,
}

/// Read position of the `k`-th output sample, in units of `1 / output_rate`
/// input samples.
pub open spec fn tap_position(start: int, input_rate: int, k: int) -> int {
    start + k * input_rate
}

/// Both input samples that position `pos` blends lie within `n` samples.
pub open spec fn tap_in_range(pos: int, output_rate: int, n: int) -> bool {
    pos / output_rate + 1 < n
}

/// The blend at position `pos` over the input `s`.
pub open spec fn tap_at<T>(s: Seq<T>, pos: int, output_rate: int) -> Tap<T> {
    Tap { current: s[pos / output_rate], next: s[pos / output_rate + 1], weight: (pos
            % output_rate) as u32 }
}

/// Number of input samples that are done with once the position is `pos`.
pub open spec fn consumed_at(pos: int, output_rate: int, n: int) -> int {
    if pos / output_rate < n {
        pos / output_rate
    } else {
        n
    }
}

proof fn lemma_position_parts(whole: int, weight: int, output_rate: int)
    requires
        output_rate > 0,
        0 <= weight < output_rate,
        whole >= 0,
    ensures
        (whole * output_rate + weight) / output_rate == whole,
        (whole * output_rate + weight) % output_rate == weight,
{
    lemma_fundamental_div_mod_converse(whole * output_rate + weight, output_rate, whole, weight);
}

impl<T: Copy> MonoResampler<T> {
    /// The rates are positive, the weight is a proper fraction, and a
    /// position beyond the kept input means that none is kept.
    pub closed spec fn wf(&self) -> bool {
        &&& self.input_rate > 0
        &&& self.output_rate > 0
        &&& self.weight < self.output_rate
        &&& self.whole <= u32::MAX + 1
        &&& self.whole > 0 ==> self.source@.len() == 0
    }

    pub closed spec fn spec_input_rate(&self) -> u32 {
        self.input_rate
    }

    pub closed spec fn spec_output_rate(&self) -> u32 {
        self.output_rate
    }

    /// Read position, in units of `1 / output_rate` input samples, counted
    /// from the start of the kept input.
    pub closed spec fn position(&self) -> int {
        self.whole * self.output_rate + self.weight
    }

    /// Input kept for output still to come.
    pub closed spec fn residual(&self) -> Seq<T> {
        self.source@
    }

    pub open spec fn spec_is_passthrough(&self) -> bool {
        self.spec_input_rate() == self.spec_output_rate()
    }

    /// A resampler at position zero with no input kept. Both rates must be
    /// positive.
    pub fn new(input_rate: u32, output_rate: u32) -> (made: Result<Self, String>)
        ensures
            made is Ok <==> input_rate > 0 && output_rate > 0,
            made matches Ok(r) ==> r.wf() && r.spec_input_rate() == input_rate
                && r.spec_output_rate() == output_rate && r.position() == 0 && r.residual()
                =~= Seq::<T>::empty(),
            made matches Err(msg) ==> msg@ == "sample rates must be > 0"@,
    {
        if input_rate == 0 || output_rate == 0 {
            return Err(String::from_str("sample rates must be > 0"));
        }
        let r = MonoResampler { input_rate, output_rate, whole: 0, weight: 0, source: Vec::new() };
        assert(r.position() == 0) by (nonlinear_arith)
            requires
                r.position() == 0 * (output_rate as int) + 0,
        ;
        Ok(r)
    }

    #[verifier::when_used_as_spec(spec_input_rate)]
    pub fn input_rate(&self) -> (rate: u32)
        ensures
            rate == self.spec_input_rate(),
    {
        self.input_rate
    }

    #[verifier::when_used_as_spec(spec_output_rate)]
    pub fn output_rate(&self) -> (rate: u32)
        ensures
            rate == self.spec_output_rate(),
    {
        self.output_rate
    }

    /// The rates agree, so input passes through unchanged.
    #[verifier::when_used_as_spec(spec_is_passthrough)]
    pub fn is_passthrough(&self) -> (same: bool)
        ensures
            same == self.spec_is_passthrough(),
    {
        self.input_rate == self.output_rate
    }

    /// Forgets the kept input and returns to position zero.
    pub fn reset(&mut self)
        requires
            old(self).wf(),
        ensures
            final(self).wf(),
            final(self).spec_input_rate() == old(self).spec_input_rate(),
            final(self).spec_output_rate() == old(self).spec_output_rate(),
            final(self).position() == 0,
            final(self).residual() =~= Seq::<T>::empty(),
    {
        self.whole = 0;
        self.weight = 0;
        self.source.clear();
        assert(self.position() == 0) by (nonlinear_arith)
            requires
                self.position() == 0 * (self.output_rate as int) + 0,
        ;
    }

    /// Takes a block of input and plans every output sample whose two input
    /// samples are at hand. The position advances by `input_rate` per output
    /// sample; input that lies wholly before the new position is dropped.
    #[verifier::rlimit(50)]
    pub fn process(&mut self, input: &[T]) -> (out: Resampled<T>)
        requires
            old(self).wf(),
        ensures
            final(self).wf(),
            resampled_by(*old(self), input@, *final(self), out),
    {
        if self.input_rate == self.output_rate {
            let mut samples: Vec<T> = Vec::new();
            let mut i: usize = 0;
            while i < input.len()
                invariant
                    i <= input@.len(),
                    samples@ == input@.subrange(0, i as int),
                decreases input@.len() - i,
            {
                samples.push(input[i]);
                i = i + 1;
            }
            assert(input@.subrange(0, input@.len() as int) =~= input@);
            return Resampled::Copied(samples);
        }
        let ghost start: int = self.position();
        let ghost kept: Seq<T> = self.source@;
        let rate_in: u32 = self.input_rate;
        let rate_out: u32 = self.output_rate;
        let mut i: usize = 0;
        while i < input.len()
            invariant
                i <= input@.len(),
                self.source@ == kept + input@.subrange(0, i as int),
                self.whole == old(self).whole,
                self.weight == old(self).weight,
                self.input_rate == rate_in,
                self.output_rate == rate_out,
            decreases input@.len() - i,
        {
            self.source.push(input[i]);
            i = i + 1;
        }
        assert(input@.subrange(0, input@.len() as int) =~= input@);
        let ghost s: Seq<T> = kept + input@;
        let n: usize = self.source.len();
        let mut taps: Vec<Tap<T>> = Vec::new();
        let mut whole: u128 = self.whole as u128;
        let mut weight: u32 = self.weight;
        while whole + 1 < n as u128
            invariant
                self.source@ == s,
                n == s.len(),
                rate_in > 0,
                rate_out > 0,
                weight < rate_out,
                whole <= n + u32::MAX + 1,
                whole * rate_out + weight == tap_position(start, rate_in as int, taps@.len() as int),
                forall|k: int|
                    0 <= k < taps@.len() ==> tap_in_range(
                        #[trigger] tap_position(start, rate_in as int, k),
                        rate_out as int,
                        n as int,
                    ),
                forall|k: int|
                    0 <= k < taps@.len() ==> taps@[k] == tap_at(
                        s,
                        #[trigger] tap_position(start, rate_in as int, k),
                        rate_out as int,
                    ),
            decreases (if whole < n { n - whole } else { 0 }), rate_out - weight,
        {
            let ghost k: int = taps@.len() as int;
            let ghost pos: int = tap_position(start, rate_in as int, k);
            proof {
                lemma_position_parts(whole as int, weight as int, rate_out as int);
            }
            let base: usize = whole as usize;
            taps.push(Tap { current: self.source[base], next: self.source[base + 1], weight });
            let moved: u64 = weight as u64 + rate_in as u64;
            let carry: u64 = moved / rate_out as u64;
            proof {
                lemma_fundamental_div_mod(moved as int, rate_out as int);
                assert(carry <= u32::MAX + 1) by (nonlinear_arith)
                    requires
                        carry == moved / (rate_out as u64),
                        moved < rate_out + u32::MAX + 1,
                        rate_out >= 1,
                ;
                assert(carry >= 1 || (moved % (rate_out as u64)) > weight) by (nonlinear_arith)
                    requires
                        moved == (rate_out as int) * (carry as int) + (moved % (rate_out as u64)),
                        moved == weight + rate_in,
                        rate_in > 0,
                        carry >= 0,
                ;
                assert((whole + carry) * rate_out + (moved % (rate_out as u64)) == pos + rate_in)
                    by (nonlinear_arith)
                    requires
                        whole * rate_out + weight == pos,
                        moved == weight + rate_in,
                        moved == (rate_out as int) * (carry as int) + (moved % (rate_out as u64)),
                ;
                assert(tap_position(start, rate_in as int, k + 1) == pos + rate_in)
                    by (nonlinear_arith)
                    requires
                        pos == start + k * (rate_in as int),
                        tap_position(start, rate_in as int, k + 1) == start + (k + 1) * (
                        rate_in as int),
                ;
            }
            whole = whole + carry as u128;
            weight = (moved % rate_out as u64) as u32;
        }
        proof {
            lemma_position_parts(whole as int, weight as int, rate_out as int);
        }
        let consumed: usize = if whole < n as u128 {
            whole as usize
        } else {
            n
        };
        let rest = self.source.split_off(consumed);
        self.source = rest;
        self.whole = (whole - consumed as u128) as u64;
        self.weight = weight;
        proof {
            assert(self.source@ =~= s.skip(consumed as int));
            assert(self.position() == tap_position(start, rate_in as int, taps@.len() as int)
                - consumed * rate_out) by (nonlinear_arith)
                requires
                    self.position() == (whole - consumed) * rate_out + weight,
                    whole * rate_out + weight == tap_position(
                        start,
                        rate_in as int,
                        taps@.len() as int,
                    ),
            ;
        }
        Resampled::Blended(taps)
    }
}

/// The blends `taps`, the position `end` and the kept input `rest` are what
/// a resampler at position `start` with `kept` input makes of `input`.
///
/// There is one blend for each position `start + k * rate_in` whose two
/// input samples lie within `kept` followed by `input`; the first position
/// for which they do not is where the resampler stops; and the input before
/// the whole part of that position is dropped, the position being counted
/// from the start of what is kept.
pub open spec fn blended_by<T>(
    start: int,
    kept: Seq<T>,
    input: Seq<T>,
    rate_in: int,
    rate_out: int,
    taps: Seq<Tap<T>>,
    end: int,
    rest: Seq<T>,
) -> bool {
    let s = kept + input;
    let stop = tap_position(start, rate_in, taps.len() as int);
    &&& forall|k: int|
        0 <= k < taps.len() ==> tap_in_range(
            #[trigger] tap_position(start, rate_in, k),
            rate_out,
            s.len() as int,
        )
    &&& forall|k: int|
        0 <= k < taps.len() ==> taps[k] == tap_at(
            s,
            #[trigger] tap_position(start, rate_in, k),
            rate_out,
        )
    &&& !tap_in_range(stop, rate_out, s.len() as int)
    &&& rest == s.skip(consumed_at(stop, rate_out, s.len() as int))
    &&& end == stop - consumed_at(stop, rate_out, s.len() as int) * rate_out
}

/// `out` and `after` are what a resampler in state `before` makes of `input`.
///
/// With equal rates the input is copied and nothing else changes. Otherwise
/// the input is blended, see [`blended_by`].
pub open spec fn resampled_by<T: Copy>(
    before: MonoResampler<T>,
    input: Seq<T>,
    after: MonoResampler<T>,
    out: Resampled<T>,
) -> bool {
    &&& after.spec_input_rate() == before.spec_input_rate()
    &&& after.spec_output_rate() == before.spec_output_rate()
    &&& before.spec_is_passthrough() ==> {
        &&& out matches Resampled::Copied(samples)
        &&& samples@ == input
        &&& after.position() == before.position()
        &&& after.residual() == before.residual()
    }
    &&& !before.spec_is_passthrough() ==> {
        &&& out matches Resampled::Blended(taps)
        &&& blended_by(
            before.position(),
            before.residual(),
            input,
            before.spec_input_rate() as int,
            before.spec_output_rate() as int,
            taps@,
            after.position(),
            after.residual(),
        )
    }
}

/// Resampling does not depend on how the input is cut into blocks: two
/// blocks taken in turn give the blends, the position and the kept input
/// that both give when taken as one.
#[verifier::rlimit(50)]
pub proof fn lemma_blocks_join<T>(
    start: int,
    kept: Seq<T>,
    first: Seq<T>,
    second: Seq<T>,
    rate_in: int,
    rate_out: int,
    taps1: Seq<Tap<T>>,
    middle: int,
    kept_middle: Seq<T>,
    taps2: Seq<Tap<T>>,
    end: int,
    rest: Seq<T>,
)
    requires
        rate_in > 0,
        rate_out > 0,
        start >= 0,
        blended_by(start, kept, first, rate_in, rate_out, taps1, middle, kept_middle),
        blended_by(middle, kept_middle, second, rate_in, rate_out, taps2, end, rest),
    ensures
        blended_by(start, kept, first + second, rate_in, rate_out, taps1 + taps2, end, rest),
{
    let s1 = kept + first;
    let n1 = s1.len() as int;
    let m1 = taps1.len() as int;
    let stop1 = tap_position(start, rate_in, m1);
    let c1 = consumed_at(stop1, rate_out, n1);
    let s2 = kept_middle + second;
    let n2 = s2.len() as int;
    let m2 = taps2.len() as int;
    let stop2 = tap_position(middle, rate_in, m2);
    let c2 = consumed_at(stop2, rate_out, n2);
    let s = kept + (first + second);
    let n = s.len() as int;
    let taps = taps1 + taps2;

    assert(m1 * rate_in >= 0) by (nonlinear_arith)
        requires
            m1 >= 0,
            rate_in > 0,
    ;
    assert(stop1 >= 0);
    vstd::arithmetic::div_mod::lemma_div_pos_is_pos(stop1, rate_out);
    assert(0 <= c1 <= n1);
    assert(middle == stop1 - c1 * rate_out);
    assert(s =~= s1 + second);
    assert(s2 =~= s.skip(c1));
    assert(n2 == n - c1);

    // A position of the second block, counted from the start of the first.
    assert forall|j: int| 0 <= j <= m2 implies #[trigger] tap_position(start, rate_in, m1 + j)
        == tap_position(middle, rate_in, j) + c1 * rate_out && tap_position(
        start,
        rate_in,
        m1 + j,
    ) / rate_out == tap_position(middle, rate_in, j) / rate_out + c1 && tap_position(
        start,
        rate_in,
        m1 + j,
    ) % rate_out == tap_position(middle, rate_in, j) % rate_out by {
        let local = tap_position(middle, rate_in, j);
        assert(tap_position(start, rate_in, m1 + j) == local + c1 * rate_out) by (nonlinear_arith)
            requires
                tap_position(start, rate_in, m1 + j) == start + (m1 + j) * rate_in,
                local == middle + j * rate_in,
                middle == start + m1 * rate_in - c1 * rate_out,
        ;
        lemma_shifted_position(local, c1, rate_out);
    }

    assert forall|k: int| 0 <= k < taps.len() implies tap_in_range(
        #[trigger] tap_position(start, rate_in, k),
        rate_out,
        n,
    ) && taps[k] == tap_at(s, tap_position(start, rate_in, k), rate_out) by {
        let pos = tap_position(start, rate_in, k);
        if k < m1 {
            assert(taps[k] == taps1[k]);
            assert(tap_in_range(pos, rate_out, n1));
            assert(k * rate_in >= 0) by (nonlinear_arith)
                requires
                    k >= 0,
                    rate_in > 0,
            ;
            vstd::arithmetic::div_mod::lemma_div_pos_is_pos(pos, rate_out);
            assert(s[pos / rate_out] == s1[pos / rate_out]);
            assert(s[pos / rate_out + 1] == s1[pos / rate_out + 1]);
        } else {
            let j = k - m1;
            assert(taps[k] == taps2[j]);
            let local = tap_position(middle, rate_in, j);
            assert(tap_position(start, rate_in, m1 + j) == pos);
            assert(tap_in_range(local, rate_out, n2));
            assert(j * rate_in >= 0) by (nonlinear_arith)
                requires
                    j >= 0,
                    rate_in > 0,
            ;
            lemma_middle_is_not_negative(stop1, n1, rate_out);
            assert(local >= 0);
            vstd::arithmetic::div_mod::lemma_div_pos_is_pos(local, rate_out);
            assert(s2[local / rate_out] == s[local / rate_out + c1]);
            assert(s2[local / rate_out + 1] == s[local / rate_out + 1 + c1]);
        }
    }
    assert(tap_position(start, rate_in, m1 + m2) == stop2 + c1 * rate_out);
    let stop = tap_position(start, rate_in, taps.len() as int);
    assert(stop == stop2 + c1 * rate_out);
    assert(stop / rate_out == stop2 / rate_out + c1);
    assert(consumed_at(stop, rate_out, n) == c1 + c2);
    assert(s.skip(c1 + c2) =~= s.skip(c1).skip(c2));
    assert(end == stop - (c1 + c2) * rate_out) by (nonlinear_arith)
        requires
            end == stop2 - c2 * rate_out,
            stop == stop2 + c1 * rate_out,
    ;
}

/// Moving a position on by whole input samples moves its whole part and
/// leaves its fraction.
proof fn lemma_shifted_position(pos: int, samples: int, rate_out: int)
    requires
        rate_out > 0,
    ensures
        (pos + samples * rate_out) / rate_out == pos / rate_out + samples,
        (pos + samples * rate_out) % rate_out == pos % rate_out,
{
    vstd::arithmetic::div_mod::lemma_fundamental_div_mod(pos, rate_out);
    vstd::arithmetic::div_mod::lemma_mod_bound(pos, rate_out);
    assert(pos + samples * rate_out == (pos / rate_out + samples) * rate_out + pos % rate_out)
        by (nonlinear_arith)
        requires
            pos == rate_out * (pos / rate_out) + pos % rate_out,
    ;
    lemma_fundamental_div_mod_converse(
        pos + samples * rate_out,
        rate_out,
        pos / rate_out + samples,
        pos % rate_out,
    );
}

/// What is left of a position once the input before it is dropped is not
/// negative.
proof fn lemma_middle_is_not_negative(stop: int, n: int, rate_out: int)
    requires
        rate_out > 0,
        stop >= 0,
        n >= 0,
    ensures
        stop - consumed_at(stop, rate_out, n) * rate_out >= 0,
{
    vstd::arithmetic::div_mod::lemma_fundamental_div_mod(stop, rate_out);
    vstd::arithmetic::div_mod::lemma_mod_bound(stop, rate_out);
    vstd::arithmetic::div_mod::lemma_div_pos_is_pos(stop, rate_out);
    let c = consumed_at(stop, rate_out, n);
    assert(c * rate_out <= (stop / rate_out) * rate_out) by (nonlinear_arith)
        requires
            c <= stop / rate_out,
            rate_out > 0,
    ;
    assert((stop / rate_out) * rate_out == rate_out * (stop / rate_out)) by (nonlinear_arith);
}

} // verus!
