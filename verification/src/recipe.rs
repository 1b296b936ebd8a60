use vstd::prelude::*;

use crate::worley::{spec_metric_name, spec_return_name, WorleyDistanceMetric, WorleyReturnType};

verus! {

/// The shape of a 4D noise recipe with the settings its description names:
/// seeds of the primitives and octave counts of the fractals.
pub enum RecipeOutline4 {
    Perlin { seed: u32 },
    Simplex { seed: u32 },
    Value { seed: u32 },
    Fbm { octaves: u8, source: Box<RecipeOutline4> },
    Billow { octaves: u8, source: Box<RecipeOutline4> },
    Ridged { octaves: u8, source: Box<RecipeOutline4> },
    Transformed { source: Box<RecipeOutline4> },
}

/// The shape of a 2D noise recipe with the settings its description names.
/// `amplitude` of a multi-level warp is its amplitude already printed with
/// two decimals.
pub enum RecipeOutline2 {
    Perlin { seed: u32 },
    Simplex { seed: u32 },
    Value { seed: u32 },
    Worley { seed: u32, return_type: WorleyReturnType, metric: WorleyDistanceMetric },
    Fbm { octaves: u8, source: Box<RecipeOutline2> },
    Billow { octaves: u8, source: Box<RecipeOutline2> },
    Ridged { octaves: u8, source: Box<RecipeOutline2> },
    Warp { base: Box<RecipeOutline2>, warp_x: Box<RecipeOutline2>, warp_y: Box<RecipeOutline2> },
    Transformed { source: Box<RecipeOutline2> },
    Tiled { source: Box<RecipeOutline4> },
    MultiWarp { base: Box<RecipeOutline2>, layers: usize, amplitude: String },
}

pub open spec fn digit_char(d: nat) -> char {
    (48 + d) as char
}

/// Decimal digits of `n`, most significant first, without leading zeros.
pub open spec fn decimal(n: nat) -> Seq<char>
    decreases n,
{
    if n < 10 {
        seq![digit_char(n)]
    } else {
        decimal(n / 10) + seq![digit_char(n % 10)]
    }
}

/// Numeric value of a sequence of decimal digits, most significant first.
pub open spec fn digits_value(s: Seq<char>) -> int
    decreases s.len(),
{
    if s.len() == 0 {
        0
    } else {
        digits_value(s.drop_last()) * 10 + (s.last() as int - 48)
    }
}

/// Law: `decimal(n)` is the canonical decimal writing of `n`: a non-empty
/// run of the characters `0` to `9` whose value is `n`, with no leading zero.
pub proof fn lemma_decimal_writes_the_number(n: nat)
    ensures
        decimal(n).len() > 0,
        digits_value(decimal(n)) == n,
        forall|i: int| 0 <= i < decimal(n).len() ==> '0' <= #[trigger] decimal(n)[i] <= '9',
        decimal(n).len() > 1 ==> decimal(n)[0] != '0',
    decreases n,
{
    if n < 10 {
        assert(seq![digit_char(n)].drop_last() =~= Seq::<char>::empty());
        assert(decimal(n).last() == digit_char(n));
        assert(digit_char(n) as int == 48 + n);
        assert(digits_value(decimal(n).drop_last()) == 0);
    } else {
        lemma_decimal_writes_the_number(n / 10);
        let head = decimal(n / 10);
        assert(decimal(n).drop_last() =~= head);
        assert(digit_char(n % 10) as int == 48 + n % 10);
        assert forall|i: int| 0 <= i < decimal(n).len() implies '0' <= #[trigger] decimal(n)[i]
            <= '9' by {
            if i < head.len() {
                assert(decimal(n)[i] == head[i]);
            }
        }
        assert(decimal(n).last() == digit_char(n % 10));
        assert(digits_value(decimal(n)) == digits_value(head) * 10 + (n % 10));
        assert(decimal(n)[0] == head[0]);
        if n / 10 >= 10 {
            lemma_decimal_writes_the_number(n / 100);
            assert(n / 10 / 10 == n / 100);
            assert(head.len() > 1);
        } else {
            assert(head[0] == digit_char(n / 10));
            assert(head[0] as int == 48 + n / 10);
        }
    }
}

fn digit_str(d: u64) -> (s: &'static str)
    requires
        d < 10,
    ensures
        s@ == seq![digit_char(d as nat)],
{
    proof {
        reveal_strlit("0");
        reveal_strlit("1");
        reveal_strlit("2");
        reveal_strlit("3");
        reveal_strlit("4");
        reveal_strlit("5");
        reveal_strlit("6");
        reveal_strlit("7");
        reveal_strlit("8");
        reveal_strlit("9");
    }
    if d == 0 {
        "0"
    } else if d == 1 {
        "1"
    } else if d == 2 {
        "2"
    } else if d == 3 {
        "3"
    } else if d == 4 {
        "4"
    } else if d == 5 {
        "5"
    } else if d == 6 {
        "6"
    } else if d == 7 {
        "7"
    } else if d == 8 {
        "8"
    } else {
        "9"
    }
}

/// Appends the decimal digits of `n`.
pub fn push_decimal(out: &mut String, n: u64)
    ensures
        final(out)@ == old(out)@ + decimal(n as nat),
        final(out)@.len() > old(out)@.len(),
        digits_value(final(out)@.skip(old(out)@.len() as int)) == n,
    decreases n,
{
    proof {
        lemma_decimal_writes_the_number(n as nat);
    }
    if n >= 10 {
        push_decimal(out, n / 10);
    }
    out.append(digit_str(n % 10));
    proof {
        if n >= 10 {
            assert(out@ =~= old(out)@ + decimal(n as nat));
        }
        assert(out@.skip(old(out)@.len() as int) =~= decimal(n as nat));
    }
}

pub open spec fn spec_short_name4(r: RecipeOutline4) -> &'static str {
    match r {
        RecipeOutline4::Perlin { .. } => "Perlin4D",
        RecipeOutline4::Simplex { .. } => "Simplex4D",
        RecipeOutline4::Value { .. } => "Value4D",
        RecipeOutline4::Fbm { .. } => "Fbm4D",
        RecipeOutline4::Billow { .. } => "Billow4D",
        RecipeOutline4::Ridged { .. } => "Ridged4D",
        RecipeOutline4::Transformed { .. } => "Transformed4D",
    }
}

pub open spec fn spec_short_name2(r: RecipeOutline2) -> &'static str {
    match r {
        RecipeOutline2::Perlin { .. } => "Perlin",
        RecipeOutline2::Simplex { .. } => "Simplex",
        RecipeOutline2::Value { .. } => "Value",
        RecipeOutline2::Worley { .. } => "Worley",
        RecipeOutline2::Fbm { .. } => "Fbm",
        RecipeOutline2::Billow { .. } => "Billow",
        RecipeOutline2::Ridged { .. } => "Ridged",
        RecipeOutline2::Warp { .. } => "Warp",
        RecipeOutline2::Transformed { .. } => "Transformed",
        RecipeOutline2::Tiled { .. } => "Tiled",
        RecipeOutline2::MultiWarp { .. } => "MultiWarp",
    }
}

/// `name(seed=N)` for a primitive.
pub open spec fn seeded(name: &'static str, seed: u32) -> Seq<char> {
    name@ + "(seed="@ + decimal(seed as nat) + ")"@
}

/// `name(octaves=N, source=S)` for a fractal.
pub open spec fn layered(name: &'static str, octaves: u8, source: Seq<char>) -> Seq<char> {
    name@ + "(octaves="@ + decimal(octaves as nat) + ", source="@ + source + ")"@
}

/// `name(source=S)` for a wrapper.
pub open spec fn wrapped(name: &'static str, source: Seq<char>) -> Seq<char> {
    name@ + "(source="@ + source + ")"@
}

/// The nested description of a 4D recipe, innermost source last.
pub open spec fn spec_stack4(r: RecipeOutline4) -> Seq<char>
    decreases r,
{
    match r {
        RecipeOutline4::Perlin { seed } => seeded("Perlin4D", seed),
        RecipeOutline4::Simplex { seed } => seeded("Simplex4D", seed),
        RecipeOutline4::Value { seed } => seeded("Value4D", seed),
        RecipeOutline4::Fbm { octaves, source } => layered("Fbm4D", octaves, spec_stack4(*source)),
        RecipeOutline4::Billow { octaves, source } => layered(
            "Billow4D",
            octaves,
            spec_stack4(*source),
        ),
        RecipeOutline4::Ridged { octaves, source } => layered(
            "Ridged4D",
            octaves,
            spec_stack4(*source),
        ),
        RecipeOutline4::Transformed { source } => wrapped("Transformed4D", spec_stack4(*source)),
    }
}

/// The nested description of a 2D recipe, innermost source last.
pub open spec fn spec_stack2(r: RecipeOutline2) -> Seq<char>
    decreases r,
{
    match r {
        RecipeOutline2::Perlin { seed } => seeded("Perlin", seed),
        RecipeOutline2::Simplex { seed } => seeded("Simplex", seed),
        RecipeOutline2::Value { seed } => seeded("Value", seed),
        RecipeOutline2::Worley { seed, return_type, metric } => "Worley(seed="@ + decimal(
            seed as nat,
        ) + ", return="@ + spec_return_name(return_type)@ + ", metric="@ + spec_metric_name(
            metric,
        )@ + ")"@,
        RecipeOutline2::Fbm { octaves, source } => layered("Fbm", octaves, spec_stack2(*source)),
        RecipeOutline2::Billow { octaves, source } => layered(
            "Billow",
            octaves,
            spec_stack2(*source),
        ),
        RecipeOutline2::Ridged { octaves, source } => layered(
            "Ridged",
            octaves,
            spec_stack2(*source),
        ),
        RecipeOutline2::Warp { base, warp_x, warp_y } => "Warp(base="@ + spec_stack2(*base)
            + ", x="@ + spec_stack2(*warp_x) + ", y="@ + spec_stack2(*warp_y) + ")"@,
        RecipeOutline2::Transformed { source } => wrapped("Transformed", spec_stack2(*source)),
        RecipeOutline2::Tiled { source } => wrapped("Tiled", spec_stack4(*source)),
        RecipeOutline2::MultiWarp { base, layers, amplitude } => "MultiWarp(base="@ + spec_stack2(
            *base,
        ) + ", layers="@ + decimal(layers as nat) + ", amp="@ + amplitude@ + ")"@,
    }
}

fn push_seeded(out: &mut String, name: &'static str, seed: u32)
    ensures
        final(out)@ == old(out)@ + seeded(name, seed),
{
    out.append(name);
    out.append("(seed=");
    push_decimal(out, seed as u64);
    out.append(")");
    assert(out@ =~= old(out)@ + seeded(name, seed));
}

/// A description `name` followed by a text opening with `(` starts with
/// `name(`.
proof fn lemma_opens_with(name: Seq<char>, tail: Seq<char>)
    requires
        tail.len() > 0,
        tail[0] == '(',
    ensures
        (name + tail).len() > name.len(),
        (name + tail).subrange(0, name.len() + 1int) == name + "("@,
{
    reveal_strlit("(");
    assert((name + tail).subrange(0, name.len() + 1int) =~= name + "("@);
}

/// Law: the description of every 4D recipe starts with its short name
/// followed by `(`.
pub proof fn lemma_description_starts_with_name4(r: RecipeOutline4)
    ensures
        spec_stack4(r).len() > spec_short_name4(r)@.len(),
        spec_stack4(r).subrange(0, spec_short_name4(r)@.len() + 1int) == spec_short_name4(r)@ + "("@,
{
    reveal_strlit("(seed=");
    reveal_strlit("(octaves=");
    reveal_strlit("(source=");
    let name = spec_short_name4(r)@;
    let tail: Seq<char> = match r {
        RecipeOutline4::Perlin { seed } => "(seed="@ + decimal(seed as nat) + ")"@,
        RecipeOutline4::Simplex { seed } => "(seed="@ + decimal(seed as nat) + ")"@,
        RecipeOutline4::Value { seed } => "(seed="@ + decimal(seed as nat) + ")"@,
        RecipeOutline4::Fbm { octaves, source } => "(octaves="@ + decimal(octaves as nat)
            + ", source="@ + spec_stack4(*source) + ")"@,
        RecipeOutline4::Billow { octaves, source } => "(octaves="@ + decimal(octaves as nat)
            + ", source="@ + spec_stack4(*source) + ")"@,
        RecipeOutline4::Ridged { octaves, source } => "(octaves="@ + decimal(octaves as nat)
            + ", source="@ + spec_stack4(*source) + ")"@,
        RecipeOutline4::Transformed { source } => "(source="@ + spec_stack4(*source) + ")"@,
    };
    assert(spec_stack4(r) =~= name + tail);
    lemma_opens_with(name, tail);
}

/// Law: the description of every 2D recipe starts with its short name
/// followed by `(`.
pub proof fn lemma_description_starts_with_name2(r: RecipeOutline2)
    ensures
        spec_stack2(r).len() > spec_short_name2(r)@.len(),
        spec_stack2(r).subrange(0, spec_short_name2(r)@.len() + 1int) == spec_short_name2(r)@ + "("@,
{
    reveal_strlit("(seed=");
    reveal_strlit("(octaves=");
    reveal_strlit("(source=");
    reveal_strlit("Worley");
    reveal_strlit("Worley(seed=");
    reveal_strlit("Warp");
    reveal_strlit("Warp(base=");
    reveal_strlit("MultiWarp");
    reveal_strlit("MultiWarp(base=");
    let name = spec_short_name2(r)@;
    let tail: Seq<char> = match r {
        RecipeOutline2::Perlin { seed } => "(seed="@ + decimal(seed as nat) + ")"@,
        RecipeOutline2::Simplex { seed } => "(seed="@ + decimal(seed as nat) + ")"@,
        RecipeOutline2::Value { seed } => "(seed="@ + decimal(seed as nat) + ")"@,
        RecipeOutline2::Worley { seed, return_type, metric } => "(seed="@ + decimal(seed as nat)
            + ", return="@ + spec_return_name(return_type)@ + ", metric="@ + spec_metric_name(
            metric,
        )@ + ")"@,
        RecipeOutline2::Fbm { octaves, source } => "(octaves="@ + decimal(octaves as nat)
            + ", source="@ + spec_stack2(*source) + ")"@,
        RecipeOutline2::Billow { octaves, source } => "(octaves="@ + decimal(octaves as nat)
            + ", source="@ + spec_stack2(*source) + ")"@,
        RecipeOutline2::Ridged { octaves, source } => "(octaves="@ + decimal(octaves as nat)
            + ", source="@ + spec_stack2(*source) + ")"@,
        RecipeOutline2::Warp { base, warp_x, warp_y } => "(base="@ + spec_stack2(*base) + ", x="@
            + spec_stack2(*warp_x) + ", y="@ + spec_stack2(*warp_y) + ")"@,
        RecipeOutline2::Transformed { source } => "(source="@ + spec_stack2(*source) + ")"@,
        RecipeOutline2::Tiled { source } => "(source="@ + spec_stack4(*source) + ")"@,
        RecipeOutline2::MultiWarp { base, layers, amplitude } => "(base="@ + spec_stack2(*base)
            + ", layers="@ + decimal(layers as nat) + ", amp="@ + amplitude@ + ")"@,
    };
    reveal_strlit("(base=");
    assert("Worley(seed="@ =~= "Worley"@ + "(seed="@);
    assert("Warp(base="@ =~= "Warp"@ + "(base="@);
    assert("MultiWarp(base="@ =~= "MultiWarp"@ + "(base="@);
    assert(spec_stack2(r) =~= name + tail);
    lemma_opens_with(name, tail);
}

impl RecipeOutline4 {
    pub fn short_name(&self) -> (s: &'static str)
        ensures
            s == spec_short_name4(*self),
    {
        match self {
            RecipeOutline4::Perlin { .. } => "Perlin4D",
            RecipeOutline4::Simplex { .. } => "Simplex4D",
            RecipeOutline4::Value { .. } => "Value4D",
            RecipeOutline4::Fbm { .. } => "Fbm4D",
            RecipeOutline4::Billow { .. } => "Billow4D",
            RecipeOutline4::Ridged { .. } => "Ridged4D",
            RecipeOutline4::Transformed { .. } => "Transformed4D",
        }
    }

    /// Appends the nested description of this recipe.
    #[verifier::rlimit(60)]
    #[verifier::spinoff_prover]
    pub fn write_stack(&self, out: &mut String)
        ensures
            final(out)@ == old(out)@ + spec_stack4(*self),
        decreases self,
    {
        match self {
            RecipeOutline4::Perlin { seed } => push_seeded(out, "Perlin4D", *seed),
            RecipeOutline4::Simplex { seed } => push_seeded(out, "Simplex4D", *seed),
            RecipeOutline4::Value { seed } => push_seeded(out, "Value4D", *seed),
            RecipeOutline4::Fbm { octaves, source } => {
                let ghost start = out@;
                out.append("Fbm4D");
                out.append("(octaves=");
                push_decimal(out, *octaves as u64);
                out.append(", source=");
                source.write_stack(out);
                out.append(")");
                assert(spec_stack4(*self) == layered("Fbm4D", *octaves, spec_stack4(**source)));
                assert(out@ =~= start + layered("Fbm4D", *octaves, spec_stack4(**source)));
            },
            RecipeOutline4::Billow { octaves, source } => {
                let ghost start = out@;
                out.append("Billow4D");
                out.append("(octaves=");
                push_decimal(out, *octaves as u64);
                out.append(", source=");
                source.write_stack(out);
                out.append(")");
                assert(spec_stack4(*self) == layered("Billow4D", *octaves, spec_stack4(**source)));
                assert(out@ =~= start + layered("Billow4D", *octaves, spec_stack4(**source)));
            },
            RecipeOutline4::Ridged { octaves, source } => {
                let ghost start = out@;
                out.append("Ridged4D");
                out.append("(octaves=");
                push_decimal(out, *octaves as u64);
                out.append(", source=");
                source.write_stack(out);
                out.append(")");
                assert(spec_stack4(*self) == layered("Ridged4D", *octaves, spec_stack4(**source)));
                assert(out@ =~= start + layered("Ridged4D", *octaves, spec_stack4(**source)));
            },
            RecipeOutline4::Transformed { source } => {
                out.append("Transformed4D");
                out.append("(source=");
                source.write_stack(out);
                out.append(")");
                assert(out@ =~= old(out)@ + spec_stack4(*self));
            },
        }
    }

    /// The nested description, such as `Fbm4D(octaves=4, source=Simplex4D(seed=44))`.
    pub fn debug_stack(&self) -> (s: String)
        ensures
            s@ == spec_stack4(*self),
            s@.len() > spec_short_name4(*self)@.len(),
            s@.subrange(0, spec_short_name4(*self)@.len() + 1int) == spec_short_name4(*self)@ + "("@,
    {
        proof {
            lemma_description_starts_with_name4(*self);
        }
        let mut out = String::new();
        self.write_stack(&mut out);
        assert(out@ =~= spec_stack4(*self));
        out
    }
}

impl RecipeOutline2 {
    pub fn short_name(&self) -> (s: &'static str)
        ensures
            s == spec_short_name2(*self),
    {
        match self {
            RecipeOutline2::Perlin { .. } => "Perlin",
            RecipeOutline2::Simplex { .. } => "Simplex",
            RecipeOutline2::Value { .. } => "Value",
            RecipeOutline2::Worley { .. } => "Worley",
            RecipeOutline2::Fbm { .. } => "Fbm",
            RecipeOutline2::Billow { .. } => "Billow",
            RecipeOutline2::Ridged { .. } => "Ridged",
            RecipeOutline2::Warp { .. } => "Warp",
            RecipeOutline2::Transformed { .. } => "Transformed",
            RecipeOutline2::Tiled { .. } => "Tiled",
            RecipeOutline2::MultiWarp { .. } => "MultiWarp",
        }
    }

    /// Appends the nested description of this recipe.
    #[verifier::rlimit(60)]
    #[verifier::spinoff_prover]
    pub fn write_stack(&self, out: &mut String)
        ensures
            final(out)@ == old(out)@ + spec_stack2(*self),
        decreases self,
    {
        match self {
            RecipeOutline2::Perlin { seed } => push_seeded(out, "Perlin", *seed),
            RecipeOutline2::Simplex { seed } => push_seeded(out, "Simplex", *seed),
            RecipeOutline2::Value { seed } => push_seeded(out, "Value", *seed),
            RecipeOutline2::Worley { seed, return_type, metric } => {
                out.append("Worley(seed=");
                push_decimal(out, *seed as u64);
                out.append(", return=");
                out.append(return_type.debug_name());
                out.append(", metric=");
                out.append(metric.debug_name());
                out.append(")");
                assert(out@ =~= old(out)@ + spec_stack2(*self));
            },
            RecipeOutline2::Fbm { octaves, source } => {
                let ghost start = out@;
                out.append("Fbm");
                out.append("(octaves=");
                push_decimal(out, *octaves as u64);
                out.append(", source=");
                source.write_stack(out);
                out.append(")");
                assert(spec_stack2(*self) == layered("Fbm", *octaves, spec_stack2(**source)));
                assert(out@ =~= start + layered("Fbm", *octaves, spec_stack2(**source)));
            },
            RecipeOutline2::Billow { octaves, source } => {
                let ghost start = out@;
                out.append("Billow");
                out.append("(octaves=");
                push_decimal(out, *octaves as u64);
                out.append(", source=");
                source.write_stack(out);
                out.append(")");
                assert(spec_stack2(*self) == layered("Billow", *octaves, spec_stack2(**source)));
                assert(out@ =~= start + layered("Billow", *octaves, spec_stack2(**source)));
            },
            RecipeOutline2::Ridged { octaves, source } => {
                let ghost start = out@;
                out.append("Ridged");
                out.append("(octaves=");
                push_decimal(out, *octaves as u64);
                out.append(", source=");
                source.write_stack(out);
                out.append(")");
                assert(spec_stack2(*self) == layered("Ridged", *octaves, spec_stack2(**source)));
                assert(out@ =~= start + layered("Ridged", *octaves, spec_stack2(**source)));
            },
            RecipeOutline2::Warp { base, warp_x, warp_y } => {
                out.append("Warp(base=");
                base.write_stack(out);
                out.append(", x=");
                warp_x.write_stack(out);
                out.append(", y=");
                warp_y.write_stack(out);
                out.append(")");
                assert(out@ =~= old(out)@ + spec_stack2(*self));
            },
            RecipeOutline2::Transformed { source } => {
                out.append("Transformed");
                out.append("(source=");
                source.write_stack(out);
                out.append(")");
                assert(out@ =~= old(out)@ + spec_stack2(*self));
            },
            RecipeOutline2::Tiled { source } => {
                out.append("Tiled");
                out.append("(source=");
                source.write_stack(out);
                out.append(")");
                assert(out@ =~= old(out)@ + spec_stack2(*self));
            },
            RecipeOutline2::MultiWarp { base, layers, amplitude } => {
                out.append("MultiWarp(base=");
                base.write_stack(out);
                out.append(", layers=");
                push_decimal(out, *layers as u64);
                out.append(", amp=");
                out.append(amplitude.as_str());
                out.append(")");
                assert(out@ =~= old(out)@ + spec_stack2(*self));
            },
        }
    }

    /// The nested description, such as `Fbm(octaves=6, source=Perlin(seed=42))`.
    pub fn debug_stack(&self) -> (s: String)
        ensures
            s@ == spec_stack2(*self),
            s@.len() > spec_short_name2(*self)@.len(),
            s@.subrange(0, spec_short_name2(*self)@.len() + 1int) == spec_short_name2(*self)@ + "("@,
    {
        proof {
            lemma_description_starts_with_name2(*self);
        }
        let mut out = String::new();
        self.write_stack(&mut out);
        assert(out@ =~= spec_stack2(*self));
        out
    }
}

} // verus!
