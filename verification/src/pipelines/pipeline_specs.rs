//! The pass-list manifest and its scale factors.

use crate::text::{
    chars_of, decimal_digits, decimal_value, digit_value, find_char, is_digit,
    lemma_decimal_round_trip, lemma_position_is, lemma_position_of, parse_u32, parsed_u32,
    position_of, push_decimal, string_of, unsigned_body,
};
use std::str::FromStr;
use vstd::prelude::*;

verus! {

/// A scale factor relative to the pipeline input, as an exact fraction.
///
/// Two scale factors are equal only when numerator and denominator are both
/// equal: `2/1` and `4/2` are different values.
#[derive(Debug, Clone, Copy, PartialEq, Eq, Structural)]
pub struct ScaleFactor {
    /// The numerator of the fraction
    pub numerator: u32,
    /// The denominator of the fraction
    pub denominator: u32,
}

/// Why a text is not a scale factor.
#[derive(Debug, Clone, Copy, PartialEq, Eq, Structural)]
pub enum ScaleFactorParseError {
    /// More than one `/` in the text
    InvalidFormat,
    /// The numerator is not an unsigned integer
    InvalidNumerator,
    /// The denominator is not an unsigned integer
    InvalidDenominator,
    /// The denominator is zero
    ZeroDenominator,
}

/// What a text denotes as a scale factor: `n` stands for `n/1`, and `n/d`
/// needs a `d` other than zero.
pub open spec fn parsed_scale(s: Seq<char>) -> Result<ScaleFactor, ScaleFactorParseError> {
    let slash = position_of(s, '/', 0);
    if slash >= s.len() {
        match parsed_u32(s) {
            Some(n) => Ok(ScaleFactor { numerator: n, denominator: 1 }),
            None => Err(ScaleFactorParseError::InvalidNumerator),
        }
    } else if position_of(s, '/', slash + 1) < s.len() {
        Err(ScaleFactorParseError::InvalidFormat)
    } else {
        match parsed_u32(s.subrange(0, slash)) {
            None => Err(ScaleFactorParseError::InvalidNumerator),
            Some(n) => match parsed_u32(s.subrange(slash + 1, s.len() as int)) {
                None => Err(ScaleFactorParseError::InvalidDenominator),
                Some(d) => if d == 0 {
                    Err(ScaleFactorParseError::ZeroDenominator)
                } else {
                    Ok(ScaleFactor { numerator: n, denominator: d })
                },
            },
        }
    }
}

/// The text of a scale factor: `n` where the denominator is one, else `n/d`.
pub open spec fn scale_text(x: ScaleFactor) -> Seq<char> {
    if x.denominator == 1 {
        decimal_digits(x.numerator as nat)
    } else {
        decimal_digits(x.numerator as nat).push('/') + decimal_digits(x.denominator as nat)
    }
}

impl ScaleFactor {
    /// Creates a new scale factor from numerator and denominator
    pub fn new(numerator: u32, denominator: u32) -> (out: Self)
        ensures
            out == (ScaleFactor { numerator, denominator }),
    {
        Self { numerator, denominator }
    }

    /// Whether numerator and denominator are the same number
    pub fn is_unity(&self) -> (yes: bool)
        ensures
            yes == (self.numerator == self.denominator),
    {
        self.numerator == self.denominator
    }

    /// Whether the numerator is the larger
    pub fn is_upscale(&self) -> (yes: bool)
        ensures
            yes == (self.numerator > self.denominator),
    {
        self.numerator > self.denominator
    }

    /// Whether the denominator is the larger
    pub fn is_downscale(&self) -> (yes: bool)
        ensures
            yes == (self.numerator < self.denominator),
    {
        self.numerator < self.denominator
    }

    /// Reads a scale factor from `"n"` or `"n/d"`.
    pub fn parse(s: &str) -> (out: Result<Self, ScaleFactorParseError>)
        ensures
            out == parsed_scale(s@),
    {
        let v = chars_of(s);
        let slash = find_char(v.as_slice(), '/', 0);
        if slash >= v.len() {
            return match parse_u32(s) {
                Some(n) => Ok(ScaleFactor { numerator: n, denominator: 1 }),
                None => Err(ScaleFactorParseError::InvalidNumerator),
            };
        }
        let second = find_char(v.as_slice(), '/', slash + 1);
        if second < v.len() {
            return Err(ScaleFactorParseError::InvalidFormat);
        }
        let left = string_of(v.as_slice(), 0, slash);
        let right = string_of(v.as_slice(), slash + 1, v.len());
        match parse_u32(left.as_str()) {
            None => Err(ScaleFactorParseError::InvalidNumerator),
            Some(n) => match parse_u32(right.as_str()) {
                None => Err(ScaleFactorParseError::InvalidDenominator),
                Some(d) => if d == 0 {
                    Err(ScaleFactorParseError::ZeroDenominator)
                } else {
                    Ok(ScaleFactor { numerator: n, denominator: d })
                },
            },
        }
    }

    /// Writes the scale factor as `"n"` or `"n/d"`.
    pub fn to_string(&self) -> (out: String)
        ensures
            out@ == scale_text(*self),
    {
        let mut out = String::new();
        push_decimal(&mut out, self.numerator as u64);
        if self.denominator != 1 {
            out.push('/');
            push_decimal(&mut out, self.denominator as u64);
        }
        proof {
            assert(Seq::<char>::empty() + decimal_digits(self.numerator as nat)
                =~= decimal_digits(self.numerator as nat));
        }
        out
    }
}

impl FromStr for ScaleFactor {
    type Err = ScaleFactorParseError;

    fn from_str(s: &str) -> (out: Result<Self, ScaleFactorParseError>)
        ensures
            out == parsed_scale(s@),
    {
        ScaleFactor::parse(s)
    }
}

impl ScaleFactorParseError {
    /// The error in words.
    pub fn to_string(&self) -> (out: String)
        ensures
            out@ == match *self {
                ScaleFactorParseError::InvalidFormat => "Invalid scale factor format"@,
                ScaleFactorParseError::InvalidNumerator => "Invalid numerator"@,
                ScaleFactorParseError::InvalidDenominator => "Invalid denominator"@,
                ScaleFactorParseError::ZeroDenominator => "Denominator cannot be zero"@,
            },
    {
        match self {
            ScaleFactorParseError::InvalidFormat => "Invalid scale factor format".to_owned(),
            ScaleFactorParseError::InvalidNumerator => "Invalid numerator".to_owned(),
            ScaleFactorParseError::InvalidDenominator => "Invalid denominator".to_owned(),
            ScaleFactorParseError::ZeroDenominator => "Denominator cannot be zero".to_owned(),
        }
    }
}

/// The digits of a `u32` denote it, and hold neither sign nor slash.
pub proof fn lemma_digits_parse(n: u32)
    ensures
        parsed_u32(decimal_digits(n as nat)) == Some(n),
        position_of(decimal_digits(n as nat), '/', 0) == decimal_digits(n as nat).len(),
{
    let d = decimal_digits(n as nat);
    lemma_decimal_round_trip(n as nat);
    assert(is_digit(d[0]));
    assert(unsigned_body(d) == d);
    assert forall|k: int| 0 <= k < d.len() implies d[k] != '/' by {
        assert(is_digit(d[k]));
    }
    lemma_position_is(d, '/', 0, d.len() as int);
}

/// Writing a scale factor with a denominator other than zero and reading
/// the text back gives the same scale factor.
pub proof fn lemma_scale_text_parses_back(x: ScaleFactor)
    requires
        x.denominator != 0,
    ensures
        parsed_scale(scale_text(x)) == Ok::<ScaleFactor, ScaleFactorParseError>(x),
{
    let n = decimal_digits(x.numerator as nat);
    let d = decimal_digits(x.denominator as nat);
    lemma_digits_parse(x.numerator);
    lemma_digits_parse(x.denominator);
    lemma_decimal_round_trip(x.numerator as nat);
    lemma_decimal_round_trip(x.denominator as nat);
    if x.denominator != 1 {
        let s = n.push('/') + d;
        assert forall|k: int| 0 <= k < n.len() implies s[k] != '/' by {
            assert(s[k] == n[k]);
            assert(is_digit(n[k]));
        }
        lemma_position_is(s, '/', 0, n.len() as int);
        assert forall|k: int| n.len() + 1 <= k < s.len() implies s[k] != '/' by {
            assert(s[k] == d[k - n.len() - 1]);
            assert(is_digit(d[k - n.len() - 1]));
        }
        lemma_position_is(s, '/', (n.len() + 1) as int, s.len() as int);
        assert(s.subrange(0, n.len() as int) =~= n);
        assert(s.subrange((n.len() + 1) as int, s.len() as int) =~= d);
    }
}

/// Reading a text, writing the result and reading that again gives what the
/// first reading gave.
pub proof fn lemma_parse_write_parse(s: Seq<char>)
    requires
        parsed_scale(s) is Ok,
    ensures
        parsed_scale(scale_text(parsed_scale(s)->Ok_0)) == parsed_scale(s),
{
    lemma_scale_text_parses_back(parsed_scale(s)->Ok_0);
}

/// A text that reads as a scale factor holds digits, plus signs and at most
/// one slash only, and its denominator is not zero.
pub proof fn lemma_parse_accepts_numbers_only(s: Seq<char>)
    requires
        parsed_scale(s) is Ok,
    ensures
        parsed_scale(s)->Ok_0.denominator != 0,
        forall|k: int| 0 <= k < s.len() ==> is_digit(#[trigger] s[k]) || s[k] == '+' || s[k] == '/',
{
    let slash = position_of(s, '/', 0);
    lemma_position_of(s, '/', 0);
    assert forall|k: int| 0 <= k < s.len() implies is_digit(#[trigger] s[k]) || s[k] == '+' || s[k]
        == '/' by {
        if slash >= s.len() {
            lemma_number_chars(s, k);
        } else {
            let left = s.subrange(0, slash);
            let right = s.subrange(slash + 1, s.len() as int);
            if k < slash {
                lemma_number_chars(left, k);
                assert(left[k] == s[k]);
            } else if k > slash {
                lemma_number_chars(right, k - slash - 1);
                assert(right[k - slash - 1] == s[k]);
            }
        }
    }
}

/// A text that ends in `/0` does not read as a scale factor, whatever
/// stands before the slash.
pub proof fn lemma_zero_denominator_fails(n: Seq<char>)
    ensures
        parsed_scale(n.push('/').push('0')) is Err,
{
    let s = n.push('/').push('0');
    let slash = position_of(s, '/', 0);
    lemma_position_of(s, '/', 0);
    assert(s[n.len() as int] == '/');
    assert(slash <= n.len());
    if slash == n.len() {
        let zero = s.subrange(slash + 1, s.len() as int);
        assert(zero =~= seq!['0']);
        assert(zero.drop_last() =~= Seq::<char>::empty());
        assert(decimal_value(zero) == 0) by {
            assert(decimal_value(zero.drop_last()) == 0);
            assert(digit_value(zero.last()) == 0);
        }
        assert(unsigned_body(zero) == zero);
        assert(parsed_u32(zero) == Some(0u32));
        lemma_position_is(s, '/', slash + 1, s.len() as int);
    } else {
        lemma_position_of(s, '/', slash + 1);
        assert(position_of(s, '/', slash + 1) <= n.len());
    }
}

/// Every character of a text that reads as a `u32` is a digit or a plus sign.
pub proof fn lemma_number_chars(s: Seq<char>, k: int)
    requires
        parsed_u32(s) is Some,
        0 <= k < s.len(),
    ensures
        is_digit(s[k]) || s[k] == '+',
{
    let body = unsigned_body(s);
    if s.len() > 0 && s[0] == '+' {
        if k > 0 {
            assert(body[k - 1] == s[k]);
        }
    } else {
        assert(body[k] == s[k]);
    }
}

/// Binding of a logical texture to a shader binding point
#[derive(Debug, Clone)]
pub struct TextureBindingSpec {
    /// Logical texture identifier
    pub id: String,
    /// Shader binding point index
    pub binding: u32,
}

/// Texture sampling filter modes
#[derive(Debug, Clone, Copy, PartialEq, Eq, Structural, Hash)]
pub enum SamplerFilterMode {
    /// Nearest neighbor filtering
    Nearest,
    /// Linear interpolation filtering
    Linear,
}

impl Default for SamplerFilterMode {
    fn default() -> (out: Self)
        ensures
            out == SamplerFilterMode::Linear,
    {
        SamplerFilterMode::Linear
    }
}

/// Binding of a texture sampler to a shader binding point
#[derive(Debug, Clone, Copy, PartialEq, Eq, Structural)]
pub struct SamplerBinding {
    /// Shader binding point index
    pub binding: u32,
    /// Filter mode for this sampler
    pub filter_mode: SamplerFilterMode,
}

/// Output texture specification for a shader pass
#[derive(Debug, Clone)]
pub struct TextureOutput {
    /// Logical texture identifier
    pub id: String,
    /// Shader binding point index
    pub binding: u32,
    /// Number of color components in this texture
    pub components: u32,
    /// Scale factors [width_scale, height_scale] relative to input
    pub scale_factor: [ScaleFactor; 2],
}

/// A single shader pass in the pipeline
#[derive(Debug, Clone)]
pub struct Pass {
    /// Unique identifier for this pass
    pub id: String,
    /// Shader file path relative to manifest
    pub file: String,
    /// Input texture bindings
    pub inputs: Vec<TextureBindingSpec>,
    /// Output texture specifications
    pub outputs: Vec<TextureOutput>,
    /// Sampler bindings
    pub samplers: Vec<SamplerBinding>,
}

/// A pipeline manifest: the pass list as authored.
#[derive(Debug, Clone)]
pub struct PipelineSpec {
    /// Unique pipeline identifier
    pub id: String,
    /// Human-readable pipeline name
    pub name: String,
    /// Optional description
    pub description: Option<String>,
    /// Sequence of shader passes
    pub passes: Vec<Pass>,
}

/// A `TextureBindingSpec` with its identifier as a character sequence.
pub ghost struct BindingView {
    pub id: Seq<char>,
    pub binding: u32,
}

impl View for TextureBindingSpec {
    type V = BindingView;

    open spec fn view(&self) -> BindingView {
        BindingView { id: self.id@, binding: self.binding }
    }
}

/// A `TextureOutput` with its identifier as a character sequence.
pub ghost struct OutputView {
    pub id: Seq<char>,
    pub binding: u32,
    pub components: u32,
    pub scale_factor: (ScaleFactor, ScaleFactor),
}

impl View for TextureOutput {
    type V = OutputView;

    open spec fn view(&self) -> OutputView {
        OutputView {
            id: self.id@,
            binding: self.binding,
            components: self.components,
            scale_factor: (self.scale_factor@[0], self.scale_factor@[1]),
        }
    }
}

/// A `Pass` with its texts as character sequences.
pub ghost struct PassView {
    pub id: Seq<char>,
    pub file: Seq<char>,
    pub inputs: Seq<BindingView>,
    pub outputs: Seq<OutputView>,
    pub samplers: Seq<SamplerBinding>,
}

impl View for Pass {
    type V = PassView;

    open spec fn view(&self) -> PassView {
        PassView {
            id: self.id@,
            file: self.file@,
            inputs: Seq::new(self.inputs@.len(), |i: int| self.inputs@[i]@),
            outputs: Seq::new(self.outputs@.len(), |i: int| self.outputs@[i]@),
            samplers: self.samplers@,
        }
    }
}

/// A `PipelineSpec` with its texts as character sequences.
pub ghost struct SpecView {
    pub id: Seq<char>,
    pub name: Seq<char>,
    pub description: Option<Seq<char>>,
    pub passes: Seq<PassView>,
}

impl View for PipelineSpec {
    type V = SpecView;

    open spec fn view(&self) -> SpecView {
        SpecView {
            id: self.id@,
            name: self.name@,
            description: match self.description {
                Some(text) => Some(text@),
                None => None,
            },
            passes: Seq::new(self.passes@.len(), |i: int| self.passes@[i]@),
        }
    }
}

} // verus!
