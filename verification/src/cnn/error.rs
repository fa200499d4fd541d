//! What can go wrong while reading or translating a shader hook.

use vstd::prelude::*;
use vstd::string::StringExecFns;

verus! {

/// Failure to read or to translate a shader hook.
#[derive(Debug, Clone)]
pub enum HookError {
    /// The pattern engine refused a line pattern, or reported a match
    /// without the groups the pattern has
    Pattern,
    /// A `WIDTH` or `HEIGHT` directive that is not a scale expression
    InvalidScaleLine,
    /// A scale expression names a texture that no earlier hook has saved
    UnknownBaseTexture,
    /// `WIDTH` and `HEIGHT` give different scale factors
    InconsistentScale,
    /// A scale factor that does not fit in 32 bits
    ScaleOverflow,
    /// A `HOOK` target other than `MAIN`
    UnsupportedHook,
    /// A `COMPONENTS` count other than 4
    UnsupportedComponents,
    /// The description names neither a convolution nor a depth-to-space stage
    UnknownHookType,
    /// No `BIND` directive
    NoInputs,
    /// No `SAVE` directive
    NoOutput,
    /// No `WIDTH` or `HEIGHT` directive with a scale factor other than zero
    NoScaleFactor,
    /// An input texture that no earlier hook has saved
    UnknownInput(String),
    /// A macro reads a texture that no earlier hook has saved
    UnknownTexture(String),
    /// An offset macro scales its offset though the texture has the hook's scale
    FractionOnSameScale,
    /// An offset macro leaves its offset unscaled though the texture has another scale
    FractionMissing,
    /// A macro without offsets reads a texture of another scale
    PlainMacroOnOtherScale,
    /// An accumulation calls a macro that was not defined
    UnknownFunction(String),
    /// More inputs than there are binding points
    TooManyInputs,
    /// A line of a convolution stage that is none of the known statements
    UnexpectedLine {
        /// The hook's description
        hook: String,
        /// The line, without the white space around it
        line: String,
    },
}

/// A `HookError` with its texts as character sequences.
pub ghost enum HookFault {
    Pattern,
    InvalidScaleLine,
    UnknownBaseTexture,
    InconsistentScale,
    ScaleOverflow,
    UnsupportedHook,
    UnsupportedComponents,
    UnknownHookType,
    NoInputs,
    NoOutput,
    NoScaleFactor,
    UnknownInput(Seq<char>),
    UnknownTexture(Seq<char>),
    FractionOnSameScale,
    FractionMissing,
    PlainMacroOnOtherScale,
    UnknownFunction(Seq<char>),
    TooManyInputs,
    UnexpectedLine { hook: Seq<char>, line: Seq<char> },
}

impl View for HookError {
    type V = HookFault;

    open spec fn view(&self) -> HookFault {
        match *self {
            HookError::Pattern => HookFault::Pattern,
            HookError::InvalidScaleLine => HookFault::InvalidScaleLine,
            HookError::UnknownBaseTexture => HookFault::UnknownBaseTexture,
            HookError::InconsistentScale => HookFault::InconsistentScale,
            HookError::ScaleOverflow => HookFault::ScaleOverflow,
            HookError::UnsupportedHook => HookFault::UnsupportedHook,
            HookError::UnsupportedComponents => HookFault::UnsupportedComponents,
            HookError::UnknownHookType => HookFault::UnknownHookType,
            HookError::NoInputs => HookFault::NoInputs,
            HookError::NoOutput => HookFault::NoOutput,
            HookError::NoScaleFactor => HookFault::NoScaleFactor,
            HookError::UnknownInput(s) => HookFault::UnknownInput(s@),
            HookError::UnknownTexture(s) => HookFault::UnknownTexture(s@),
            HookError::FractionOnSameScale => HookFault::FractionOnSameScale,
            HookError::FractionMissing => HookFault::FractionMissing,
            HookError::PlainMacroOnOtherScale => HookFault::PlainMacroOnOtherScale,
            HookError::UnknownFunction(s) => HookFault::UnknownFunction(s@),
            HookError::TooManyInputs => HookFault::TooManyInputs,
            HookError::UnexpectedLine { hook, line } => HookFault::UnexpectedLine {
                hook: hook@,
                line: line@,
            },
        }
    }
}

/// The view of a result that may hold a `HookError`.
pub open spec fn fault_view<T>(r: Result<T, HookError>) -> Result<T, HookFault> {
    match r {
        Ok(v) => Ok(v),
        Err(e) => Err(e@),
    }
}

/// The view of a text that may instead be a `HookError`.
pub open spec fn text_or_fault(r: Result<String, HookError>) -> Result<Seq<char>, HookFault> {
    match r {
        Ok(text) => Ok(text@),
        Err(e) => Err(e@),
    }
}

/// The error in words.
pub open spec fn fault_text(e: HookFault) -> Seq<char> {
    match e {
        HookFault::Pattern => "Line pattern not usable"@,
        HookFault::InvalidScaleLine => "Invalid scale factor line"@,
        HookFault::UnknownBaseTexture => "Unknown base texture name"@,
        HookFault::InconsistentScale => "Inconsistent scale factors"@,
        HookFault::ScaleOverflow => "Scale factor out of range"@,
        HookFault::UnsupportedHook => "Unsupported hook type"@,
        HookFault::UnsupportedComponents => "Unsupported number of components"@,
        HookFault::UnknownHookType => "Unknown hook type"@,
        HookFault::NoInputs => "No inputs specified"@,
        HookFault::NoOutput => "No output specified"@,
        HookFault::NoScaleFactor => "No scale factor specified"@,
        HookFault::UnknownInput(s) => "Unknown input texture: "@ + s,
        HookFault::UnknownTexture(s) => "Unknown texture: "@ + s,
        HookFault::FractionOnSameScale => "Fraction should only be used for textures with different scale factors"@,
        HookFault::FractionMissing => "Fraction should be used for textures with different scale factors"@,
        HookFault::PlainMacroOnOtherScale => "Non-offset macros should only be used for textures with the same scale factor"@,
        HookFault::UnknownFunction(s) => "Unknown function: "@ + s,
        HookFault::TooManyInputs => "Too many inputs"@,
        HookFault::UnexpectedLine { hook, line } => "Unexpected line in "@ + hook
            + " shader code: "@ + line,
    }
}

impl HookError {
    /// The error in words.
    pub fn to_string(&self) -> (out: String)
        ensures
            out@ == fault_text(self@),
    {
        match self {
            HookError::Pattern => "Line pattern not usable".to_owned(),
            HookError::InvalidScaleLine => "Invalid scale factor line".to_owned(),
            HookError::UnknownBaseTexture => "Unknown base texture name".to_owned(),
            HookError::InconsistentScale => "Inconsistent scale factors".to_owned(),
            HookError::ScaleOverflow => "Scale factor out of range".to_owned(),
            HookError::UnsupportedHook => "Unsupported hook type".to_owned(),
            HookError::UnsupportedComponents => "Unsupported number of components".to_owned(),
            HookError::UnknownHookType => "Unknown hook type".to_owned(),
            HookError::NoInputs => "No inputs specified".to_owned(),
            HookError::NoOutput => "No output specified".to_owned(),
            HookError::NoScaleFactor => "No scale factor specified".to_owned(),
            HookError::UnknownInput(s) => "Unknown input texture: ".to_owned().concat(s.as_str()),
            HookError::UnknownTexture(s) => "Unknown texture: ".to_owned().concat(s.as_str()),
            HookError::FractionOnSameScale => "Fraction should only be used for textures with different scale factors".to_owned(),
            HookError::FractionMissing => "Fraction should be used for textures with different scale factors".to_owned(),
            HookError::PlainMacroOnOtherScale => "Non-offset macros should only be used for textures with the same scale factor".to_owned(),
            HookError::UnknownFunction(s) => "Unknown function: ".to_owned().concat(s.as_str()),
            HookError::TooManyInputs => "Too many inputs".to_owned(),
            HookError::UnexpectedLine { hook, line } => "Unexpected line in ".to_owned().concat(
                hook.as_str(),
            ).concat(" shader code: ").concat(line.as_str()),
        }
    }
}

} // verus!
