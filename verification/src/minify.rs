//! Shader minification, done by `naga` and `wgsl-minifier`.

use vstd::prelude::*;

verus! {

/// Minifies a shader: parses it with `naga::front::wgsl::parse_str`,
/// shortens its names with `wgsl_minifier::minify_module`, validates the
/// module with `naga::valid::Validator::validate`, writes it back with
/// `naga::back::wgsl::write_string` and strips it with
/// `wgsl_minifier::minify_wgsl_source`. A shader that does not parse,
/// validate or write gives the report of the step that refused it. Nothing
/// is claimed of the text that comes back.
#[verifier::external_body]
pub fn minify_wgsl(shader: &str) -> (out: Result<String, String>) {
    let mut module = naga::front::wgsl::parse_str(shader).map_err(|e| e.to_string())?;
    wgsl_minifier::minify_module(&mut module);
    let mut validator = naga::valid::Validator::new(
        naga::valid::ValidationFlags::all(),
        naga::valid::Capabilities::all(),
    );
    let info = validator.validate(&module).map_err(|e| e.to_string())?;
    let flags = naga::back::wgsl::WriterFlags::empty();
    let output = naga::back::wgsl::write_string(&module, &info, flags).map_err(|e| e.to_string())?;
    Ok(wgsl_minifier::minify_wgsl_source(&output))
}

} // verus!
