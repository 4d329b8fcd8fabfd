//! The entry point a host application calls: a formula string and a viewport
//! in, a complete bitmap file buffer out.

use vstd::prelude::*;

verus! {

use crate::ast::NodeV;
use crate::domain_color;
use crate::domain_color::DCOptions;
use crate::domain_color::RenderError;
use crate::domain_color::bmp_ok;
use crate::domain_color::spec_stride;
use crate::domain_color::viewport_ok;
use crate::parser::ParseError;
use crate::parser::sp_parse;

/// Renders `fun_str` over the viewport into a complete bitmap file buffer
/// (see [`domain_color::color_bmp`]).
pub fn color_bmp(width: usize, height: usize, fun_str: String, options: DCOptions) -> (r: Result<
    Vec<u8>,
    RenderError,
>)
    requires
        options.wf(),
        54 + spec_stride(width as nat) * (height as nat) <= 0xFFFF_FFFF,
    ensures
        (match r {
            Result::Ok(buf) => {
                &&& width > 0 && height > 0
                &&& viewport_ok(options@)
                &&& (match sp_parse(fun_str@) {
                    Result::Ok(node) => bmp_ok(buf@, node, options@, width as nat, height as nat),
                    Result::Err(_) => false,
                })
            },
            Result::Err(RenderError::Parse(e)) => sp_parse(fun_str@) == Result::<
                NodeV,
                ParseError,
            >::Err(e),
            Result::Err(RenderError::InvalidDimensions) => sp_parse(fun_str@) is Ok && (width == 0
                || height == 0),
            Result::Err(RenderError::InvalidViewport) => sp_parse(fun_str@) is Ok && width > 0
                && height > 0 && !viewport_ok(options@),
        }),
{
    domain_color::color_bmp(width, height, fun_str.as_str(), options)
}

} // verus!
