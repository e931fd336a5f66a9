//! A source-to-source transformer for a compact single-expression
//! function syntax.
//!
//! An invocation such as `pub fn scale(&self, f: i32) -> Self => ...`
//! is parsed into an intermediate representation ([`SingleLine`]) and
//! re-emitted as a complete, standard function or method definition.
//! Both steps work on a flat stream of [`Token`] values; a thin
//! frontend turns host-language token trees into that stream and back.

use vstd::prelude::*;

mod ir;
mod laws;
mod parse;
mod scan;
mod synth;
mod token;

pub use ir::Expected;
pub use ir::Param;
pub use ir::ParamSpec;
pub use ir::Receiver;
pub use ir::SingleLine;
pub use ir::SingleLineSpec;
pub use ir::SyntaxError;
pub use ir::Vis;
pub use ir::VisSpec;
pub use token::Token;

pub use laws::empty_parens_form;
pub use laws::lemma_attributes_preserved;
pub use laws::lemma_body_preserved;
pub use laws::lemma_default_return_type;
pub use laws::lemma_fn_marker_no_effect;
pub use laws::lemma_method_shorthand;
pub use laws::lemma_param_list_omission;
pub use laws::lemma_round_trip;
pub use laws::marked_form;
pub use laws::omitted_parens_form;
pub use laws::unmarked_form;
pub use parse::attrs_end;
pub use parse::parse_name;
pub use parse::parse_param_list;
pub use parse::parse_params;
pub use parse::parse_ret;
pub use parse::parse_segment;
pub use parse::parse_sep_body;
pub use parse::parse_vis;
pub use parse::restriction_opener;
pub use parse::skip_fn_marker;
pub use parse::spec_parse;
pub use scan::fat_arrow_pos;
pub use scan::paren_close;
pub use scan::seg_end;
pub use synth::body_tokens;
pub use synth::is_bare_ident;
pub use synth::is_method;
pub use synth::param_tokens;
pub use synth::params_tokens;
pub use synth::receiver_tokens;
pub use synth::ret_tokens;
pub use synth::signature_tokens;
pub use synth::spec_synthesize;
pub use synth::vis_tokens;

verus! {

/// Expands one invocation: parses the token stream and, when it fits
/// the grammar, emits the complete definition it stands for; a stream
/// that does not fit yields the parser's error and no output at all.
pub fn single_line(tokens: &Vec<Token>) -> (r: Result<Vec<Token>, SyntaxError>)
    ensures
        match r {
            Ok(out) => spec_parse(tokens@) matches Ok(ir) && out@ == spec_synthesize(ir),
            Err(e) => spec_parse(tokens@) == Err::<SingleLineSpec, SyntaxError>(e),
        },
{
    match SingleLine::parse(tokens) {
        Ok(parsed) => Ok(parsed.synthesize()),
        Err(e) => Err(e),
    }
}

} // verus!
