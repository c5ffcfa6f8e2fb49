//! Code generation: a structure-preserving formatter and a Rust-targeted
//! lowering backend, both driven by the `Codegen` capability, plus the
//! text-to-text pipeline entry points.
use vstd::prelude::*;

pub mod formatter;
pub mod rust;


verus! {

/// A node that can emit target text given a mutable generator context.
/// Each implementation fixes, through `gen_spec`, exactly which text comes
/// out and how the context moves.
pub trait Codegen<Generator: View> {
    spec fn gen_spec(&self, g: Generator) -> (Seq<char>, <Generator as View>::V);

    fn generate(&self, generator: &mut Generator) -> (r: String)
        ensures
            r@ == self.gen_spec(*old(generator)).0,
            final(generator)@ == self.gen_spec(*old(generator)).1,
    ;
}

} // verus!

use crate::ast::container_free_defs;
use crate::ast::defs_container_free;
use crate::ast::view_defs;
use crate::grammar::SpParse;
use crate::grammar::sp_parse;
use crate::parser::ParseError;
use crate::parser::parse;
use self::formatter::Formatter;

verus! {

/// Why a text-to-text pipeline run produced no output: the source did not
/// parse, or the parsed tree holds a container type, which no backend can
/// lower yet.
#[derive(Debug, Clone, Copy, PartialEq, Eq, Structural)]
pub enum CodegenError {
    Parse(ParseError),
    Unsupported,
}

/// Parse a document and re-emit it through the structure-preserving
/// formatter.
pub fn format_idl(src: &str, rs: &mut Formatter) -> (r: Result<String, CodegenError>)
    ensures
        *final(rs) == *old(rs),
        (match r {
            Ok(t) => sp_parse(src@) matches SpParse::Parsed(ds) && t@ == formatter::fmt_defs(
                ds,
                old(rs).tab_size as nat,
                old(rs).indent as nat,
            ),
            Err(CodegenError::Parse(e)) => sp_parse(src@) == SpParse::Error(
                e.position as int,
                e.expected,
            ),
            Err(CodegenError::Unsupported) => false,
        }),
{
    match parse(src) {
        Err(e) => Err(CodegenError::Parse(e)),
        Ok(defs) => {
            let mut out = String::new();
            formatter::w_defs(&mut out, &defs, rs.tab_size, rs.indent);
            proof {
                assert(out@ =~= formatter::fmt_defs(
                    view_defs(defs@),
                    rs.tab_size as nat,
                    rs.indent as nat,
                ));
            }
            Ok(out)
        },
    }
}

/// Parse a document and lower it for the Rust target: the synthesized
/// declarations, in registration order, then the lowered definitions.
/// Container types have no lowering and are refused.
pub fn idl2rust(src: &str, rs: &mut rust::Rust) -> (r: Result<String, CodegenError>)
    ensures
        final(rs).tab_size == old(rs).tab_size,
        final(rs).indent == old(rs).indent,
        (match r {
            Ok(t) => sp_parse(src@) matches SpParse::Parsed(ds) && container_free_defs(ds) && {
                let (body, st2) = rust::rgen_defs(ds, old(rs)@);
                final(rs)@ == st2 && t@ == rust::registry_text(st2.registry) + "\n"@ + body
            },
            Err(CodegenError::Parse(e)) => sp_parse(src@) == SpParse::Error(
                e.position as int,
                e.expected,
            ) && *final(rs) == *old(rs),
            Err(CodegenError::Unsupported) => (sp_parse(src@) matches SpParse::Parsed(ds)
                && !container_free_defs(ds)) && *final(rs) == *old(rs),
        }),
{
    match parse(src) {
        Err(e) => Err(CodegenError::Parse(e)),
        Ok(defs) => {
            if !defs_container_free(&defs) {
                Err(CodegenError::Unsupported)
            } else {
                let body = rust::rg_defs(&defs, rs);
                let mut code = rust::registry_join(rs);
                code.append("\n");
                code.append(body.as_str());
                proof {
                    assert(code@ =~= rust::registry_text(rs@.registry) + "\n"@ + body@);
                }
                Ok(code)
            }
        },
    }
}

} // verus!
