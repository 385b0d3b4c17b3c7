//! The option set of the transform and its driver.

use vstd::prelude::*;
use crate::ast::Program;
use crate::jsx::TransformError;
use crate::program::{rewrite_program, rewrite_spec, ModuleFormat};

verus! {

/// The option set of the transform. The rewriter reads `module_format` (the form of the
/// import statement) and `delegation` (how event handlers are bound); the other options are
/// carried for the host and gate no decision of this compiler.
#[derive(Debug, Clone)]
pub struct DomExpressionsTransformOptions {
    pub generate_ssr: bool,
    pub hydratable: bool,
    /// When false, every event handler is bound directly on its element.
    pub delegation: bool,
    pub context_to_custom_elements: bool,
    pub static_marker: String,
    pub memo_wrapper: bool,
    pub wrap_conditionals: bool,
    pub module_format: ModuleFormat,
}

impl Default for DomExpressionsTransformOptions {
    fn default() -> (r: Self)
        ensures
            !r.generate_ssr,
            !r.hydratable,
            r.delegation,
            !r.context_to_custom_elements,
            r.static_marker@ == "$$"@,
            r.memo_wrapper,
            r.wrap_conditionals,
            r.module_format == ModuleFormat::Esm,
    {
        DomExpressionsTransformOptions {
            generate_ssr: false,
            hydratable: false,
            delegation: true,
            context_to_custom_elements: false,
            static_marker: String::from_str("$$"),
            memo_wrapper: true,
            wrap_conditionals: true,
            module_format: ModuleFormat::Esm,
        }
    }
}

/// Runs the rewriter over programs with one option set.
pub struct DomExpressionsTransform {
    pub options: DomExpressionsTransformOptions,
}

impl DomExpressionsTransform {
    pub fn new(options: DomExpressionsTransformOptions) -> (r: Self)
        ensures
            r.options == options,
    {
        DomExpressionsTransform { options }
    }

    /// Rewrites a program; see [`crate::program::rewrite_spec`].
    pub fn transform_program(&mut self, program: &Program) -> (r: Result<String, TransformError>)
        ensures
            match rewrite_spec(*program, old(self).options.module_format, old(self).options.delegation) {
                Ok(text) => r is Ok && r->Ok_0@ == text,
                Err(x) => r == Err::<String, TransformError>(x),
            },
    {
        rewrite_program(program, self.options.module_format, self.options.delegation)
    }
}

} // verus!
