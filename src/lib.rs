//! Lowers element trees (markup embedded in code) into static HTML templates
//! plus the runtime calls that patch their dynamic holes, for fine-grained
//! reactive UI runtimes.
//!
//! A host parser turns source text into the shapes of [`ast`]; the rewriter
//! in [`program`] compiles every element tree it reaches and returns the new
//! program text.

use vstd::prelude::*;

pub mod ast;
pub mod components;
pub mod events;
pub mod jsx;
pub mod laws;
pub mod optimization;
pub mod options;
pub mod program;
pub mod text;
pub mod utils;

pub use ast::Program;
pub use jsx::TransformError;
pub use options::{DomExpressionsTransform, DomExpressionsTransformOptions};
pub use program::{rewrite_spec, ModuleFormat};

verus! {

/// Configuration of [`SolidJsTransformer`].
#[derive(Debug, Clone)]
pub struct SolidTransformOptions {
    pub generate_source_maps: bool,
    pub development: bool,
    pub hydratable: bool,
    pub module_format: ModuleFormat,
}

impl Default for SolidTransformOptions {
    fn default() -> (r: Self)
        ensures
            !r.generate_source_maps,
            !r.development,
            !r.hydratable,
            r.module_format == ModuleFormat::Esm,
    {
        SolidTransformOptions {
            generate_source_maps: false,
            development: false,
            hydratable: false,
            module_format: ModuleFormat::Esm,
        }
    }
}

/// Main entry point: compiles the element trees of one program at a time.
pub struct SolidJsTransformer {
    pub options: SolidTransformOptions,
}

impl SolidJsTransformer {
    /// A transformer with the default options.
    pub fn new() -> (r: Self)
        ensures
            !r.options.generate_source_maps,
            !r.options.development,
            !r.options.hydratable,
            r.options.module_format == ModuleFormat::Esm,
    {
        SolidJsTransformer { options: SolidTransformOptions::default() }
    }

    pub fn with_options(options: SolidTransformOptions) -> (r: Self)
        ensures
            r.options == options,
    {
        SolidJsTransformer { options }
    }

    /// Rewrites a program; see [`program::rewrite_spec`].
    pub fn transform_program(&mut self, program: &Program) -> (r: Result<String, TransformError>)
        ensures
            match rewrite_spec(*program, old(self).options.module_format, true) {
                Ok(text) => r is Ok && r->Ok_0@ == text,
                Err(x) => r == Err::<String, TransformError>(x),
            },
    {
        program::rewrite_program(program, self.options.module_format, true)
    }
}

} // verus!
