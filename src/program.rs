//! The program rewriter: finds the element trees of a program, compiles each
//! one, splices the generated expressions into the source and puts the import
//! statement and the template declarations in front.

use vstd::prelude::*;
use crate::ast::{Expression, Program, Statement};
use crate::jsx::{
    compile_spec, join, join_strings, template_name, CompileState, InvalidShape, JSXTransformer,
    RequiredImports, TransformError,
};

verus! {

/// The module system of the emitted import statement.
#[derive(Clone, Copy, Debug, PartialEq, Eq, Structural)]
pub enum ModuleFormat {
    Esm,
    Cjs,
}

/// One element tree of the source, `start..end` in characters, and the code that replaces it.
pub struct Replacement {
    pub start: usize,
    pub end: usize,
    pub code: String,
}

impl View for Replacement {
    type V = (int, int, Seq<char>);

    open spec fn view(&self) -> (int, int, Seq<char>) {
        (self.start as int, self.end as int, self.code@)
    }
}

/// The state at the start of a compilation unit: no template, no helper.
pub open spec fn initial_state(delegation: bool) -> CompileState {
    CompileState {
        templates: Seq::empty(),
        imports: RequiredImports {
            set_attribute: false,
            effect: false,
            style: false,
            class_list: false,
            insert: false,
            create_component: false,
        },
        delegation,
    }
}

/// The replacements and state after the element trees of expression `e`.
pub open spec fn walk_expr(
    e: Expression,
    reps: Seq<(int, int, Seq<char>)>,
    st: CompileState,
) -> Result<(Seq<(int, int, Seq<char>)>, CompileState), TransformError>
    decreases e, 1nat,
{
    match e {
        Expression::Element(el, start, end) => match compile_spec(el, st) {
            Err(x) => Err(x),
            Ok((code, st1)) => Ok((reps.push((start as int, end as int, code)), st1)),
        },
        Expression::Parenthesized(inner) => walk_expr(*inner, reps, st),
        Expression::Assignment(rhs) => walk_expr(*rhs, reps, st),
        Expression::Call(args) => walk_exprs(args@, args@.len(), reps, st),
        Expression::ArrowExpression(body) => walk_expr(*body, reps, st),
        Expression::ArrowBlock(body) => walk_stmts(body@, body@.len(), reps, st),
        Expression::Other(inner) => walk_exprs(inner@, inner@.len(), reps, st),
    }
}

/// The walk over the first `k` expressions of `es`, in order.
pub open spec fn walk_exprs(
    es: Seq<Expression>,
    k: nat,
    reps: Seq<(int, int, Seq<char>)>,
    st: CompileState,
) -> Result<(Seq<(int, int, Seq<char>)>, CompileState), TransformError>
    decreases es, k,
{
    if k == 0 || k > es.len() {
        Ok((reps, st))
    } else {
        match walk_exprs(es, (k - 1) as nat, reps, st) {
            Err(x) => Err(x),
            Ok((r1, st1)) => walk_expr(es[k - 1], r1, st1),
        }
    }
}

/// The walk over the first `k` declarator initialisers of `inits`, in order.
pub open spec fn walk_inits(
    inits: Seq<Option<Expression>>,
    k: nat,
    reps: Seq<(int, int, Seq<char>)>,
    st: CompileState,
) -> Result<(Seq<(int, int, Seq<char>)>, CompileState), TransformError>
    decreases inits, k,
{
    if k == 0 || k > inits.len() {
        Ok((reps, st))
    } else {
        match walk_inits(inits, (k - 1) as nat, reps, st) {
            Err(x) => Err(x),
            Ok((r1, st1)) => match inits[k - 1] {
                Some(e) => walk_expr(e, r1, st1),
                None => Ok((r1, st1)),
            },
        }
    }
}

/// The replacements and state after the element trees of statement `s`.
pub open spec fn walk_stmt(
    s: Statement,
    reps: Seq<(int, int, Seq<char>)>,
    st: CompileState,
) -> Result<(Seq<(int, int, Seq<char>)>, CompileState), TransformError>
    decreases s, 1nat,
{
    match s {
        Statement::Function(body) => walk_stmts(body@, body@.len(), reps, st),
        Statement::Return(Some(e)) => walk_expr(e, reps, st),
        Statement::Return(None) => Ok((reps, st)),
        Statement::Variable(inits) => walk_inits(inits@, inits@.len(), reps, st),
        Statement::Expression(e) => walk_expr(e, reps, st),
        Statement::Other(inner) => walk_exprs(inner@, inner@.len(), reps, st),
    }
}

/// The walk over the first `k` statements of `ss`, in order.
pub open spec fn walk_stmts(
    ss: Seq<Statement>,
    k: nat,
    reps: Seq<(int, int, Seq<char>)>,
    st: CompileState,
) -> Result<(Seq<(int, int, Seq<char>)>, CompileState), TransformError>
    decreases ss, k,
{
    if k == 0 || k > ss.len() {
        Ok((reps, st))
    } else {
        match walk_stmts(ss, (k - 1) as nat, reps, st) {
            Err(x) => Err(x),
            Ok((r1, st1)) => walk_stmt(ss[k - 1], r1, st1),
        }
    }
}

/// Where the source text before replacement `j` resumes: the end of the one before it.
pub open spec fn resume_at(reps: Seq<(int, int, Seq<char>)>, j: int) -> int {
    if j <= 0 {
        0
    } else {
        reps[j - 1].1
    }
}

/// The replacements follow one another in the source without overlap and stay inside it.
pub open spec fn ordered(reps: Seq<(int, int, Seq<char>)>, len: int) -> bool {
    forall|j: int|
        0 <= j < reps.len() ==> resume_at(reps, j) <= #[trigger] reps[j].0 && reps[j].0 <= reps[j].1
            && reps[j].1 <= len
}

/// The source up to the end of replacement `k - 1`, with the first `k` replacements applied.
pub open spec fn spliced(src: Seq<char>, reps: Seq<(int, int, Seq<char>)>, k: nat) -> Seq<char>
    decreases k,
{
    if k == 0 || k > reps.len() {
        Seq::empty()
    } else {
        spliced(src, reps, (k - 1) as nat) + src.subrange(
            resume_at(reps, k - 1),
            reps[k - 1].0,
        ) + reps[k - 1].2
    }
}

/// The source with every replacement applied.
pub open spec fn splice(src: Seq<char>, reps: Seq<(int, int, Seq<char>)>) -> Seq<char> {
    spliced(src, reps, reps.len()) + src.subrange(resume_at(reps, reps.len() as int), src.len() as int)
}

/// The declaration of the template with identifier `name` and HTML `html`.
pub open spec fn declaration(name: Seq<char>, html: Seq<char>) -> Seq<char> {
    "var "@ + name + " = /*#__PURE__*/ _$template(`"@ + html + "`);"@
}

/// The declarations of the first `k` templates, in registration order, one per line.
pub open spec fn declarations(templates: Seq<Seq<char>>, k: nat) -> Seq<char>
    decreases k,
{
    if k == 0 || k > templates.len() {
        Seq::empty()
    } else {
        declarations(templates, (k - 1) as nat) + declaration(template_name(k), templates[k - 1])
            + "\n"@
    }
}

/// `seq![s]` when `flag` holds, else nothing.
pub open spec fn when(flag: bool, s: Seq<char>) -> Seq<Seq<char>> {
    if flag {
        seq![s]
    } else {
        Seq::empty()
    }
}

/// One binding of the import statement: the helper under its `_$` local name.
pub open spec fn import_binding(name: Seq<char>, format: ModuleFormat) -> Seq<char> {
    match format {
        ModuleFormat::Esm => name + " as _$"@ + name,
        ModuleFormat::Cjs => name + ": _$"@ + name,
    }
}

/// The bindings of the import statement: the template constructor, then each required helper.
pub open spec fn import_bindings(imports: RequiredImports, format: ModuleFormat) -> Seq<Seq<char>> {
    seq![import_binding("template"@, format)] + when(
        imports.set_attribute,
        import_binding("setAttribute"@, format),
    ) + when(imports.effect, import_binding("effect"@, format)) + when(
        imports.style,
        import_binding("style"@, format),
    ) + when(imports.class_list, import_binding("classList"@, format)) + when(
        imports.insert,
        import_binding("insert"@, format),
    ) + when(imports.create_component, import_binding("createComponent"@, format))
}

/// The one statement that brings in every helper the generated code names.
pub open spec fn import_statement(imports: RequiredImports, format: ModuleFormat) -> Seq<char> {
    match format {
        ModuleFormat::Esm => "import { "@ + join(import_bindings(imports, format), ", "@)
            + " } from \"r-dom\";\n"@,
        ModuleFormat::Cjs => "const { "@ + join(import_bindings(imports, format), ", "@)
            + " } = require(\"r-dom\");\n"@,
    }
}

/// The rewritten program text: unchanged when it holds no element tree, else the import
/// statement, the template declarations and the spliced source.
pub open spec fn program_output(
    src: Seq<char>,
    reps: Seq<(int, int, Seq<char>)>,
    st: CompileState,
    format: ModuleFormat,
) -> Seq<char> {
    if reps.len() == 0 {
        src
    } else {
        import_statement(st.imports, format) + declarations(st.templates, st.templates.len())
            + splice(src, reps)
    }
}

/// What rewriting `program` gives: the walk's error, the range error, or the new text.
pub open spec fn rewrite_spec(program: Program, format: ModuleFormat, delegation: bool) -> Result<
    Seq<char>,
    TransformError,
> {
    match walk_stmts(program.body@, program.body@.len(), Seq::empty(), initial_state(delegation)) {
        Err(x) => Err(x),
        Ok((reps, st)) => if ordered(reps, program.source@.len() as int) {
            Ok(program_output(program.source@, reps, st, format))
        } else {
            Err(TransformError::InvalidJSX(InvalidShape::SourceRange))
        },
    }
}

proof fn lemma_exprs_err(es: Seq<Expression>, k: nat, m: nat, reps: Seq<(int, int, Seq<char>)>, st: CompileState)
    requires
        k <= m <= es.len(),
        walk_exprs(es, k, reps, st) is Err,
    ensures
        walk_exprs(es, m, reps, st) == walk_exprs(es, k, reps, st),
    decreases m - k,
{
    if m > k {
        lemma_exprs_err(es, k, (m - 1) as nat, reps, st);
    }
}

proof fn lemma_inits_err(
    inits: Seq<Option<Expression>>,
    k: nat,
    m: nat,
    reps: Seq<(int, int, Seq<char>)>,
    st: CompileState,
)
    requires
        k <= m <= inits.len(),
        walk_inits(inits, k, reps, st) is Err,
    ensures
        walk_inits(inits, m, reps, st) == walk_inits(inits, k, reps, st),
    decreases m - k,
{
    if m > k {
        lemma_inits_err(inits, k, (m - 1) as nat, reps, st);
    }
}

pub proof fn lemma_stmts_err(ss: Seq<Statement>, k: nat, m: nat, reps: Seq<(int, int, Seq<char>)>, st: CompileState)
    requires
        k <= m <= ss.len(),
        walk_stmts(ss, k, reps, st) is Err,
    ensures
        walk_stmts(ss, m, reps, st) == walk_stmts(ss, k, reps, st),
    decreases m - k,
{
    if m > k {
        lemma_stmts_err(ss, k, (m - 1) as nat, reps, st);
    }
}

/// The replacements as the contracts see them.
pub open spec fn reps_view(reps: Seq<Replacement>) -> Seq<(int, int, Seq<char>)> {
    reps.map_values(|r: Replacement| r@)
}

fn visit_expression(
    e: &Expression,
    jsx: &mut JSXTransformer,
    reps: &mut Vec<Replacement>,
) -> (r: Result<(), TransformError>)
    ensures
        match walk_expr(*e, reps_view(old(reps)@), old(jsx)@) {
            Ok((rs, st)) => r is Ok && reps_view(final(reps)@) == rs && final(jsx)@ == st,
            Err(x) => r == Err::<(), TransformError>(x),
        },
    decreases e, 1nat,
{
    match e {
        Expression::Element(el, start, end) => {
            let code = match jsx.transform_jsx_element(el) {
                Ok(code) => code,
                Err(x) => {
                    return Err(x);
                },
            };
            let rep = Replacement { start: *start, end: *end, code };
            let ghost rv = rep@;
            reps.push(rep);
            assert(reps_view(reps@) =~= reps_view(old(reps)@).push(rv));
            Ok(())
        },
        Expression::Parenthesized(inner) => visit_expression(inner, jsx, reps),
        Expression::Assignment(rhs) => visit_expression(rhs, jsx, reps),
        Expression::Call(args) => visit_expressions(args, jsx, reps),
        Expression::ArrowExpression(body) => visit_expression(body, jsx, reps),
        Expression::ArrowBlock(body) => visit_statements(body, jsx, reps),
        Expression::Other(inner) => visit_expressions(inner, jsx, reps),
    }
}

fn visit_expressions(
    es: &Vec<Expression>,
    jsx: &mut JSXTransformer,
    reps: &mut Vec<Replacement>,
) -> (r: Result<(), TransformError>)
    ensures
        match walk_exprs(es@, es@.len(), reps_view(old(reps)@), old(jsx)@) {
            Ok((rs, st)) => r is Ok && reps_view(final(reps)@) == rs && final(jsx)@ == st,
            Err(x) => r == Err::<(), TransformError>(x),
        },
    decreases es, 0nat,
{
    let ghost reps0 = reps_view(reps@);
    let ghost st0 = jsx@;
    let mut i: usize = 0;
    while i < es.len()
        invariant
            i <= es.len(),
            reps0 == reps_view(old(reps)@),
            st0 == old(jsx)@,
            walk_exprs(es@, i as nat, reps0, st0) == Ok::<
                (Seq<(int, int, Seq<char>)>, CompileState),
                TransformError,
            >((reps_view(reps@), jsx@)),
        decreases es.len() - i,
    {
        match visit_expression(&es[i], jsx, reps) {
            Ok(()) => {},
            Err(x) => {
                assert(walk_exprs(es@, (i + 1) as nat, reps0, st0) == Err::<
                    (Seq<(int, int, Seq<char>)>, CompileState),
                    TransformError,
                >(x));
                proof {
                    lemma_exprs_err(es@, (i + 1) as nat, es@.len(), reps0, st0);
                }
                return Err(x);
            },
        }
        i = i + 1;
    }
    Ok(())
}

fn visit_inits(
    inits: &Vec<Option<Expression>>,
    jsx: &mut JSXTransformer,
    reps: &mut Vec<Replacement>,
) -> (r: Result<(), TransformError>)
    ensures
        match walk_inits(inits@, inits@.len(), reps_view(old(reps)@), old(jsx)@) {
            Ok((rs, st)) => r is Ok && reps_view(final(reps)@) == rs && final(jsx)@ == st,
            Err(x) => r == Err::<(), TransformError>(x),
        },
    decreases inits, 0nat,
{
    let ghost reps0 = reps_view(reps@);
    let ghost st0 = jsx@;
    let mut i: usize = 0;
    while i < inits.len()
        invariant
            i <= inits.len(),
            reps0 == reps_view(old(reps)@),
            st0 == old(jsx)@,
            walk_inits(inits@, i as nat, reps0, st0) == Ok::<
                (Seq<(int, int, Seq<char>)>, CompileState),
                TransformError,
            >((reps_view(reps@), jsx@)),
        decreases inits.len() - i,
    {
        match &inits[i] {
            Some(e) => match visit_expression(e, jsx, reps) {
                Ok(()) => {},
                Err(x) => {
                    assert(walk_inits(inits@, (i + 1) as nat, reps0, st0) == Err::<
                        (Seq<(int, int, Seq<char>)>, CompileState),
                        TransformError,
                    >(x));
                    proof {
                        lemma_inits_err(inits@, (i + 1) as nat, inits@.len(), reps0, st0);
                    }
                    return Err(x);
                },
            },
            None => {},
        }
        i = i + 1;
    }
    Ok(())
}

fn visit_statement(
    s: &Statement,
    jsx: &mut JSXTransformer,
    reps: &mut Vec<Replacement>,
) -> (r: Result<(), TransformError>)
    ensures
        match walk_stmt(*s, reps_view(old(reps)@), old(jsx)@) {
            Ok((rs, st)) => r is Ok && reps_view(final(reps)@) == rs && final(jsx)@ == st,
            Err(x) => r == Err::<(), TransformError>(x),
        },
    decreases s, 1nat,
{
    match s {
        Statement::Function(body) => visit_statements(body, jsx, reps),
        Statement::Return(Some(e)) => visit_expression(e, jsx, reps),
        Statement::Return(None) => Ok(()),
        Statement::Variable(inits) => visit_inits(inits, jsx, reps),
        Statement::Expression(e) => visit_expression(e, jsx, reps),
        Statement::Other(inner) => visit_expressions(inner, jsx, reps),
    }
}

fn visit_statements(
    ss: &Vec<Statement>,
    jsx: &mut JSXTransformer,
    reps: &mut Vec<Replacement>,
) -> (r: Result<(), TransformError>)
    ensures
        match walk_stmts(ss@, ss@.len(), reps_view(old(reps)@), old(jsx)@) {
            Ok((rs, st)) => r is Ok && reps_view(final(reps)@) == rs && final(jsx)@ == st,
            Err(x) => r == Err::<(), TransformError>(x),
        },
    decreases ss, 0nat,
{
    let ghost reps0 = reps_view(reps@);
    let ghost st0 = jsx@;
    let mut i: usize = 0;
    while i < ss.len()
        invariant
            i <= ss.len(),
            reps0 == reps_view(old(reps)@),
            st0 == old(jsx)@,
            walk_stmts(ss@, i as nat, reps0, st0) == Ok::<
                (Seq<(int, int, Seq<char>)>, CompileState),
                TransformError,
            >((reps_view(reps@), jsx@)),
        decreases ss.len() - i,
    {
        match visit_statement(&ss[i], jsx, reps) {
            Ok(()) => {},
            Err(x) => {
                assert(walk_stmts(ss@, (i + 1) as nat, reps0, st0) == Err::<
                    (Seq<(int, int, Seq<char>)>, CompileState),
                    TransformError,
                >(x));
                proof {
                    lemma_stmts_err(ss@, (i + 1) as nat, ss@.len(), reps0, st0);
                }
                return Err(x);
            },
        }
        i = i + 1;
    }
    Ok(())
}

/// Applies the replacements to the source, failing when they overlap, go backwards or
/// leave the source.
pub fn apply_replacements(source: &str, reps: &Vec<Replacement>) -> (r: Result<
    String,
    TransformError,
>)
    ensures
        ordered(reps_view(reps@), source@.len() as int) ==> r is Ok && r->Ok_0@ == splice(
            source@,
            reps_view(reps@),
        ),
        !ordered(reps_view(reps@), source@.len() as int) ==> r == Err::<String, TransformError>(
            TransformError::InvalidJSX(InvalidShape::SourceRange),
        ),
{
    let ghost v = reps_view(reps@);
    let n = source.unicode_len();
    let mut out = String::new();
    let mut prev: usize = 0;
    let mut j: usize = 0;
    while j < reps.len()
        invariant
            n == source@.len(),
            v == reps_view(reps@),
            j <= reps.len(),
            prev == resume_at(v, j as int),
            prev <= n,
            out@ == spliced(source@, v, j as nat),
            forall|k: int|
                0 <= k < j ==> resume_at(v, k) <= #[trigger] v[k].0 && v[k].0 <= v[k].1 && v[k].1
                    <= n,
        decreases reps.len() - j,
    {
        let rep = &reps[j];
        assert(v[j as int] == rep@);
        if rep.start < prev || rep.end < rep.start || rep.end > n {
            assert(!ordered(v, n as int)) by {
                assert(!(resume_at(v, j as int) <= v[j as int].0 && v[j as int].0 <= v[j as int].1
                    && v[j as int].1 <= n));
            }
            return Err(TransformError::InvalidJSX(InvalidShape::SourceRange));
        }
        append_range_str(&mut out, source, prev, rep.start);
        out.append(rep.code.as_str());
        prev = rep.end;
        j = j + 1;
    }
    append_range_str(&mut out, source, prev, n);
    Ok(out)
}

fn append_range_str(out: &mut String, s: &str, from: usize, to: usize)
    requires
        from <= to <= s@.len(),
    ensures
        final(out)@ == old(out)@ + s@.subrange(from as int, to as int),
{
    crate::text::append_range(out, s, from, to);
}

/// Appends the declarations of every registered template, in registration order.
pub fn append_declarations(out: &mut String, jsx: &JSXTransformer)
    ensures
        final(out)@ == old(out)@ + declarations(jsx@.templates, jsx@.templates.len()),
{
    let n = jsx.template_count();
    let mut i: usize = 0;
    while i < n
        invariant
            n == jsx@.templates.len(),
            i <= n,
            out@ == old(out)@ + declarations(jsx@.templates, i as nat),
        decreases n - i,
    {
        let ghost before = out@;
        let name = JSXTransformer::template_name_at(i);
        out.append("var ");
        out.append(name.as_str());
        out.append(" = /*#__PURE__*/ _$template(`");
        out.append(jsx.template_html(i).as_str());
        out.append("`);");
        out.append("\n");
        assert(out@ =~= before + declaration(template_name((i + 1) as nat), jsx@.templates[i as int])
            + "\n"@);
        i = i + 1;
    }
}

fn binding_str(name: &str, format: ModuleFormat) -> (r: String)
    ensures
        r@ == import_binding(name@, format),
{
    let mut r = String::from_str(name);
    match format {
        ModuleFormat::Esm => r.append(" as _$"),
        ModuleFormat::Cjs => r.append(": _$"),
    }
    r.append(name);
    r
}

fn push_binding(bindings: &mut Vec<String>, flag: bool, name: &str, format: ModuleFormat)
    ensures
        final(bindings)@.map_values(|s: String| s@) == old(bindings)@.map_values(|s: String| s@)
            + when(flag, import_binding(name@, format)),
{
    if flag {
        let b = binding_str(name, format);
        let ghost bv = b@;
        bindings.push(b);
        assert(final(bindings)@.map_values(|s: String| s@) =~= old(bindings)@.map_values(
            |s: String| s@,
        ) + seq![bv]);
    } else {
        assert(final(bindings)@.map_values(|s: String| s@) =~= old(bindings)@.map_values(
            |s: String| s@,
        ) + Seq::<Seq<char>>::empty());
    }
}

/// The bindings of the import statement, the template constructor first.
pub fn import_binding_list(imports: RequiredImports, format: ModuleFormat) -> (r: Vec<String>)
    ensures
        r@.map_values(|s: String| s@) == import_bindings(imports, format),
{
    let mut bindings: Vec<String> = Vec::new();
    push_binding(&mut bindings, true, "template", format);
    push_binding(&mut bindings, imports.set_attribute, "setAttribute", format);
    push_binding(&mut bindings, imports.effect, "effect", format);
    push_binding(&mut bindings, imports.style, "style", format);
    push_binding(&mut bindings, imports.class_list, "classList", format);
    push_binding(&mut bindings, imports.insert, "insert", format);
    push_binding(&mut bindings, imports.create_component, "createComponent", format);
    assert(bindings@.map_values(|s: String| s@) =~= import_bindings(imports, format));
    bindings
}

/// The import statement for the given helpers.
pub fn generate_import_statement(imports: RequiredImports, format: ModuleFormat) -> (r: String)
    ensures
        r@ == import_statement(imports, format),
{
    let bindings = import_binding_list(imports, format);
    let joined = join_strings(&bindings, ", ");
    let mut r = String::new();
    match format {
        ModuleFormat::Esm => {
            r.append("import { ");
            r.append(joined.as_str());
            r.append(" } from \"r-dom\";\n");
        },
        ModuleFormat::Cjs => {
            r.append("const { ");
            r.append(joined.as_str());
            r.append(" } = require(\"r-dom\");\n");
        },
    }
    r
}

/// Rewrites a program: compiles every element tree that the walk reaches, then emits the
/// import statement, the template declarations and the source with each tree replaced.
pub fn rewrite_program(program: &Program, format: ModuleFormat, delegation: bool) -> (r: Result<
    String,
    TransformError,
>)
    ensures
        match rewrite_spec(*program, format, delegation) {
            Ok(text) => r is Ok && r->Ok_0@ == text,
            Err(x) => r == Err::<String, TransformError>(x),
        },
{
    let mut jsx = JSXTransformer::with_delegation(delegation);
    let mut reps: Vec<Replacement> = Vec::new();
    assert(reps_view(reps@) =~= Seq::<(int, int, Seq<char>)>::empty());
    assert(jsx@ == initial_state(delegation)) by {
        assert(jsx@.templates =~= Seq::<Seq<char>>::empty());
    }
    match visit_statements(&program.body, &mut jsx, &mut reps) {
        Ok(()) => {},
        Err(x) => {
            return Err(x);
        },
    }
    let spliced = match apply_replacements(program.source.as_str(), &reps) {
        Ok(t) => t,
        Err(x) => {
            return Err(x);
        },
    };
    if reps.len() == 0 {
        return Ok(program.source.clone());
    }
    let mut out = generate_import_statement(jsx.imports(), format);
    append_declarations(&mut out, &jsx);
    out.append(spliced.as_str());
    Ok(out)
}

} // verus!
