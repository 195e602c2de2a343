//! Evaluation of a style tree against one cite.
//!
//! Each element of the tree becomes a node of an intermediate
//! representation that mirrors the shape of the tree. Sequences keep their
//! children apart until they are flattened, so that a later pass can
//! replace the outcome of a conditional branch without walking the whole
//! tree again.
//!
//! Macros are expanded where they are called. A macro that calls itself,
//! directly or through others, would never end: a chain of expansions is cut
//! off, rendering nothing, once it is longer than the number of macros of
//! the style, which no chain without a cycle ever is.

use vstd::prelude::*;
use std::sync::Arc;
use crate::cite_context::CiteContext;
use crate::cite_context::DisambPass;
use crate::conditional::{
    answer_alike,
    conditions_disambiguate,
    conditions_hold,
    eval_conditions,
    lemma_conditions_alike,
    CondChecker,
};
use crate::output::{affixed, affixed_text, spec_affixed, spec_affixed_text, OutputFormat};
use crate::renderer::{plural_for_number, GenericContext, Renderer};
use crate::style::{
    element_resolves,
    elements_resolve,
    lemma_macro_index,
    macro_index,
    Affixes,
    Choose,
    DateElement,
    Element,
    Formatting,
    Group,
    IfThen,
    LabelElement,
    Layout,
    Names,
    NumberElement,
    NumericForm,
    Style,
    TextCase,
    TextElement,
    TextSource,
};
use crate::variables::{StandardVariable, Variable};

verus! {

/// A run of nodes with what joins and surrounds them.
pub struct IrSeq<O: OutputFormat> {
    pub contents: Vec<IR<O>>,
    pub formatting: Option<Formatting>,
    pub delimiter: String,
    pub affixes: Affixes,
}

/// What an element evaluates to.
pub enum IR<O: OutputFormat> {
    /// Rendered text, or nothing.
    Rendered(Option<O::Build>),
    /// The place of a list of names, which is formatted elsewhere.
    Names(Arc<Names>, O::Build),
    /// The outcome of a choice that may turn out otherwise in the pass that
    /// tells cites apart by their conditions, with the choice itself.
    ConditionalDisamb(Arc<Choose>, Box<IR<O>>),
    /// The place where a suffix after the year goes.
    YearSuffix(Option<O::Build>),
    Sequence(IrSeq<O>),
}

/// The mathematical value of an [`IR`], over the values of what the format builds.
pub enum IrModel<M> {
    Rendered(Option<M>),
    Names(Names, M),
    ConditionalDisamb(Choose, Box<IrModel<M>>),
    YearSuffix(Option<M>),
    Sequence {
        contents: Seq<IrModel<M>>,
        formatting: Option<Formatting>,
        delimiter: Seq<char>,
        prefix: Seq<char>,
        suffix: Seq<char>,
    },
}

pub open spec fn option_model<O: OutputFormat>(format: &O, b: Option<O::Build>) -> Option<O::Model> {
    match b {
        Some(b) => Some(format.model(&b)),
        None => None,
    }
}

/// The value of a node.
pub open spec fn ir_model<O: OutputFormat>(format: &O, ir: IR<O>) -> IrModel<O::Model>
    decreases ir,
{
    match ir {
        IR::Rendered(b) => IrModel::Rendered(option_model(format, b)),
        IR::Names(names, b) => IrModel::Names(*names, format.model(&b)),
        IR::ConditionalDisamb(ch, inner) => IrModel::ConditionalDisamb(
            *ch,
            Box::new(ir_model(format, *inner)),
        ),
        IR::YearSuffix(b) => IrModel::YearSuffix(option_model(format, b)),
        IR::Sequence(seq) => IrModel::Sequence {
            contents: Seq::new(
                seq.contents@.len(),
                |i: int|
                    if 0 <= i < seq.contents@.len() {
                        ir_model(format, seq.contents@[i])
                    } else {
                        IrModel::Rendered(None)
                    },
            ),
            formatting: seq.formatting,
            delimiter: seq.delimiter@,
            prefix: seq.affixes.prefix@,
            suffix: seq.affixes.suffix@,
        },
    }
}

/// The values of a run of nodes, one for one.
pub open spec fn ir_models<O: OutputFormat>(format: &O, irs: Seq<IR<O>>) -> Seq<IrModel<O::Model>> {
    Seq::new(irs.len(), |i: int| ir_model(format, irs[i]))
}

// ---------------------------------------------------------------------------
// What evaluation gives
// ---------------------------------------------------------------------------

/// The text that stands where names will be.
pub open spec fn names_placeholder() -> Seq<char> {
    "names first-pass"@
}

/// The branch of a choice at place `i`: the first at 0, the others after it.
pub open spec fn branch(ch: &Choose, i: int) -> IfThen {
    if i == 0 {
        ch.0
    } else {
        ch.1@[i - 1]
    }
}

pub open spec fn branch_count(ch: &Choose) -> int {
    1 + ch.1@.len() as int
}

/// The place of the first branch at or after `from` whose conditions hold,
/// or the number of branches where there is none.
pub open spec fn first_match<'c, O: OutputFormat>(
    ch: &Choose,
    ctx: &CiteContext<'c, O>,
    from: int,
) -> int
    decreases branch_count(ch) - from,
{
    if from < 0 || from >= branch_count(ch) {
        branch_count(ch)
    } else if conditions_hold(&branch(ch, from).0, ctx) {
        from
    } else {
        first_match(ch, ctx, from + 1)
    }
}

/// The branch that a choice takes: the first whose conditions hold, in the
/// order of the style; the number of branches stands for the fallback.
pub open spec fn branch_taken<'c, O: OutputFormat>(ch: &Choose, ctx: &CiteContext<'c, O>) -> int {
    first_match(ch, ctx, 0)
}

/// Whether the outcome of a choice may still change in the pass that tells
/// cites apart by their conditions: one of the branches that were tried,
/// up to the one taken, asks about disambiguation before that pass.
pub open spec fn choice_disambiguates<'c, O: OutputFormat>(
    ch: &Choose,
    ctx: &CiteContext<'c, O>,
) -> bool {
    exists|i: int|
        0 <= i < branch_count(ch) && i <= branch_taken(ch, ctx) && conditions_disambiguate(
            &(#[trigger] branch(ch, i)).0,
            ctx,
        )
}

/// A sequence without delimiter, formatting or affixes.
pub open spec fn bare_sequence<M>(contents: Seq<IrModel<M>>) -> IrModel<M> {
    IrModel::Sequence {
        contents,
        formatting: None,
        delimiter: Seq::empty(),
        prefix: Seq::empty(),
        suffix: Seq::empty(),
    }
}

/// What a text element evaluates to. `el` is the element that holds `t`.
pub open spec fn eval_text<'c, O: OutputFormat>(
    el: Element,
    t: &TextElement,
    ctx: &CiteContext<'c, O>,
    depth: nat,
) -> IrModel<O::Model>
    decreases depth, el, 2nat,
{
    let renderer = Renderer::<O, O> { ctx: GenericContext::Cit(ctx), format: ctx.format };
    match t.source {
        TextSource::Macro(name) => match macro_index(ctx.style.macros@, name@) {
            Some(i) => if depth == 0 {
                IrModel::Rendered(None)
            } else {
                IrModel::Sequence {
                    contents: eval_elements(
                        ctx.style.macros@[i].elements@,
                        ctx,
                        (depth - 1) as nat,
                    ),
                    formatting: t.formatting,
                    delimiter: Seq::empty(),
                    prefix: t.affixes.prefix@,
                    suffix: t.affixes.suffix@,
                }
            },
            None => IrModel::Rendered(None),
        },
        TextSource::Value(v) => IrModel::Rendered(
            renderer.spec_text_value(
                v@,
                t.formatting,
                t.affixes.prefix@,
                t.affixes.suffix@,
                t.quotes,
                t.text_case,
            ),
        ),
        TextSource::Variable(var, form) => {
            let value = match var {
                StandardVariable::Ordinary(v) => ctx.spec_get_ordinary(v, form),
                StandardVariable::Number(v) => match ctx.spec_get_number(v) {
                    Some(n) => Some(n.text()),
                    None => None,
                },
            };
            let rendered = match value {
                Some(text) => Some(
                    renderer.spec_text_variable(
                        var,
                        text,
                        t.formatting,
                        t.affixes.prefix@,
                        t.affixes.suffix@,
                        t.quotes,
                        t.text_case,
                    ),
                ),
                None => None,
            };
            if var == StandardVariable::Ordinary(Variable::YearSuffix)
                && ctx.style.citation.disambiguate_add_year_suffix {
                IrModel::YearSuffix(rendered)
            } else {
                IrModel::Rendered(rendered)
            }
        },
        TextSource::Term(selector, plural) => IrModel::Rendered(
            renderer.spec_text_term(
                selector,
                plural,
                t.formatting,
                t.affixes.prefix@,
                t.affixes.suffix@,
                t.quotes,
            ),
        ),
    }
}

pub open spec fn eval_label<'c, O: OutputFormat>(
    l: &LabelElement,
    ctx: &CiteContext<'c, O>,
) -> IrModel<O::Model> {
    let renderer = Renderer::<O, O> { ctx: GenericContext::Cit(ctx), format: ctx.format };
    match ctx.spec_get_number(l.variable) {
        Some(value) => IrModel::Rendered(
            renderer.spec_numeric_label(
                l.variable,
                l.form,
                value,
                l.plural,
                l.formatting,
                l.affixes.prefix@,
                l.affixes.suffix@,
                l.text_case,
            ),
        ),
        None => IrModel::Rendered(None),
    }
}

pub open spec fn eval_number<'c, O: OutputFormat>(
    n: &NumberElement,
    ctx: &CiteContext<'c, O>,
) -> IrModel<O::Model> {
    let renderer = Renderer::<O, O> { ctx: GenericContext::Cit(ctx), format: ctx.format };
    match ctx.spec_get_number(n.variable) {
        Some(value) => IrModel::Rendered(
            Some(
                renderer.spec_number(
                    n.variable,
                    n.form,
                    value,
                    n.formatting,
                    n.affixes.prefix@,
                    n.affixes.suffix@,
                    n.text_case,
                ),
            ),
        ),
        None => IrModel::Rendered(None),
    }
}

pub open spec fn eval_date<'c, O: OutputFormat>(
    d: &DateElement,
    ctx: &CiteContext<'c, O>,
) -> IrModel<O::Model> {
    match ctx.reference.spec_date(d.variable) {
        Some(date) => IrModel::Rendered(
            Some(
                spec_affixed_text(
                    ctx.format,
                    date.spec_text(),
                    d.formatting,
                    d.affixes.prefix@,
                    d.affixes.suffix@,
                ),
            ),
        ),
        None => IrModel::Rendered(None),
    }
}

/// What an element evaluates to, with `depth` expansions of macros left.
pub open spec fn eval_element<'c, O: OutputFormat>(
    el: Element,
    ctx: &CiteContext<'c, O>,
    depth: nat,
) -> IrModel<O::Model>
    decreases depth, el, 3nat,
{
    match el {
        Element::Text(t) => eval_text(el, &t, ctx, depth),
        Element::Label(l) => eval_label(&l, ctx),
        Element::Number(n) => eval_number(&n, ctx),
        Element::Names(names) => IrModel::Names(*names, ctx.format.spec_plain(names_placeholder())),
        Element::Group(g) => IrModel::Sequence {
            contents: eval_elements(g.elements@, ctx, depth),
            formatting: g.formatting,
            delimiter: g.delimiter@,
            prefix: g.affixes.prefix@,
            suffix: g.affixes.suffix@,
        },
        Element::Choose(ch) => eval_choice(*ch, ctx, depth),
        Element::Date(d) => eval_date(&d, ctx),
    }
}

/// What a choice evaluates to: the elements of the branch that is taken, as
/// a bare sequence, marked where the outcome may still change.
pub open spec fn eval_choice<'c, O: OutputFormat>(
    ch: Choose,
    ctx: &CiteContext<'c, O>,
    depth: nat,
) -> IrModel<O::Model>
    decreases depth, ch, 2nat,
{
    let taken = branch_taken(&ch, ctx);
    let contents = if taken == 0 {
        eval_elements(ch.0.1@, ctx, depth)
    } else if 0 < taken < branch_count(&ch) {
        eval_elements(ch.1@[taken - 1].1@, ctx, depth)
    } else {
        eval_elements(ch.2.0@, ctx, depth)
    };
    if choice_disambiguates(&ch, ctx) {
        IrModel::ConditionalDisamb(ch, Box::new(bare_sequence(contents)))
    } else {
        bare_sequence(contents)
    }
}

/// What a run of elements evaluates to, one node for each element.
pub open spec fn eval_elements<'c, O: OutputFormat>(
    els: Seq<Element>,
    ctx: &CiteContext<'c, O>,
    depth: nat,
) -> Seq<IrModel<O::Model>>
    decreases depth, els, 1nat,
{
    if els.len() == 0 {
        Seq::empty()
    } else {
        eval_elements(els.drop_last(), ctx, depth).push(eval_element(els.last(), ctx, depth))
    }
}


// ---------------------------------------------------------------------------
// Evaluation
// ---------------------------------------------------------------------------

/// Another handle on shared data. Wraps `Arc::clone` of std, which gives a
/// pointer to the same value.
#[verifier::external_body]
fn share<T>(a: &Arc<T>) -> (r: Arc<T>)
    ensures
        r == *a,
{
    Arc::clone(a)
}

proof fn lemma_models_push<O: OutputFormat>(format: &O, irs: Seq<IR<O>>, ir: IR<O>)
    ensures
        ir_models(format, irs.push(ir)) == ir_models(format, irs).push(ir_model(format, ir)),
{
    assert(ir_models(format, irs.push(ir)) =~= ir_models(format, irs).push(ir_model(format, ir)));
}

/// Builds a sequence node.
fn sequence_node<O: OutputFormat>(
    format: &O,
    contents: Vec<IR<O>>,
    formatting: Option<Formatting>,
    delimiter: &str,
    affixes: &Affixes,
) -> (ir: IR<O>)
    ensures
        ir_model(format, ir) == (IrModel::Sequence {
            contents: ir_models(format, contents@),
            formatting,
            delimiter: delimiter@,
            prefix: affixes.prefix@,
            suffix: affixes.suffix@,
        }),
{
    let ghost models = ir_models(format, contents@);
    let seq = IrSeq {
        contents,
        formatting,
        delimiter: delimiter.to_owned(),
        affixes: affixes.clone(),
    };
    let ir = IR::Sequence(seq);
    proof {
        let m = ir_model(format, ir);
        assert(m->contents =~= models);
    }
    ir
}

/// Evaluates a run of elements, one node for each.
pub fn evaluate_elements<'c, O: OutputFormat>(
    els: &Vec<Element>,
    ctx: &CiteContext<'c, O>,
    depth: usize,
) -> (irs: Vec<IR<O>>)
    ensures
        ir_models(ctx.format, irs@) == eval_elements(els@, ctx, depth as nat),
    decreases depth, *els, 1nat,
{
    let mut irs: Vec<IR<O>> = Vec::new();
    let mut i: usize = 0;
    assert(ir_models(ctx.format, irs@) =~= eval_elements(els@.take(0), ctx, depth as nat));
    while i < els.len()
        invariant
            i <= els@.len(),
            ir_models(ctx.format, irs@) == eval_elements(els@.take(i as int), ctx, depth as nat),
        decreases els@.len() - i,
    {
        let ir = evaluate_element(&els[i], ctx, depth);
        proof {
            lemma_models_push(ctx.format, irs@, ir);
            assert(els@.take(i + 1).drop_last() =~= els@.take(i as int));
            assert(els@.take(i + 1).last() == els@[i as int]);
        }
        irs.push(ir);
        i = i + 1;
    }
    assert(els@.take(i as int) =~= els@);
    irs
}

fn evaluate_text<'c, O: OutputFormat>(
    el: &Element,
    t: &TextElement,
    ctx: &CiteContext<'c, O>,
    depth: usize,
) -> (ir: IR<O>)
    ensures
        ir_model(ctx.format, ir) == eval_text(*el, t, ctx, depth as nat),
    decreases depth, *el, 2nat,
{
    let renderer = Renderer::cite(ctx);
    match &t.source {
        TextSource::Macro(name) => {
            match ctx.style.find_macro(name.as_str()) {
                Some(idx) => {
                    if depth == 0 {
                        IR::Rendered(None)
                    } else {
                        let contents = evaluate_elements(
                            &ctx.style.macros[idx].elements,
                            ctx,
                            depth - 1,
                        );
                        proof {
                            reveal_strlit("");
                            assert(""@ =~= Seq::<char>::empty());
                        }
                        sequence_node(ctx.format, contents, t.formatting, "", &t.affixes)
                    }
                },
                None => IR::Rendered(None),
            }
        },
        TextSource::Value(v) => IR::Rendered(
            renderer.text_value(v.as_str(), t.formatting, &t.affixes, t.quotes, t.text_case),
        ),
        TextSource::Variable(var, form) => {
            let rendered = match var {
                StandardVariable::Ordinary(v) => match ctx.get_ordinary(*v, *form) {
                    Some(text) => Some(
                        renderer.text_variable(
                            *var,
                            text,
                            t.formatting,
                            &t.affixes,
                            t.quotes,
                            t.text_case,
                        ),
                    ),
                    None => None,
                },
                StandardVariable::Number(v) => match ctx.get_number(*v) {
                    Some(n) => {
                        let text = n.to_string();
                        Some(
                            renderer.text_variable(
                                *var,
                                text.as_str(),
                                t.formatting,
                                &t.affixes,
                                t.quotes,
                                t.text_case,
                            ),
                        )
                    },
                    None => None,
                },
            };
            let is_year_suffix = match var {
                StandardVariable::Ordinary(Variable::YearSuffix) => true,
                _ => false,
            };
            if is_year_suffix && ctx.style.citation.disambiguate_add_year_suffix {
                IR::YearSuffix(rendered)
            } else {
                IR::Rendered(rendered)
            }
        },
        TextSource::Term(selector, plural) => IR::Rendered(
            renderer.text_term(*selector, *plural, t.formatting, &t.affixes, t.quotes),
        ),
    }
}

fn evaluate_label<'c, O: OutputFormat>(l: &LabelElement, ctx: &CiteContext<'c, O>) -> (ir: IR<O>)
    ensures
        ir_model(ctx.format, ir) == eval_label(l, ctx),
{
    let renderer = Renderer::cite(ctx);
    match ctx.get_number(l.variable) {
        Some(value) => IR::Rendered(
            renderer.numeric_label(
                l.variable,
                l.form,
                value,
                l.plural,
                l.formatting,
                &l.affixes,
                l.text_case,
            ),
        ),
        None => IR::Rendered(None),
    }
}

fn evaluate_number<'c, O: OutputFormat>(n: &NumberElement, ctx: &CiteContext<'c, O>) -> (ir: IR<O>)
    ensures
        ir_model(ctx.format, ir) == eval_number(n, ctx),
{
    let renderer = Renderer::cite(ctx);
    match ctx.get_number(n.variable) {
        Some(value) => IR::Rendered(
            Some(
                renderer.number(n.variable, n.form, &value, n.formatting, &n.affixes, n.text_case),
            ),
        ),
        None => IR::Rendered(None),
    }
}

fn evaluate_date<'c, O: OutputFormat>(d: &DateElement, ctx: &CiteContext<'c, O>) -> (ir: IR<O>)
    ensures
        ir_model(ctx.format, ir) == eval_date(d, ctx),
{
    match ctx.reference.date(d.variable) {
        Some(date) => {
            let text = date.text();
            IR::Rendered(Some(affixed_text(ctx.format, text.as_str(), d.formatting, &d.affixes)))
        },
        None => IR::Rendered(None),
    }
}

/// Evaluates a choice: the first branch whose conditions hold, in the order
/// of the style, or the fallback where none does.
pub fn evaluate_choice<'c, O: OutputFormat>(
    ch: &Arc<Choose>,
    ctx: &CiteContext<'c, O>,
    depth: usize,
) -> (ir: IR<O>)
    ensures
        ir_model(ctx.format, ir) == eval_choice(**ch, ctx, depth as nat),
    decreases depth, **ch, 2nat,
{
    let choice: &Choose = &**ch;
    let count = choice.1.len();
    assert(choice.0 == branch(choice, 0));
    let (matched, disambiguate) = eval_conditions(&choice.0.0, ctx);
    let mut disamb = disambiguate;
    let mut taken: Option<usize> = if matched {
        Some(0)
    } else {
        None
    };
    let mut j: usize = 0;
    while j < count && taken.is_none()
        invariant
            choice == &**ch,
            count == choice.1@.len(),
            j <= count,
            match taken {
                Some(t) => {
                    &&& t <= count
                    &&& branch_taken(choice, ctx) == t
                    &&& disamb == exists|k: int|
                        0 <= k <= t && conditions_disambiguate(
                            &(#[trigger] branch(choice, k)).0,
                            ctx,
                        )
                },
                None => {
                    &&& first_match(choice, ctx, 0) == first_match(choice, ctx, j + 1)
                    &&& disamb == exists|k: int|
                        0 <= k <= j && conditions_disambiguate(
                            &(#[trigger] branch(choice, k)).0,
                            ctx,
                        )
                },
            },
        decreases count - j,
    {
        let current: &IfThen = &choice.1[j];
        assert(*current == branch(choice, j + 1));
        let (matched, disambiguate) = eval_conditions(&current.0, ctx);
        proof {
            if disambiguate {
                assert(conditions_disambiguate(&branch(choice, j + 1).0, ctx));
            }
        }
        if matched {
            taken = Some(j + 1);
        }
        disamb = disamb || disambiguate;
        j = j + 1;
    }
    let contents = match taken {
        Some(t) => {
            if t == 0 {
                evaluate_elements(&choice.0.1, ctx, depth)
            } else {
                evaluate_elements(&choice.1[t - 1].1, ctx, depth)
            }
        },
        None => evaluate_elements(&choice.2.0, ctx, depth),
    };
    proof {
        reveal_strlit("");
        assert(""@ =~= Seq::<char>::empty());
        let t = branch_taken(choice, ctx);
        if taken is None {
            assert(j == count);
            assert(t == branch_count(choice));
        }
        assert(disamb == choice_disambiguates(choice, ctx)) by {
            if disamb {
                let k = choose|k: int|
                    0 <= k <= (if taken is Some {
                        taken.unwrap() as int
                    } else {
                        j as int
                    }) && conditions_disambiguate(&(#[trigger] branch(choice, k)).0, ctx);
                assert(0 <= k < branch_count(choice) && k <= t);
            }
            if choice_disambiguates(choice, ctx) {
                let k = choose|k: int|
                    0 <= k < branch_count(choice) && k <= t && conditions_disambiguate(
                        &(#[trigger] branch(choice, k)).0,
                        ctx,
                    );
                assert(conditions_disambiguate(&branch(choice, k).0, ctx));
            }
        }
    }
    let affixes = Affixes::default();
    assert(affixes.prefix@ =~= Seq::<char>::empty());
    assert(affixes.suffix@ =~= Seq::<char>::empty());
    let inner = sequence_node(ctx.format, contents, None, "", &affixes);
    if disamb {
        IR::ConditionalDisamb(share(ch), Box::new(inner))
    } else {
        inner
    }
}

/// Evaluates one element, with `depth` expansions of macros left.
pub fn evaluate_element<'c, O: OutputFormat>(
    el: &Element,
    ctx: &CiteContext<'c, O>,
    depth: usize,
) -> (ir: IR<O>)
    ensures
        ir_model(ctx.format, ir) == eval_element(*el, ctx, depth as nat),
    decreases depth, *el, 3nat,
{
    match el {
        Element::Text(t) => evaluate_text(el, t, ctx, depth),
        Element::Label(l) => evaluate_label(l, ctx),
        Element::Number(n) => evaluate_number(n, ctx),
        Element::Names(names) => {
            let b = ctx.format.plain("names first-pass");
            IR::Names(share(names), b)
        },
        Element::Group(g) => {
            let contents = evaluate_elements(&g.elements, ctx, depth);
            sequence_node(ctx.format, contents, g.formatting, g.delimiter.as_str(), &g.affixes)
        },
        Element::Choose(ch) => evaluate_choice(ch, ctx, depth),
        Element::Date(d) => evaluate_date(d, ctx),
    }
}


/// Evaluates an element of a style for one cite. Macros are expanded as
/// deep as the style has macros.
pub fn evaluate<'c, O: OutputFormat>(el: &Element, ctx: &CiteContext<'c, O>) -> (ir: IR<O>)
    ensures
        ir_model(ctx.format, ir) == eval_element(*el, ctx, ctx.style.macros@.len()),
{
    evaluate_element(el, ctx, ctx.style.macros.len())
}

/// What a layout evaluates to: its elements, with its own delimiter,
/// formatting and affixes.
pub open spec fn eval_layout<'c, O: OutputFormat>(
    layout: &Layout,
    ctx: &CiteContext<'c, O>,
) -> IrModel<O::Model> {
    IrModel::Sequence {
        contents: eval_elements(layout.elements@, ctx, ctx.style.macros@.len()),
        formatting: layout.formatting,
        delimiter: layout.delimiter@,
        prefix: layout.affixes.prefix@,
        suffix: layout.affixes.suffix@,
    }
}

/// What can be evaluated for a cite.
pub trait Proc<'c, O: OutputFormat> {
    spec fn spec_intermediate(&self, ctx: &CiteContext<'c, O>) -> IrModel<O::Model>;

    fn intermediate(&self, ctx: &CiteContext<'c, O>) -> (ir: IR<O>)
        ensures
            ir_model(ctx.format, ir) == self.spec_intermediate(ctx),
    ;
}

impl<'c, O: OutputFormat> Proc<'c, O> for Element {
    open spec fn spec_intermediate(&self, ctx: &CiteContext<'c, O>) -> IrModel<O::Model> {
        eval_element(*self, ctx, ctx.style.macros@.len())
    }

    fn intermediate(&self, ctx: &CiteContext<'c, O>) -> (ir: IR<O>) {
        evaluate(self, ctx)
    }
}

impl<'c, O: OutputFormat> Proc<'c, O> for Arc<Choose> {
    open spec fn spec_intermediate(&self, ctx: &CiteContext<'c, O>) -> IrModel<O::Model> {
        eval_choice(**self, ctx, ctx.style.macros@.len())
    }

    fn intermediate(&self, ctx: &CiteContext<'c, O>) -> (ir: IR<O>) {
        evaluate_choice(self, ctx, ctx.style.macros.len())
    }
}

impl<'c, O: OutputFormat> Proc<'c, O> for Layout {
    open spec fn spec_intermediate(&self, ctx: &CiteContext<'c, O>) -> IrModel<O::Model> {
        eval_layout(self, ctx)
    }

    fn intermediate(&self, ctx: &CiteContext<'c, O>) -> (ir: IR<O>) {
        let contents = evaluate_elements(&self.elements, ctx, ctx.style.macros.len());
        sequence_node(
            ctx.format,
            contents,
            self.formatting,
            self.delimiter.as_str(),
            &self.affixes,
        )
    }
}

impl<'c, O: OutputFormat> Proc<'c, O> for Style {
    /// A style evaluates to what the layout of its citation evaluates to.
    open spec fn spec_intermediate(&self, ctx: &CiteContext<'c, O>) -> IrModel<O::Model> {
        eval_layout(&self.citation.layout, ctx)
    }

    fn intermediate(&self, ctx: &CiteContext<'c, O>) -> (ir: IR<O>) {
        self.citation.layout.intermediate(ctx)
    }
}

// ---------------------------------------------------------------------------
// Flattening
// ---------------------------------------------------------------------------

/// What a node renders as, or `None` where it renders nothing.
///
/// A sequence joins what its children render with its delimiter. A child
/// that renders nothing, or something empty, is left out of the join, so
/// that no two delimiters ever meet. A sequence of which nothing is left
/// renders nothing.
pub open spec fn flatten_model<O: OutputFormat>(format: &O, m: IrModel<O::Model>) -> Option<
    O::Model,
>
    decreases m, 1nat,
{
    match m {
        IrModel::Rendered(b) => b,
        IrModel::Names(_, b) => Some(b),
        IrModel::ConditionalDisamb(_, inner) => flatten_model(format, *inner),
        IrModel::YearSuffix(b) => b,
        IrModel::Sequence { contents, formatting, delimiter, prefix, suffix } => {
            let parts = flatten_parts(format, contents);
            if parts.len() == 0 {
                None
            } else {
                Some(
                    spec_affixed(
                        format,
                        format.spec_with_format(format.spec_join(parts, delimiter), formatting),
                        prefix,
                        suffix,
                    ),
                )
            }
        },
    }
}

/// What the nodes of a run render as, in order, without those that render
/// nothing or something empty.
pub open spec fn flatten_parts<O: OutputFormat>(format: &O, items: Seq<IrModel<O::Model>>) -> Seq<
    O::Model,
>
    decreases items, 0nat,
{
    if items.len() == 0 {
        Seq::empty()
    } else {
        let before = flatten_parts(format, items.drop_last());
        match flatten_model(format, items.last()) {
            Some(part) => if format.spec_is_empty(part) {
                before
            } else {
                before.push(part)
            },
            None => before,
        }
    }
}

/// Renders a node, giving up the node.
pub fn flatten<O: OutputFormat>(ir: IR<O>, format: &O) -> (r: Option<O::Build>)
    ensures
        option_model(format, r) == flatten_model(format, ir_model(format, ir)),
    decreases ir,
{
    match ir {
        IR::Rendered(b) => b,
        IR::Names(_, b) => Some(b),
        IR::ConditionalDisamb(_, inner) => flatten(*inner, format),
        IR::YearSuffix(b) => b,
        IR::Sequence(seq) => {
            let IrSeq { contents, formatting, delimiter, affixes } = seq;
            let ghost all = ir_models(format, contents@);
            proof {
                let m = ir_model(format, ir);
                assert(m->contents =~= all);
            }
            let mut remaining = contents;
            // What has been rendered so far, last part first.
            let mut reversed: Vec<O::Build> = Vec::new();
            proof {
                lemma_flatten_parts_append(
                    format,
                    all,
                    Seq::new(reversed@.len(), |i: int| format.model(&reversed@[i])),
                );
            }
            while remaining.len() > 0
                invariant
                    forall|i: int|
                        0 <= i < remaining@.len() ==> decreases_to!(ir => #[trigger] remaining@[i]),
                    flatten_parts(format, all) == flatten_parts(
                        format,
                        ir_models(format, remaining@),
                    ) + Seq::new(reversed@.len(), |i: int| format.model(&reversed@[i])).reverse(),
                decreases remaining@.len(),
            {
                let ghost before = remaining@;
                let ghost done = Seq::new(reversed@.len(), |i: int| format.model(&reversed@[i]));
                let child = remaining.pop().unwrap();
                proof {
                    assert(child == before.last());
                    assert(remaining@ =~= before.drop_last());
                    assert(ir_models(format, before).drop_last() =~= ir_models(format, remaining@));
                    assert(ir_models(format, before).last() == ir_model(format, child));
                }
                match flatten(child, format) {
                    Some(part) => {
                        if !format.is_empty(&part) {
                            reversed.push(part);
                            proof {
                                let done2 = Seq::new(
                                    reversed@.len(),
                                    |i: int| format.model(&reversed@[i]),
                                );
                                assert(done2 =~= done.push(format.model(&part)));
                                assert(done2.reverse() =~= seq![format.model(&part)]
                                    + done.reverse());
                                let rest = flatten_parts(format, ir_models(format, remaining@));
                                assert(rest.push(format.model(&part)) + done.reverse() =~= rest
                                    + done2.reverse());
                            }
                        }
                    },
                    None => {},
                }
            }
            proof {
                assert(ir_models(format, remaining@) =~= Seq::<IrModel<O::Model>>::empty());
            }
            let mut parts: Vec<O::Build> = Vec::new();
            let ghost target = Seq::new(reversed@.len(), |i: int| format.model(&reversed@[i])).reverse();
            assert(Seq::new(parts@.len(), |i: int| format.model(&parts@[i])) + Seq::new(
                reversed@.len(),
                |i: int| format.model(&reversed@[i]),
            ).reverse() =~= target);
            while reversed.len() > 0
                invariant
                    Seq::new(parts@.len(), |i: int| format.model(&parts@[i])) + Seq::new(
                        reversed@.len(),
                        |i: int| format.model(&reversed@[i]),
                    ).reverse() == target,
                decreases reversed@.len(),
            {
                let ghost before = Seq::new(reversed@.len(), |i: int| format.model(&reversed@[i]));
                let ghost placed = Seq::new(parts@.len(), |i: int| format.model(&parts@[i]));
                let part = reversed.pop().unwrap();
                parts.push(part);
                proof {
                    let after = Seq::new(reversed@.len(), |i: int| format.model(&reversed@[i]));
                    let placed2 = Seq::new(parts@.len(), |i: int| format.model(&parts@[i]));
                    assert(after =~= before.drop_last());
                    assert(placed2 =~= placed.push(before.last()));
                    assert(before.reverse() =~= seq![before.last()] + after.reverse());
                    assert(placed2 + after.reverse() =~= placed + before.reverse());
                }
            }
            proof {
                assert(Seq::new(reversed@.len(), |i: int| format.model(&reversed@[i])).reverse()
                    =~= Seq::<O::Model>::empty());
                assert(Seq::new(parts@.len(), |i: int| format.model(&parts@[i])) =~= target);
                assert(flatten_parts(format, all) =~= target);
            }
            if parts.len() == 0 {
                None
            } else {
                let joined = format.join(parts, delimiter.as_str());
                let formatted = format.with_format(joined, formatting);
                Some(affixed(format, formatted, &affixes))
            }
        },
    }
}

proof fn lemma_flatten_parts_append<O: OutputFormat>(
    format: &O,
    items: Seq<IrModel<O::Model>>,
    nothing: Seq<O::Model>,
)
    requires
        nothing.len() == 0,
    ensures
        flatten_parts(format, items) + nothing.reverse() == flatten_parts(format, items),
{
    assert(flatten_parts(format, items) + nothing.reverse() =~= flatten_parts(format, items));
}

// ---------------------------------------------------------------------------
// Laws
// ---------------------------------------------------------------------------

proof fn lemma_first_match<'c, O: OutputFormat>(ch: &Choose, ctx: &CiteContext<'c, O>, from: int)
    requires
        0 <= from <= branch_count(ch),
    ensures
        from <= first_match(ch, ctx, from) <= branch_count(ch),
        first_match(ch, ctx, from) < branch_count(ch) ==> conditions_hold(
            &branch(ch, first_match(ch, ctx, from)).0,
            ctx,
        ),
        forall|j: int|
            from <= j < first_match(ch, ctx, from) ==> !conditions_hold(
                &(#[trigger] branch(ch, j)).0,
                ctx,
            ),
    decreases branch_count(ch) - from,
{
    if from < branch_count(ch) && !conditions_hold(&branch(ch, from).0, ctx) {
        lemma_first_match(ch, ctx, from + 1);
    }
}

/// A choice takes the first branch whose conditions hold, in the order of
/// the style, and the fallback exactly where no branch's conditions hold.
pub proof fn law_first_branch_wins<'c, O: OutputFormat>(ch: &Choose, ctx: &CiteContext<'c, O>)
    ensures
        0 <= branch_taken(ch, ctx) <= branch_count(ch),
        branch_taken(ch, ctx) < branch_count(ch) ==> conditions_hold(
            &branch(ch, branch_taken(ch, ctx)).0,
            ctx,
        ),
        forall|j: int|
            0 <= j < branch_taken(ch, ctx) ==> !conditions_hold(&(#[trigger] branch(ch, j)).0, ctx),
        branch_taken(ch, ctx) == branch_count(ch) <==> forall|j: int|
            0 <= j < branch_count(ch) ==> !conditions_hold(&(#[trigger] branch(ch, j)).0, ctx),
{
    lemma_first_match(ch, ctx, 0);
}


proof fn lemma_first_match_alike<'c, O: OutputFormat>(
    ch: &Choose,
    a: &CiteContext<'c, O>,
    b: &CiteContext<'c, O>,
    from: int,
)
    requires
        answer_alike(a, b),
        0 <= from <= branch_count(ch),
    ensures
        first_match(ch, a, from) == first_match(ch, b, from),
    decreases branch_count(ch) - from,
{
    if from < branch_count(ch) {
        lemma_conditions_alike(&branch(ch, from).0, a, b);
        if !conditions_hold(&branch(ch, from).0, a) {
            lemma_first_match_alike(ch, a, b, from + 1);
        }
    }
}

/// The pass under way changes which branch a choice takes only where it is
/// the pass that tells cites apart by their conditions: between any two
/// other passes, for the same cite, every choice takes the same branch and
/// is marked alike.
pub proof fn law_pass_matters_only_for_conditionals<'c, O: OutputFormat>(
    ch: &Choose,
    a: &CiteContext<'c, O>,
    b: &CiteContext<'c, O>,
)
    requires
        a.disamb_pass != Some(DisambPass::Conditionals),
        b.disamb_pass != Some(DisambPass::Conditionals),
        a.reference == b.reference,
        a.cite == b.cite,
        a.style == b.style,
        a.position == b.position,
        a.bib_number == b.bib_number,
    ensures
        branch_taken(ch, a) == branch_taken(ch, b),
        choice_disambiguates(ch, a) == choice_disambiguates(ch, b),
{
    assert(answer_alike(a, b));
    lemma_first_match_alike(ch, a, b, 0);
    assert forall|i: int| 0 <= i < branch_count(ch) implies conditions_disambiguate(
        &(#[trigger] branch(ch, i)).0,
        a,
    ) == conditions_disambiguate(&branch(ch, i).0, b) by {
        lemma_conditions_alike(&branch(ch, i).0, a, b);
    }
}


// ---------------------------------------------------------------------------
// Taking marked choices anew
// ---------------------------------------------------------------------------

/// A node after every choice that was marked in it is taken anew for the
/// context `ctx`. Everything else stays as it is.
///
/// A marked choice is replaced by what the choice evaluates to now, marked
/// or not as the context now has it. What is inside a marked choice is not
/// looked at: it is replaced as a whole.
pub open spec fn retried<'c, O: OutputFormat>(
    m: IrModel<O::Model>,
    ctx: &CiteContext<'c, O>,
    depth: nat,
) -> IrModel<O::Model>
    decreases m,
{
    match m {
        IrModel::ConditionalDisamb(ch, _) => eval_choice(ch, ctx, depth),
        IrModel::Sequence { contents, formatting, delimiter, prefix, suffix } => IrModel::Sequence {
            contents: Seq::new(
                contents.len(),
                |i: int|
                    if 0 <= i < contents.len() {
                        retried(contents[i], ctx, depth)
                    } else {
                        IrModel::Rendered(None)
                    },
            ),
            formatting,
            delimiter,
            prefix,
            suffix,
        },
        other => other,
    }
}

/// Takes anew every choice that was marked in a node, for a context of the
/// same cite in a later pass, without evaluating anything else again.
pub fn retry_conditionals<'c, O: OutputFormat>(ir: IR<O>, ctx: &CiteContext<'c, O>) -> (r: IR<O>)
    ensures
        ir_model(ctx.format, r) == retried(
            ir_model(ctx.format, ir),
            ctx,
            ctx.style.macros@.len() as nat,
        ),
    decreases ir,
{
    match ir {
        IR::ConditionalDisamb(ch, _) => evaluate_choice(&ch, ctx, ctx.style.macros.len()),
        IR::Sequence(seq) => {
            let IrSeq { contents, formatting, delimiter, affixes } = seq;
            let ghost given = contents@;
            let ghost n = given.len();
            let ghost depth = ctx.style.macros@.len() as nat;
            proof {
                let m = ir_model(ctx.format, ir);
                assert(m->contents =~= ir_models(ctx.format, given));
            }
            let mut remaining = contents;
            let mut reversed: Vec<IR<O>> = Vec::new();
            while remaining.len() > 0
                invariant
                    n == given.len(),
                    remaining@.len() + reversed@.len() == n,
                    remaining@ == given.take(remaining@.len() as int),
                    forall|i: int| 0 <= i < n ==> decreases_to!(ir => #[trigger] given[i]),
                    depth == ctx.style.macros@.len(),
                    forall|j: int|
                        0 <= j < reversed@.len() ==> ir_model(ctx.format, #[trigger] reversed@[j])
                            == retried(ir_model(ctx.format, given[n - 1 - j]), ctx, depth),
                decreases remaining@.len(),
            {
                let ghost before = remaining@;
                let child = remaining.pop().unwrap();
                proof {
                    assert(child == given[before.len() - 1]);
                    assert(remaining@ =~= given.take(remaining@.len() as int));
                }
                let again = retry_conditionals(child, ctx);
                reversed.push(again);
            }
            let contents = crate::utils::reversed(reversed);
            let r = IR::Sequence(IrSeq { contents, formatting, delimiter, affixes });
            proof {
                let before = ir_model(ctx.format, ir);
                let after = ir_model(ctx.format, r);
                let want = retried(before, ctx, depth);
                assert(after->contents =~= want->contents) by {
                    assert forall|i: int| 0 <= i < n implies (#[trigger] after->contents[i])
                        == want->contents[i] by {
                        assert(contents@[i] == reversed@[n - 1 - i]);
                    }
                }
            }
            r
        },
        other => other,
    }
}

} // verus!
