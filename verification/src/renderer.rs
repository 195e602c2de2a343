//! Rendering of single values: numbers, text, terms and labels.
//!
//! The renderer resolves what is to be written and hands it to an output
//! format. It never looks at what the format builds: every result is stated
//! as the value that the format's own operations give.

use vstd::prelude::*;
use vstd::string::StringExecFns;
use crate::cite_context::CiteContext;
use crate::conditional::CondChecker;
use crate::date::DateOrRange;
use crate::locale::Locale;
use crate::number::{
    roman_lower,
    roman_representable,
    sort_string,
    spec_roman_lower,
    spec_roman_representable,
    spec_sort_string,
};
use crate::numeric::{NumericModel, NumericValue};
use crate::output::{
    affixed,
    affixed_text,
    affixed_text_quoted,
    spec_affixed,
    spec_affixed_text,
    spec_affixed_text_quoted,
    IngestOptions,
    LocalizedQuotes,
    OutputFormat,
};
use crate::ref_context::RefContext;
use crate::reference::{Name, Reference};
use crate::style::{
    Affixes,
    CslType,
    Features,
    Formatting,
    NameLabel,
    NumericForm,
    Plural,
    Position,
    Style,
    TextCase,
};
use crate::terms::{
    GenderedTermSelector,
    LocatorType,
    RoleTermSelector,
    TermForm,
    TextTermSelector,
};
use crate::variables::{AnyVariable, DateVariable, NameVariable, NumberVariable, StandardVariable};

verus! {

/// Either of the two contexts, behind one set of questions.
pub enum GenericContext<'a, O: OutputFormat> {
    Ref(&'a RefContext<'a, O>),
    Cit(&'a CiteContext<'a, O>),
}

impl<'a, O: OutputFormat> GenericContext<'a, O> {
    pub open spec fn spec_locale(&self) -> &Locale {
        match self {
            GenericContext::Cit(ctx) => ctx.locale,
            GenericContext::Ref(ctx) => ctx.locale,
        }
    }

    pub open spec fn spec_style(&self) -> &Style {
        match self {
            GenericContext::Cit(ctx) => ctx.style,
            GenericContext::Ref(ctx) => ctx.style,
        }
    }

    pub open spec fn spec_reference(&self) -> &Reference {
        match self {
            GenericContext::Cit(ctx) => ctx.reference,
            GenericContext::Ref(ctx) => ctx.reference,
        }
    }

    pub open spec fn spec_format(&self) -> &O {
        match self {
            GenericContext::Cit(ctx) => ctx.format,
            GenericContext::Ref(ctx) => ctx.format,
        }
    }

    pub open spec fn spec_should_add_year_suffix_hook(&self) -> bool {
        match self {
            GenericContext::Cit(ctx) => ctx.style.citation.disambiguate_add_year_suffix,
            GenericContext::Ref(ctx) => ctx.year_suffix,
        }
    }

    pub open spec fn spec_get_name(&self, var: NameVariable) -> Option<Vec<Name>> {
        match self {
            GenericContext::Cit(ctx) => ctx.spec_get_name(var),
            GenericContext::Ref(ctx) => ctx.spec_get_name(var),
        }
    }

    pub open spec fn spec_get_number(&self, var: NumberVariable) -> Option<NumericModel> {
        match self {
            GenericContext::Cit(ctx) => ctx.spec_get_number(var),
            GenericContext::Ref(ctx) => ctx.spec_get_number(var),
        }
    }

    pub fn locale(&self) -> (l: &Locale)
        ensures
            l == self.spec_locale(),
    {
        match self {
            GenericContext::Cit(ctx) => ctx.locale,
            GenericContext::Ref(ctx) => ctx.locale,
        }
    }

    pub fn style(&self) -> (s: &Style)
        ensures
            s == self.spec_style(),
    {
        match self {
            GenericContext::Cit(ctx) => ctx.style,
            GenericContext::Ref(ctx) => ctx.style,
        }
    }

    pub fn reference(&self) -> (r: &Reference)
        ensures
            r == self.spec_reference(),
    {
        match self {
            GenericContext::Cit(ctx) => ctx.reference,
            GenericContext::Ref(ctx) => ctx.reference,
        }
    }

    pub fn format(&self) -> (f: &O)
        ensures
            f == self.spec_format(),
    {
        match self {
            GenericContext::Cit(ctx) => ctx.format,
            GenericContext::Ref(ctx) => ctx.format,
        }
    }

    /// Whether a place for a suffix after the year is to be kept.
    pub fn should_add_year_suffix_hook(&self) -> (b: bool)
        ensures
            b == self.spec_should_add_year_suffix_hook(),
    {
        match self {
            GenericContext::Cit(ctx) => ctx.style.citation.disambiguate_add_year_suffix,
            GenericContext::Ref(ctx) => ctx.year_suffix,
        }
    }

    pub fn locator_type(&self) -> (t: Option<LocatorType>)
        ensures
            t == self.spec_locator_type(),
    {
        match self {
            GenericContext::Cit(ctx) => ctx.single_locator_type(),
            GenericContext::Ref(ctx) => ctx.locator_type,
        }
    }

    pub fn get_name(&self, var: NameVariable) -> (r: Option<&Vec<Name>>)
        ensures
            match r {
                Some(v) => self.spec_get_name(var) == Some(*v),
                None => self.spec_get_name(var) is None,
            },
    {
        match self {
            GenericContext::Cit(ctx) => ctx.get_name(var),
            GenericContext::Ref(ctx) => ctx.get_name(var),
        }
    }

    pub fn get_number(&self, var: NumberVariable) -> (r: Option<NumericValue>)
        ensures
            match r {
                Some(v) => self.spec_get_number(var) == Some(v@),
                None => self.spec_get_number(var) is None,
            },
    {
        match self {
            GenericContext::Cit(ctx) => ctx.get_number(var),
            GenericContext::Ref(ctx) => ctx.get_number(var),
        }
    }
}

impl<'a, O: OutputFormat> CondChecker for GenericContext<'a, O> {
    open spec fn spec_has_variable(&self, var: AnyVariable) -> bool {
        match self {
            GenericContext::Ref(ctx) => ctx.spec_has_variable(var),
            GenericContext::Cit(ctx) => ctx.spec_has_variable(var),
        }
    }

    open spec fn spec_is_numeric(&self, var: AnyVariable) -> bool {
        match self {
            GenericContext::Ref(ctx) => ctx.spec_is_numeric(var),
            GenericContext::Cit(ctx) => ctx.spec_is_numeric(var),
        }
    }

    open spec fn spec_is_disambiguate(&self) -> bool {
        match self {
            GenericContext::Ref(ctx) => ctx.spec_is_disambiguate(),
            GenericContext::Cit(ctx) => ctx.spec_is_disambiguate(),
        }
    }

    open spec fn spec_csl_type(&self) -> CslType {
        match self {
            GenericContext::Ref(ctx) => ctx.spec_csl_type(),
            GenericContext::Cit(ctx) => ctx.spec_csl_type(),
        }
    }

    open spec fn spec_locator_type(&self) -> Option<LocatorType> {
        match self {
            GenericContext::Ref(ctx) => ctx.spec_locator_type(),
            GenericContext::Cit(ctx) => ctx.spec_locator_type(),
        }
    }

    open spec fn spec_get_date(&self, dvar: DateVariable) -> Option<DateOrRange> {
        match self {
            GenericContext::Ref(ctx) => ctx.spec_get_date(dvar),
            GenericContext::Cit(ctx) => ctx.spec_get_date(dvar),
        }
    }

    open spec fn spec_position(&self) -> Position {
        match self {
            GenericContext::Ref(ctx) => ctx.spec_position(),
            GenericContext::Cit(ctx) => ctx.spec_position(),
        }
    }

    open spec fn spec_features(&self) -> Features {
        match self {
            GenericContext::Ref(ctx) => ctx.spec_features(),
            GenericContext::Cit(ctx) => ctx.spec_features(),
        }
    }

    fn has_variable(&self, var: AnyVariable) -> (b: bool) {
        match self {
            GenericContext::Ref(ctx) => ctx.has_variable(var),
            GenericContext::Cit(ctx) => ctx.has_variable(var),
        }
    }

    fn is_numeric(&self, var: AnyVariable) -> (b: bool) {
        match self {
            GenericContext::Ref(ctx) => ctx.is_numeric(var),
            GenericContext::Cit(ctx) => ctx.is_numeric(var),
        }
    }

    fn is_disambiguate(&self) -> (b: bool) {
        match self {
            GenericContext::Ref(ctx) => ctx.is_disambiguate(),
            GenericContext::Cit(ctx) => ctx.is_disambiguate(),
        }
    }

    fn csl_type(&self) -> (t: CslType) {
        match self {
            GenericContext::Ref(ctx) => ctx.csl_type(),
            GenericContext::Cit(ctx) => ctx.csl_type(),
        }
    }

    fn locator_type(&self) -> (t: Option<LocatorType>) {
        match self {
            GenericContext::Ref(ctx) => CondChecker::locator_type(*ctx),
            GenericContext::Cit(ctx) => CondChecker::locator_type(*ctx),
        }
    }

    fn get_date(&self, dvar: DateVariable) -> (d: Option<&DateOrRange>) {
        match self {
            GenericContext::Ref(ctx) => ctx.get_date(dvar),
            GenericContext::Cit(ctx) => ctx.get_date(dvar),
        }
    }

    fn position(&self) -> (p: Position) {
        match self {
            GenericContext::Ref(ctx) => ctx.position(),
            GenericContext::Cit(ctx) => ctx.position(),
        }
    }

    fn features(&self) -> (f: &Features) {
        match self {
            GenericContext::Ref(ctx) => ctx.features(),
            GenericContext::Cit(ctx) => ctx.features(),
        }
    }
}

/// Whether a label is in the plural, given how many things it labels.
pub open spec fn plural_for_count(count: nat, plural: Plural) -> Option<bool> {
    match plural {
        Plural::Contextual => if count == 0 {
            None
        } else {
            Some(count > 1)
        },
        Plural::Always => Some(true),
        Plural::Never => Some(false),
    }
}

/// Whether the label of a number is in the plural.
pub open spec fn plural_for_number(value: NumericModel, plural: Plural) -> bool {
    match plural {
        Plural::Contextual => value.is_multiple(),
        Plural::Always => true,
        Plural::Never => false,
    }
}

/// The marks that go round quoted text, where text is to be quoted.
pub open spec fn quote_marks(quo: bool) -> Option<(Seq<char>, Seq<char>)> {
    if quo {
        Some((seq!['\''], seq!['\'']))
    } else {
        None
    }
}

pub open spec fn replaces_hyphens(var: StandardVariable) -> bool {
    match var {
        StandardVariable::Ordinary(v) => v.spec_should_replace_hyphens(),
        StandardVariable::Number(v) => v.spec_should_replace_hyphens(),
    }
}

/// Renders single values in a context, for an output format that need not
/// be the format of the context.
pub struct Renderer<'a, O: OutputFormat, Custom: OutputFormat> {
    pub ctx: GenericContext<'a, O>,
    pub format: &'a Custom,
}

impl<'c, O: OutputFormat> Renderer<'c, O, O> {
    pub fn refr(c: &'c RefContext<'c, O>) -> (r: Self)
        ensures
            r.ctx == GenericContext::Ref(c),
            r.format == c.format,
    {
        Renderer { ctx: GenericContext::Ref(c), format: c.format }
    }

    pub fn cite(c: &'c CiteContext<'c, O>) -> (r: Self)
        ensures
            r.ctx == GenericContext::Cit(c),
            r.format == c.format,
    {
        Renderer { ctx: GenericContext::Cit(c), format: c.format }
    }
}

impl<'a, O: OutputFormat, O2: OutputFormat> Renderer<'a, O, O2> {
    /// A renderer for sort keys, which are built in a format of their own.
    pub fn sorting(ctx: GenericContext<'a, O>, format: &'a O2) -> (r: Renderer<'a, O, O2>)
        ensures
            r.ctx == ctx,
            r.format == format,
    {
        Renderer { ctx, format }
    }

    fn quotes(quo: bool) -> (q: Option<LocalizedQuotes>)
        ensures
            match q {
                Some(marks) => quote_marks(quo) == Some((marks.open@, marks.close@)),
                None => quote_marks(quo) is None,
            },
    {
        if quo {
            proof {
                reveal_strlit("'");
            }
            let open = String::from_str("'");
            let close = String::from_str("'");
            assert(open@ =~= seq!['\'']);
            assert(close@ =~= seq!['\'']);
            Some(LocalizedQuotes { open, close })
        } else {
            None
        }
    }

    /// The key by which a number is sorted.
    pub open spec fn spec_number_sort_string(
        &self,
        val: NumericModel,
        prefix: Seq<char>,
        suffix: Seq<char>,
    ) -> O2::Model {
        match val {
            NumericModel::Tokens(ts) => spec_affixed_text(
                self.format,
                spec_sort_string(ts),
                None,
                prefix,
                suffix,
            ),
            NumericModel::Str(s) => spec_affixed_text(self.format, s, None, prefix, suffix),
        }
    }

    /// The key by which a number is sorted: its numbers padded to one
    /// width; a value that is not numeric as it is.
    pub fn number_sort_string(
        &self,
        var: NumberVariable,
        form: NumericForm,
        val: &NumericValue,
        af: &Affixes,
        text_case: TextCase,
    ) -> (b: O2::Build)
        ensures
            self.format.model(&b) == self.spec_number_sort_string(val@, af.prefix@, af.suffix@),
    {
        match val {
            NumericValue::Tokens(ts) => {
                let s = sort_string(ts);
                affixed_text(self.format, s.as_str(), None, af)
            },
            NumericValue::Str(s) => affixed_text(self.format, s.as_str(), None, af),
        }
    }

    /// A number as it is rendered.
    pub open spec fn spec_number(
        &self,
        var: NumberVariable,
        form: NumericForm,
        val: NumericModel,
        f: Option<Formatting>,
        prefix: Seq<char>,
        suffix: Seq<char>,
        text_case: TextCase,
    ) -> O2::Model {
        if form == NumericForm::Roman && spec_roman_representable(val) {
            spec_affixed(
                self.format,
                self.format.spec_with_format(
                    self.format.spec_ingest(
                        spec_roman_lower(val->Tokens_0),
                        IngestOptions {
                            replace_hyphens: var.spec_should_replace_hyphens(),
                            text_case,
                        },
                    ),
                    f,
                ),
                prefix,
                suffix,
            )
        } else {
            spec_affixed_text(self.format, val.text(), f, prefix, suffix)
        }
    }

    /// Renders a number: in Roman numerals where the style asks for them and
    /// the value can be written so, in decimal otherwise.
    pub fn number(
        &self,
        var: NumberVariable,
        form: NumericForm,
        val: &NumericValue,
        f: Option<Formatting>,
        af: &Affixes,
        text_case: TextCase,
    ) -> (b: O2::Build)
        ensures
            self.format.model(&b) == self.spec_number(
                var,
                form,
                val@,
                f,
                af.prefix@,
                af.suffix@,
                text_case,
            ),
    {
        let roman = match form {
            NumericForm::Roman => roman_representable(val),
            _ => false,
        };
        if roman {
            match val {
                NumericValue::Tokens(ts) => {
                    let options = IngestOptions {
                        replace_hyphens: var.should_replace_hyphens(),
                        text_case,
                    };
                    let string = roman_lower(ts);
                    let b = self.format.ingest(string.as_str(), options);
                    let b = self.format.with_format(b, f);
                    affixed(self.format, b, af)
                },
                NumericValue::Str(_) => {
                    let s = val.to_string();
                    affixed_text(self.format, s.as_str(), f, af)
                },
            }
        } else {
            let s = val.to_string();
            affixed_text(self.format, s.as_str(), f, af)
        }
    }

    /// The value of a variable as it is rendered.
    pub open spec fn spec_text_variable(
        &self,
        var: StandardVariable,
        value: Seq<char>,
        f: Option<Formatting>,
        prefix: Seq<char>,
        suffix: Seq<char>,
        quo: bool,
        text_case: TextCase,
    ) -> O2::Model {
        let text = self.format.spec_with_format(
            self.format.spec_ingest(
                value,
                IngestOptions { replace_hyphens: replaces_hyphens(var), text_case },
            ),
            f,
        );
        let linked = match var {
            StandardVariable::Ordinary(v) => self.format.spec_hyperlinked(
                text,
                if v.is_link() {
                    Some(value)
                } else {
                    None
                },
            ),
            StandardVariable::Number(_) => text,
        };
        self.format.spec_affixed_quoted(linked, prefix, suffix, quote_marks(quo))
    }

    /// Renders the value of a variable: taken in by the format, formatted,
    /// linked where the variable is a link, quoted and affixed.
    pub fn text_variable(
        &self,
        var: StandardVariable,
        value: &str,
        f: Option<Formatting>,
        af: &Affixes,
        quo: bool,
        text_case: TextCase,
    ) -> (b: O2::Build)
        ensures
            self.format.model(&b) == self.spec_text_variable(
                var,
                value@,
                f,
                af.prefix@,
                af.suffix@,
                quo,
                text_case,
            ),
    {
        let quotes = Self::quotes(quo);
        let options = IngestOptions {
            replace_hyphens: match var {
                StandardVariable::Ordinary(v) => v.should_replace_hyphens(),
                StandardVariable::Number(v) => v.should_replace_hyphens(),
            },
            text_case,
        };
        let b = self.format.ingest(value, options);
        let txt = self.format.with_format(b, f);
        let txt = match var {
            StandardVariable::Ordinary(v) => {
                let maybe_link = v.hyperlink(value);
                self.format.hyperlinked(txt, maybe_link)
            },
            StandardVariable::Number(_) => txt,
        };
        self.format.affixed_quoted(txt, af, quotes.as_ref())
    }

    /// Text of the style itself as it is rendered; nothing where it is empty.
    pub open spec fn spec_text_value(
        &self,
        value: Seq<char>,
        f: Option<Formatting>,
        prefix: Seq<char>,
        suffix: Seq<char>,
        quo: bool,
        text_case: TextCase,
    ) -> Option<O2::Model> {
        if value.len() == 0 {
            None
        } else {
            Some(
                self.format.spec_affixed_quoted(
                    self.format.spec_with_format(
                        self.format.spec_ingest(
                            value,
                            IngestOptions { replace_hyphens: false, text_case },
                        ),
                        f,
                    ),
                    prefix,
                    suffix,
                    quote_marks(quo),
                ),
            )
        }
    }

    pub fn text_value(
        &self,
        value: &str,
        f: Option<Formatting>,
        af: &Affixes,
        quo: bool,
        text_case: TextCase,
    ) -> (r: Option<O2::Build>)
        ensures
            match r {
                Some(b) => self.spec_text_value(value@, f, af.prefix@, af.suffix@, quo, text_case)
                    == Some(self.format.model(&b)),
                None => self.spec_text_value(value@, f, af.prefix@, af.suffix@, quo, text_case)
                    is None,
            },
    {
        if value.is_empty() {
            return None;
        }
        let quotes = Self::quotes(quo);
        let b = self.format.ingest(value, IngestOptions { replace_hyphens: false, text_case });
        let txt = self.format.with_format(b, f);
        Some(self.format.affixed_quoted(txt, af, quotes.as_ref()))
    }

    /// A term as it is rendered; nothing where the locale does not have it.
    pub open spec fn spec_text_term(
        &self,
        selector: TextTermSelector,
        plural: bool,
        f: Option<Formatting>,
        prefix: Seq<char>,
        suffix: Seq<char>,
        quo: bool,
    ) -> Option<O2::Model> {
        match self.ctx.spec_locale().spec_get_text_term(selector, plural) {
            Some(text) => Some(
                spec_affixed_text_quoted(self.format, text, f, prefix, suffix, quote_marks(quo)),
            ),
            None => None,
        }
    }

    pub fn text_term(
        &self,
        term_selector: TextTermSelector,
        plural: bool,
        f: Option<Formatting>,
        af: &Affixes,
        quo: bool,
    ) -> (r: Option<O2::Build>)
        ensures
            match r {
                Some(b) => self.spec_text_term(term_selector, plural, f, af.prefix@, af.suffix@, quo)
                    == Some(self.format.model(&b)),
                None => self.spec_text_term(term_selector, plural, f, af.prefix@, af.suffix@, quo)
                    is None,
            },
    {
        let quotes = Self::quotes(quo);
        match self.ctx.locale().get_text_term(term_selector, plural) {
            Some(val) => Some(affixed_text_quoted(self.format, val, f, af, quotes.as_ref())),
            None => None,
        }
    }

    /// The number of names that a name variable holds in this context.
    pub open spec fn name_count(&self, var: NameVariable) -> nat {
        match self.ctx.spec_get_name(var) {
            Some(names) => names@.len(),
            None => 0,
        }
    }

    /// The label of a list of names as it is rendered.
    ///
    /// A label that follows its names has none to follow where the variable
    /// is empty. The term is that of the role of the variable, in the plural
    /// for more than one name unless the style says otherwise.
    pub open spec fn spec_name_label(&self, label: &NameLabel, var: NameVariable) -> Option<
        O2::Model,
    > {
        match plural_for_count(self.name_count(var), label.plural) {
            None => None,
            Some(plural) => match RoleTermSelector::spec_from_name_variable(var, label.form) {
                None => None,
                Some(sel) => match self.ctx.spec_locale().spec_get_text_term(
                    TextTermSelector::Role(sel),
                    plural,
                ) {
                    None => None,
                    Some(text) => Some(
                        spec_affixed_text(
                            self.format,
                            text,
                            label.formatting,
                            label.affixes.prefix@,
                            label.affixes.suffix@,
                        ),
                    ),
                },
            },
        }
    }

    pub fn name_label(&self, label: &NameLabel, var: NameVariable) -> (r: Option<O2::Build>)
        ensures
            match r {
                Some(b) => self.spec_name_label(label, var) == Some(self.format.model(&b)),
                None => self.spec_name_label(label, var) is None,
            },
    {
        let selector = RoleTermSelector::from_name_variable(var, label.form);
        let len = match self.ctx.get_name(var) {
            Some(v) => v.len(),
            None => 0,
        };
        let plural = match label.plural {
            Plural::Contextual => {
                if len == 0 {
                    return None;
                }
                len > 1
            },
            Plural::Always => true,
            Plural::Never => false,
        };
        match selector {
            Some(sel) => match self.ctx.locale().get_text_term(TextTermSelector::Role(sel), plural) {
                Some(term_text) => Some(
                    affixed_text(self.format, term_text, label.formatting, &label.affixes),
                ),
                None => None,
            },
            None => None,
        }
    }

    /// The label of a number as it is rendered.
    pub open spec fn spec_numeric_label(
        &self,
        var: NumberVariable,
        form: TermForm,
        num_val: NumericModel,
        plural: Plural,
        f: Option<Formatting>,
        prefix: Seq<char>,
        suffix: Seq<char>,
        text_case: TextCase,
    ) -> Option<O2::Model> {
        match GenderedTermSelector::spec_from_number_variable(
            self.ctx.spec_locator_type(),
            var,
            form,
        ) {
            None => None,
            Some(sel) => match self.ctx.spec_locale().spec_get_text_term(
                TextTermSelector::Gendered(sel),
                plural_for_number(num_val, plural),
            ) {
                None => None,
                Some(text) => Some(
                    spec_affixed(
                        self.format,
                        self.format.spec_with_format(
                            self.format.spec_ingest(
                                text,
                                IngestOptions { replace_hyphens: false, text_case },
                            ),
                            f,
                        ),
                        prefix,
                        suffix,
                    ),
                ),
            },
        }
    }

    /// Renders the label of a number: the term for the variable, or for the
    /// type of locator, in the plural where the value holds several numbers
    /// unless the style says otherwise.
    pub fn numeric_label(
        &self,
        var: NumberVariable,
        form: TermForm,
        num_val: NumericValue,
        plural: Plural,
        f: Option<Formatting>,
        af: &Affixes,
        text_case: TextCase,
    ) -> (r: Option<O2::Build>)
        ensures
            match r {
                Some(b) => self.spec_numeric_label(
                    var,
                    form,
                    num_val@,
                    plural,
                    f,
                    af.prefix@,
                    af.suffix@,
                    text_case,
                ) == Some(self.format.model(&b)),
                None => self.spec_numeric_label(
                    var,
                    form,
                    num_val@,
                    plural,
                    f,
                    af.prefix@,
                    af.suffix@,
                    text_case,
                ) is None,
            },
    {
        let locator_type = self.ctx.locator_type();
        let selector = GenderedTermSelector::from_number_variable(&locator_type, var, form);
        let plural = match plural {
            Plural::Contextual => num_val.is_multiple(),
            Plural::Always => true,
            Plural::Never => false,
        };
        match selector {
            Some(sel) => {
                let options = IngestOptions { replace_hyphens: false, text_case };
                match self.ctx.locale().get_text_term(TextTermSelector::Gendered(sel), plural) {
                    Some(val) => {
                        let b = self.format.ingest(val, options);
                        let b = self.format.with_format(b, f);
                        Some(affixed(self.format, b, af))
                    },
                    None => None,
                }
            },
            None => None,
        }
    }
}

} // verus!
