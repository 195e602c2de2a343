//! Output as marked-up text: HTML, RTF or plain.
//!
//! The three flavours differ in how formatting and links are written; text,
//! affixes and joins are the same in all of them. What is built is a string,
//! and its value in specifications is the characters of that string.

use vstd::prelude::*;
use vstd::string::StringExecFns;
use crate::numeric::chars_of;
use crate::text::push_char;
use crate::output::{quotes_model, IngestOptions, LocalizedQuotes, OutputFormat};
use crate::style::{
    Affixes,
    FontStyle,
    FontVariant,
    FontWeight,
    Formatting,
    TextCase,
    TextDecoration,
    VerticalAlignment,
};

verus! {

/// A flavour of marked-up text.
#[derive(Copy, Clone, PartialEq, Eq, Hash, Debug, Structural)]
pub enum Markup {
    /// HTML; `test_suite` asks for the form that the test suite of the style language expects.
    Html { test_suite: bool },
    Rtf,
    Plain,
}

/// One way in which text is set apart.
#[derive(Copy, Clone, PartialEq, Eq, Hash, Debug, Structural)]
pub enum Emphasis {
    Italic,
    Bold,
    SmallCaps,
    Underline,
    Superscript,
    Subscript,
}

/// What is written before text that is set apart.
pub open spec fn open_tag(markup: Markup, e: Emphasis) -> Seq<char> {
    match markup {
        Markup::Html { .. } => match e {
            Emphasis::Italic => "<i>"@,
            Emphasis::Bold => "<b>"@,
            Emphasis::SmallCaps => "<span style=\"font-variant:small-caps;\">"@,
            Emphasis::Underline => "<u>"@,
            Emphasis::Superscript => "<sup>"@,
            Emphasis::Subscript => "<sub>"@,
        },
        Markup::Rtf => match e {
            Emphasis::Italic => "{\\i "@,
            Emphasis::Bold => "{\\b "@,
            Emphasis::SmallCaps => "{\\scaps "@,
            Emphasis::Underline => "{\\ul "@,
            Emphasis::Superscript => "{\\super "@,
            Emphasis::Subscript => "{\\sub "@,
        },
        Markup::Plain => ""@,
    }
}

/// What is written after text that is set apart.
pub open spec fn close_tag(markup: Markup, e: Emphasis) -> Seq<char> {
    match markup {
        Markup::Html { .. } => match e {
            Emphasis::Italic => "</i>"@,
            Emphasis::Bold => "</b>"@,
            Emphasis::SmallCaps => "</span>"@,
            Emphasis::Underline => "</u>"@,
            Emphasis::Superscript => "</sup>"@,
            Emphasis::Subscript => "</sub>"@,
        },
        Markup::Rtf => "}"@,
        Markup::Plain => ""@,
    }
}

fn tags(markup: Markup, e: Emphasis) -> (r: (&'static str, &'static str))
    ensures
        r.0@ == open_tag(markup, e),
        r.1@ == close_tag(markup, e),
{
    match markup {
        Markup::Html { .. } => match e {
            Emphasis::Italic => ("<i>", "</i>"),
            Emphasis::Bold => ("<b>", "</b>"),
            Emphasis::SmallCaps => ("<span style=\"font-variant:small-caps;\">", "</span>"),
            Emphasis::Underline => ("<u>", "</u>"),
            Emphasis::Superscript => ("<sup>", "</sup>"),
            Emphasis::Subscript => ("<sub>", "</sub>"),
        },
        Markup::Rtf => match e {
            Emphasis::Italic => ("{\\i ", "}"),
            Emphasis::Bold => ("{\\b ", "}"),
            Emphasis::SmallCaps => ("{\\scaps ", "}"),
            Emphasis::Underline => ("{\\ul ", "}"),
            Emphasis::Superscript => ("{\\super ", "}"),
            Emphasis::Subscript => ("{\\sub ", "}"),
        },
        Markup::Plain => ("", ""),
    }
}

/// Text between the two tags of an emphasis, where it applies.
pub open spec fn wrapped(markup: Markup, e: Emphasis, applies: bool, m: Seq<char>) -> Seq<char> {
    if applies {
        open_tag(markup, e) + m + close_tag(markup, e)
    } else {
        m
    }
}

pub open spec fn is_italic(f: Formatting) -> bool {
    f.font_style == Some(FontStyle::Italic) || f.font_style == Some(FontStyle::Oblique)
}

pub open spec fn is_bold(f: Formatting) -> bool {
    f.font_weight == Some(FontWeight::Bold)
}

pub open spec fn is_small_caps(f: Formatting) -> bool {
    f.font_variant == Some(FontVariant::SmallCaps)
}

pub open spec fn is_underlined(f: Formatting) -> bool {
    f.text_decoration == Some(TextDecoration::Underline)
}

pub open spec fn is_superscript(f: Formatting) -> bool {
    f.vertical_alignment == Some(VerticalAlignment::Superscript)
}

pub open spec fn is_subscript(f: Formatting) -> bool {
    f.vertical_alignment == Some(VerticalAlignment::Subscript)
}

/// Formatted text: each emphasis of the formatting wraps what the ones
/// before it gave, from italics inside to the vertical alignment outside.
pub open spec fn formatted(markup: Markup, f: Formatting, m: Seq<char>) -> Seq<char> {
    let a = wrapped(markup, Emphasis::Italic, is_italic(f), m);
    let b = wrapped(markup, Emphasis::Bold, is_bold(f), a);
    let c = wrapped(markup, Emphasis::SmallCaps, is_small_caps(f), b);
    let d = wrapped(markup, Emphasis::Underline, is_underlined(f), c);
    let e = wrapped(markup, Emphasis::Superscript, is_superscript(f), d);
    wrapped(markup, Emphasis::Subscript, is_subscript(f), e)
}

/// The character that a character of a reference is taken in as.
///
/// A hyphen becomes an en dash where hyphens are to be replaced. Letters of
/// the basic Latin alphabet follow the two plain changes of case; every
/// other change of case leaves the text as it is.
pub open spec fn ingest_char(c: char, options: IngestOptions) -> char {
    if c == '-' && options.replace_hyphens {
        '\u{2013}'
    } else if options.text_case == TextCase::Uppercase && 'a' <= c <= 'z' {
        ((c as u8 - 32) as u8) as char
    } else if options.text_case == TextCase::Lowercase && 'A' <= c <= 'Z' {
        ((c as u8 + 32) as u8) as char
    } else {
        c
    }
}

pub open spec fn ingested(text: Seq<char>, options: IngestOptions) -> Seq<char> {
    Seq::new(text.len(), |i: int| ingest_char(text[i], options))
}

/// The parts in order, with the delimiter between each two.
pub open spec fn joined(parts: Seq<Seq<char>>, delimiter: Seq<char>) -> Seq<char>
    decreases parts.len(),
{
    if parts.len() == 0 {
        Seq::empty()
    } else if parts.len() == 1 {
        parts[0]
    } else {
        joined(parts.drop_last(), delimiter) + delimiter + parts.last()
    }
}

/// Text inside quotation marks, where any are given, inside the affixes.
pub open spec fn affixed_quoted_text(
    m: Seq<char>,
    prefix: Seq<char>,
    suffix: Seq<char>,
    quotes: Option<(Seq<char>, Seq<char>)>,
) -> Seq<char> {
    match quotes {
        Some((open, close)) => prefix + open + m + close + suffix,
        None => prefix + m + suffix,
    }
}

/// Text that links to `url`, where the flavour has links.
pub open spec fn linked(markup: Markup, m: Seq<char>, url: Option<Seq<char>>) -> Seq<char> {
    match (markup, url) {
        (Markup::Html { .. }, Some(u)) => "<a href=\""@ + u + "\">"@ + m + "</a>"@,
        _ => m,
    }
}

fn ingest_one(c: char, options: IngestOptions) -> (r: char)
    ensures
        r == ingest_char(c, options),
{
    if c == '-' && options.replace_hyphens {
        '\u{2013}'
    } else if options.text_case == TextCase::Uppercase && c >= 'a' && c <= 'z' {
        ((c as u8) - 32) as char
    } else if options.text_case == TextCase::Lowercase && c >= 'A' && c <= 'Z' {
        ((c as u8) + 32) as char
    } else {
        c
    }
}

impl Markup {
    pub fn html() -> (m: Markup)
        ensures
            m == (Markup::Html { test_suite: false }),
    {
        Markup::Html { test_suite: false }
    }

    pub fn test_html() -> (m: Markup)
        ensures
            m == (Markup::Html { test_suite: true }),
    {
        Markup::Html { test_suite: true }
    }

    pub fn rtf() -> (m: Markup)
        ensures
            m == Markup::Rtf,
    {
        Markup::Rtf
    }

    pub fn plain() -> (m: Markup)
        ensures
            m == Markup::Plain,
    {
        Markup::Plain
    }

    fn wrap(&self, e: Emphasis, applies: bool, b: String) -> (r: String)
        ensures
            r@ == wrapped(*self, e, applies, b@),
    {
        if applies {
            let (open, close) = tags(*self, e);
            let mut r = String::from_str(open);
            r.append(b.as_str());
            r.append(close);
            r
        } else {
            b
        }
    }
}

impl OutputFormat for Markup {
    type Build = String;

    type Model = Seq<char>;

    open spec fn model(&self, b: &String) -> Seq<char> {
        b@
    }

    open spec fn spec_plain(&self, text: Seq<char>) -> Seq<char> {
        text
    }

    open spec fn spec_ingest(&self, text: Seq<char>, options: IngestOptions) -> Seq<char> {
        ingested(text, options)
    }

    open spec fn spec_with_format(&self, m: Seq<char>, formatting: Option<Formatting>) -> Seq<char> {
        match formatting {
            Some(f) => formatted(*self, f, m),
            None => m,
        }
    }

    open spec fn spec_affixed_quoted(
        &self,
        m: Seq<char>,
        prefix: Seq<char>,
        suffix: Seq<char>,
        quotes: Option<(Seq<char>, Seq<char>)>,
    ) -> Seq<char> {
        affixed_quoted_text(m, prefix, suffix, quotes)
    }

    open spec fn spec_hyperlinked(&self, m: Seq<char>, url: Option<Seq<char>>) -> Seq<char> {
        linked(*self, m, url)
    }

    open spec fn spec_join(&self, parts: Seq<Seq<char>>, delimiter: Seq<char>) -> Seq<char> {
        joined(parts, delimiter)
    }

    open spec fn spec_is_empty(&self, m: Seq<char>) -> bool {
        m.len() == 0
    }

    open spec fn spec_output(&self, m: Seq<char>) -> Seq<char> {
        m
    }

    fn plain(&self, text: &str) -> (b: String) {
        String::from_str(text)
    }

    fn ingest(&self, text: &str, options: IngestOptions) -> (b: String) {
        let chars = chars_of(text);
        let mut b = String::new();
        let mut i: usize = 0;
        while i < chars.len()
            invariant
                i <= chars@.len(),
                chars@ == text@,
                b@ == ingested(text@, options).take(i as int),
            decreases chars@.len() - i,
        {
            let c = ingest_one(chars[i], options);
            push_char(&mut b, c);
            assert(b@ =~= ingested(text@, options).take(i + 1));
            i = i + 1;
        }
        assert(b@ =~= ingested(text@, options));
        b
    }

    fn with_format(&self, b: String, formatting: Option<Formatting>) -> (r: String) {
        match formatting {
            Some(f) => {
                let italic = match f.font_style {
                    Some(FontStyle::Italic) => true,
                    Some(FontStyle::Oblique) => true,
                    _ => false,
                };
                let bold = match f.font_weight {
                    Some(FontWeight::Bold) => true,
                    _ => false,
                };
                let small_caps = match f.font_variant {
                    Some(FontVariant::SmallCaps) => true,
                    _ => false,
                };
                let underlined = match f.text_decoration {
                    Some(TextDecoration::Underline) => true,
                    _ => false,
                };
                let superscript = match f.vertical_alignment {
                    Some(VerticalAlignment::Superscript) => true,
                    _ => false,
                };
                let subscript = match f.vertical_alignment {
                    Some(VerticalAlignment::Subscript) => true,
                    _ => false,
                };
                let r = self.wrap(Emphasis::Italic, italic, b);
                let r = self.wrap(Emphasis::Bold, bold, r);
                let r = self.wrap(Emphasis::SmallCaps, small_caps, r);
                let r = self.wrap(Emphasis::Underline, underlined, r);
                let r = self.wrap(Emphasis::Superscript, superscript, r);
                self.wrap(Emphasis::Subscript, subscript, r)
            },
            None => b,
        }
    }

    fn affixed_quoted(&self, b: String, affixes: &Affixes, quotes: Option<&LocalizedQuotes>) -> (r:
        String) {
        let mut r = affixes.prefix.clone();
        match quotes {
            Some(q) => {
                r.append(q.open.as_str());
                r.append(b.as_str());
                r.append(q.close.as_str());
            },
            None => {
                r.append(b.as_str());
            },
        }
        r.append(affixes.suffix.as_str());
        r
    }

    fn hyperlinked(&self, b: String, url: Option<&str>) -> (r: String) {
        match (self, url) {
            (Markup::Html { .. }, Some(u)) => {
                let mut r = String::from_str("<a href=\"");
                r.append(u);
                r.append("\">");
                r.append(b.as_str());
                r.append("</a>");
                r
            },
            _ => b,
        }
    }

    fn join(&self, parts: Vec<String>, delimiter: &str) -> (r: String) {
        let ghost models = Seq::new(parts@.len(), |i: int| self.model(&parts@[i]));
        let mut r = String::new();
        let mut i: usize = 0;
        assert(models.take(0) =~= Seq::<Seq<char>>::empty());
        while i < parts.len()
            invariant
                i <= parts@.len(),
                models == Seq::new(parts@.len(), |k: int| self.model(&parts@[k])),
                r@ == joined(models.take(i as int), delimiter@),
            decreases parts@.len() - i,
        {
            proof {
                assert(models.take(i + 1).drop_last() =~= models.take(i as int));
                assert(models.take(i + 1).last() == parts@[i as int]@);
                if i == 0 {
                    assert(r@ =~= Seq::<char>::empty());
                } else if i == 1 {
                    assert(models.take(1)[0] == parts@[0]@);
                }
            }
            let ghost before = r@;
            if i > 0 {
                r.append(delimiter);
            }
            r.append(parts[i].as_str());
            proof {
                if i == 0 {
                    assert(r@ =~= parts@[0]@);
                    assert(models.take(1)[0] == parts@[0]@);
                } else {
                    assert(r@ =~= before + delimiter@ + parts@[i as int]@);
                }
            }
            i = i + 1;
        }
        assert(models.take(i as int) =~= models);
        r
    }

    fn is_empty(&self, b: &String) -> (e: bool) {
        b.as_str().is_empty()
    }

    fn output(&self, b: String) -> (s: String) {
        b
    }
}

} // verus!
