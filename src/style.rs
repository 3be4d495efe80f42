//! Styled text: pieces of text tagged with a tone, and their rendering.

use colored::Colorize;
use vstd::prelude::*;

verus! {

/// The look of a piece of text on a terminal.
#[derive(Clone, Copy, Debug, PartialEq, Eq, Structural)]
pub enum Tone {
    Plain,
    Bold,
    Dimmed,
    Red,
    RedBold,
    Green,
    GreenBold,
    Yellow,
    Blue,
    BrightRed,
}

/// A piece of text and its tone.
pub struct Segment {
    pub text: String,
    pub tone: Tone,
}

/// A styled document: pieces of text with their tones, in order.
pub type Doc = Seq<(Seq<char>, Tone)>;

/// The view of a list of segments.
pub open spec fn doc_of(v: Seq<Segment>) -> Doc {
    v.map_values(|s: Segment| (s.text@, s.tone))
}

/// A single piece of text in tone `t`.
pub open spec fn piece(text: Seq<char>, t: Tone) -> Doc {
    seq![(text, t)]
}

/// A single piece of unstyled text.
pub open spec fn plain(text: Seq<char>) -> Doc {
    piece(text, Tone::Plain)
}

/// The text of a document, without its tones.
pub open spec fn flat(d: Doc) -> Seq<char>
    decreases d.len(),
{
    if d.len() == 0 {
        Seq::empty()
    } else {
        flat(d.drop_last()) + d.last().0
    }
}

/// What the terminal-color library writes for `text` in tone `t` when
/// coloring is on.
pub uninterp spec fn styled(text: Seq<char>, t: Tone) -> Seq<char>;

/// The text of a document with the pieces marked in `on` styled and the
/// others left as they are.
pub open spec fn painted(d: Doc, on: Seq<bool>) -> Seq<char>
    decreases d.len(),
{
    if d.len() == 0 {
        Seq::empty()
    } else {
        painted(d.drop_last(), on) + if on[d.len() - 1] {
            styled(d.last().0, d.last().1)
        } else {
            d.last().0
        }
    }
}

/// Relies on `colored`'s `Colorize` methods and the `Display` of
/// `ColoredString`: the text in the tone when the environment lets colored
/// color it (a terminal, `NO_COLOR`, `CLICOLOR`, ...), the text itself
/// otherwise; a plain string is always written as it is.
#[verifier::external_body]
fn paint(text: &str, t: Tone) -> (r: String)
    ensures
        r@ == text@ || r@ == styled(text@, t),
        t == Tone::Plain ==> r@ == text@,
{
    match t {
        Tone::Plain => colored::ColoredString::from(text).to_string(),
        Tone::Bold => text.bold().to_string(),
        Tone::Dimmed => text.dimmed().to_string(),
        Tone::Red => text.red().to_string(),
        Tone::RedBold => text.red().bold().to_string(),
        Tone::Green => text.green().to_string(),
        Tone::GreenBold => text.green().bold().to_string(),
        Tone::Yellow => text.yellow().to_string(),
        Tone::Blue => text.blue().to_string(),
        Tone::BrightRed => text.bright_red().to_string(),
    }
}

/// Relies on `colored::control::SHOULD_COLORIZE`: whether the environment
/// (a terminal on stdout, `NO_COLOR`, `CLICOLOR`, ...) asks for colors.
#[verifier::external_body]
pub(crate) fn colors_enabled() -> (r: bool) {
    colored::control::SHOULD_COLORIZE.should_colorize()
}

/// Appends a piece of text in tone `t`.
pub fn emit(doc: &mut Vec<Segment>, text: &str, t: Tone)
    ensures
        doc_of(final(doc)@) == doc_of(old(doc)@) + piece(text@, t),
{
    emit_string(doc, String::from_str(text), t);
}

/// Appends a piece of text in tone `t`, taking the string.
pub fn emit_string(doc: &mut Vec<Segment>, text: String, t: Tone)
    ensures
        doc_of(final(doc)@) == doc_of(old(doc)@) + piece(text@, t),
{
    let ghost v = text@;
    doc.push(Segment { text, tone: t });
    assert(doc_of(doc@) =~= doc_of(old(doc)@) + piece(v, t));
}

/// The text of a document, unstyled.
pub fn render_plain(doc: &Vec<Segment>) -> (r: String)
    ensures
        r@ == flat(doc_of(doc@)),
{
    let mut out = String::new();
    let mut i: usize = 0;
    while i < doc.len()
        invariant
            i <= doc@.len(),
            out@ == flat(doc_of(doc@.take(i as int))),
        decreases doc@.len() - i,
    {
        out.append(doc[i].text.as_str());
        i = i + 1;
        assert(doc_of(doc@.take(i as int)).drop_last() =~= doc_of(doc@.take(i - 1)));
    }
    assert(doc@.take(doc@.len() as int) =~= doc@);
    out
}

/// The text of a document, each piece painted by the terminal-color
/// library: styled or as it is, as the environment decides.
pub fn render_colored(doc: &Vec<Segment>) -> (r: String)
    ensures
        exists|on: Seq<bool>| on.len() == doc@.len() && r@ == #[trigger] painted(doc_of(doc@), on),
{
    let mut out = String::new();
    let mut i: usize = 0;
    let ghost mut on: Seq<bool> = Seq::empty();
    while i < doc.len()
        invariant
            i <= doc@.len(),
            on.len() == i,
            out@ == painted(doc_of(doc@.take(i as int)), on),
        decreases doc@.len() - i,
    {
        let s = paint(doc[i].text.as_str(), doc[i].tone);
        let ghost prev = on;
        proof {
            on = on.push(s@ != doc@[i as int].text@);
        }
        out.append(s.as_str());
        i = i + 1;
        let ghost d = doc_of(doc@.take(i as int));
        assert(d.drop_last() =~= doc_of(doc@.take(i - 1)));
        assert(painted(d.drop_last(), on) == painted(d.drop_last(), prev)) by {
            lemma_painted_prefix(d.drop_last(), prev, on);
        }
    }
    assert(doc@.take(doc@.len() as int) =~= doc@);
    out
}

/// Painting looks only at the marks of the pieces it paints.
proof fn lemma_painted_prefix(d: Doc, a: Seq<bool>, b: Seq<bool>)
    requires
        d.len() <= a.len(),
        d.len() <= b.len(),
        forall|k: int| 0 <= k < d.len() ==> a[k] == b[k],
    ensures
        painted(d, a) == painted(d, b),
    decreases d.len(),
{
    if d.len() > 0 {
        lemma_painted_prefix(d.drop_last(), a, b);
    }
}

} // verus!
