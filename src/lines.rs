//! Splitting text into lines and writing it indented.

use vstd::prelude::*;
use crate::style::{doc_of, emit, emit_string, piece, plain, Doc, Segment, Tone};
use crate::text::{chars_of, push_char};

verus! {

/// `n` spaces.
pub open spec fn spaces(n: nat) -> Seq<char> {
    Seq::new(n, |_i: int| ' ')
}

/// A line without the `\r` that preceded its `\n`.
pub open spec fn strip_cr(l: Seq<char>) -> Seq<char> {
    if l.len() > 0 && l[l.len() - 1] == '\r' { l.drop_last() } else { l }
}

/// The lines completed after reading `s`, and the line still open.
pub open spec fn scan_lines(s: Seq<char>) -> (Seq<Seq<char>>, Seq<char>)
    decreases s.len(),
{
    if s.len() == 0 {
        (Seq::empty(), Seq::empty())
    } else {
        let (done, cur) = scan_lines(s.drop_last());
        if s.last() == '\n' {
            (done.push(strip_cr(cur)), Seq::empty())
        } else {
            (done, cur.push(s.last()))
        }
    }
}

/// The lines of `s`: split at `\n` or `\r\n`; a final line ending adds
/// no empty line.
pub open spec fn lines_of(s: Seq<char>) -> Seq<Seq<char>> {
    let (done, cur) = scan_lines(s);
    if cur.len() == 0 { done } else { done.push(cur) }
}

/// Each line behind `prefix`, in tone `t`, on a line of its own.
pub open spec fn emit_lines(ls: Seq<Seq<char>>, prefix: Seq<char>, t: Tone) -> Doc
    decreases ls.len(),
{
    if ls.len() == 0 {
        Seq::empty()
    } else {
        emit_lines(ls.drop_last(), prefix, t) + piece(prefix + ls.last(), t) + plain(seq!['\n'])
    }
}

/// The lines of `text`, each behind `prefix`.
pub open spec fn indented(text: Seq<char>, prefix: Seq<char>, t: Tone) -> Doc {
    emit_lines(lines_of(text), prefix, t)
}

/// Appends one level of indentation: four spaces.
pub fn push_indent_level(out: &mut String)
    ensures
        final(out)@ == old(out)@ + spaces(4),
{
    push_spaces(out, 4);
}

/// Appends the indentation of depth `depth`: four spaces per level.
pub fn push_indent(out: &mut String, depth: usize)
    ensures
        final(out)@ == old(out)@ + spaces(4 * depth as nat),
{
    let mut i: usize = 0;
    while i < depth
        invariant
            i <= depth,
            out@ == old(out)@ + spaces(4 * i as nat),
        decreases depth - i,
    {
        push_spaces(out, 4);
        i = i + 1;
        assert(out@ =~= old(out)@ + spaces(4 * i as nat));
    }
}

/// Appends `n` spaces.
pub fn push_spaces(out: &mut String, n: usize)
    ensures
        final(out)@ == old(out)@ + spaces(n as nat),
{
    let mut i: usize = 0;
    while i < n
        invariant
            i <= n,
            out@ == old(out)@ + spaces(i as nat),
        decreases n - i,
    {
        push_char(out, ' ');
        i = i + 1;
        assert(out@ =~= old(out)@ + spaces(i as nat));
    }
}

/// Appends `line` behind `prefix`, in tone `t`, and a line break.
fn push_line(doc: &mut Vec<Segment>, prefix: &str, line: &str, t: Tone)
    ensures
        doc_of(final(doc)@) == doc_of(old(doc)@) + piece(prefix@ + line@, t) + plain(seq!['\n']),
{
    let mut s = String::from_str(prefix);
    s.append(line);
    emit_string(doc, s, t);
    emit(doc, "\n", Tone::Plain);
    proof {
        reveal_strlit("\n");
    }
    assert("\n"@ =~= seq!['\n']);
}

/// `s` without a final `\r`.
fn trim_cr(s: &str) -> (r: &str)
    ensures
        r@ == strip_cr(s@),
{
    let len = s.unicode_len();
    if len > 0 && s.get_char(len - 1) == '\r' {
        let r = s.substring_char(0, len - 1);
        assert(r@ =~= s@.drop_last());
        r
    } else {
        s
    }
}

/// Appends each line of `text` behind `prefix`, in tone `t`.
pub fn write_indented(doc: &mut Vec<Segment>, text: &str, prefix: &str, t: Tone)
    ensures
        doc_of(final(doc)@) == doc_of(old(doc)@) + indented(text@, prefix@, t),
{
    let cs = chars_of(text);
    let len = cs.len();
    let mut cur = String::new();
    let mut i: usize = 0;
    assert(text@.take(0) =~= Seq::<char>::empty());
    assert(doc_of(old(doc)@) =~= doc_of(old(doc)@) + Seq::<(Seq<char>, Tone)>::empty());
    while i < len
        invariant
            cs@ == text@,
            len == text@.len(),
            i <= len,
            cur@ == scan_lines(text@.take(i as int)).1,
            doc_of(doc@) == doc_of(old(doc)@) + emit_lines(scan_lines(text@.take(i as int)).0, prefix@, t),
        decreases len - i,
    {
        let c = cs[i];
        assert(text@.take(i + 1).drop_last() =~= text@.take(i as int));
        assert(text@.take(i + 1).last() == c);
        let ghost done = scan_lines(text@.take(i as int)).0;
        if c == '\n' {
            push_line(doc, prefix, trim_cr(cur.as_str()), t);
            cur = String::new();
            assert(done.push(strip_cr(scan_lines(text@.take(i as int)).1)).drop_last() =~= done);
        } else {
            push_char(&mut cur, c);
        }
        i = i + 1;
    }
    assert(text@.take(len as int) =~= text@);
    if cur.unicode_len() > 0 {
        let ghost done = scan_lines(text@).0;
        push_line(doc, prefix, cur.as_str(), t);
        assert(done.push(cur@).drop_last() =~= done);
    }
}

} // verus!
