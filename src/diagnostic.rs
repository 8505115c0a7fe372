use crate::config::{split_char, split_char_spec};
use crate::unique::views;
use vstd::prelude::*;
use vstd::string::*;
use vstd::utf8::encode_utf8;

verus! {

/// The lines of a document: its pieces between newlines, less the empty
/// piece after a final newline.
pub open spec fn doc_lines(doc: Seq<char>) -> Seq<Seq<char>> {
    let p = split_char_spec(doc, '\n');
    if p.len() > 0 && p.last().len() == 0 {
        p.drop_last()
    } else {
        p
    }
}

/// The byte offset just past the newline of line `i`.
pub open spec fn line_end(lines: Seq<Seq<char>>, i: int) -> int
    decreases i + 1,
{
    if i < 0 || i >= lines.len() {
        0
    } else {
        line_end(lines, i - 1) + encode_utf8(lines[i]).len() + 1
    }
}

/// The first line, from `k` on, whose end reaches `end`.
pub open spec fn line_reaching(lines: Seq<Seq<char>>, end: int, k: int) -> Option<int>
    decreases lines.len() - k,
{
    if k < 0 || k >= lines.len() {
        None
    } else if line_end(lines, k) >= end {
        Some(k)
    } else {
        line_reaching(lines, end, k + 1)
    }
}

/// The decimal digits of `n`.
pub open spec fn decimal_spec(n: nat) -> Seq<char>
    decreases n,
{
    if n < 10 {
        seq!["0123456789"@[n as int]]
    } else {
        decimal_spec(n / 10) + seq!["0123456789"@[(n % 10) as int]]
    }
}

/// `n` copies of `c`.
pub open spec fn repeat_spec(c: char, n: nat) -> Seq<char> {
    Seq::new(n, |i: int| c)
}

/// `a - b`, or zero when `b` is larger.
pub open spec fn minus(a: int, b: int) -> nat {
    if a >= b {
        (a - b) as nat
    } else {
        0
    }
}

/// A syntax error's message followed, when its byte span is known, by the
/// line where the span ends, numbered from one, and a caret under the span.
pub open spec fn readable_spec(doc: Seq<char>, message: Seq<char>, span: Option<(usize, usize)>) -> Seq<
    char,
> {
    match span {
        None => message,
        Some((start, end)) => {
            let lines = doc_lines(doc);
            message + seq!['\n'] + match line_reaching(lines, end as int, 0) {
                None => Seq::empty(),
                Some(i) => seq!['\n'] + decimal_spec((i + 1) as nat) + seq![':', '\t'] + lines[i]
                    + seq!['\n', '\t'] + repeat_spec(' ', minus(start as int, line_end(lines, i - 1)))
                    + repeat_spec('^', minus(end as int, start as int)),
            }
        },
    }
}

/// The decimal notation of `n`.
pub fn decimal(n: usize) -> (r: String)
    ensures
        r@ == decimal_spec(n as nat),
    decreases n,
{
    let digits = "0123456789";
    proof {
        reveal_strlit("0123456789");
    }
    if n < 10 {
        digits.substring_char(n, n + 1).to_owned()
    } else {
        let mut r = decimal(n / 10);
        let d = n % 10;
        r.append(digits.substring_char(d, d + 1));
        r
    }
}

/// Appends `n` copies of `c` (a one-character string) to `out`.
fn push_repeat(out: &mut String, c: &str, n: u128)
    requires
        c@.len() == 1,
    ensures
        final(out)@ == old(out)@ + repeat_spec(c@[0], n as nat),
{
    let ghost start = out@;
    let mut i: u128 = 0;
    while i < n
        invariant
            i <= n,
            c@.len() == 1,
            out@ == start + repeat_spec(c@[0], i as nat),
        decreases n - i,
    {
        out.append(c);
        assert(repeat_spec(c@[0], (i + 1) as nat) =~= repeat_spec(c@[0], i as nat) + c@);
        i = i + 1;
    }
}

/// Renders a syntax error in a configuration document for people.
pub fn readable_syntax_error(doc: &String, message: &String, span: Option<(usize, usize)>) -> (r:
    String)
    ensures
        r@ == readable_spec(doc@, message@, span),
{
    let mut out = message.clone();
    let (start, end) = match span {
        None => return out,
        Some(s) => s,
    };
    proof {
        reveal_strlit("\n");
    }
    out.append("\n");
    assert(out@ =~= message@ + seq!['\n']);
    let mut lines = split_char(doc, '\n');
    let n = lines.len();
    if n > 0 && lines[n - 1].as_str().unicode_len() == 0 {
        let ghost p = views(lines@);
        lines.pop();
        assert(views(lines@) =~= p.drop_last());
    }
    let ghost ls = views(lines@);
    assert(ls == doc_lines(doc@));
    let mut line_end_byte: u128 = 0;
    let mut i: usize = 0;
    while i < lines.len()
        invariant
            i <= lines.len(),
            ls == views(lines@),
            ls == doc_lines(doc@),
            span == Some((start, end)),
            line_end_byte == line_end(ls, i - 1),
            line_end_byte <= end as u128,
            line_reaching(ls, end as int, 0) == line_reaching(ls, end as int, i as int),
            out@ == message@ + seq!['\n'],
        decreases lines.len() - i,
    {
        let line_start_byte = line_end_byte;
        let l = lines[i].as_str();
        let bytes = l.as_bytes().len();
        proof {
            assert(l@ == ls[i as int]);
            assert(bytes == l.spec_bytes().len());
            assert(bytes == encode_utf8(ls[i as int]).len());
            assert(line_end(ls, i as int) == line_end(ls, i as int - 1) + encode_utf8(ls[i as int]).len()
                + 1);
        }
        line_end_byte = line_start_byte + bytes as u128 + 1;
        if line_end_byte >= end as u128 {
            proof {
                reveal_strlit("\n");
                reveal_strlit(":\t");
                reveal_strlit("\n\t");
                reveal_strlit(" ");
                reveal_strlit("^");
            }
            let num = decimal(i + 1);
            out.append("\n");
            out.append(num.as_str());
            out.append(":\t");
            out.append(lines[i].as_str());
            out.append("\n\t");
            assert(lines@[i as int]@ == ls[i as int]);
            assert(out@ =~= message@ + seq!['\n'] + seq!['\n'] + decimal_spec((i + 1) as nat) + seq![':', '\t'] + ls[i as int] + seq!['\n', '\t']);
            let pad = if start as u128 >= line_start_byte { start as u128 - line_start_byte } else { 0 };
            push_repeat(&mut out, " ", pad);
            let width = if end >= start { (end - start) as u128 } else { 0 };
            push_repeat(&mut out, "^", width);
            assert(line_reaching(ls, end as int, i as int) == Some(i as int));
            assert(out@ =~= readable_spec(doc@, message@, span));
            return out;
        }
        i = i + 1;
    }
    out
}

} // verus!
