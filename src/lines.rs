use vstd::prelude::*;
use vstd::utf8::{decode_utf8, valid_utf8};

verus! {

/// The newline byte that terminates every log line.
pub const NEWLINE: u8 = 10;

/// The pieces of `b` between newline bytes, in order. A sequence without a
/// newline is one piece; `k` newlines give `k + 1` pieces.
pub open spec fn split_lines_spec(b: Seq<u8>) -> Seq<Seq<u8>>
    decreases b.len(),
{
    if b.len() == 0 {
        seq![Seq::<u8>::empty()]
    } else {
        let rest = split_lines_spec(b.drop_last());
        if b.last() == NEWLINE {
            rest.push(Seq::<u8>::empty())
        } else {
            rest.update(rest.len() - 1, rest.last().push(b.last()))
        }
    }
}

/// Each piece followed by a newline, all concatenated.
pub open spec fn terminated(pieces: Seq<Seq<u8>>) -> Seq<u8>
    decreases pieces.len(),
{
    if pieces.len() == 0 {
        Seq::<u8>::empty()
    } else {
        terminated(pieces.drop_last()) + pieces.last().push(NEWLINE)
    }
}

/// The lines that `b` decodes to: one per piece, when every piece is UTF-8.
pub open spec fn decoded_lines(pieces: Seq<Seq<u8>>) -> Option<Seq<Seq<char>>> {
    if forall|i: int| 0 <= i < pieces.len() ==> valid_utf8(#[trigger] pieces[i]) {
        Some(pieces.map_values(|p: Seq<u8>| decode_utf8(p)))
    } else {
        None
    }
}

pub proof fn lemma_split_lines_len(b: Seq<u8>)
    ensures
        split_lines_spec(b).len() >= 1,
        split_lines_spec(b).len() <= b.len() + 1,
    decreases b.len(),
{
    if b.len() > 0 {
        lemma_split_lines_len(b.drop_last());
    }
}

/// Joining plain bytes onto the end extends the last piece.
proof fn lemma_split_append_plain(x: Seq<u8>, c: Seq<u8>)
    requires
        forall|j: int| 0 <= j < c.len() ==> c[j] != NEWLINE,
    ensures
        split_lines_spec(x + c) == split_lines_spec(x).update(
            split_lines_spec(x).len() - 1,
            split_lines_spec(x).last() + c,
        ),
    decreases c.len(),
{
    lemma_split_lines_len(x);
    if c.len() == 0 {
        assert(x + c =~= x);
        assert(split_lines_spec(x).last() + c =~= split_lines_spec(x).last());
        assert(split_lines_spec(x).update(split_lines_spec(x).len() - 1, split_lines_spec(x).last())
            =~= split_lines_spec(x));
    } else {
        let c2 = c.drop_last();
        lemma_split_append_plain(x, c2);
        assert((x + c).drop_last() =~= x + c2);
        assert((x + c).last() == c.last());
        assert(c.last() != NEWLINE);
        let sx = split_lines_spec(x);
        let rest = split_lines_spec(x + c2);
        assert(rest.len() == sx.len());
        assert(rest.last() == sx.last() + c2);
        assert((sx.last() + c2).push(c.last()) =~= sx.last() + c);
        assert(split_lines_spec(x + c) == rest.update(rest.len() - 1, rest.last().push(c.last())));
        assert(split_lines_spec(x + c) =~= split_lines_spec(x).update(
            split_lines_spec(x).len() - 1,
            split_lines_spec(x).last() + c,
        ));
    }
}

/// Lines without newlines, each terminated by one, split back into exactly
/// those lines once the final newline is dropped.
pub proof fn lemma_split_terminated(ls: Seq<Seq<u8>>)
    requires
        ls.len() >= 1,
        forall|i: int, j: int| 0 <= i < ls.len() && 0 <= j < ls[i].len() ==> ls[i][j] != NEWLINE,
    ensures
        split_lines_spec(terminated(ls).drop_last()) == ls,
    decreases ls.len(),
{
    let l = ls.last();
    assert forall|j: int| 0 <= j < l.len() implies l[j] != NEWLINE by {
        assert(ls[ls.len() - 1][j] != NEWLINE);
    }
    if ls.len() == 1 {
        assert(ls.drop_last() =~= Seq::<Seq<u8>>::empty());
        assert(terminated(ls.drop_last()) == Seq::<u8>::empty());
        assert(Seq::<u8>::empty() + l.push(NEWLINE) =~= l.push(NEWLINE));
        assert(terminated(ls) =~= l.push(NEWLINE));
        assert(terminated(ls).drop_last() =~= Seq::<u8>::empty() + l);
        lemma_split_append_plain(Seq::<u8>::empty(), l);
        assert(Seq::<u8>::empty() + l =~= l);
        assert(split_lines_spec(terminated(ls).drop_last()) =~= ls);
    } else {
        let ls2 = ls.drop_last();
        assert forall|i: int, j: int| 0 <= i < ls2.len() && 0 <= j < ls2[i].len() implies ls2[i][j]
            != NEWLINE by {
            assert(ls2[i] == ls[i]);
        }
        lemma_split_terminated(ls2);
        let a = terminated(ls2);
        lemma_terminated_ends(ls2);
        assert(a =~= a.drop_last().push(NEWLINE));
        assert(terminated(ls).drop_last() =~= a + l);
        lemma_split_append_plain(a, l);
        assert(a.drop_last().push(NEWLINE).drop_last() =~= a.drop_last());
        assert(split_lines_spec(a) == ls2.push(Seq::<u8>::empty()));
        assert(Seq::<u8>::empty() + l =~= l);
        assert(split_lines_spec(terminated(ls).drop_last()) =~= ls);
    }
}

proof fn lemma_terminated_ends(ls: Seq<Seq<u8>>)
    requires
        ls.len() >= 1,
    ensures
        terminated(ls).len() >= 1,
        terminated(ls).last() == NEWLINE,
{
}

/// Splits `bytes` at every newline byte.
pub fn split_lines(bytes: &Vec<u8>) -> (r: Vec<Vec<u8>>)
    ensures
        r@.map_values(|v: Vec<u8>| v@) == split_lines_spec(bytes@),
{
    let mut out: Vec<Vec<u8>> = Vec::new();
    let mut cur: Vec<u8> = Vec::new();
    let mut i: usize = 0;
    assert(bytes@.take(0) =~= Seq::<u8>::empty());
    while i < bytes.len()
        invariant
            i <= bytes.len(),
            out@.map_values(|v: Vec<u8>| v@).push(cur@) == split_lines_spec(bytes@.take(i as int)),
        decreases bytes.len() - i,
    {
        let b = bytes[i];
        proof {
            let t = bytes@.take(i as int + 1);
            assert(t.drop_last() =~= bytes@.take(i as int));
            assert(t.last() == b);
            lemma_split_lines_len(bytes@.take(i as int));
        }
        let ghost prev = out@.map_values(|v: Vec<u8>| v@);
        if b == NEWLINE {
            let done = cur;
            out.push(done);
            cur = Vec::new();
            assert(out@.map_values(|v: Vec<u8>| v@) =~= prev.push(done@));
        } else {
            cur.push(b);
            assert(out@.map_values(|v: Vec<u8>| v@) =~= prev);
            assert(prev.push(cur@) =~= split_lines_spec(bytes@.take(i as int + 1)));
        }
        i = i + 1;
    }
    assert(bytes@.take(bytes.len() as int) =~= bytes@);
    let ghost prev = out@.map_values(|v: Vec<u8>| v@);
    out.push(cur);
    assert(out@.map_values(|v: Vec<u8>| v@) =~= prev.push(cur@));
    out
}

/// Relies on `String::from_utf8`: `Ok` exactly when the bytes are UTF-8,
/// holding the characters they encode.
#[verifier::external_body]
fn from_utf8(bytes: Vec<u8>) -> (r: Option<String>)
    ensures
        r is Some <==> valid_utf8(bytes@),
        r is Some ==> r->0@ == decode_utf8(bytes@),
{
    String::from_utf8(bytes).ok()
}

/// Decodes every piece as UTF-8; `None` when any of them is not UTF-8.
pub fn decode_lines(pieces: Vec<Vec<u8>>) -> (r: Option<Vec<String>>)
    ensures
        r is Some <==> decoded_lines(pieces@.map_values(|v: Vec<u8>| v@)) is Some,
        r is Some ==> r->0@.map_values(|s: String| s@) == decoded_lines(
            pieces@.map_values(|v: Vec<u8>| v@),
        )->0,
{
    let ghost all = pieces@.map_values(|v: Vec<u8>| v@);
    let mut out: Vec<String> = Vec::new();
    let mut i: usize = 0;
    while i < pieces.len()
        invariant
            i <= pieces.len(),
            all == pieces@.map_values(|v: Vec<u8>| v@),
            out@.len() == i,
            forall|j: int| 0 <= j < i ==> valid_utf8(#[trigger] all[j]),
            forall|j: int| 0 <= j < i ==> (#[trigger] out@[j])@ == decode_utf8(all[j]),
        decreases pieces.len() - i,
    {
        let piece = pieces[i].clone();
        assert(piece@ == all[i as int]);
        match from_utf8(piece) {
            Some(line) => out.push(line),
            None => {
                assert(decoded_lines(all) is None);
                return None;
            },
        }
        i = i + 1;
    }
    assert(out@.map_values(|s: String| s@) =~= all.map_values(|p: Seq<u8>| decode_utf8(p)));
    Some(out)
}

} // verus!
