use crate::lines::{
    decode_lines, decoded_lines, lemma_split_terminated, split_lines, split_lines_spec, terminated,
    NEWLINE,
};
use vstd::prelude::*;
use vstd::utf8::*;

verus! {

/// The views of a sequence of strings.
pub open spec fn views(v: Seq<String>) -> Seq<Seq<char>> {
    v.map_values(|s: String| s@)
}

/// The bytes of the store file for `values`: each value in UTF-8, followed
/// by a newline.
pub open spec fn render_spec(values: Seq<Seq<char>>) -> Seq<u8> {
    terminated(values.map_values(|v: Seq<char>| encode_utf8(v)))
}

/// The lines of a store file: its pieces between newlines, less the empty
/// piece after a final newline.
pub open spec fn stored_pieces(b: Seq<u8>) -> Seq<Seq<u8>> {
    let p = split_lines_spec(b);
    if p.len() > 0 && p.last().len() == 0 {
        p.drop_last()
    } else {
        p
    }
}

/// The set of values that a store file holds, or `None` when a line is not
/// UTF-8.
pub open spec fn load_spec(b: Seq<u8>) -> Option<Set<Seq<char>>> {
    match decoded_lines(stored_pieces(b)) {
        Some(ls) => Some(ls.to_set()),
        None => None,
    }
}

proof fn lemma_push_to_set(s: Seq<Seq<char>>, x: Seq<char>)
    ensures
        s.push(x).to_set() == s.to_set().insert(x),
{
    Seq::lemma_to_set_insert_commutes(s, x);
    assert(s + seq![x] =~= s.push(x));
}

/// The values of a unique capture that a monitor has already acted on.
#[derive(Debug)]
pub struct UniqueSet {
    /// Each value once, in the order it was first seen.
    pub values: Vec<String>,
}

impl UniqueSet {
    pub open spec fn wf(&self) -> bool {
        views(self.values@).no_duplicates()
    }

    /// The set of recorded values.
    pub open spec fn view_set(&self) -> Set<Seq<char>> {
        views(self.values@).to_set()
    }

    pub fn new() -> (r: UniqueSet)
        ensures
            r.wf(),
            r.view_set() == Set::<Seq<char>>::empty(),
    {
        let r = UniqueSet { values: Vec::new() };
        assert(views(r.values@) =~= Seq::<Seq<char>>::empty());
        r
    }

    /// Whether `v` was recorded.
    pub fn contains(&self, v: &String) -> (r: bool)
        ensures
            r == self.view_set().contains(v@),
    {
        let mut i: usize = 0;
        while i < self.values.len()
            invariant
                i <= self.values.len(),
                forall|j: int| 0 <= j < i ==> views(self.values@)[j] != v@,
            decreases self.values.len() - i,
        {
            if self.values[i] == *v {
                assert(views(self.values@)[i as int] == v@);
                return true;
            }
            i = i + 1;
        }
        assert(!views(self.values@).contains(v@));
        false
    }

    /// Records `v`; returns whether it was new.
    pub fn insert(&mut self, v: String) -> (r: bool)
        requires
            old(self).wf(),
        ensures
            final(self).wf(),
            r == !old(self).view_set().contains(v@),
            final(self).view_set() == old(self).view_set().insert(v@),
    {
        if self.contains(&v) {
            assert(self.view_set().insert(v@) =~= self.view_set());
            return false;
        }
        let ghost before = views(self.values@);
        self.values.push(v);
        assert(views(self.values@) =~= before.push(v@));
        proof {
            lemma_push_to_set(before, v@);
            assert forall|k: int| 0 <= k < before.len() implies before[k] != v@ by {
                assert(before.contains(before[k]));
            }
        }
        true
    }

    /// The bytes of the store file.
    pub fn render(&self) -> (r: Vec<u8>)
        ensures
            r@ == render_spec(views(self.values@)),
    {
        let mut out: Vec<u8> = Vec::new();
        let mut i: usize = 0;
        while i < self.values.len()
            invariant
                i <= self.values.len(),
                out@ == render_spec(views(self.values@).take(i as int)),
            decreases self.values.len() - i,
        {
            let bytes = self.values[i].as_str().as_bytes();
            let ghost before = out@;
            let mut j: usize = 0;
            while j < bytes.len()
                invariant
                    j <= bytes@.len(),
                    out@ == before + bytes@.take(j as int),
                decreases bytes@.len() - j,
            {
                out.push(bytes[j]);
                assert(bytes@.take(j as int + 1) =~= bytes@.take(j as int).push(bytes@[j as int]));
                j = j + 1;
            }
            out.push(NEWLINE);
            proof {
                let vs = views(self.values@);
                let enc = |v: Seq<char>| encode_utf8(v);
                assert(bytes@.take(bytes@.len() as int) =~= bytes@);
                assert(vs.take(i as int + 1).drop_last() =~= vs.take(i as int));
                assert(vs.take(i as int + 1).map_values(enc).drop_last() =~= vs.take(
                    i as int,
                ).map_values(enc));
                assert(out@ =~= before + encode_utf8(vs[i as int]).push(NEWLINE));
            }
            i = i + 1;
        }
        assert(views(self.values@).take(self.values.len() as int) =~= views(self.values@));
        out
    }

    /// Reads a store file; `None` when a line is not UTF-8.
    pub fn load(bytes: &Vec<u8>) -> (r: Option<UniqueSet>)
        ensures
            r is Some <==> load_spec(bytes@) is Some,
            r is Some ==> r->0.wf() && r->0.view_set() == load_spec(bytes@)->0,
    {
        let mut pieces = split_lines(bytes);
        let n = pieces.len();
        if n > 0 && pieces[n - 1].len() == 0 {
            let ghost p = pieces@;
            pieces.pop();
            assert(pieces@.map_values(|v: Vec<u8>| v@) =~= p.map_values(|v: Vec<u8>| v@).drop_last());
        }
        let lines = match decode_lines(pieces) {
            Some(ls) => ls,
            None => return None,
        };
        let mut set = UniqueSet::new();
        let ghost ls = views(lines@);
        let mut i: usize = 0;
        while i < lines.len()
            invariant
                i <= lines.len(),
                ls == views(lines@),
                set.wf(),
                set.view_set() == ls.take(i as int).to_set(),
            decreases lines.len() - i,
        {
            let v = lines[i].clone();
            set.insert(v);
            assert(ls.take(i as int + 1) =~= ls.take(i as int).push(ls[i as int]));
            proof {
                lemma_push_to_set(ls.take(i as int), ls[i as int]);
            }
            i = i + 1;
        }
        assert(ls.take(lines.len() as int) =~= ls);
        Some(set)
    }
}

/// No byte of the UTF-8 encoding of a scalar other than the newline is the
/// newline byte.
proof fn lemma_scalar_has_no_newline(c: u32)
    requires
        is_scalar(c),
        c != 10,
    ensures
        forall|j: int| 0 <= j < encode_scalar(c).len() ==> encode_scalar(c)[j] != NEWLINE,
{
    assert(c <= 0x7F && c != 10 ==> ((c & 0x7F) as u8) != 10u8) by (bit_vector);
    assert(((0xC0u8 | ((c >> 6) & 0x1F) as u8) as u8) != 10u8) by (bit_vector);
    assert(((0xE0u8 | ((c >> 12) & 0x0F) as u8) as u8) != 10u8) by (bit_vector);
    assert(((0xF0u8 | ((c >> 18) & 0x7) as u8) as u8) != 10u8) by (bit_vector);
    assert(((0x80u8 | (c & 0x3F) as u8) as u8) != 10u8) by (bit_vector);
    assert(((0x80u8 | ((c >> 6) & 0x3F) as u8) as u8) != 10u8) by (bit_vector);
    assert(((0x80u8 | ((c >> 12) & 0x3F) as u8) as u8) != 10u8) by (bit_vector);
}

/// A value without a newline character encodes to bytes without a newline.
proof fn lemma_encoding_has_no_newline(v: Seq<char>)
    requires
        forall|i: int| 0 <= i < v.len() ==> v[i] != '\n',
    ensures
        forall|j: int| 0 <= j < encode_utf8(v).len() ==> encode_utf8(v)[j] != NEWLINE,
    decreases v.len(),
{
    if v.len() > 0 {
        let rest = v.drop_first();
        lemma_encoding_has_no_newline(rest);
        let c = v[0];
        char_is_scalar(c);
        assert(c != '\n');
        char_u32_cast(c, c as u32);
        char_u32_cast('\n', '\n' as u32);
        assert(('\n' as u32) == 10u32);
        assert((c as u32) != 10u32);
        lemma_scalar_has_no_newline(c as u32);
        let e = encode_utf8(v);
        assert(e =~= encode_scalar(c as u32) + encode_utf8(rest));
        assert forall|j: int| 0 <= j < e.len() implies e[j] != NEWLINE by {
            if j >= encode_scalar(c as u32).len() {
                assert(e[j] == encode_utf8(rest)[j - encode_scalar(c as u32).len()]);
            }
        }
    }
}

/// Writing the recorded values to the store file and reading it back gives
/// exactly the same set, for values without a newline (no log line holds one).
pub proof fn lemma_store_round_trip(u: UniqueSet)
    requires
        forall|i: int, j: int|
            0 <= i < u.values@.len() && 0 <= j < u.values@[i]@.len() ==> u.values@[i]@[j] != '\n',
    ensures
        load_spec(render_spec(views(u.values@))) == Some(u.view_set()),
{
    let vs = views(u.values@);
    let encs = vs.map_values(|v: Seq<char>| encode_utf8(v));
    let t = render_spec(vs);
    assert forall|i: int, j: int| 0 <= i < encs.len() && 0 <= j < encs[i].len() implies encs[i][j]
        != NEWLINE by {
        assert forall|k: int| 0 <= k < vs[i].len() implies vs[i][k] != '\n' by {
            assert(vs[i] == u.values@[i]@);
        }
        lemma_encoding_has_no_newline(vs[i]);
    }
    assert forall|i: int| 0 <= i < encs.len() implies valid_utf8(#[trigger] encs[i]) && decode_utf8(
        encs[i],
    ) == vs[i] by {
        encode_utf8_valid_utf8(vs[i]);
        encode_utf8_decode_utf8(vs[i]);
    }
    if encs.len() == 0 {
        assert(t == Seq::<u8>::empty());
        assert(split_lines_spec(t) == seq![Seq::<u8>::empty()]);
        assert(stored_pieces(t) =~= encs);
    } else {
        lemma_split_terminated(encs);
        assert(t.len() >= 1 && t.last() == NEWLINE);
        assert(split_lines_spec(t) == split_lines_spec(t.drop_last()).push(Seq::<u8>::empty()));
        assert(stored_pieces(t) =~= encs);
    }
    assert(encs.map_values(|p: Seq<u8>| decode_utf8(p)) =~= vs);
}

} // verus!
