use crate::lines::{
    decode_lines, decoded_lines, lemma_split_lines_len, lemma_split_terminated, split_lines,
    split_lines_spec, terminated, NEWLINE,
};
use vstd::prelude::*;

verus! {

/// Largest growth of a log file that is read in one go; a larger chunk is
/// skipped.
pub const MAX_CHUNK: u64 = 1024 * 1024;

/// How long a rotated log file may take to reappear, in milliseconds.
pub const ROTATION_TIMEOUT_MS: u64 = 1000;

/// What a filesystem notification on the tailed path says happened.
#[derive(Clone, Copy, Debug, PartialEq, Eq, Structural)]
pub enum ChangeKind {
    /// The path was renamed away.
    RenameFrom,
    /// Some metadata of the path changed.
    MetadataAny,
    /// Anything else: the file may have grown.
    Other,
}

/// What to do after learning the file's current length.
#[derive(Clone, Copy, Debug, PartialEq, Eq, Structural)]
pub enum SizeCheck {
    /// The file shrank; the cursor moved to its new end.
    Truncated,
    /// Nothing new.
    Unchanged,
    /// Too much was appended at once; the cursor skipped to the new end.
    Oversized,
    /// Read the byte at this absolute offset to see whether the chunk ends a line.
    ReadLastByte(u64),
}

/// The decision for a file that is now `new_size` bytes long, and the next
/// cursor.
pub open spec fn size_step(cursor: u64, new_size: u64) -> (SizeCheck, u64) {
    if new_size < cursor {
        (SizeCheck::Truncated, new_size)
    } else if new_size == cursor {
        (SizeCheck::Unchanged, cursor)
    } else if new_size - cursor > MAX_CHUNK {
        (SizeCheck::Oversized, new_size)
    } else {
        (SizeCheck::ReadLastByte((new_size - 1) as u64), cursor)
    }
}

/// The lines that a chunk body (the new bytes without their final newline)
/// yields: one per piece, or none when the chunk is not UTF-8.
pub open spec fn chunk_events(body: Seq<u8>) -> Seq<Seq<char>> {
    match decoded_lines(split_lines_spec(body)) {
        Some(ls) => ls,
        None => Seq::<Seq<char>>::empty(),
    }
}

/// The read position of a tailed log file: the byte offset up to which lines
/// have been emitted.
#[derive(Clone, Copy, Debug, PartialEq, Eq, Structural)]
pub struct TailState {
    pub cursor: u64,
}

impl TailState {
    /// Starts tailing at the current end of the file.
    pub fn at_end(end: u64) -> (r: TailState)
        ensures
            r.cursor == end,
    {
        TailState { cursor: end }
    }

    /// Whether a notification means the file was rotated and must be reopened.
    pub fn needs_reopen(kind: ChangeKind) -> (r: bool)
        ensures
            r == (kind == ChangeKind::RenameFrom || kind == ChangeKind::MetadataAny),
    {
        match kind {
            ChangeKind::RenameFrom | ChangeKind::MetadataAny => true,
            ChangeKind::Other => false,
        }
    }

    /// Whether reopening a rotated file that began at `started` has run past
    /// its deadline at `now` (both in milliseconds).
    pub fn rotation_timed_out(started: u64, now: u64) -> (r: bool)
        ensures
            r == (now > started && now - started > ROTATION_TIMEOUT_MS),
    {
        now > started && now - started > ROTATION_TIMEOUT_MS
    }

    /// A fresh file was opened after a rotation: read it from its start.
    pub fn reopened(&mut self)
        ensures
            final(self).cursor == 0,
    {
        self.cursor = 0;
    }

    /// Takes the file's current length and says what to do next.
    pub fn on_size(&mut self, new_size: u64) -> (r: SizeCheck)
        ensures
            (r, final(self).cursor) == size_step(old(self).cursor, new_size),
    {
        if new_size < self.cursor {
            self.cursor = new_size;
            SizeCheck::Truncated
        } else if new_size == self.cursor {
            SizeCheck::Unchanged
        } else if new_size - self.cursor > MAX_CHUNK {
            self.cursor = new_size;
            SizeCheck::Oversized
        } else {
            SizeCheck::ReadLastByte(new_size - 1)
        }
    }

    /// Given the last byte of a file now `new_size` long, the offset and
    /// length of the chunk body to read, or `None` to wait for the rest of
    /// the line.
    pub fn chunk_range(&self, new_size: u64, last_byte: u8) -> (r: Option<(u64, u64)>)
        ensures
            r == if last_byte == NEWLINE && self.cursor < new_size && new_size - self.cursor
                <= MAX_CHUNK {
                Some((self.cursor, (new_size - self.cursor - 1) as u64))
            } else {
                None
            },
    {
        if last_byte == NEWLINE && self.cursor < new_size && new_size - self.cursor <= MAX_CHUNK {
            Some((self.cursor, new_size - self.cursor - 1))
        } else {
            None
        }
    }

    /// Takes the chunk body that was read, moves the cursor past its newline
    /// and returns the lines to emit, in file order.
    pub fn take_chunk(&mut self, new_size: u64, body: &Vec<u8>) -> (r: Vec<String>)
        ensures
            final(self).cursor == new_size,
            r@.map_values(|s: String| s@) == chunk_events(body@),
            r@.len() == 0 <==> decoded_lines(split_lines_spec(body@)) is None,
    {
        proof {
            lemma_split_lines_len(body@);
        }
        self.cursor = new_size;
        let pieces = split_lines(body);
        match decode_lines(pieces) {
            Some(ls) => ls,
            None => {
                let empty: Vec<String> = Vec::new();
                assert(empty@.map_values(|s: String| s@) =~= Seq::<Seq<char>>::empty());
                empty
            },
        }
    }
}

/// Each line appended with its newline is emitted exactly once, in file
/// order: when the new bytes are the lines `ls`, each ending in a newline,
/// the chunk yields those lines decoded, one event each.
pub proof fn lemma_appended_lines_emitted_once(ls: Seq<Seq<u8>>)
    requires
        ls.len() >= 1,
        forall|i: int, j: int| 0 <= i < ls.len() && 0 <= j < ls[i].len() ==> ls[i][j] != NEWLINE,
    ensures
        split_lines_spec(terminated(ls).drop_last()) == ls,
        chunk_events(terminated(ls).drop_last()) == match decoded_lines(ls) {
            Some(d) => d,
            None => Seq::<Seq<char>>::empty(),
        },
        decoded_lines(ls) is Some ==> chunk_events(terminated(ls).drop_last()).len() == ls.len(),
{
    lemma_split_terminated(ls);
}

/// A truncation emits nothing and moves the cursor to the new end, so the
/// next lines come from what is written after it.
pub proof fn lemma_truncation_resumes_at_new_end(cursor: u64, new_size: u64)
    requires
        new_size < cursor,
    ensures
        size_step(cursor, new_size) == (SizeCheck::Truncated, new_size),
        size_step(new_size, new_size).0 == SizeCheck::Unchanged,
{
}

/// Each chunk's bytes followed by the next's.
pub open spec fn appended(chunks: Seq<Seq<Seq<u8>>>) -> Seq<u8>
    decreases chunks.len(),
{
    if chunks.len() == 0 {
        Seq::empty()
    } else {
        appended(chunks.drop_last()) + terminated(chunks.last())
    }
}

/// The lines of all chunks, in order.
pub open spec fn all_lines(chunks: Seq<Seq<Seq<u8>>>) -> Seq<Seq<u8>>
    decreases chunks.len(),
{
    if chunks.len() == 0 {
        Seq::empty()
    } else {
        all_lines(chunks.drop_last()) + chunks.last()
    }
}

/// The pieces that reading each chunk in turn yields.
pub open spec fn pieces_over(chunks: Seq<Seq<Seq<u8>>>) -> Seq<Seq<u8>>
    decreases chunks.len(),
{
    if chunks.len() == 0 {
        Seq::empty()
    } else {
        pieces_over(chunks.drop_last()) + split_lines_spec(terminated(chunks.last()).drop_last())
    }
}

proof fn lemma_terminated_concat(a: Seq<Seq<u8>>, b: Seq<Seq<u8>>)
    ensures
        terminated(a + b) == terminated(a) + terminated(b),
    decreases b.len(),
{
    if b.len() == 0 {
        assert(a + b =~= a);
        assert(terminated(a) + terminated(b) =~= terminated(a));
    } else {
        lemma_terminated_concat(a, b.drop_last());
        assert((a + b).drop_last() =~= a + b.drop_last());
        assert((a + b).last() == b.last());
        assert(terminated(a + b) =~= terminated(a) + terminated(b));
    }
}

/// Over a run of notifications, each reading one chunk of whole lines,
/// every appended line is emitted exactly once and in file order: the
/// pieces read are the lines of all chunks, which are exactly the lines of
/// everything appended.
pub proof fn lemma_lines_over_chunks(chunks: Seq<Seq<Seq<u8>>>)
    requires
        forall|c: int| 0 <= c < chunks.len() ==> (#[trigger] chunks[c]).len() >= 1,
        forall|c: int, i: int, j: int|
            0 <= c < chunks.len() && 0 <= i < chunks[c].len() && 0 <= j < chunks[c][i].len()
                ==> chunks[c][i][j] != NEWLINE,
    ensures
        pieces_over(chunks) == all_lines(chunks),
        terminated(all_lines(chunks)) == appended(chunks),
        chunks.len() > 0 ==> split_lines_spec(appended(chunks).drop_last()) == all_lines(chunks),
    decreases chunks.len(),
{
    if chunks.len() > 0 {
        let init = chunks.drop_last();
        let last = chunks.last();
        assert forall|c: int, i: int, j: int|
            0 <= c < init.len() && 0 <= i < init[c].len() && 0 <= j < init[c][i].len() implies init[c][i][j]
            != NEWLINE by {
            assert(init[c] == chunks[c]);
        }
        assert forall|c: int| 0 <= c < init.len() implies (#[trigger] init[c]).len() >= 1 by {
            assert(init[c] == chunks[c]);
        }
        lemma_lines_over_chunks(init);
        assert(last == chunks[chunks.len() - 1]);
        assert forall|i: int, j: int| 0 <= i < last.len() && 0 <= j < last[i].len() implies last[i][j]
            != NEWLINE by {
            assert(chunks[chunks.len() - 1][i][j] != NEWLINE);
        }
        lemma_split_terminated(last);
        lemma_terminated_concat(all_lines(init), last);
        let all = all_lines(chunks);
        assert(all.len() >= 1);
        assert forall|i: int, j: int| 0 <= i < all.len() && 0 <= j < all[i].len() implies all[i][j]
            != NEWLINE by {
            if i < all_lines(init).len() {
                lemma_all_lines_plain(init, i, j);
            } else {
                assert(all[i] == last[i - all_lines(init).len()]);
            }
        }
        lemma_split_terminated(all);
    }
}

proof fn lemma_all_lines_plain(chunks: Seq<Seq<Seq<u8>>>, i: int, j: int)
    requires
        forall|c: int, a: int, b: int|
            0 <= c < chunks.len() && 0 <= a < chunks[c].len() && 0 <= b < chunks[c][a].len()
                ==> chunks[c][a][b] != NEWLINE,
        0 <= i < all_lines(chunks).len(),
        0 <= j < all_lines(chunks)[i].len(),
    ensures
        all_lines(chunks)[i][j] != NEWLINE,
    decreases chunks.len(),
{
    if chunks.len() > 0 {
        let init = chunks.drop_last();
        if i < all_lines(init).len() {
            assert forall|c: int, a: int, b: int|
                0 <= c < init.len() && 0 <= a < init[c].len() && 0 <= b < init[c][a].len() implies init[c][a][b]
                != NEWLINE by {
                assert(init[c] == chunks[c]);
            }
            lemma_all_lines_plain(init, i, j);
        } else {
            let k = i - all_lines(init).len();
            assert(all_lines(chunks)[i] == chunks[chunks.len() - 1][k]);
        }
    }
}

} // verus!
