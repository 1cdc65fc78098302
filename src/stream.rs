//! Cutting a byte stream into frames at each blank line (`\n\n`).
use vstd::prelude::*;
use crate::frame::{copy_range, LF};

verus! {

pub open spec fn is_delim_at(s: Seq<u8>, i: int) -> bool {
    0 <= i && i + 1 < s.len() && s[i] == LF && s[i + 1] == LF
}

/// Index of the first `\n\n` at or after `i`, or -1 when there is none.
pub open spec fn find_delim(s: Seq<u8>, i: int) -> int
    decreases s.len() - i,
{
    if i < 0 || i + 1 >= s.len() {
        -1
    } else if is_delim_at(s, i) {
        i
    } else {
        find_delim(s, i + 1)
    }
}

pub proof fn lemma_find_delim_range(s: Seq<u8>, i: int)
    requires
        0 <= i,
    ensures
        find_delim(s, i) == -1 || (i <= find_delim(s, i) && is_delim_at(s, find_delim(s, i))),
        find_delim(s, i) == -1 ==> forall|k: int| i <= k ==> !is_delim_at(s, k),
        find_delim(s, i) >= 0 ==> forall|k: int| i <= k < find_delim(s, i) ==> !is_delim_at(s, k),
    decreases s.len() - i,
{
    if i >= 0 && i + 1 < s.len() && !is_delim_at(s, i) {
        lemma_find_delim_range(s, i + 1);
    }
}

/// The complete frames at the front of `s`, each with its `\n\n`.
pub open spec fn frames_of(s: Seq<u8>) -> Seq<Seq<u8>>
    decreases s.len(),
    via frames_of_decreases
{
    let p = find_delim(s, 0);
    if p < 0 {
        seq![]
    } else {
        seq![s.subrange(0, p + 2)] + frames_of(s.subrange(p + 2, s.len() as int))
    }
}

#[via_fn]
proof fn frames_of_decreases(s: Seq<u8>) {
    lemma_find_delim_range(s, 0);
}

/// What is left of `s` after its complete frames.
pub open spec fn rest_of(s: Seq<u8>) -> Seq<u8>
    decreases s.len(),
    via rest_of_decreases
{
    let p = find_delim(s, 0);
    if p < 0 {
        s
    } else {
        rest_of(s.subrange(p + 2, s.len() as int))
    }
}

#[via_fn]
proof fn rest_of_decreases(s: Seq<u8>) {
    lemma_find_delim_range(s, 0);
}

/// The concatenation of a sequence of chunks.
pub open spec fn concat_all(chunks: Seq<Seq<u8>>) -> Seq<u8>
    decreases chunks.len(),
{
    if chunks.len() == 0 {
        seq![]
    } else {
        concat_all(chunks.drop_last()) + chunks.last()
    }
}

/// Frames that a decoder holding `buffer` gives out when fed `chunks` one by one.
pub open spec fn frames_fed(buffer: Seq<u8>, chunks: Seq<Seq<u8>>) -> Seq<Seq<u8>>
    decreases chunks.len(),
{
    if chunks.len() == 0 {
        seq![]
    } else {
        let before = buffer_fed(buffer, chunks.drop_last());
        frames_fed(buffer, chunks.drop_last()) + frames_of(before + chunks.last())
    }
}

/// The buffer of a decoder holding `buffer` after it was fed `chunks`.
pub open spec fn buffer_fed(buffer: Seq<u8>, chunks: Seq<Seq<u8>>) -> Seq<u8>
    decreases chunks.len(),
{
    if chunks.len() == 0 {
        buffer
    } else {
        rest_of(buffer_fed(buffer, chunks.drop_last()) + chunks.last())
    }
}

proof fn lemma_find_delim_extend(s: Seq<u8>, c: Seq<u8>, i: int)
    requires
        find_delim(s, i) >= 0,
    ensures
        find_delim(s + c, i) == find_delim(s, i),
    decreases s.len() - i,
{
    let sc = s + c;
    if i + 1 < s.len() {
        assert(sc[i] == s[i] && sc[i + 1] == s[i + 1]);
        if !is_delim_at(s, i) {
            lemma_find_delim_extend(s, c, i + 1);
        }
    }
}

/// Appending bytes to a stream: the frames already complete stay, and the
/// rest is cut as if the remainder and the new bytes had come alone.
pub proof fn lemma_frames_append(s: Seq<u8>, c: Seq<u8>)
    ensures
        frames_of(s + c) == frames_of(s) + frames_of(rest_of(s) + c),
        rest_of(s + c) == rest_of(rest_of(s) + c),
    decreases s.len(),
{
    let p = find_delim(s, 0);
    lemma_find_delim_range(s, 0);
    if p >= 0 {
        lemma_find_delim_extend(s, c, 0);
        let sc = s + c;
        let tail = s.subrange(p + 2, s.len() as int);
        assert(sc.subrange(0, p + 2) =~= s.subrange(0, p + 2));
        assert(sc.subrange(p + 2, sc.len() as int) =~= tail + c);
        lemma_frames_append(tail, c);
        assert(frames_of(s + c) =~= seq![s.subrange(0, p + 2)] + frames_of(tail + c));
        assert(frames_of(s) + frames_of(rest_of(s) + c) =~= seq![s.subrange(0, p + 2)] + (
        frames_of(tail) + frames_of(rest_of(tail) + c)));
    } else {
        assert(rest_of(s) == s);
        assert(frames_of(s) =~= Seq::<Seq<u8>>::empty());
        assert(frames_of(s) + frames_of(rest_of(s) + c) =~= frames_of(s + c));
    }
}

/// Feeding a stream in chunks, cut anywhere, gives out the frames of the whole
/// stream, and leaves behind what is left of it.
pub proof fn lemma_split_invariance(chunks: Seq<Seq<u8>>)
    ensures
        frames_fed(seq![], chunks) == frames_of(concat_all(chunks)),
        buffer_fed(seq![], chunks) == rest_of(concat_all(chunks)),
    decreases chunks.len(),
{
    if chunks.len() == 0 {
        assert(find_delim(Seq::<u8>::empty(), 0) == -1);
        assert(frames_of(Seq::<u8>::empty()) == Seq::<Seq<u8>>::empty());
    } else {
        let init = chunks.drop_last();
        lemma_split_invariance(init);
        lemma_frames_append(concat_all(init), chunks.last());
    }
}

/// Index of the first `\n\n` in `b`.
fn find_delim_exec(b: &Vec<u8>) -> (r: Option<usize>)
    ensures
        match r {
            Some(p) => p as int == find_delim(b@, 0) && p + 2 <= b@.len(),
            None => find_delim(b@, 0) == -1,
        },
{
    if b.len() < 2 {
        return None;
    }
    let mut i: usize = 0;
    while i < b.len() - 1
        invariant
            2 <= b@.len(),
            i <= b@.len() - 1,
            find_delim(b@, 0) == find_delim(b@, i as int),
        decreases b@.len() - i,
    {
        if b[i] == LF && b[i + 1] == LF {
            return Some(i);
        }
        i = i + 1;
    }
    None
}

/// The receiving half of the codec: bytes go in as they arrive, whole frames
/// come out.
pub struct SseDecoder {
    buffer: Vec<u8>,
}

impl SseDecoder {
    /// The bytes held back, waiting for the rest of their frame.
    pub closed spec fn pending(&self) -> Seq<u8> {
        self.buffer@
    }

    pub fn new() -> (r: SseDecoder)
        ensures
            r.pending() == Seq::<u8>::empty(),
    {
        SseDecoder { buffer: Vec::new() }
    }

    /// Takes one chunk and gives out, in order, every frame that is now
    /// complete, each with its terminating `\n\n`.
    pub fn feed(&mut self, chunk: &[u8]) -> (frames: Vec<Vec<u8>>)
        ensures
            frames@.len() == frames_of(old(self).pending() + chunk@).len(),
            forall|i: int|
                0 <= i < frames@.len() ==> #[trigger] frames@[i]@ == frames_of(
                    old(self).pending() + chunk@,
                )[i],
            final(self).pending() == rest_of(old(self).pending() + chunk@),
    {
        let mut buf: Vec<u8> = Vec::new();
        std::mem::swap(&mut buf, &mut self.buffer);
        let ghost all = buf@ + chunk@;
        let mut k: usize = 0;
        while k < chunk.len()
            invariant
                k <= chunk@.len(),
                all == old(self).pending() + chunk@,
                buf@ + chunk@.subrange(k as int, chunk@.len() as int) == all,
            decreases chunk@.len() - k,
        {
            buf.push(chunk[k]);
            k = k + 1;
            assert(buf@ + chunk@.subrange(k as int, chunk@.len() as int) =~= all);
        }
        assert(buf@ =~= all);
        let mut out: Vec<Vec<u8>> = Vec::new();
        let ghost mut got: Seq<Seq<u8>> = seq![];
        loop
            invariant
                all == old(self).pending() + chunk@,
                frames_of(all) == got + frames_of(buf@),
                rest_of(all) == rest_of(buf@),
                out@.len() == got.len(),
                forall|i: int| 0 <= i < out@.len() ==> #[trigger] out@[i]@ == got[i],
            ensures
                frames_of(all) == got,
                rest_of(all) == buf@,
                out@.len() == got.len(),
                forall|i: int| 0 <= i < out@.len() ==> #[trigger] out@[i]@ == got[i],
            decreases buf@.len(),
        {
            match find_delim_exec(&buf) {
                None => {
                    assert(rest_of(buf@) == buf@);
                    assert(frames_of(buf@) =~= Seq::<Seq<u8>>::empty());
                    assert(got + frames_of(buf@) =~= got);
                    break;
                },
                Some(p) => {
                    let n = buf.len();
                    assert(p + 2 <= n);
                    let frame = copy_range(buf.as_slice(), 0, p + 2);
                    let rest = copy_range(buf.as_slice(), p + 2, buf.len());
                    proof {
                        assert(got + frames_of(buf@) =~= got.push(frame@) + frames_of(rest@));
                        got = got.push(frame@);
                    }
                    out.push(frame);
                    buf = rest;
                },
            }
        }
        self.buffer = buf;
        out
    }
}

} // verus!
