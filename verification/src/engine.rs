//! The broadcast copy engine's data path: a source is cut once into bounded
//! chunks, every destination receives the same chunk stream in order, and each
//! destination reassembles it into a byte-identical copy of the source.

use vstd::prelude::*;

verus! {

/// Fixed chunk size of the engine: a source is read in units of at most this
/// many bytes.
pub const CHUNK_SIZE: usize = 65536;

/// One unit of bytes read from a source and delivered to every destination.
#[derive(Clone, Debug)]
pub struct Chunk {
    pub data: Vec<u8>,
}

impl Chunk {
    /// A chunk never carries more than `CHUNK_SIZE` bytes.
    pub open spec fn wf(&self) -> bool {
        self.data@.len() <= CHUNK_SIZE
    }

    /// The bytes this chunk carries.
    pub open spec fn payload(&self) -> Seq<u8> {
        self.data@
    }

    /// Wraps a buffer as a chunk; refused exactly when the buffer is longer
    /// than `CHUNK_SIZE`.
    pub fn new(data: Vec<u8>) -> (r: Option<Chunk>)
        ensures
            match r {
                Some(c) => c.payload() == data@ && c.wf(),
                None => data@.len() > CHUNK_SIZE,
            },
    {
        if data.len() <= CHUNK_SIZE {
            Some(Chunk { data })
        } else {
            None
        }
    }
}

/// The chunk streams of a source: full `CHUNK_SIZE` pieces in order, with a
/// shorter final piece, and no piece at all for an empty source.
pub open spec fn chunks_spec(src: Seq<u8>) -> Seq<Seq<u8>>
    decreases src.len(),
{
    if src.len() == 0 {
        Seq::<Seq<u8>>::empty()
    } else if src.len() <= CHUNK_SIZE {
        seq![src]
    } else {
        seq![src.take(CHUNK_SIZE as int)] + chunks_spec(src.skip(CHUNK_SIZE as int))
    }
}

/// The bytes a destination holds after appending a stream of chunks in order.
pub open spec fn concat_spec(chunks: Seq<Seq<u8>>) -> Seq<u8>
    decreases chunks.len(),
{
    if chunks.len() == 0 {
        Seq::<u8>::empty()
    } else {
        chunks[0] + concat_spec(chunks.skip(1))
    }
}

/// Appending one more chunk to a stream appends its bytes to the reassembly.
pub proof fn lemma_concat_push(chunks: Seq<Seq<u8>>, c: Seq<u8>)
    ensures
        concat_spec(chunks.push(c)) == concat_spec(chunks) + c,
    decreases chunks.len(),
{
    let p = chunks.push(c);
    if chunks.len() == 0 {
        assert(p[0] == c);
        assert(p.skip(1) =~= Seq::<Seq<u8>>::empty());
        assert(concat_spec(p) == p[0] + concat_spec(p.skip(1)));
        assert(concat_spec(p.skip(1)) == Seq::<u8>::empty());
        assert(c + Seq::<u8>::empty() =~= c);
        assert(concat_spec(chunks) + c =~= c);
    } else {
        assert(p[0] == chunks[0]);
        assert(p.skip(1) =~= chunks.skip(1).push(c));
        lemma_concat_push(chunks.skip(1), c);
        assert(concat_spec(p) == p[0] + concat_spec(p.skip(1)));
        assert(concat_spec(p.skip(1)) == concat_spec(chunks.skip(1)) + c);
        assert(chunks[0] + (concat_spec(chunks.skip(1)) + c) =~= (chunks[0] + concat_spec(
            chunks.skip(1),
        )) + c);
        assert(concat_spec(chunks) == chunks[0] + concat_spec(chunks.skip(1)));
    }
}

/// Reassembling the chunk stream of a source gives back exactly the source:
/// the fan-out drops no byte, duplicates none, and keeps their order.
pub proof fn lemma_chunks_roundtrip(src: Seq<u8>)
    ensures
        concat_spec(chunks_spec(src)) == src,
    decreases src.len(),
{
    if src.len() == 0 {
        assert(concat_spec(chunks_spec(src)) =~= src);
    } else if src.len() <= CHUNK_SIZE {
        let cs = chunks_spec(src);
        assert(cs == seq![src]);
        assert(cs[0] == src);
        assert(cs.skip(1) =~= Seq::<Seq<u8>>::empty());
        assert(concat_spec(cs) == cs[0] + concat_spec(cs.skip(1)));
        assert(concat_spec(cs.skip(1)) == Seq::<u8>::empty());
        assert(src + Seq::<u8>::empty() =~= src);
    } else {
        let cs = chunks_spec(src);
        let head = src.take(CHUNK_SIZE as int);
        let tail = src.skip(CHUNK_SIZE as int);
        lemma_chunks_roundtrip(tail);
        assert(cs == seq![head] + chunks_spec(tail));
        assert(cs[0] == head);
        assert(cs.skip(1) =~= chunks_spec(tail));
        assert(concat_spec(cs) == cs[0] + concat_spec(cs.skip(1)));
        assert(concat_spec(cs.skip(1)) == tail);
        assert(head + tail =~= src);
    }
}

/// The bytes of `src` from `from` (inclusive) to `to` (exclusive), as a fresh
/// vector.
fn copy_range(src: &Vec<u8>, from: usize, to: usize) -> (r: Vec<u8>)
    requires
        from <= to <= src@.len(),
    ensures
        r@ == src@.subrange(from as int, to as int),
{
    let mut r: Vec<u8> = Vec::new();
    let mut i: usize = from;
    while i < to
        invariant
            from <= i <= to <= src@.len(),
            r@ == src@.subrange(from as int, i as int),
        decreases to - i,
    {
        proof {
            assert(src@.subrange(from as int, i as int + 1) =~= src@.subrange(
                from as int,
                i as int,
            ).push(src@[i as int]));
        }
        r.push(src[i]);
        i = i + 1;
    }
    r
}

/// Cuts a source into its chunk stream: the single read pass of the engine.
pub fn split_into_chunks(src: &Vec<u8>) -> (r: Vec<Chunk>)
    ensures
        r@.map_values(|c: Chunk| c.payload()) == chunks_spec(src@),
        forall|i: int| 0 <= i < r@.len() ==> (#[trigger] r@[i]).wf(),
{
    let mut r: Vec<Chunk> = Vec::new();
    let mut offset: usize = 0;
    proof {
        assert(src@.skip(0) =~= src@);
        assert(r@.map_values(|c: Chunk| c.payload()) =~= Seq::<Seq<u8>>::empty());
        assert(Seq::<Seq<u8>>::empty() + chunks_spec(src@) =~= chunks_spec(src@));
    }
    while offset < src.len()
        invariant
            offset <= src@.len(),
            chunks_spec(src@) =~= r@.map_values(|c: Chunk| c.payload()) + chunks_spec(
                src@.skip(offset as int),
            ),
            forall|i: int| 0 <= i < r@.len() ==> (#[trigger] r@[i]).wf(),
        decreases src@.len() - offset,
    {
        let remaining = src.len() - offset;
        let step = if remaining <= CHUNK_SIZE {
            remaining
        } else {
            CHUNK_SIZE
        };
        let data = copy_range(src, offset, offset + step);
        let chunk = Chunk { data };
        proof {
            let tail = src@.skip(offset as int);
            if remaining <= CHUNK_SIZE {
                assert(tail =~= src@.subrange(offset as int, offset as int + step));
                assert(chunks_spec(tail) == seq![tail]);
                assert(src@.skip(offset as int + step) =~= Seq::<u8>::empty());
                assert(chunks_spec(src@.skip(offset as int + step)) =~= Seq::<Seq<u8>>::empty());
                assert(chunks_spec(tail) =~= seq![chunk.payload()] + chunks_spec(
                    src@.skip(offset as int + step),
                ));
            } else {
                assert(tail.take(CHUNK_SIZE as int) =~= src@.subrange(
                    offset as int,
                    offset as int + step,
                ));
                assert(tail.skip(CHUNK_SIZE as int) =~= src@.skip(offset as int + step));
                assert(chunks_spec(tail) =~= seq![chunk.payload()] + chunks_spec(
                    src@.skip(offset as int + step),
                ));
            }
            assert(r@.push(chunk).map_values(|c: Chunk| c.payload()) =~= r@.map_values(
                |c: Chunk| c.payload(),
            ).push(chunk.payload()));
            assert(r@.map_values(|c: Chunk| c.payload()).push(chunk.payload()) + chunks_spec(
                src@.skip(offset as int + step),
            ) =~= r@.map_values(|c: Chunk| c.payload()) + chunks_spec(tail));
        }
        r.push(chunk);
        offset = offset + step;
    }
    proof {
        assert(src@.skip(src@.len() as int) =~= Seq::<u8>::empty());
        assert(chunks_spec(src@) =~= r@.map_values(|c: Chunk| c.payload()));
    }
    r
}

/// One write of a destination: appends the chunk's bytes to what the
/// destination already holds.
pub fn writer_append(dest: &mut Vec<u8>, chunk: &Chunk)
    ensures
        final(dest)@ == old(dest)@ + chunk.payload(),
{
    let mut i: usize = 0;
    while i < chunk.data.len()
        invariant
            i <= chunk.data@.len(),
            dest@ == old(dest)@ + chunk.data@.subrange(0, i as int),
        decreases chunk.data@.len() - i,
    {
        proof {
            assert(old(dest)@ + chunk.data@.subrange(0, i as int + 1) =~= (old(dest)@
                + chunk.data@.subrange(0, i as int)).push(chunk.data@[i as int]));
        }
        dest.push(chunk.data[i]);
        i = i + 1;
    }
    proof {
        assert(chunk.data@.subrange(0, chunk.data@.len() as int) =~= chunk.data@);
    }
}

/// One writer task over its received stream: starting from nothing, appends
/// every chunk in the order received.
pub fn writer_content(chunks: &Vec<Chunk>) -> (r: Vec<u8>)
    ensures
        r@ == concat_spec(chunks@.map_values(|c: Chunk| c.payload())),
{
    let mut r: Vec<u8> = Vec::new();
    let mut i: usize = 0;
    while i < chunks.len()
        invariant
            i <= chunks@.len(),
            r@ == concat_spec(chunks@.take(i as int).map_values(|c: Chunk| c.payload())),
        decreases chunks@.len() - i,
    {
        proof {
            assert(chunks@.take(i as int + 1).map_values(|c: Chunk| c.payload())
                =~= chunks@.take(i as int).map_values(|c: Chunk| c.payload()).push(
                chunks@[i as int].payload(),
            ));
            lemma_concat_push(
                chunks@.take(i as int).map_values(|c: Chunk| c.payload()),
                chunks@[i as int].payload(),
            );
        }
        writer_append(&mut r, &chunks[i]);
        i = i + 1;
    }
    proof {
        assert(chunks@.take(chunks@.len() as int) =~= chunks@);
    }
    r
}

/// What a destination holds after one run of the engine for one source: the
/// destination is truncated first, so the result does not depend on what it
/// held before.
pub open spec fn dest_after_run(prior: Seq<u8>, source: Seq<u8>) -> Seq<u8> {
    concat_spec(chunks_spec(source))
}

/// One destination's whole lifecycle for one source: truncate, then append
/// the source's chunk stream. The destination ends bit-identical to the
/// source, whatever it held before.
pub fn run_once_into(dest: &mut Vec<u8>, source: &Vec<u8>)
    ensures
        final(dest)@ == dest_after_run(old(dest)@, source@),
        final(dest)@ == source@,
{
    let chunks = split_into_chunks(source);
    let content = writer_content(&chunks);
    proof {
        lemma_chunks_roundtrip(source@);
    }
    *dest = content;
}

/// The engine over a whole run: each source is cut once into chunks, and every
/// destination of that source reassembles the same stream. Entry `i` of the
/// result holds the `output_count` destination contents of source `i`, each
/// bit-identical to that source.
pub fn copy_process(sources: &Vec<Vec<u8>>, output_count: usize) -> (r: Vec<Vec<Vec<u8>>>)
    ensures
        r@.len() == sources@.len(),
        forall|i: int| 0 <= i < r@.len() ==> (#[trigger] r@[i])@.len() == output_count,
        forall|i: int, j: int|
            0 <= i < r@.len() && 0 <= j < output_count ==> (#[trigger] r@[i]@[j])@
                == sources@[i]@,
{
    let mut r: Vec<Vec<Vec<u8>>> = Vec::new();
    let mut i: usize = 0;
    while i < sources.len()
        invariant
            i <= sources@.len(),
            r@.len() == i,
            forall|a: int| 0 <= a < i ==> (#[trigger] r@[a])@.len() == output_count,
            forall|a: int, b: int|
                0 <= a < i && 0 <= b < output_count ==> (#[trigger] r@[a]@[b])@ == sources@[a]@,
        decreases sources@.len() - i,
    {
        let chunks = split_into_chunks(&sources[i]);
        proof {
            lemma_chunks_roundtrip(sources@[i as int]@);
        }
        let mut dests: Vec<Vec<u8>> = Vec::new();
        let mut j: usize = 0;
        while j < output_count
            invariant
                j <= output_count,
                dests@.len() == j,
                chunks@.map_values(|c: Chunk| c.payload()) == chunks_spec(sources@[i as int]@),
                concat_spec(chunks_spec(sources@[i as int]@)) == sources@[i as int]@,
                i < sources@.len(),
                forall|b: int| 0 <= b < j ==> (#[trigger] dests@[b])@ == sources@[i as int]@,
            decreases output_count - j,
        {
            let content = writer_content(&chunks);
            dests.push(content);
            j = j + 1;
        }
        r.push(dests);
        i = i + 1;
    }
    r
}

/// Running the engine for the same source twice leaves a destination exactly
/// as one run leaves it: each run truncates before writing, so a second run
/// changes nothing.
pub proof fn lemma_copy_idempotent(prior: Seq<u8>, source: Seq<u8>)
    ensures
        dest_after_run(dest_after_run(prior, source), source) == dest_after_run(prior, source),
{
}

/// An empty source leaves every destination as an empty file: zero chunks are
/// published, and the truncation alone remains.
pub proof fn lemma_empty_source(prior: Seq<u8>)
    ensures
        dest_after_run(prior, Seq::<u8>::empty()) == Seq::<u8>::empty(),
{
    assert(chunks_spec(Seq::<u8>::empty()) =~= Seq::<Seq<u8>>::empty());
    assert(concat_spec(Seq::<Seq<u8>>::empty()) =~= Seq::<u8>::empty());
}

} // verus!
