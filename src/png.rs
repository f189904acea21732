use vstd::prelude::*;
use vstd::string::*;

use crate::bytes::lemma_be32_bytes_of_value;
use crate::chunk::{chunk_bytes, length_field, spec_read_chunk, Chunk, ChunkModel};
use crate::chunk_type::ChunkType;
use crate::error::PngError;

verus! {

/// The eight bytes that open every PNG file.
pub open spec fn png_signature() -> Seq<u8> {
    seq![137u8, 80u8, 78u8, 71u8, 13u8, 10u8, 26u8, 10u8]
}

/// The records of a sequence of chunks, one after another with no gaps.
pub open spec fn chunks_bytes(cs: Seq<ChunkModel>) -> Seq<u8>
    decreases cs.len(),
{
    if cs.len() == 0 {
        seq![]
    } else {
        chunks_bytes(cs.drop_last()) + chunk_bytes(cs.last())
    }
}

/// A PNG file holding the given chunks: the signature, then their records.
pub open spec fn png_bytes(cs: Seq<ChunkModel>) -> Seq<u8> {
    png_signature() + chunks_bytes(cs)
}

/// Reads chunk records one after another until `b` is used up.
pub open spec fn spec_parse_chunks(b: Seq<u8>) -> Result<Seq<ChunkModel>, PngError>
    decreases b.len(),
{
    if b.len() == 0 {
        Ok(seq![])
    } else {
        match spec_read_chunk(b) {
            Err(e) => Err(e),
            Ok(m) => match spec_parse_chunks(b.subrange(12 + m.data.len() as int, b.len() as int)) {
                Ok(rest) => Ok(seq![m] + rest),
                Err(e) => Err(e),
            },
        }
    }
}

/// Reads a PNG file: the signature, then chunk records to the end.
pub open spec fn spec_parse_png(b: Seq<u8>) -> Result<Seq<ChunkModel>, PngError> {
    if b.len() < 8 || b.subrange(0, 8) != png_signature() {
        Err(PngError::InvalidSignature)
    } else {
        spec_parse_chunks(b.subrange(8, b.len() as int))
    }
}

/// `r` with `acc` put before the chunks it holds.
pub open spec fn prepend_chunks(acc: Seq<ChunkModel>, r: Result<Seq<ChunkModel>, PngError>) -> Result<
    Seq<ChunkModel>,
    PngError,
> {
    match r {
        Ok(s) => Ok(acc + s),
        Err(e) => Err(e),
    }
}

/// Some chunk of `cs` has type code `t`.
pub open spec fn has_type(cs: Seq<ChunkModel>, t: Seq<u8>) -> bool {
    exists|i: int| 0 <= i < cs.len() && #[trigger] cs[i].chunk_type == t
}

/// `i` is the index of the first chunk of `cs` with type code `t`.
pub open spec fn is_first_of_type(cs: Seq<ChunkModel>, t: Seq<u8>, i: int) -> bool {
    &&& 0 <= i < cs.len()
    &&& cs[i].chunk_type == t
    &&& forall|j: int| 0 <= j < i ==> #[trigger] cs[j].chunk_type != t
}

/// The records of a chunk followed by others are its record, then theirs.
pub proof fn lemma_chunks_bytes_prepend(m: ChunkModel, rest: Seq<ChunkModel>)
    ensures
        chunks_bytes(seq![m] + rest) == chunk_bytes(m) + chunks_bytes(rest),
    decreases rest.len(),
{
    let s = seq![m] + rest;
    if rest.len() == 0 {
        assert(s =~= seq![m]);
        assert(s.drop_last() =~= Seq::<ChunkModel>::empty());
        assert(chunks_bytes(s.drop_last()) =~= Seq::<u8>::empty());
        assert(s.last() == m);
        assert(chunks_bytes(s) =~= chunk_bytes(m));
        assert(chunk_bytes(m) + chunks_bytes(rest) =~= chunk_bytes(m));
    } else {
        assert(s.drop_last() =~= seq![m] + rest.drop_last());
        lemma_chunks_bytes_prepend(m, rest.drop_last());
        assert(chunks_bytes(s) =~= chunk_bytes(m) + chunks_bytes(rest.drop_last()) + chunk_bytes(
            rest.last(),
        ));
    }
}

/// A record that reads as a chunk is exactly that chunk's serialized record.
pub proof fn lemma_read_chunk_bytes(b: Seq<u8>)
    requires
        spec_read_chunk(b) is Ok,
    ensures
        chunk_bytes(spec_read_chunk(b)->Ok_0) == b.subrange(
            0,
            12 + spec_read_chunk(b)->Ok_0.data.len() as int,
        ),
{
    let m = spec_read_chunk(b)->Ok_0;
    let n = length_field(b);
    lemma_be32_bytes_of_value(b.subrange(0, 4));
    lemma_be32_bytes_of_value(b.subrange(8 + n, 12 + n));
    assert(m.data.len() == n);
    assert(chunk_bytes(m) =~= b.subrange(0, 12 + n));
}

/// Chunk records that read without error serialize back to the bytes read.
pub proof fn lemma_parse_chunks_bytes(b: Seq<u8>)
    requires
        spec_parse_chunks(b) is Ok,
    ensures
        chunks_bytes(spec_parse_chunks(b)->Ok_0) == b,
    decreases b.len(),
{
    if b.len() == 0 {
        assert(chunks_bytes(Seq::<ChunkModel>::empty()) =~= b);
    } else {
        let m = spec_read_chunk(b)->Ok_0;
        let k = 12 + m.data.len() as int;
        let tail = b.subrange(k, b.len() as int);
        lemma_read_chunk_bytes(b);
        lemma_parse_chunks_bytes(tail);
        lemma_chunks_bytes_prepend(m, spec_parse_chunks(tail)->Ok_0);
        assert(b =~= b.subrange(0, k) + tail);
    }
}

/// Serializing a PNG read from `b` gives `b` back.
pub proof fn lemma_png_round_trip(b: Seq<u8>)
    requires
        spec_parse_png(b) is Ok,
    ensures
        png_bytes(spec_parse_png(b)->Ok_0) == b,
{
    let tail = b.subrange(8, b.len() as int);
    lemma_parse_chunks_bytes(tail);
    assert(b =~= b.subrange(0, 8) + tail);
}

/// A PNG file in memory: the signature and an ordered sequence of chunks.
#[derive(Debug)]
pub struct Png {
    chunks: Vec<Chunk>,
}

impl View for Png {
    type V = Seq<ChunkModel>;

    closed spec fn view(&self) -> Seq<ChunkModel> {
        self.chunks@.map_values(|c: Chunk| c@)
    }
}

fn type_matches(t: &ChunkType, name: &[u8]) -> (r: bool)
    ensures
        r == (t@ == name@),
{
    let code = t.bytes();
    if name.len() != 4 {
        return false;
    }
    let r = code[0] == name[0] && code[1] == name[1] && code[2] == name[2] && code[3] == name[3];
    assert(r ==> code@ =~= name@);
    r
}

impl Png {
    /// The eight signature bytes.
    pub fn standard_header() -> (r: [u8; 8])
        ensures
            r@ == png_signature(),
    {
        let r: [u8; 8] = [137, 80, 78, 71, 13, 10, 26, 10];
        assert(r@ =~= png_signature());
        r
    }

    /// A PNG holding the given chunks in the given order.
    pub fn from_chunks(chunks: Vec<Chunk>) -> (r: Png)
        ensures
            r@ == chunks@.map_values(|c: Chunk| c@),
    {
        Png { chunks }
    }

    /// The chunks, in order.
    pub fn chunks(&self) -> (r: &[Chunk])
        ensures
            r@.map_values(|c: Chunk| c@) == self@,
    {
        self.chunks.as_slice()
    }

    /// Adds a chunk after the last one.
    pub fn append_chunk(&mut self, chunk: Chunk)
        ensures
            final(self)@ == old(self)@.push(chunk@),
    {
        self.chunks.push(chunk);
        assert(self@ =~= old(self)@.push(chunk@));
    }

    /// The index of the first chunk whose type code is `name`.
    fn position_of(&self, name: &[u8]) -> (r: Option<usize>)
        ensures
            r is None <==> !has_type(self@, name@),
            r matches Some(i) ==> is_first_of_type(self@, name@, i as int),
    {
        let mut i: usize = 0;
        while i < self.chunks.len()
            invariant
                i <= self@.len(),
                self@.len() == self.chunks@.len(),
                forall|j: int| 0 <= j < i ==> #[trigger] self@[j].chunk_type != name@,
            decreases self.chunks@.len() - i,
        {
            if type_matches(self.chunks[i].chunk_type(), name) {
                assert(self@[i as int].chunk_type == name@);
                return Some(i);
            }
            i = i + 1;
        }
        None
    }

    /// The first chunk whose type code, as text, is `chunk_type`.
    pub fn chunk_by_type(&self, chunk_type: &str) -> (r: Option<&Chunk>)
        ensures
            r is None <==> !has_type(self@, chunk_type.spec_bytes()),
            r matches Some(c) ==> exists|i: int|
                is_first_of_type(self@, chunk_type.spec_bytes(), i) && c@ == #[trigger] self@[i],
    {
        match self.position_of(chunk_type.as_bytes()) {
            Some(i) => Some(&self.chunks[i]),
            None => None,
        }
    }

    /// Takes out the first chunk whose type code, as text, is `chunk_type`;
    /// where there is none, the chunks stay as they are.
    pub fn remove_chunk(&mut self, chunk_type: &str) -> (r: Result<Chunk, PngError>)
        ensures
            r is Err <==> !has_type(old(self)@, chunk_type.spec_bytes()),
            r matches Err(e) ==> e == PngError::ChunkNotFound && final(self)@ == old(self)@,
            r matches Ok(c) ==> exists|i: int|
                is_first_of_type(old(self)@, chunk_type.spec_bytes(), i) && c@ == #[trigger] old(
                    self,
                )@[i] && final(self)@ == old(self)@.remove(i),
    {
        match self.position_of(chunk_type.as_bytes()) {
            Some(i) => {
                let c = self.chunks.remove(i);
                assert(self@ =~= old(self)@.remove(i as int));
                Ok(c)
            },
            None => Err(PngError::ChunkNotFound),
        }
    }

    /// The file's bytes: the signature, then each chunk's record in order.
    pub fn as_bytes(&self) -> (r: Vec<u8>)
        ensures
            r@ == png_bytes(self@),
    {
        let header = Self::standard_header();
        let mut out: Vec<u8> = Vec::new();
        let mut k: usize = 0;
        while k < 8
            invariant
                k <= 8,
                header@ == png_signature(),
                out@ =~= png_signature().subrange(0, k as int),
            decreases 8 - k,
        {
            out.push(header[k]);
            k = k + 1;
        }
        let mut i: usize = 0;
        while i < self.chunks.len()
            invariant
                i <= self@.len(),
                self@.len() == self.chunks@.len(),
                out@ =~= png_signature() + chunks_bytes(self@.subrange(0, i as int)),
            decreases self.chunks@.len() - i,
        {
            let rec = self.chunks[i].as_bytes();
            let mut j: usize = 0;
            let ghost before = out@;
            while j < rec.len()
                invariant
                    j <= rec@.len(),
                    out@ =~= before + rec@.subrange(0, j as int),
                decreases rec@.len() - j,
            {
                out.push(rec[j]);
                j = j + 1;
            }
            assert(self@.subrange(0, i + 1).drop_last() =~= self@.subrange(0, i as int));
            assert(rec@.subrange(0, rec@.len() as int) =~= rec@);
            i = i + 1;
        }
        assert(self@.subrange(0, self@.len() as int) =~= self@);
        out
    }

    /// Reads a PNG file: checks the signature, then reads chunk records
    /// until the input is used up, stopping at the first that fails.
    pub fn try_from(bytes: &[u8]) -> (r: Result<Png, PngError>)
        ensures
            match r {
                Ok(p) => spec_parse_png(bytes@) == Ok::<Seq<ChunkModel>, PngError>(p@),
                Err(e) => spec_parse_png(bytes@) == Err::<Seq<ChunkModel>, PngError>(e),
            },
    {
        if bytes.len() < 8 {
            return Err(PngError::InvalidSignature);
        }
        let header = Self::standard_header();
        let mut k: usize = 0;
        while k < 8
            invariant
                k <= 8,
                8 <= bytes@.len(),
                header@ == png_signature(),
                forall|j: int| 0 <= j < k ==> bytes@[j] == #[trigger] png_signature()[j],
            decreases 8 - k,
        {
            if bytes[k] != header[k] {
                assert(bytes@.subrange(0, 8)[k as int] != png_signature()[k as int]);
                return Err(PngError::InvalidSignature);
            }
            k = k + 1;
        }
        assert(bytes@.subrange(0, 8) =~= png_signature());
        let mut png = Png { chunks: Vec::new() };
        let mut pos: usize = 8;
        while pos < bytes.len()
            invariant
                8 <= pos <= bytes@.len(),
                spec_parse_png(bytes@) == prepend_chunks(
                    png@,
                    spec_parse_chunks(bytes@.subrange(pos as int, bytes@.len() as int)),
                ),
            decreases bytes@.len() - pos,
        {
            let ghost sub = bytes@.subrange(pos as int, bytes@.len() as int);
            match Chunk::read_chunk(bytes, pos) {
                Err(e) => {
                    return Err(e);
                },
                Ok(c) => {
                    let n = c.length() as usize;
                    let ghost m = c@;
                    assert(sub.subrange(12 + m.data.len() as int, sub.len() as int) =~= bytes@.subrange(
                        pos + 12 + n,
                        bytes@.len() as int,
                    ));
                    let ghost before = png@;
                    png.append_chunk(c);
                    pos = pos + 12 + n;
                    assert(before.push(m) =~= before + seq![m]);
                    assert(forall|s: Seq<ChunkModel>| (before + seq![m]) + s =~= before + (seq![m] + s));
                },
            }
        }
        assert(png@ + seq![] =~= png@);
        Ok(png)
    }
}

} // verus!
