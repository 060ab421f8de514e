//! The digest accumulator: a streaming MD5 state fed with ordered chunks.
use vstd::prelude::*;

verus! {

#[verifier::external_type_specification]
#[verifier::external_body]
pub struct ExContext(md5::Context);

/// The byte stream that an MD5 context has consumed since it was created.
pub uninterp spec fn md5_input(c: md5::Context) -> Seq<u8>;

/// The MD5 digest of a byte stream.
pub uninterp spec fn md5_of(data: Seq<u8>) -> Seq<u8>;

/// Relies on md5::Context::new: a fresh context has consumed nothing.
#[verifier::external_body]
fn context_new() -> (r: md5::Context)
    ensures
        md5_input(r) == Seq::<u8>::empty(),
{
    md5::Context::new()
}

/// Relies on md5::Context::consume: the bytes are appended to the stream.
#[verifier::external_body]
fn context_consume(c: &mut md5::Context, data: &[u8])
    ensures
        md5_input(*final(c)) == md5_input(*old(c)) + data@,
{
    c.consume(data)
}

/// Relies on md5::Context::compute: the digest of the whole consumed stream.
#[verifier::external_body]
fn context_compute(c: md5::Context) -> (r: [u8; 16])
    ensures
        r@ == md5_of(md5_input(c)),
{
    c.compute().0
}

/// A fixed-size digest value.
#[derive(Debug, Clone, Copy)]
pub struct Digest {
    pub bytes: [u8; 16],
}

/// A running hash state. Its view is the ordered byte stream fed so far; the
/// digest depends on that stream alone, not on how it was split into chunks.
pub struct Accumulator {
    ctx: md5::Context,
}

impl View for Accumulator {
    type V = Seq<u8>;

    closed spec fn view(&self) -> Seq<u8> {
        md5_input(self.ctx)
    }
}

impl Accumulator {
    /// An accumulator that has been fed nothing.
    pub fn new() -> (r: Accumulator)
        ensures
            r@ == Seq::<u8>::empty(),
    {
        Accumulator { ctx: context_new() }
    }

    /// Feeds `bytes` after everything fed so far. An empty slice changes nothing.
    pub fn consume(&mut self, bytes: &[u8])
        ensures
            final(self)@ == old(self)@ + bytes@,
    {
        context_consume(&mut self.ctx, bytes);
    }

    /// Ends the stream and returns the digest of all bytes fed.
    pub fn finalize(self) -> (r: Digest)
        ensures
            r.bytes@ == md5_of(self@),
    {
        Digest { bytes: context_compute(self.ctx) }
    }
}

/// `data` cut into consecutive pieces of `size` bytes; the last may be shorter.
pub open spec fn chunks(data: Seq<u8>, size: nat) -> Seq<Seq<u8>>
    recommends
        size > 0,
    decreases data.len(),
    when size > 0
{
    if data.len() == 0 {
        Seq::empty()
    } else if data.len() <= size {
        seq![data]
    } else {
        seq![data.subrange(0, size as int)] + chunks(data.subrange(size as int, data.len() as int), size)
    }
}

/// Joining the pieces gives back the data.
pub proof fn lemma_chunks_join(data: Seq<u8>, size: nat)
    requires
        size > 0,
    ensures
        chunks(data, size).flatten() == data,
    decreases data.len(),
{
    if data.len() == 0 {
    } else if data.len() <= size {
        let c = seq![data];
        assert(c.drop_first() =~= Seq::<Seq<u8>>::empty());
        assert(c.drop_first().flatten() == Seq::<u8>::empty());
        assert(c.first() == data);
        assert(c.flatten() =~= data);
    } else {
        let head = data.subrange(0, size as int);
        let tail = data.subrange(size as int, data.len() as int);
        lemma_chunks_join(tail, size);
        let c = seq![head] + chunks(tail, size);
        assert(c.first() == head);
        assert(c.drop_first() =~= chunks(tail, size));
        assert(head + tail =~= data);
    }
}

/// The digest of the pieces fed one after another is the digest of the data,
/// whatever the piece size: two piece sizes give the same digest.
pub proof fn lemma_chunk_size_invariance(data: Seq<u8>, size1: nat, size2: nat)
    requires
        size1 > 0,
        size2 > 0,
    ensures
        md5_of(chunks(data, size1).flatten()) == md5_of(data),
        md5_of(chunks(data, size1).flatten()) == md5_of(chunks(data, size2).flatten()),
{
    lemma_chunks_join(data, size1);
    lemma_chunks_join(data, size2);
}

/// The digest of `data`, fed to one accumulator in pieces of at most
/// `chunk_size` bytes.
pub fn digest_in_chunks(data: &[u8], chunk_size: usize) -> (r: Digest)
    requires
        chunk_size > 0,
    ensures
        r.bytes@ == md5_of(data@),
{
    let mut acc = Accumulator::new();
    let mut pos: usize = 0;
    while pos < data.len()
        invariant
            chunk_size > 0,
            pos <= data@.len(),
            acc@ == data@.subrange(0, pos as int),
        decreases data@.len() - pos,
    {
        let end: usize = if data.len() - pos <= chunk_size { data.len() } else { pos + chunk_size };
        acc.consume(vstd::slice::slice_subrange(data, pos, end));
        assert(data@.subrange(0, pos as int) + data@.subrange(pos as int, end as int) =~= data@.subrange(0, end as int));
        pos = end;
    }
    assert(data@.subrange(0, data@.len() as int) =~= data@);
    acc.finalize()
}

} // verus!
