use vstd::prelude::*;

verus! {

/// One item of a payload stream: a chunk of bytes, or the error on which the
/// stream broke off.
pub type PayloadChunk = Result<Vec<u8>, String>;

/// The number of chunks that the channel between a payload's source and the
/// update actor holds at most.
pub const PAYLOAD_CHANNEL_CAPACITY: usize = 10;

/// No item of the stream is an error.
pub open spec fn error_free(stream: Seq<PayloadChunk>) -> bool {
    forall|j: int| 0 <= j < stream.len() ==> (#[trigger] stream[j]) is Ok
}

/// The item at `i` is an error and no item before it is.
pub open spec fn is_first_error(stream: Seq<PayloadChunk>, i: int) -> bool {
    &&& 0 <= i < stream.len()
    &&& stream[i] is Err
    &&& forall|j: int| 0 <= j < i ==> (#[trigger] stream[j]) is Ok
}

/// The place of the first error of a stream that has one.
pub open spec fn first_error(stream: Seq<PayloadChunk>) -> int {
    choose|i: int| is_first_error(stream, i)
}

/// The bytes that an item carries: none, for an error.
pub open spec fn chunk_bytes(chunk: PayloadChunk) -> Seq<u8> {
    match chunk {
        Ok(bytes) => bytes@,
        Err(_) => Seq::empty(),
    }
}

/// The bytes of all chunks of the stream, in order.
pub open spec fn concat_chunks(stream: Seq<PayloadChunk>) -> Seq<u8>
    decreases stream.len(),
{
    if stream.len() == 0 {
        Seq::empty()
    } else {
        concat_chunks(stream.drop_last()) + chunk_bytes(stream.last())
    }
}

/// What the forwarding unit pushes onto the channel for a given source: every
/// item up to and including the first error, and nothing after it.
pub open spec fn forwarded(source: Seq<PayloadChunk>) -> Seq<PayloadChunk> {
    if error_free(source) {
        source
    } else {
        source.take(first_error(source) + 1)
    }
}

/// At most one item of the channel is an error, and it is the last one: the
/// consumer sees one end of stream, clean or erroring.
pub open spec fn well_terminated(channel: Seq<PayloadChunk>) -> bool {
    forall|j: int| 0 <= j < channel.len() && (#[trigger] channel[j]) is Err ==> j == channel.len() - 1
}

/// What the consumer has once it has read a stream to its end: all the bytes,
/// or the first error.
pub open spec fn drained(stream: Seq<PayloadChunk>) -> Result<Seq<u8>, String> {
    if error_free(stream) {
        Ok(concat_chunks(stream))
    } else {
        Err(stream[first_error(stream)]->Err_0)
    }
}

/// A drained payload with its bytes as a sequence.
pub open spec fn payload_view(payload: PayloadChunk) -> Result<Seq<u8>, String> {
    match payload {
        Ok(bytes) => Ok(bytes@),
        Err(error) => Err(error),
    }
}

/// A stream has at most one first error.
pub proof fn lemma_first_error_unique(stream: Seq<PayloadChunk>, i: int)
    requires
        is_first_error(stream, i),
    ensures
        !error_free(stream),
        first_error(stream) == i,
{
    let k = first_error(stream);
    assert(is_first_error(stream, k));
    if k < i {
        assert(stream[k] is Ok);
    } else if i < k {
        assert(stream[i] is Ok);
    }
}

/// A stream that is not free of errors has a first error.
pub proof fn lemma_first_error_exists(stream: Seq<PayloadChunk>)
    requires
        !error_free(stream),
    ensures
        is_first_error(stream, first_error(stream)),
    decreases stream.len(),
{
    let j = choose|j: int| 0 <= j < stream.len() && !((#[trigger] stream[j]) is Ok);
    let front = stream.take(j);
    if error_free(front) {
        assert forall|k: int| 0 <= k < j implies (#[trigger] stream[k]) is Ok by {
            assert(front[k] is Ok);
        }
        assert(is_first_error(stream, j));
    } else {
        lemma_first_error_exists(front);
        let k = first_error(front);
        assert(front[k] is Err);
        assert forall|m: int| 0 <= m < k implies (#[trigger] stream[m]) is Ok by {
            assert(front[m] is Ok);
        }
        assert(is_first_error(stream, k));
    }
}

/// Whether the forwarding unit goes on reading its source after it has pushed
/// `chunk` onto the channel: it stops after the first error.
pub fn proceeds_after(chunk: &PayloadChunk) -> (proceeds: bool)
    ensures
        proceeds == (*chunk is Ok),
{
    match chunk {
        Ok(_) => true,
        Err(_) => false,
    }
}

/// The items that the forwarding unit pushes onto the channel when its source
/// yields `source`.
pub fn forward(source: Vec<PayloadChunk>) -> (channel: Vec<PayloadChunk>)
    ensures
        channel@ == forwarded(source@),
{
    let mut channel = source;
    let mut i: usize = 0;
    while i < channel.len()
        invariant
            channel@ == source@,
            i <= channel.len(),
            forall|j: int| 0 <= j < i ==> (#[trigger] source@[j]) is Ok,
        decreases channel.len() - i,
    {
        if !proceeds_after(&channel[i]) {
            proof {
                lemma_first_error_unique(source@, i as int);
            }
            channel.truncate(i + 1);
            return channel;
        }
        i += 1;
    }
    channel
}

/// Reads a channel to its end: the bytes of all its chunks, or the first
/// error.
pub fn drain(channel: &Vec<PayloadChunk>) -> (payload: PayloadChunk)
    ensures
        payload_view(payload) == drained(channel@),
{
    let mut bytes: Vec<u8> = Vec::new();
    let mut i: usize = 0;
    while i < channel.len()
        invariant
            i <= channel.len(),
            forall|j: int| 0 <= j < i ==> (#[trigger] channel@[j]) is Ok,
            bytes@ == concat_chunks(channel@.take(i as int)),
        decreases channel.len() - i,
    {
        match &channel[i] {
            Ok(chunk) => {
                proof {
                    assert(channel@.take(i + 1).drop_last() == channel@.take(i as int));
                }
                bytes.extend_from_slice(chunk.as_slice());
            },
            Err(error) => {
                proof {
                    lemma_first_error_unique(channel@, i as int);
                }
                return Err(error.clone());
            },
        }
        i += 1;
    }
    proof {
        assert(channel@.take(i as int) == channel@);
    }
    Ok(bytes)
}

/// Whatever the source yields, the channel carries at most one error, as its
/// last item.
pub proof fn lemma_forwarded_well_terminated(source: Seq<PayloadChunk>)
    ensures
        well_terminated(forwarded(source)),
        forwarded(source).len() <= source.len(),
        forwarded(source) == source.take(forwarded(source).len() as int),
{
    if !error_free(source) {
        lemma_first_error_exists(source);
    }
}

/// Forwarding changes nothing of what the consumer ends up with: the same
/// bytes, or the same first error.
pub proof fn lemma_drained_forwarded(source: Seq<PayloadChunk>)
    ensures
        drained(forwarded(source)) == drained(source),
{
    if !error_free(source) {
        lemma_first_error_exists(source);
        let i = first_error(source);
        let channel = forwarded(source);
        assert(channel[i] is Err);
        assert(is_first_error(channel, i));
        lemma_first_error_unique(channel, i);
    }
}

/// A stream that breaks off yields the error on which it broke off, whatever
/// follows that error in the source.
pub proof fn lemma_drained_first_error(source: Seq<PayloadChunk>, i: int)
    requires
        is_first_error(source, i),
    ensures
        drained(source) == Err::<Seq<u8>, String>(source[i]->Err_0),
        drained(forwarded(source)) == Err::<Seq<u8>, String>(source[i]->Err_0),
{
    lemma_first_error_unique(source, i);
    lemma_drained_forwarded(source);
}

} // verus!
