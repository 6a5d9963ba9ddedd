//! The fixed-size staging buffer through which a module and its host exchange
//! encoded records.
use vstd::prelude::*;
use vstd::utf8::encode_utf8;
use crate::exchange::{
    lemma_request_bytes_len, lemma_response_bytes_len, request_bytes, response_bytes, AnimReturn,
    AnimationPassTrough, REQUEST_LEN, RESPONSE_LEN, STAGING_LEN,
};
use crate::metadata::{
    AnimView, EntryView, anims_bytes, character_metadata, entries_bytes, entry_bytes, metadata, metadata_bytes, str_bytes,
    Metadata,
};

verus! {

/// Why a record could not be placed in the staging buffer.
#[derive(Clone, Copy, Debug, PartialEq, Eq, Structural)]
pub enum StagingError {
    /// The encoded record is longer than the buffer.
    Overflow,
}

/// The staging buffer of one module instance: exactly `STAGING_LEN` bytes.
/// Every record is written at its start, over whatever stood there.
#[derive(Debug)]
pub struct StagingBuffer {
    bytes: Vec<u8>,
}

impl View for StagingBuffer {
    type V = Seq<u8>;

    closed spec fn view(&self) -> Seq<u8> {
        self.bytes@
    }
}

/// `data` written over the start of `old`.
pub open spec fn overwrite(old: Seq<u8>, data: Seq<u8>) -> Seq<u8> {
    data + old.subrange(data.len() as int, old.len() as int)
}

pub proof fn lemma_utf8_len_bound(s: Seq<char>)
    ensures
        encode_utf8(s).len() <= 4 * s.len(),
    decreases s.len(),
{
    if s.len() > 0 {
        lemma_utf8_len_bound(s.drop_first());
    }
}

/// Every request and every response, and the module's capability descriptor,
/// fit in the staging buffer.
pub proof fn lemma_records_fit(x: AnimationPassTrough, y: AnimReturn)
    ensures
        request_bytes(x).len() <= STAGING_LEN,
        response_bytes(y).len() <= STAGING_LEN,
        metadata_bytes(character_metadata()).len() <= STAGING_LEN,
{
    lemma_request_bytes_len(x);
    lemma_response_bytes_len(y);
    reveal_strlit("idle");
    reveal_strlit("character_idle");
    lemma_utf8_len_bound("idle"@);
    lemma_utf8_len_bound("character_idle"@);
    let m = character_metadata();
    let e = m.1[0];
    assert(m.1.drop_last() =~= Seq::empty());
    assert(e.1.drop_last() =~= Seq::empty());
    assert(anims_bytes(Seq::<AnimView>::empty()) == Seq::<u8>::empty());
    assert(entries_bytes(Seq::<EntryView>::empty()) == Seq::<u8>::empty());
    assert(anims_bytes(e.1).len() == str_bytes("idle"@).len() + str_bytes("character_idle"@).len());
    assert(entries_bytes(m.1).len() == entry_bytes(e).len());
}

impl StagingBuffer {
    pub open spec fn wf(&self) -> bool {
        self@.len() == STAGING_LEN
    }

    /// A zeroed buffer.
    pub fn new() -> (r: StagingBuffer)
        ensures
            r.wf(),
            r@ == Seq::new(STAGING_LEN as nat, |i: int| 0u8),
    {
        let mut bytes: Vec<u8> = Vec::new();
        let mut i: usize = 0;
        while i < STAGING_LEN
            invariant
                i <= STAGING_LEN,
                bytes@ == Seq::new(i as nat, |k: int| 0u8),
            decreases STAGING_LEN - i,
        {
            bytes.push(0u8);
            i += 1;
            assert(bytes@ =~= Seq::new(i as nat, |k: int| 0u8));
        }
        StagingBuffer { bytes }
    }

    /// The buffer's contents.
    pub fn bytes(&self) -> (r: &Vec<u8>)
        ensures
            r@ == self@,
    {
        &self.bytes
    }

    /// Writes `data` at the start of the buffer; the rest stays as it was.
    /// Fails, changing nothing, where `data` is longer than the buffer.
    pub fn write(&mut self, data: &Vec<u8>) -> (r: Result<(), StagingError>)
        requires
            old(self).wf(),
        ensures
            final(self).wf(),
            r is Err <==> data@.len() > STAGING_LEN,
            r is Err ==> r == Err::<(), StagingError>(StagingError::Overflow) && final(self)@ == old(self)@,
            r is Ok ==> final(self)@ == overwrite(old(self)@, data@),
    {
        if data.len() > STAGING_LEN {
            return Err(StagingError::Overflow);
        }
        let mut i: usize = 0;
        while i < data.len()
            invariant
                data@.len() <= STAGING_LEN,
                old(self)@.len() == STAGING_LEN,
                i <= data@.len(),
                self@.len() == STAGING_LEN,
                self@ == data@.subrange(0, i as int) + old(self)@.subrange(i as int, STAGING_LEN as int),
            decreases data.len() - i,
        {
            self.bytes.set(i, data[i]);
            i += 1;
            assert(self@ =~= data@.subrange(0, i as int) + old(self)@.subrange(i as int, STAGING_LEN as int));
        }
        assert(data@.subrange(0, data@.len() as int) =~= data@);
        Ok(())
    }

    /// Writes a request for an animation routine.
    pub fn write_request(&mut self, x: &AnimationPassTrough)
        requires
            old(self).wf(),
        ensures
            final(self).wf(),
            final(self)@ == overwrite(old(self)@, request_bytes(*x)),
    {
        let data = x.encode();
        let _ = self.write(&data);
    }

    /// Reads the request that stands at the start of the buffer.
    pub fn read_request(&self) -> (r: AnimationPassTrough)
        requires
            self.wf(),
        ensures
            request_bytes(r) == self@.subrange(0, REQUEST_LEN as int),
    {
        match AnimationPassTrough::decode(&self.bytes) {
            Some(x) => x,
            None => {
                assert(false);
                AnimationPassTrough::decode(&self.bytes).unwrap()
            },
        }
    }

    /// Writes an animation routine's response.
    pub fn write_response(&mut self, x: &AnimReturn)
        requires
            old(self).wf(),
        ensures
            final(self).wf(),
            final(self)@ == overwrite(old(self)@, response_bytes(*x)),
    {
        let data = x.encode();
        let _ = self.write(&data);
    }

    /// Reads the response that stands at the start of the buffer.
    pub fn read_response(&self) -> (r: AnimReturn)
        requires
            self.wf(),
        ensures
            response_bytes(r) == self@.subrange(0, RESPONSE_LEN as int),
    {
        match AnimReturn::decode(&self.bytes) {
            Some(x) => x,
            None => {
                assert(false);
                AnimReturn::decode(&self.bytes).unwrap()
            },
        }
    }

    /// Writes a capability descriptor; fails, changing nothing, where its
    /// encoding is longer than the buffer.
    pub fn write_metadata(&mut self, m: &Metadata) -> (r: Result<(), StagingError>)
        requires
            old(self).wf(),
        ensures
            final(self).wf(),
            r is Err <==> metadata_bytes(m@).len() > STAGING_LEN,
            r is Err ==> final(self)@ == old(self)@,
            r is Ok ==> final(self)@ == overwrite(old(self)@, metadata_bytes(m@)),
    {
        let data = m.encode();
        self.write(&data)
    }

    /// Publishes this module's capability descriptor.
    pub fn publish_metadata(&mut self)
        requires
            old(self).wf(),
        ensures
            final(self).wf(),
            final(self)@ == overwrite(old(self)@, metadata_bytes(character_metadata())),
    {
        let m = metadata();
        proof {
            lemma_records_fit(arbitrary(), arbitrary());
        }
        let _ = self.write_metadata(&m);
    }

    /// Reads the capability descriptor that stands at the start of the buffer:
    /// the descriptor whose bytes open it, or `None` where no descriptor's do.
    pub fn read_metadata(&self) -> (r: Option<Metadata>)
        ensures
            r matches Some(m) ==> metadata_bytes(m@).is_prefix_of(self@),
            forall|v: (u32, Seq<EntryView>)| #[trigger] metadata_bytes(v).is_prefix_of(self@) ==> (r matches Some(m)
                && m@ == v),
    {
        Metadata::decode(&self.bytes)
    }
}

} // verus!
