use vstd::prelude::*;

verus! {

/// What zstd returns when it compresses `data` at effort `level` with the
/// given dictionary (`None`: no dictionary).  zstd's bulk API compresses
/// each call independently, so the result is a function of these three
/// alone; nothing more is assumed of it.
pub uninterp spec fn compressed(level: i32, dict: Option<Seq<u8>>, data: Seq<u8>) -> Seq<u8>;

/// What zstd's dictionary trainer returns for `samples` and a target
/// dictionary size: the training algorithm is deterministic in its
/// inputs.  Nothing more is assumed of the trained bytes.
pub uninterp spec fn trained_dictionary(samples: Seq<Seq<u8>>, max_size: usize) -> Seq<u8>;

/// The byte sequences of a sequence of byte vectors.
pub open spec fn byte_views(ss: Seq<Vec<u8>>) -> Seq<Seq<u8>> {
    ss.map_values(|v: Vec<u8>| v@)
}

#[verifier::external_type_specification]
#[verifier::external_body]
pub struct ExCompressor<'a>(zstd::bulk::Compressor<'a>);

/// A compression capability: zstd's bulk compressor, together with the
/// level and the optional dictionary it was built with, which the
/// contracts speak of.
pub(crate) struct Codec {
    level: i32,
    dict: Option<Vec<u8>>,
    inner: zstd::bulk::Compressor<'static>,
}

/// What a `Codec` is in contracts: its level and its dictionary bytes.
pub(crate) struct CodecView {
    pub level: i32,
    pub dict: Option<Seq<u8>>,
}

impl View for Codec {
    type V = CodecView;

    closed spec fn view(&self) -> CodecView {
        CodecView {
            level: self.level,
            dict: match self.dict {
                Some(d) => Some(d@),
                None => None,
            },
        }
    }
}

impl Codec {
    /// Relies on `zstd::bulk::Compressor::new`: builds a compressor for
    /// `level` and no dictionary; fails only as zstd does (the error text
    /// is zstd's).
    #[verifier::external_body]
    pub(crate) fn new(level: i32) -> (r: Result<Codec, String>)
        ensures
            r matches Ok(c) ==> c@.level == level && c@.dict is None,
    {
        match zstd::bulk::Compressor::new(level) {
            Ok(inner) => Ok(Codec { level, dict: None, inner }),
            Err(e) => Err(format!("{}", e)),
        }
    }

    /// Relies on `zstd::bulk::Compressor::with_dictionary`: builds a
    /// compressor for `level` that compresses against `dict`'s bytes.
    #[verifier::external_body]
    pub(crate) fn with_dictionary(level: i32, dict: &Vec<u8>) -> (r: Result<Codec, String>)
        ensures
            r matches Ok(c) ==> c@.level == level && c@.dict == Some(dict@),
    {
        match zstd::bulk::Compressor::with_dictionary(level, dict.as_slice()) {
            Ok(inner) => Ok(Codec { level, dict: Some(dict.clone()), inner }),
            Err(e) => Err(format!("{}", e)),
        }
    }

    /// Relies on `zstd::bulk::Compressor::compress`: each call compresses
    /// `data` on its own, so on success the result is `compressed` of the
    /// codec's level, its dictionary and the input.
    #[verifier::external_body]
    pub(crate) fn compress(&mut self, data: &Vec<u8>) -> (r: Result<Vec<u8>, String>)
        ensures
            final(self)@ == old(self)@,
            r matches Ok(out) ==> out@ == compressed(old(self)@.level, old(self)@.dict, data@),
    {
        match self.inner.compress(data.as_slice()) {
            Ok(out) => Ok(out),
            Err(e) => Err(format!("{}", e)),
        }
    }
}

/// Relies on `zstd::dict::from_samples`: trains a dictionary of at most
/// `max_size` bytes from the samples; deterministic in its inputs, and it
/// fails only as zstd does (for one, when the corpus is too small).
#[verifier::external_body]
pub(crate) fn train_dictionary(samples: &Vec<Vec<u8>>, max_size: usize) -> (r: Result<
    Vec<u8>,
    String,
>)
    ensures
        r matches Ok(d) ==> d@ == trained_dictionary(byte_views(samples@), max_size),
{
    match zstd::dict::from_samples(samples.as_slice(), max_size) {
        Ok(d) => Ok(d),
        Err(e) => Err(format!("{}", e)),
    }
}

} // verus!
