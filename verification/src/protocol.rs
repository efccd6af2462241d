//! The routes of the observers server and the messages they answer with:
//! `POST /runs`, `POST /twin-runs` (answered by a [`NewRun`]),
//! `GET /runs/{id}`, `GET /runs/{id}/output`, `DELETE /runs/{id}`.

use vstd::prelude::*;
use vstd::string::*;
use crate::grid::Estimator;
use crate::text::{chars_of, decimal, find_seq, find_seq_in, format_u64, trim_end_char, trim_trailing_slashes};

verus! {

broadcast use vstd::string::group_string_axioms;

/// Content type of the binary encoding of a run's output, what a client
/// asks for with `Accept`.
pub const BINARY: &'static str = "application/octet-stream";

/// Whether a request's `Accept` header asks for the binary encoding: it
/// names [`BINARY`] somewhere.
pub fn accepts_binary(accept: Option<&str>) -> (r: bool)
    ensures
        r == (accept matches Some(a) && find_seq(a@, BINARY@) is Some),
{
    match accept {
        None => false,
        Some(a) => {
            let v = chars_of(a);
            let k = chars_of(BINARY);
            find_seq_in(&v, &k).is_some()
        },
    }
}

/// The tag byte naming the estimator of an output in its binary encoding:
/// 0 filter, 1 window, 2 particles, 3 tracker.
pub open spec fn tag_of(e: Estimator) -> u8 {
    match e {
        Estimator::Filter => 0,
        Estimator::Window => 1,
        Estimator::Particles => 2,
        Estimator::Tracker => 3,
    }
}

/// Why a binary output cannot be read.
#[derive(Clone, Copy, Debug, PartialEq, Eq, Structural)]
pub enum FrameError {
    /// The bytes end before the tag.
    UnexpectedEnd,
    /// The tag names no estimator.
    BadEnum,
}

/// The binary encoding of an output: the tag byte naming the estimator,
/// then the output itself (`payload`, the estimator's own encoding).
pub fn encode_frame(e: Estimator, payload: &[u8]) -> (r: Vec<u8>)
    ensures
        r@ == seq![tag_of(e)] + payload@,
{
    let mut r: Vec<u8> = Vec::new();
    let tag: u8 = match e {
        Estimator::Filter => 0,
        Estimator::Window => 1,
        Estimator::Particles => 2,
        Estimator::Tracker => 3,
    };
    r.push(tag);
    let mut i: usize = 0;
    while i < payload.len()
        invariant
            i <= payload@.len(),
            r@ == seq![tag] + payload@.take(i as int),
        decreases payload@.len() - i,
    {
        r.push(payload[i]);
        assert(payload@.take(i + 1) =~= payload@.take(i as int).push(payload@[i as int]));
        i = i + 1;
    }
    assert(payload@.take(payload@.len() as int) =~= payload@);
    r
}

/// What the tag of `bytes` says: the estimator named and where the
/// payload starts, or why it cannot be read.
pub open spec fn read_frame(bytes: Seq<u8>) -> Result<(Estimator, nat), FrameError> {
    if bytes.len() == 0 {
        Err(FrameError::UnexpectedEnd)
    } else if bytes[0] == 0 {
        Ok((Estimator::Filter, 1))
    } else if bytes[0] == 1 {
        Ok((Estimator::Window, 1))
    } else if bytes[0] == 2 {
        Ok((Estimator::Particles, 1))
    } else if bytes[0] == 3 {
        Ok((Estimator::Tracker, 1))
    } else {
        Err(FrameError::BadEnum)
    }
}

/// Read the tag of a binary output: the estimator it names and where its
/// payload starts.
pub fn decode_frame(bytes: &[u8]) -> (r: Result<(Estimator, usize), FrameError>)
    ensures
        match r {
            Ok((e, start)) => read_frame(bytes@) == Ok::<(Estimator, nat), FrameError>((e, start as nat)),
            Err(err) => read_frame(bytes@) == Err::<(Estimator, nat), FrameError>(err),
        },
{
    if bytes.len() == 0 {
        return Err(FrameError::UnexpectedEnd);
    }
    match bytes[0] {
        0 => Ok((Estimator::Filter, 1)),
        1 => Ok((Estimator::Window, 1)),
        2 => Ok((Estimator::Particles, 1)),
        3 => Ok((Estimator::Tracker, 1)),
        _ => Err(FrameError::BadEnum),
    }
}

/// Decoding inverts encoding: reading back an encoded output gives the
/// estimator written, and its payload follows the tag unchanged.
pub proof fn decoding_inverts_encoding(e: Estimator, payload: Seq<u8>)
    ensures
        read_frame(seq![tag_of(e)] + payload) == Ok::<(Estimator, nat), FrameError>((e, 1)),
        (seq![tag_of(e)] + payload).skip(1) == payload,
{
    assert((seq![tag_of(e)] + payload).skip(1) =~= payload);
}

/// Answer to `POST /runs` and `POST /twin-runs`: the id of the new run.
#[derive(Clone, Copy, Debug, PartialEq, Eq, Structural)]
pub struct NewRun {
    pub id: u64,
}

/// The server's address without its trailing slashes.
pub open spec fn base_of(base: Seq<char>) -> Seq<char> {
    trim_end_char(base, '/')
}

/// `{base}/runs`, the slashes ending `base` dropped.
pub fn runs_url(base: &str) -> (r: String)
    ensures
        r@ == base_of(base@) + "/runs"@,
{
    let mut s = String::from_str(trim_trailing_slashes(base));
    s.append("/runs");
    s
}

/// `{base}/twin-runs`, the slashes ending `base` dropped.
pub fn twin_runs_url(base: &str) -> (r: String)
    ensures
        r@ == base_of(base@) + "/twin-runs"@,
{
    let mut s = String::from_str(trim_trailing_slashes(base));
    s.append("/twin-runs");
    s
}

/// `{base}/runs/{id}`, the slashes ending `base` dropped.
pub fn run_url(base: &str, id: u64) -> (r: String)
    ensures
        r@ == base_of(base@) + "/runs/"@ + decimal(id as nat),
{
    let mut s = String::from_str(trim_trailing_slashes(base));
    s.append("/runs/");
    let n = format_u64(id);
    s.append(n.as_str());
    s
}

/// `{base}/runs/{id}/output`, the slashes ending `base` dropped.
pub fn output_url(base: &str, id: u64) -> (r: String)
    ensures
        r@ == base_of(base@) + "/runs/"@ + decimal(id as nat) + "/output"@,
{
    let mut s = run_url(base, id);
    s.append("/output");
    s
}

} // verus!
