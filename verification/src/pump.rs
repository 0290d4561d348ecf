//! The byte-level logic of the two per-session I/O pumps.
//!
//! The reader pump repeatedly performs a blocking read of the master
//! handle; every step hands the outcome of one read to [`reader_step`],
//! which turns it into the event to emit: a `data` event carrying the
//! base64 rendering of the chunk, or the terminal `exit` event.  The
//! writer pump drains the write queue; [`coalesce`] builds the single
//! byte burst that one pump round flushes to the master handle, in
//! exactly the order the buffers were submitted.
//!
//! [`rebuild_output`] is the consumer's side of the `data` stream: it
//! decodes the payloads and concatenates them, and is proved to return
//! exactly the bytes the pty produced.

use vstd::prelude::*;

verus! {

use vstd::string::StringExecFns;

/// The topic name of a session's `data` events.
pub open spec fn data_topic_spec(id: Seq<char>) -> Seq<char> {
    "pty:"@ + id + ":data"@
}

/// The topic name of a session's `exit` event.
pub open spec fn exit_topic_spec(id: Seq<char>) -> Seq<char> {
    "pty:"@ + id + ":exit"@
}

/// Builds the `data` topic name for a session identifier.
pub fn data_topic(id: &str) -> (r: String)
    ensures
        r@ == data_topic_spec(id@),
{
    let mut m = String::from_str("pty:");
    m.append(id);
    m.append(":data");
    m
}

/// Builds the `exit` topic name for a session identifier.
pub fn exit_topic(id: &str) -> (r: String)
    ensures
        r@ == exit_topic_spec(id@),
{
    let mut m = String::from_str("pty:");
    m.append(id);
    m.append(":exit");
    m
}

/// The base64 rendering (standard alphabet, padded) of a byte
/// sequence.  Its value is pinned only through the contracts of
/// [`b64_encode`] and [`b64_decode`].
pub uninterp spec fn b64_of(bytes: Seq<u8>) -> Seq<char>;

/// The character count of the padded base64 rendering of `n` bytes.
pub open spec fn b64_len_spec(n: int) -> int {
    4 * ((n + 2) / 3)
}

/// Relies on base64's `STANDARD` engine `encode`: the padded,
/// standard-alphabet base64 rendering of the bytes — a function of
/// the bytes alone — with four output characters for every started
/// group of three input bytes.
#[verifier::external_body]
pub(crate) fn b64_encode(bytes: &[u8]) -> (r: String)
    requires
        b64_len_spec(bytes@.len() as int) <= usize::MAX,
    ensures
        r@ == b64_of(bytes@),
        r@.len() == b64_len_spec(bytes@.len() as int),
{
    base64::Engine::encode(&base64::engine::general_purpose::STANDARD, bytes)
}

/// Relies on base64's `STANDARD` engine `decode`: decoding inverts
/// encoding — a payload that is the rendering of some byte sequence
/// decodes successfully to exactly that sequence.  Any other payload
/// is rejected with the decoder's description of the fault.
#[verifier::external_body]
pub(crate) fn b64_decode(payload: &str) -> (r: Result<Vec<u8>, String>)
    ensures
        r matches Ok(v) ==> forall|bytes: Seq<u8>| payload@ == b64_of(bytes) ==> v@ == bytes,
        r is Err ==> forall|bytes: Seq<u8>| payload@ != b64_of(bytes),
{
    match base64::Engine::decode(&base64::engine::general_purpose::STANDARD, payload) {
        Ok(v) => Ok(v),
        Err(e) => Err(e.to_string()),
    }
}

/// The outcome of one blocking read of the master handle, as the host
/// hands it to the reader pump's step: a non-empty chunk, end of
/// stream, or a read error.
pub enum PtyRead {
    /// A successful read of one non-empty chunk.
    Data(Vec<u8>),
    /// A zero-length read: the pty stream has ended.
    Eof,
    /// The read failed.
    ReadFailed,
}

/// What the reader pump does after one read: emit a `data` event and
/// keep reading, or emit the final `exit` event and stop.
pub enum ReaderAction {
    /// Emit `payload` on `topic` and keep pumping.
    Emit { topic: String, payload: String },
    /// Emit the terminal event on `topic` and stop pumping.
    Stop { topic: String },
}

/// One step of the reader pump.  A chunk becomes a `data` event whose
/// payload is exactly the base64 rendering of the chunk, on the
/// session's `data` topic; end of stream and a failed read both become
/// the terminal `exit` event, after which the pump stops.
pub fn reader_step(id: &str, ev: PtyRead) -> (a: ReaderAction)
    requires
        ev matches PtyRead::Data(b) ==> b64_len_spec(b@.len() as int) <= usize::MAX,
    ensures
        ev matches PtyRead::Data(b) ==> (a matches ReaderAction::Emit { topic, payload }
            && topic@ == data_topic_spec(id@) && payload@ == b64_of(b@)),
        !(ev matches PtyRead::Data(b)) ==> (a matches ReaderAction::Stop { topic } && topic@
            == exit_topic_spec(id@)),
{
    match ev {
        PtyRead::Data(b) => ReaderAction::Emit {
            topic: data_topic(id),
            payload: b64_encode(b.as_slice()),
        },
        PtyRead::Eof => ReaderAction::Stop { topic: exit_topic(id) },
        PtyRead::ReadFailed => ReaderAction::Stop { topic: exit_topic(id) },
    }
}

/// One round of the writer pump: the buffers received from the write
/// queue — the blocking receive plus everything already queued behind
/// it — coalesced into the single burst written to the master handle.
/// The burst is exactly the buffers' bytes, in submission order.
pub fn coalesce(bufs: Vec<Vec<u8>>) -> (out: Vec<u8>)
    ensures
        out@ == bufs.deep_view().flatten(),
{
    let mut out: Vec<u8> = Vec::new();
    let n = bufs.len();
    let mut i: usize = 0;
    proof {
        assert(bufs.deep_view().take(0).flatten() =~= Seq::<u8>::empty());
    }
    while i < n
        invariant
            0 <= i <= n,
            n == bufs@.len(),
            bufs.deep_view().len() == n,
            forall|j: int| 0 <= j < n ==> bufs.deep_view()[j] == bufs@[j]@,
            out@ == bufs.deep_view().take(i as int).flatten(),
        decreases n - i,
    {
        let ghost pre = bufs.deep_view().take(i as int);
        out.extend_from_slice(bufs[i].as_slice());
        proof {
            pre.lemma_flatten_push(bufs@[i as int]@);
            assert(bufs.deep_view().take(i as int + 1) =~= pre.push(bufs@[i as int]@));
        }
        i += 1;
    }
    proof {
        assert(bufs.deep_view().take(n as int) =~= bufs.deep_view());
    }
    out
}

/// `chunks` is exactly the byte sequence that each payload of
/// `payloads` renders, in order.
pub open spec fn all_encoded(payloads: Seq<String>, chunks: Seq<Seq<u8>>) -> bool {
    payloads.len() == chunks.len() && forall|i: int|
        0 <= i < payloads.len() ==> payloads[i]@ == b64_of(#[trigger] chunks[i])
}

/// Decodes a session's `data` payloads in emission order and
/// concatenates them.  Whenever the payloads are the renderings of
/// some sequence of chunks, the result is exactly those chunks'
/// bytes, concatenated with no loss, duplication or reordering.
pub fn rebuild_output(payloads: &Vec<String>) -> (r: Option<Vec<u8>>)
    ensures
        forall|chunks: Seq<Seq<u8>>| all_encoded(payloads@, chunks) ==> (r matches Some(v) && v@
            == chunks.flatten()),
{
    let mut acc: Vec<u8> = Vec::new();
    let n = payloads.len();
    let mut i: usize = 0;
    while i < n
        invariant
            0 <= i <= n,
            n == payloads@.len(),
            forall|chunks: Seq<Seq<u8>>|
                all_encoded(payloads@.take(i as int), chunks) ==> acc@ == chunks.flatten(),
        decreases n - i,
    {
        let ghost acc_pre = acc@;
        match b64_decode(payloads[i].as_str()) {
            Ok(d) => {
                acc.extend_from_slice(d.as_slice());
                proof {
                    assert forall|chunks: Seq<Seq<u8>>|
                        all_encoded(payloads@.take(i as int + 1), chunks) implies acc@
                        == chunks.flatten() by {
                        let pre = chunks.take(i as int);
                        assert(all_encoded(payloads@.take(i as int), pre)) by {
                            assert forall|j: int| 0 <= j < i implies payloads@.take(i as int)[j]@
                                == b64_of(#[trigger] pre[j]) by {
                                assert(payloads@.take(i as int + 1)[j]@ == b64_of(chunks[j]));
                            }
                        }
                        assert(acc_pre == pre.flatten());
                        assert(payloads@.take(i as int + 1)[i as int]@ == b64_of(chunks[i as int]));
                        assert(d@ == chunks[i as int]);
                        pre.lemma_flatten_push(chunks[i as int]);
                        assert(chunks =~= pre.push(chunks[i as int]));
                    }
                }
            },
            Err(_) => {
                proof {
                    assert forall|chunks: Seq<Seq<u8>>| all_encoded(payloads@, chunks) implies
                        false by {
                        assert(payloads@[i as int]@ == b64_of(chunks[i as int]));
                    }
                }
                return None;
            },
        }
        i += 1;
    }
    proof {
        assert(payloads@.take(n as int) =~= payloads@);
    }
    Some(acc)
}


/// Write bursts concatenate.  The writer pump flushes one coalesced
/// burst per round; whatever the round boundaries, the byte stream
/// the process receives is the concatenation of every submitted
/// buffer in submission order — coalescing round by round equals
/// coalescing all submissions at once.
pub proof fn lemma_rounds_concatenate(a: Seq<Seq<u8>>, b: Seq<Seq<u8>>)
    ensures
        (a + b).flatten() == a.flatten() + b.flatten(),
{
    vstd::seq_lib::lemma_flatten_concat(a, b);
}

} // verus!
