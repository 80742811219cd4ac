//! The framing pipeline: one call's outcome becomes newline-delimited JSON
//! records. The first record holds the target's configuration and the
//! outcome; on success it names the SHA-256 of the zstd-compressed shaped
//! body, and one record per chunk of that compressed body follows, each
//! carrying the same id, so a consumer can reassemble the payload.

use vstd::prelude::*;
use crate::chunkify::{Chunks, DEFAULT_CHUNK_SIZE, Id, sha256_of, spec_chunks_of, concat_bytes,
    chunk_data, lemma_content_id};
use crate::config::{Action, ScrapeTargetConfig};
use crate::scrape_target::{ScrapeErr, ScrapeOk};
use crate::encode::{spec_base64, spec_dec, spec_dec_int, spec_hex, spec_json_string, base64_pad,
    i32_to_dec, push_json_string, u64_to_dec};
use crate::wire::{push_lit_action_key, push_lit_args_key, push_lit_cancelled_msg, push_lit_command_open, push_lit_data_key, push_lit_error_open, push_lit_http_err_msg, push_lit_http_open, push_lit_id_open, push_lit_interval_open, push_lit_io_err_msg, push_lit_meta_open, push_lit_null_word, push_lit_quote_brace, push_lit_remaining_key, push_lit_result_key, push_lit_sha_key, push_lit_status_close, push_lit_stderr_key, push_lit_stdout_open, push_lit_success_command_open, push_lit_success_http_open, push_lit_timeout_key, push_lit_timeout_msg, push_lit_url_key, spec_lit_action_key, spec_lit_args_key, spec_lit_cancelled_msg, spec_lit_command_open, spec_lit_data_key, spec_lit_error_open, spec_lit_http_err_msg, spec_lit_http_open, spec_lit_id_open, spec_lit_interval_open, spec_lit_io_err_msg, spec_lit_meta_open, spec_lit_null_word, spec_lit_quote_brace, spec_lit_remaining_key, spec_lit_result_key, spec_lit_sha_key, spec_lit_status_close, spec_lit_stderr_key, spec_lit_stdout_open, spec_lit_success_command_open, spec_lit_success_http_open, spec_lit_timeout_key, spec_lit_timeout_msg, spec_lit_url_key};

verus! {

/// The zstd level-10 compression of a byte sequence.
pub uninterp spec fn compress_of(data: Seq<u8>) -> Seq<u8>;

/// What zstd's decoder returns on a byte sequence: the decompressed bytes,
/// or nothing where the sequence is not a valid zstd stream.
pub uninterp spec fn decompress_of(data: Seq<u8>) -> Option<Seq<u8>>;

/// Relies on zstd::stream::encode_all at level 10: the compressed stream is
/// a function of the input bytes alone, and decoding it yields the input
/// again (zstd compression is lossless). Encoding into memory reports an
/// error only from the encoder itself; `None` passes such an error on.
#[verifier::external_body]
fn zstd_compress(data: &Vec<u8>) -> (r: Option<Vec<u8>>)
    ensures
        r matches Some(v) ==> v@ == compress_of(data@) && decompress_of(v@) == Some(data@),
{
    zstd::stream::encode_all(data.as_slice(), 10).ok()
}

/// The lossy UTF-8 rendering of a byte sequence, re-encoded as bytes:
/// invalid sequences become replacement characters.
pub uninterp spec fn utf8_lossy_of(data: Seq<u8>) -> Seq<u8>;

/// Relies on String::from_utf8_lossy: the result is a function of the input
/// bytes alone, and valid UTF-8 — in particular, pure ASCII — passes through
/// unchanged.
#[verifier::external_body]
fn utf8_lossy(data: &Vec<u8>) -> (r: Vec<u8>)
    ensures
        r@ == utf8_lossy_of(data@),
        (forall|i: int| 0 <= i < data@.len() ==> data@[i] < 128) ==> r@ == data@,
{
    String::from_utf8_lossy(data.as_slice()).into_owned().into_bytes()
}

/// The wire form of one successful call inside the metadata record.
#[derive(Debug, Clone, PartialEq, Eq)]
pub enum ScrapeOkRepr {
    Http { status: u16, body_sha256: Id },
    Command { exit_code: i32, body_sha256: Id },
}

/// The wire form of one call's outcome inside the metadata record.
#[derive(Debug, Clone, PartialEq, Eq)]
pub enum ScrapeResultRepr {
    Success(ScrapeOkRepr),
    Error { message: Vec<u8> },
}

/// The wire form of the whole metadata record: the target's configuration
/// and the call's outcome.
#[derive(Debug, Clone)]
pub struct ScrapeCallRepr {
    pub target_config: ScrapeTargetConfig,
    pub result: ScrapeResultRepr,
}

/// The wire form of one chunk record.
#[derive(Debug, Clone)]
pub struct ChunkRepr {
    pub id: Id,
    pub remaining: usize,
    pub data: Vec<u8>,
}

/// The diagnostic string recorded for a failed call.
pub open spec fn spec_err_message(e: ScrapeErr) -> Seq<u8> {
    match e {
        ScrapeErr::Http { message } => spec_lit_http_err_msg() + message@,
        ScrapeErr::Io { message } => spec_lit_io_err_msg() + message@,
        ScrapeErr::Timeout => spec_lit_timeout_msg(),
        ScrapeErr::Cancelled => spec_lit_cancelled_msg(),
    }
}

/// Render a failed call's diagnostic string.
pub fn err_message(e: ScrapeErr) -> (r: Vec<u8>)
    ensures
        r@ == spec_err_message(e),
{
    let mut out: Vec<u8> = Vec::new();
    match e {
        ScrapeErr::Http { message } => {
            let ghost msg = message@;
            push_lit_http_err_msg(&mut out);
            let mut m = message;
            out.append(&mut m);
            proof {
                assert(out@ =~= spec_lit_http_err_msg() + msg);
            }
        },
        ScrapeErr::Io { message } => {
            let ghost msg = message@;
            push_lit_io_err_msg(&mut out);
            let mut m = message;
            out.append(&mut m);
            proof {
                assert(out@ =~= spec_lit_io_err_msg() + msg);
            }
        },
        ScrapeErr::Timeout => {
            push_lit_timeout_msg(&mut out);
            proof {
                assert(out@ =~= spec_lit_timeout_msg());
            }
        },
        ScrapeErr::Cancelled => {
            push_lit_cancelled_msg(&mut out);
            proof {
                assert(out@ =~= spec_lit_cancelled_msg());
            }
        },
    }
    out
}

/// The bytes that are compressed and chunked for one successful call: the
/// raw body for an HTTP response; for a command, a JSON object of the two
/// output streams rendered as lossy UTF-8.
pub open spec fn spec_shaped_body(ok: ScrapeOk) -> Seq<u8> {
    match ok {
        ScrapeOk::HttpResponse { status: _, body } => body@,
        ScrapeOk::CommandResponse { exit_code: _, stdout, stderr } => spec_lit_stdout_open()
            + spec_json_string(utf8_lossy_of(stdout@)) + spec_lit_stderr_key()
            + spec_json_string(utf8_lossy_of(stderr@)) + seq!['}' as u8],
    }
}

/// Shape one successful call's body for compression.
pub fn shape_body(ok: &ScrapeOk) -> (r: Vec<u8>)
    ensures
        r@ == spec_shaped_body(*ok),
{
    match ok {
        ScrapeOk::HttpResponse { body, .. } => vstd::slice::slice_to_vec(body.as_slice()),
        ScrapeOk::CommandResponse { stdout, stderr, .. } => {
            let mut out: Vec<u8> = Vec::new();
            push_lit_stdout_open(&mut out);
            let so = utf8_lossy(stdout);
            push_json_string(&mut out, &so);
            push_lit_stderr_key(&mut out);
            let se = utf8_lossy(stderr);
            push_json_string(&mut out, &se);
            out.push('}' as u8);
            proof {
                assert(out@ =~= spec_shaped_body(*ok));
            }
            out
        },
    }
}

/// Seconds for the wire format: nanoseconds rounded to the nearest second,
/// half up.
pub open spec fn spec_duration_secs(ns: u64) -> int {
    ns / 1_000_000_000 + if ns % 1_000_000_000 >= 500_000_000 {
        1int
    } else {
        0int
    }
}

fn duration_secs(ns: u64) -> (r: u64)
    ensures
        r as int == spec_duration_secs(ns),
{
    let q = ns / 1_000_000_000;
    let rem = ns % 1_000_000_000;
    if rem >= 500_000_000 {
        q + 1
    } else {
        q
    }
}

/// The JSON array of a command's argument strings.
pub open spec fn spec_args_items(items: Seq<Seq<u8>>) -> Seq<u8>
    decreases items.len(),
{
    if items.len() == 0 {
        Seq::empty()
    } else if items.len() == 1 {
        spec_json_string(items[0])
    } else {
        spec_args_items(items.drop_last()) + seq![',' as u8] + spec_json_string(items.last())
    }
}

/// The byte sequences of a list of byte vectors.
pub open spec fn byte_seqs(v: Seq<Vec<u8>>) -> Seq<Seq<u8>> {
    v.map_values(|x: Vec<u8>| x@)
}

fn push_args_items(out: &mut Vec<u8>, args: &Vec<Vec<u8>>)
    ensures
        final(out)@ == old(out)@ + spec_args_items(byte_seqs(args@)),
{
    let ghost base = old(out)@;
    let ghost items = byte_seqs(args@);
    proof {
        assert(items.take(0) =~= Seq::<Seq<u8>>::empty());
        assert(spec_args_items(Seq::<Seq<u8>>::empty()) =~= Seq::<u8>::empty());
        assert(out@ =~= base + spec_args_items(items.take(0)));
    }
    let mut i: usize = 0;
    while i < args.len()
        invariant
            items == byte_seqs(args@),
            items.len() == args@.len(),
            i <= args@.len(),
            out@ == base + spec_args_items(items.take(i as int)),
        decreases args@.len() - i,
    {
        if i > 0 {
            out.push(',' as u8);
        }
        push_json_string(out, &args[i]);
        proof {
            assert(items[i as int] == args@[i as int]@);
            assert(items.take(i as int + 1).drop_last() =~= items.take(i as int));
            assert(items.take(i as int + 1).last() == items[i as int]);
            assert(out@ =~= base + spec_args_items(items.take(i as int + 1)));
        }
        i = i + 1;
    }
    proof {
        assert(items.take(items.len() as int) == items);
    }
}

/// The JSON object of one action, as it appears inside the configuration.
pub open spec fn spec_action_json(a: Action) -> Seq<u8> {
    match a {
        Action::Http { method, url } => spec_lit_http_open() + (match method {
            Some(m) => spec_json_string(m@),
            None => spec_lit_null_word(),
        }) + spec_lit_url_key() + spec_json_string(url@) + seq!['}' as u8],
        Action::Command { command, args } => spec_lit_command_open() + spec_json_string(command@)
            + spec_lit_args_key() + seq!['[' as u8] + spec_args_items(byte_seqs(args@))
            + seq![']' as u8] + seq!['}' as u8],
    }
}

fn push_action_json(out: &mut Vec<u8>, a: &Action)
    ensures
        final(out)@ == old(out)@ + spec_action_json(*a),
{
    match a {
        Action::Http { method, url } => {
            push_lit_http_open(out);
            match method {
                Some(m) => push_json_string(out, m),
                None => push_lit_null_word(out),
            }
            push_lit_url_key(out);
            push_json_string(out, url);
            out.push('}' as u8);
            proof {
                assert(out@ =~= old(out)@ + spec_action_json(*a));
            }
        },
        Action::Command { command, args } => {
            push_lit_command_open(out);
            push_json_string(out, command);
            push_lit_args_key(out);
            out.push('[' as u8);
            push_args_items(out, args);
            out.push(']' as u8);
            out.push('}' as u8);
            proof {
                assert(out@ =~= old(out)@ + spec_action_json(*a));
            }
        },
    }
}

/// The JSON object of one target's configuration: interval and timeout in
/// rounded seconds, then the action.
pub open spec fn spec_config_json(c: ScrapeTargetConfig) -> Seq<u8> {
    spec_lit_interval_open() + spec_dec(spec_duration_secs(c.interval) as nat)
        + spec_lit_timeout_key() + (match c.timeout {
        Some(t) => spec_dec(spec_duration_secs(t) as nat),
        None => spec_lit_null_word(),
    }) + spec_lit_action_key() + spec_action_json(c.action) + seq!['}' as u8]
}

fn push_dec_u64(out: &mut Vec<u8>, n: u64)
    ensures
        final(out)@ == old(out)@ + spec_dec(n as nat),
{
    let mut d = u64_to_dec(n);
    out.append(&mut d);
}

fn push_dec_i32(out: &mut Vec<u8>, n: i32)
    ensures
        final(out)@ == old(out)@ + spec_dec_int(n as int),
{
    let mut d = i32_to_dec(n);
    out.append(&mut d);
}

fn push_config_json(out: &mut Vec<u8>, c: &ScrapeTargetConfig)
    ensures
        final(out)@ == old(out)@ + spec_config_json(*c),
{
    push_lit_interval_open(out);
    push_dec_u64(out, duration_secs(c.interval));
    push_lit_timeout_key(out);
    match c.timeout {
        Some(t) => push_dec_u64(out, duration_secs(t)),
        None => push_lit_null_word(out),
    }
    push_lit_action_key(out);
    push_action_json(out, &c.action);
    out.push('}' as u8);
    proof {
        assert(out@ =~= old(out)@ + spec_config_json(*c));
    }
}

/// The JSON object of a successful HTTP call's outcome.
pub open spec fn spec_result_json_http(status: u16, id: Seq<u8>) -> Seq<u8> {
    spec_lit_success_http_open() + spec_dec(status as nat) + spec_lit_status_close() + spec_hex(id)
        + spec_lit_quote_brace()
}

/// The JSON object of a successful command call's outcome.
pub open spec fn spec_result_json_command(exit_code: i32, id: Seq<u8>) -> Seq<u8> {
    spec_lit_success_command_open() + spec_dec_int(exit_code as int) + spec_lit_sha_key()
        + spec_hex(id) + spec_lit_quote_brace()
}

/// The JSON object of a failed call's outcome.
pub open spec fn spec_result_json_error(message: Seq<u8>) -> Seq<u8> {
    spec_lit_error_open() + spec_json_string(message) + seq!['}' as u8]
}

/// The JSON object of one call's outcome.
pub open spec fn spec_result_json(r: ScrapeResultRepr) -> Seq<u8> {
    match r {
        ScrapeResultRepr::Success(ScrapeOkRepr::Http { status, body_sha256 }) =>
            spec_result_json_http(status, body_sha256@),
        ScrapeResultRepr::Success(ScrapeOkRepr::Command { exit_code, body_sha256 }) =>
            spec_result_json_command(exit_code, body_sha256@),
        ScrapeResultRepr::Error { message } => spec_result_json_error(message@),
    }
}

fn push_result_json(out: &mut Vec<u8>, r: &ScrapeResultRepr)
    ensures
        final(out)@ == old(out)@ + spec_result_json(*r),
{
    match r {
        ScrapeResultRepr::Success(ScrapeOkRepr::Http { status, body_sha256 }) => {
            push_lit_success_http_open(out);
            push_dec_u64(out, *status as u64);
            push_lit_status_close(out);
            let mut h = body_sha256.to_hex();
            out.append(&mut h);
            push_lit_quote_brace(out);
            proof {
                assert(out@ =~= old(out)@ + spec_result_json(*r));
            }
        },
        ScrapeResultRepr::Success(ScrapeOkRepr::Command { exit_code, body_sha256 }) => {
            push_lit_success_command_open(out);
            push_dec_i32(out, *exit_code);
            push_lit_sha_key(out);
            let mut h = body_sha256.to_hex();
            out.append(&mut h);
            push_lit_quote_brace(out);
            proof {
                assert(out@ =~= old(out)@ + spec_result_json(*r));
            }
        },
        ScrapeResultRepr::Error { message } => {
            push_lit_error_open(out);
            push_json_string(out, message);
            out.push('}' as u8);
            proof {
                assert(out@ =~= old(out)@ + spec_result_json(*r));
            }
        },
    }
}

/// The whole metadata record: one JSON line holding the target configuration
/// and the call's outcome.
pub open spec fn spec_meta_record(c: ScrapeTargetConfig, r: ScrapeResultRepr) -> Seq<u8> {
    spec_lit_meta_open() + spec_config_json(c) + spec_lit_result_key() + spec_result_json(r)
        + seq!['}' as u8, '\n' as u8]
}

/// Encode the metadata record for one call as one JSON line.
pub fn encode_meta_record(repr: &ScrapeCallRepr) -> (r: Vec<u8>)
    ensures
        r@ == spec_meta_record(repr.target_config, repr.result),
{
    encode_meta_record_parts(&repr.target_config, &repr.result)
}

/// One chunk record: one JSON line holding the content id, the remaining
/// byte count, and the chunk bytes in padded base64.
pub open spec fn spec_chunk_record(id: Seq<u8>, remaining: usize, data: Seq<u8>) -> Seq<u8> {
    spec_lit_id_open() + spec_hex(id) + spec_lit_remaining_key() + spec_dec(remaining as nat)
        + spec_lit_data_key() + spec_base64(data) + spec_lit_quote_brace() + seq!['\n' as u8]
}

/// Turn one successful call into its metadata representation and the chunked
/// compressed body. `None` only where the compressor reported an error; for
/// every compressed body the representation's `body_sha256` equals the id
/// carried by every chunk.
pub fn scrape_ok_to_meta(ok: ScrapeOk) -> (r: Option<(ScrapeOkRepr, Chunks)>)
    ensures
        r matches Some((repr, chunks)) ==> {
            &&& chunks.wf()
            &&& chunks.spec_chunk_size() == DEFAULT_CHUNK_SIZE
            &&& chunks.bytes() == compress_of(spec_shaped_body(ok))
            &&& decompress_of(chunks.bytes()) == Some(spec_shaped_body(ok))
            &&& chunks.chunk_list() == spec_chunks_of(
                compress_of(spec_shaped_body(ok)),
                DEFAULT_CHUNK_SIZE as nat,
            )
            &&& chunks.spec_id() == sha256_of(chunks.bytes())
            &&& match ok {
                ScrapeOk::HttpResponse { status, .. } => repr matches ScrapeOkRepr::Http {
                    status: s,
                    body_sha256,
                } && s == status && body_sha256@ == chunks.spec_id(),
                ScrapeOk::CommandResponse { exit_code, .. } => repr
                    matches ScrapeOkRepr::Command {
                    exit_code: e,
                    body_sha256,
                } && e == exit_code && body_sha256@ == chunks.spec_id(),
            }
        },
{
    let shaped = shape_body(&ok);
    let compressed = match zstd_compress(&shaped) {
        Some(c) => c,
        None => {
            return None;
        },
    };
    let chunks = Chunks::new(compressed, DEFAULT_CHUNK_SIZE);
    let id = chunks.id();
    match ok {
        ScrapeOk::HttpResponse { status, .. } => Some((
            ScrapeOkRepr::Http { status, body_sha256: id },
            chunks,
        )),
        ScrapeOk::CommandResponse { exit_code, .. } => Some((
            ScrapeOkRepr::Command { exit_code, body_sha256: id },
            chunks,
        )),
    }
}

/// Turn one call's outcome into its wire representation: the metadata
/// `result` object and, for a success, the chunked compressed body. An error
/// outcome always yields a representation with no chunks; `None` only where
/// the compressor reported an error on a success.
pub fn from_scrape_result(v: Result<ScrapeOk, ScrapeErr>) -> (r: Option<
    (ScrapeResultRepr, Option<Chunks>),
>)
    ensures
        v matches Err(e) ==> r matches Some((rr, c)) && (rr matches ScrapeResultRepr::Error {
            message,
        } && message@ == spec_err_message(e)) && c is None,
        v matches Ok(ok) ==> (r matches Some((rr, c)) ==> {
            &&& rr matches ScrapeResultRepr::Success(okr)
            &&& c matches Some(chunks)
            &&& chunks.wf()
            &&& chunks.spec_chunk_size() == DEFAULT_CHUNK_SIZE
            &&& chunks.bytes() == compress_of(spec_shaped_body(ok))
            &&& decompress_of(chunks.bytes()) == Some(spec_shaped_body(ok))
            &&& chunks.chunk_list() == spec_chunks_of(
                compress_of(spec_shaped_body(ok)),
                DEFAULT_CHUNK_SIZE as nat,
            )
            &&& chunks.spec_id() == sha256_of(chunks.bytes())
            &&& match ok {
                ScrapeOk::HttpResponse { status, .. } => okr matches ScrapeOkRepr::Http {
                    status: s,
                    body_sha256,
                } && s == status && body_sha256@ == chunks.spec_id(),
                ScrapeOk::CommandResponse { exit_code, .. } => okr
                    matches ScrapeOkRepr::Command {
                    exit_code: e,
                    body_sha256,
                } && e == exit_code && body_sha256@ == chunks.spec_id(),
            }
        }),
        v is Err ==> r is Some,
{
    match v {
        Ok(ok) => match scrape_ok_to_meta(ok) {
            Some((repr, chunks)) => Some((ScrapeResultRepr::Success(repr), Some(chunks))),
            None => None,
        },
        Err(e) => Some((ScrapeResultRepr::Error { message: err_message(e) }, None)),
    }
}

/// The wire chunks of a buffer: one `ChunkRepr` per chunk, every one carrying
/// the buffer's content id.
pub fn chunk_reprs(chunks: &Chunks) -> (r: Vec<ChunkRepr>)
    requires
        chunks.wf(),
    ensures
        r@.len() == chunks.chunk_list().len(),
        forall|i: int| 0 <= i < r@.len() ==> {
            &&& (#[trigger] r@[i]).id@ == chunks.spec_id()
            &&& r@[i].remaining == chunks.chunk_list()[i].0
            &&& r@[i].data@ == chunks.chunk_list()[i].1
        },
{
    let parts = chunks.iter();
    let mut out: Vec<ChunkRepr> = Vec::new();
    let mut i: usize = 0;
    while i < parts.len()
        invariant
            chunks.wf(),
            crate::chunkify::chunk_models(parts@) == chunks.chunk_list(),
            parts@.len() == chunks.chunk_list().len(),
            i <= parts@.len(),
            out@.len() == i as int,
            forall|j: int| 0 <= j < i as int ==> {
                &&& (#[trigger] out@[j]).id@ == chunks.spec_id()
                &&& out@[j].remaining == chunks.chunk_list()[j].0
                &&& out@[j].data@ == chunks.chunk_list()[j].1
            },
        decreases parts@.len() - i,
    {
        let part = parts[i].duplicate();
        proof {
            assert(crate::chunkify::chunk_models(parts@)[i as int] == parts@[i as int]@);
        }
        out.push(ChunkRepr { id: chunks.id(), remaining: part.remaining, data: part.data });
        i = i + 1;
    }
    out
}

/// The byte stream of one successful call's records: the metadata line, then
/// one line per chunk of the compressed body, all carrying the same id.
pub open spec fn spec_chunk_records(id: Seq<u8>, l: Seq<(usize, Seq<u8>)>) -> Seq<u8>
    decreases l.len(),
{
    if l.len() == 0 {
        Seq::empty()
    } else {
        spec_chunk_records(id, l.drop_last()) + spec_chunk_record(
            id,
            l.last().0,
            l.last().1,
        )
    }
}

/// Every record line of one call, in emission order.
pub open spec fn spec_records(c: ScrapeTargetConfig, r: ScrapeResultRepr, chunks: Seq<
    (usize, Seq<u8>),
>, id: Seq<u8>) -> Seq<u8> {
    spec_meta_record(c, r) + spec_chunk_records(id, chunks)
}

/// Encode every record of one call — the metadata line followed by the chunk
/// lines — into one contiguous byte stream, ready to be written to the sink
/// in a single exclusive section.
pub fn render_records_with(config: &ScrapeTargetConfig, result: &ScrapeResultRepr, chunks: Option<
    &Chunks,
>) -> (r: Vec<u8>)
    requires
        chunks matches Some(c) ==> c.wf(),
    ensures
        chunks matches Some(c) ==> r@ == spec_records(
            *config,
            *result,
            c.chunk_list(),
            c.spec_id(),
        ),
        chunks is None ==> r@ == spec_meta_record(*config, *result),
{
    let mut out = encode_meta_record_parts(config, result);
    match chunks {
        None => out,
        Some(c) => {
            let ghost l = c.chunk_list();
            let ghost base = out@;
            let crs = chunk_reprs(c);
            let mut i: usize = 0;
            proof {
                assert(l.take(0) =~= Seq::<(usize, Seq<u8>)>::empty());
                assert(spec_chunk_records(c.spec_id(), l.take(0)) =~= Seq::<u8>::empty());
                assert(out@ =~= base + spec_chunk_records(c.spec_id(), l.take(0)));
            }
            while i < crs.len()
                invariant
                    c.wf(),
                    l == c.chunk_list(),
                    crs@.len() == l.len(),
                    forall|j: int| 0 <= j < crs@.len() ==> {
                        &&& (#[trigger] crs@[j]).id@ == c.spec_id()
                        &&& crs@[j].remaining == l[j].0
                        &&& crs@[j].data@ == l[j].1
                    },
                    i <= crs@.len(),
                    out@ == base + spec_chunk_records(c.spec_id(), l.take(i as int)),
                decreases crs@.len() - i,
            {
                let mut line = encode_chunk_record(&crs[i]);
                out.append(&mut line);
                proof {
                    assert(l.take(i as int + 1).drop_last() =~= l.take(i as int));
                    assert(l.take(i as int + 1).last() == l[i as int]);
                    assert(out@ =~= base + spec_chunk_records(c.spec_id(), l.take(i as int + 1)));
                }
                i = i + 1;
            }
            proof {
                assert(l.take(l.len() as int) == l);
            }
            out
        },
    }
}

/// Every record line for one call's outcome, byte-exact: an error yields
/// exactly one metadata line and nothing after it; a success yields the
/// metadata line followed by the chunk lines of the compressed body. `None`
/// only where the compressor reported an error on a success.
pub fn render_records(config: &ScrapeTargetConfig, result: Result<ScrapeOk, ScrapeErr>) -> (r:
    Option<Vec<u8>>)
    ensures
        result matches Err(e) ==> r matches Some(b) && b@ == spec_meta_record_error(
            *config,
            spec_err_message(e),
        ),
        result matches Ok(ok) ==> (r matches Some(b) ==> b@ == spec_success_records(*config, ok)),
        r is None ==> result is Ok,
{
    let ghost result_spec = result;
    match from_scrape_result(result) {
        None => None,
        Some((repr, chunks)) => {
            match chunks {
                None => {
                    let b = render_records_with(config, &repr, None);
                    proof {
                        match result_spec {
                            Err(e) => {
                                assert(b@ =~= spec_meta_record_error(
                                    *config,
                                    spec_err_message(e),
                                ));
                            },
                            Ok(_) => {},
                        }
                    }
                    Some(b)
                },
                Some(c) => {
                    let b = render_records_with(config, &repr, Some(&c));
                    proof {
                        match result_spec {
                            Ok(ok) => {
                                assert(b@ =~= spec_success_records(*config, ok));
                            },
                            Err(_) => {},
                        }
                    }
                    Some(b)
                },
            }
        },
    }
}

/// The one metadata line of a failed call.
pub open spec fn spec_meta_record_error(c: ScrapeTargetConfig, message: Seq<u8>) -> Seq<u8> {
    spec_lit_meta_open() + spec_config_json(c) + spec_lit_result_key() + spec_result_json_error(
        message,
    ) + seq!['}' as u8, '\n' as u8]
}

/// The full record stream of a successful call: the metadata line naming the
/// SHA-256 of the compressed shaped body, then one line per chunk of that
/// compressed body, each carrying the same id.
pub open spec fn spec_success_records(c: ScrapeTargetConfig, ok: ScrapeOk) -> Seq<u8> {
    let compressed = compress_of(spec_shaped_body(ok));
    let id = sha256_of(compressed);
    let l = spec_chunks_of(compressed, DEFAULT_CHUNK_SIZE as nat);
    spec_lit_meta_open() + spec_config_json(c) + spec_lit_result_key() + (match ok {
        ScrapeOk::HttpResponse { status, .. } => spec_result_json_http(status, id),
        ScrapeOk::CommandResponse { exit_code, .. } => spec_result_json_command(exit_code, id),
    }) + seq!['}' as u8, '\n' as u8] + spec_chunk_records(id, l)
}

/// Law: one successful emission uses one content id throughout. Where the
/// metadata representation and the chunk representations come from the same
/// buffer — `scrape_ok_to_meta` guarantees the first, `chunk_reprs` the
/// second — the `body_sha256` named by the metadata record equals the id on
/// every chunk record emitted after it.
pub proof fn lemma_emission_ids_match(repr: ScrapeOkRepr, chunks: &Chunks, records: Seq<ChunkRepr>)
    requires
        chunks.wf(),
        match repr {
            ScrapeOkRepr::Http { body_sha256, .. } => body_sha256@ == chunks.spec_id(),
            ScrapeOkRepr::Command { body_sha256, .. } => body_sha256@ == chunks.spec_id(),
        },
        forall|i: int| 0 <= i < records.len() ==> (#[trigger] records[i]).id@ == chunks.spec_id(),
    ensures
        forall|i: int| 0 <= i < records.len() ==> (#[trigger] records[i]).id@ == (match repr {
            ScrapeOkRepr::Http { body_sha256, .. } => body_sha256@,
            ScrapeOkRepr::Command { body_sha256, .. } => body_sha256@,
        }),
{
}

/// Law (round trip): the chunk records of one successful emission carry, in
/// order, exactly the compressed body, so decompressing their concatenated
/// data yields the shaped body again.
pub proof fn lemma_body_round_trip(shaped: Seq<u8>, c: &Chunks)
    requires
        c.wf(),
        c.bytes() == compress_of(shaped),
        decompress_of(c.bytes()) == Some(shaped),
    ensures
        concat_bytes(chunk_data(c.chunk_list())) == compress_of(shaped),
        decompress_of(concat_bytes(chunk_data(c.chunk_list()))) == Some(shaped),
{
    lemma_content_id(c);
}

/// Encode the metadata record from its parts.
fn encode_meta_record_parts(config: &ScrapeTargetConfig, result: &ScrapeResultRepr) -> (r: Vec<
    u8,
>)
    ensures
        r@ == spec_meta_record(*config, *result),
{
    let mut out: Vec<u8> = Vec::new();
    push_lit_meta_open(&mut out);
    push_config_json(&mut out, config);
    push_lit_result_key(&mut out);
    push_result_json(&mut out, result);
    out.push('}' as u8);
    out.push('\n' as u8);
    proof {
        assert(out@ =~= spec_meta_record(*config, *result));
    }
    out
}

/// Encode one chunk record as one JSON line.
pub fn encode_chunk_record(c: &ChunkRepr) -> (r: Vec<u8>)
    ensures
        r@ == spec_chunk_record(c.id@, c.remaining, c.data@),
{
    let mut out: Vec<u8> = Vec::new();
    push_lit_id_open(&mut out);
    let mut h = c.id.to_hex();
    out.append(&mut h);
    push_lit_remaining_key(&mut out);
    push_dec_u64(&mut out, c.remaining as u64);
    push_lit_data_key(&mut out);
    let mut b = base64_pad(&c.data);
    out.append(&mut b);
    push_lit_quote_brace(&mut out);
    out.push('\n' as u8);
    proof {
        assert(out@ =~= spec_chunk_record(c.id@, c.remaining, c.data@));
    }
    out
}

} // verus!
