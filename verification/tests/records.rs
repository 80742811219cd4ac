use debugbunny::chunkify::{Chunks, DEFAULT_CHUNK_SIZE};
use debugbunny::config::{Action, ScrapeTargetConfig};
use debugbunny::encode::base64_pad;
use debugbunny::result_processor::{
    encode_meta_record, err_message, render_records, shape_body, ScrapeCallRepr, ScrapeResultRepr,
};
use debugbunny::scrape_target::{ScrapeErr, ScrapeOk};

fn http_config() -> ScrapeTargetConfig {
    ScrapeTargetConfig {
        interval: 1_000_000_000,
        timeout: Some(250_000_000),
        action: Action::http_with_method(
            b"http://localhost:8000/metrics".to_vec(),
            b"GET".to_vec(),
        ),
    }
}

fn lines(out: &[u8]) -> Vec<&[u8]> {
    let mut r: Vec<&[u8]> = out.split(|b| *b == b'\n').collect();
    assert_eq!(r.last().map(|l| l.len()), Some(0), "output ends with a newline");
    r.pop();
    r
}

#[test]
fn error_outcome_is_one_record() {
    let config = ScrapeTargetConfig {
        interval: 2_000_000_000,
        timeout: None,
        action: Action::http(b"http://x/".to_vec()),
    };
    let out = render_records(&config, Err(ScrapeErr::Timeout)).unwrap();
    let expected = "{\"target_config\":{\"interval\":2,\"timeout\":null,\"action\":{\"type\":\"Http\",\"method\":null,\"url\":\"http://x/\"}},\"result\":{\"outcome\":\"Error\",\"message\":\"Scrape timed out\"}}\n";
    assert_eq!(String::from_utf8(out.clone()).unwrap(), expected);
    // Exactly one record, and it is valid JSON.
    let ls = lines(&out);
    assert_eq!(ls.len(), 1);
    let v: serde_json::Value = serde_json::from_slice(ls[0]).unwrap();
    assert_eq!(v["result"]["outcome"], "Error");
}

#[test]
fn error_messages_name_the_failure() {
    assert_eq!(err_message(ScrapeErr::Timeout), b"Scrape timed out".to_vec());
    assert_eq!(err_message(ScrapeErr::Cancelled), b"Cancelled".to_vec());
    assert_eq!(
        err_message(ScrapeErr::Http { message: b"connection refused".to_vec() }),
        b"Http error: connection refused".to_vec()
    );
    assert_eq!(
        err_message(ScrapeErr::Io { message: b"no such file".to_vec() }),
        b"Io error: no such file".to_vec()
    );
}

#[test]
fn http_success_records_share_the_content_id() {
    let config = http_config();
    let body = b"hello world".to_vec();
    let out =
        render_records(&config, Ok(ScrapeOk::HttpResponse { status: 200, body: body.clone() }))
            .unwrap();
    let ls = lines(&out);
    assert!(ls.len() >= 2, "a metadata record and at least one chunk record");

    // The metadata record, checked against an independent JSON parser.
    let meta: serde_json::Value = serde_json::from_slice(ls[0]).unwrap();
    assert_eq!(meta["target_config"]["interval"], 1);
    assert_eq!(meta["target_config"]["timeout"], 0);
    assert_eq!(meta["target_config"]["action"]["type"], "Http");
    assert_eq!(meta["target_config"]["action"]["method"], "GET");
    assert_eq!(meta["target_config"]["action"]["url"], "http://localhost:8000/metrics");
    assert_eq!(meta["result"]["outcome"], "Success");
    assert_eq!(meta["result"]["type"], "Http");
    assert_eq!(meta["result"]["status"], "200");

    // The id must be the SHA-256 of the zstd-compressed body, computed here
    // with the crates directly.
    let compressed = zstd::stream::encode_all(&body[..], 10).unwrap();
    let digest = <sha2::Sha256 as sha2::Digest>::digest(&compressed);
    let expected_hex: String =
        digest.as_slice().iter().map(|b| format!("{:02x}", b)).collect();
    assert_eq!(meta["result"]["body_sha256"], expected_hex.as_str());

    // Every chunk record carries the same id, the remaining counts telescope
    // down to the last chunk's length, and the data is padded base64.
    let mut remaining_expected = compressed.len() as u64;
    for (i, line) in ls[1..].iter().enumerate() {
        let chunk: serde_json::Value = serde_json::from_slice(line).unwrap();
        assert_eq!(chunk["id"], expected_hex.as_str(), "chunk {} id", i);
        assert_eq!(chunk["remaining"].as_u64().unwrap(), remaining_expected);
        let data = chunk["data"].as_str().unwrap();
        remaining_expected -= (data.len() / 4 * 3) as u64
            - data.bytes().filter(|b| *b == b'=').count() as u64;
    }
    assert_eq!(remaining_expected, 0);

    // The single chunk of this small body is the base64 of the whole
    // compressed stream.
    let first: serde_json::Value = serde_json::from_slice(ls[1]).unwrap();
    assert_eq!(
        first["data"].as_str().unwrap(),
        String::from_utf8(base64_pad(&compressed)).unwrap()
    );
}

#[test]
fn command_body_is_shaped_as_json() {
    let ok = ScrapeOk::CommandResponse {
        exit_code: 0,
        stdout: b"hello world from command\n".to_vec(),
        stderr: Vec::new(),
    };
    let shaped = shape_body(&ok);
    assert_eq!(
        String::from_utf8(shaped).unwrap(),
        "{\"stdout\":\"hello world from command\\n\",\"stderr\":\"\"}"
    );
}

#[test]
fn command_body_replaces_invalid_utf8() {
    let ok = ScrapeOk::CommandResponse {
        exit_code: 1,
        stdout: vec![0xff, 0xfe],
        stderr: Vec::new(),
    };
    let shaped = String::from_utf8(shape_body(&ok)).unwrap();
    assert_eq!(shaped, "{\"stdout\":\"\u{fffd}\u{fffd}\",\"stderr\":\"\"}");
}

#[test]
fn command_success_record_names_exit_code() {
    let config = ScrapeTargetConfig {
        interval: 60_000_000_000,
        timeout: None,
        action: Action::command_with_args(b"echo".to_vec(), vec![b"hi".to_vec()]),
    };
    let ok = ScrapeOk::CommandResponse {
        exit_code: -7,
        stdout: b"hi\n".to_vec(),
        stderr: b"warning\n".to_vec(),
    };
    let shaped = shape_body(&ok);
    let out = render_records(&config, Ok(ok)).unwrap();
    let ls = lines(&out);
    let meta: serde_json::Value = serde_json::from_slice(ls[0]).unwrap();
    assert_eq!(meta["target_config"]["interval"], 60);
    assert_eq!(meta["target_config"]["action"]["type"], "Command");
    assert_eq!(meta["target_config"]["action"]["command"], "echo");
    assert_eq!(meta["target_config"]["action"]["args"][0], "hi");
    assert_eq!(meta["result"]["outcome"], "Success");
    assert_eq!(meta["result"]["type"], "Command");
    assert_eq!(meta["result"]["exit_code"], -7);

    let compressed = zstd::stream::encode_all(&shaped[..], 10).unwrap();
    let digest = <sha2::Sha256 as sha2::Digest>::digest(&compressed);
    let expected_hex: String =
        digest.as_slice().iter().map(|b| format!("{:02x}", b)).collect();
    assert_eq!(meta["result"]["body_sha256"], expected_hex.as_str());
}

#[test]
fn meta_record_encodes_a_call_repr() {
    let repr = ScrapeCallRepr {
        target_config: ScrapeTargetConfig {
            interval: 3_000_000_000,
            timeout: Some(1_000_000_000),
            action: Action::command(b"uptime".to_vec()),
        },
        result: ScrapeResultRepr::Error { message: b"Cancelled".to_vec() },
    };
    let line = encode_meta_record(&repr);
    let expected = "{\"target_config\":{\"interval\":3,\"timeout\":1,\"action\":{\"type\":\"Command\",\"command\":\"uptime\",\"args\":[]}},\"result\":{\"outcome\":\"Error\",\"message\":\"Cancelled\"}}\n";
    assert_eq!(String::from_utf8(line).unwrap(), expected);
}

#[test]
fn content_id_bytes_match_its_hex_form() {
    let chunks = Chunks::new(b"abc".to_vec(), DEFAULT_CHUNK_SIZE);
    let id = chunks.id();
    let bytes = id.as_bytes();
    assert_eq!(bytes.len(), 32);
    let hex: String = bytes.iter().map(|b| format!("{:02x}", b)).collect();
    assert_eq!(String::from_utf8(id.to_hex()).unwrap(), hex);
}

#[test]
fn compressed_body_survives_the_chunk_round_trip() {
    // Incompressible data, so the compressed stream spans several chunks.
    let mut state: u32 = 1;
    let body: Vec<u8> = (0..20_000)
        .map(|_| {
            state = state.wrapping_mul(1103515245).wrapping_add(12345);
            (state >> 16) as u8
        })
        .collect();
    let compressed = zstd::stream::encode_all(&body[..], 10).unwrap();
    assert!(compressed.len() > DEFAULT_CHUNK_SIZE);

    let chunks = Chunks::new(compressed.clone(), DEFAULT_CHUNK_SIZE);
    let mut concatenated: Vec<u8> = Vec::new();
    for c in chunks.iter() {
        concatenated.extend_from_slice(&c.data);
    }
    assert_eq!(concatenated, compressed);
    let back = zstd::stream::decode_all(&concatenated[..]).unwrap();
    assert_eq!(back, body);
}

#[test]
fn durations_round_to_the_nearest_second() {
    let config = ScrapeTargetConfig {
        interval: 500_000_000,
        timeout: Some(499_999_999),
        action: Action::http(b"http://x/".to_vec()),
    };
    let out = render_records(&config, Err(ScrapeErr::Cancelled)).unwrap();
    let v: serde_json::Value = serde_json::from_slice(&out[..out.len() - 1]).unwrap();
    assert_eq!(v["target_config"]["interval"], 1);
    assert_eq!(v["target_config"]["timeout"], 0);
    assert_eq!(v["result"]["message"], "Cancelled");
}
