//! The fixed byte templates of the log wire format, each as a spec-level
//! sequence and an executable append that produces exactly it.

use vstd::prelude::*;

verus! {

/// The byte template `{"target_config":`.
pub open spec fn spec_lit_meta_open() -> Seq<u8> {
    seq!['{' as u8, '"' as u8, 't' as u8, 'a' as u8, 'r' as u8, 'g' as u8, 'e' as u8, 't' as u8, '_' as u8, 'c' as u8, 'o' as u8, 'n' as u8, 'f' as u8, 'i' as u8, 'g' as u8, '"' as u8, ':' as u8]
}

/// Append the byte template `{"target_config":`.
pub fn push_lit_meta_open(out: &mut Vec<u8>)
    ensures
        final(out)@ == old(out)@ + spec_lit_meta_open(),
{
    out.push('{' as u8);
    out.push('"' as u8);
    out.push('t' as u8);
    out.push('a' as u8);
    out.push('r' as u8);
    out.push('g' as u8);
    out.push('e' as u8);
    out.push('t' as u8);
    out.push('_' as u8);
    out.push('c' as u8);
    out.push('o' as u8);
    out.push('n' as u8);
    out.push('f' as u8);
    out.push('i' as u8);
    out.push('g' as u8);
    out.push('"' as u8);
    out.push(':' as u8);
    proof {
        assert(out@ =~= old(out)@ + spec_lit_meta_open());
    }
}

/// The byte template `{"interval":`.
pub open spec fn spec_lit_interval_open() -> Seq<u8> {
    seq!['{' as u8, '"' as u8, 'i' as u8, 'n' as u8, 't' as u8, 'e' as u8, 'r' as u8, 'v' as u8, 'a' as u8, 'l' as u8, '"' as u8, ':' as u8]
}

/// Append the byte template `{"interval":`.
pub fn push_lit_interval_open(out: &mut Vec<u8>)
    ensures
        final(out)@ == old(out)@ + spec_lit_interval_open(),
{
    out.push('{' as u8);
    out.push('"' as u8);
    out.push('i' as u8);
    out.push('n' as u8);
    out.push('t' as u8);
    out.push('e' as u8);
    out.push('r' as u8);
    out.push('v' as u8);
    out.push('a' as u8);
    out.push('l' as u8);
    out.push('"' as u8);
    out.push(':' as u8);
    proof {
        assert(out@ =~= old(out)@ + spec_lit_interval_open());
    }
}

/// The byte template `,"timeout":`.
pub open spec fn spec_lit_timeout_key() -> Seq<u8> {
    seq![',' as u8, '"' as u8, 't' as u8, 'i' as u8, 'm' as u8, 'e' as u8, 'o' as u8, 'u' as u8, 't' as u8, '"' as u8, ':' as u8]
}

/// Append the byte template `,"timeout":`.
pub fn push_lit_timeout_key(out: &mut Vec<u8>)
    ensures
        final(out)@ == old(out)@ + spec_lit_timeout_key(),
{
    out.push(',' as u8);
    out.push('"' as u8);
    out.push('t' as u8);
    out.push('i' as u8);
    out.push('m' as u8);
    out.push('e' as u8);
    out.push('o' as u8);
    out.push('u' as u8);
    out.push('t' as u8);
    out.push('"' as u8);
    out.push(':' as u8);
    proof {
        assert(out@ =~= old(out)@ + spec_lit_timeout_key());
    }
}

/// The byte template `null`.
pub open spec fn spec_lit_null_word() -> Seq<u8> {
    seq!['n' as u8, 'u' as u8, 'l' as u8, 'l' as u8]
}

/// Append the byte template `null`.
pub fn push_lit_null_word(out: &mut Vec<u8>)
    ensures
        final(out)@ == old(out)@ + spec_lit_null_word(),
{
    out.push('n' as u8);
    out.push('u' as u8);
    out.push('l' as u8);
    out.push('l' as u8);
    proof {
        assert(out@ =~= old(out)@ + spec_lit_null_word());
    }
}

/// The byte template `,"action":`.
pub open spec fn spec_lit_action_key() -> Seq<u8> {
    seq![',' as u8, '"' as u8, 'a' as u8, 'c' as u8, 't' as u8, 'i' as u8, 'o' as u8, 'n' as u8, '"' as u8, ':' as u8]
}

/// Append the byte template `,"action":`.
pub fn push_lit_action_key(out: &mut Vec<u8>)
    ensures
        final(out)@ == old(out)@ + spec_lit_action_key(),
{
    out.push(',' as u8);
    out.push('"' as u8);
    out.push('a' as u8);
    out.push('c' as u8);
    out.push('t' as u8);
    out.push('i' as u8);
    out.push('o' as u8);
    out.push('n' as u8);
    out.push('"' as u8);
    out.push(':' as u8);
    proof {
        assert(out@ =~= old(out)@ + spec_lit_action_key());
    }
}

/// The byte template `{"type":"Http","method":`.
pub open spec fn spec_lit_http_open() -> Seq<u8> {
    seq!['{' as u8, '"' as u8, 't' as u8, 'y' as u8, 'p' as u8, 'e' as u8, '"' as u8, ':' as u8, '"' as u8, 'H' as u8, 't' as u8, 't' as u8, 'p' as u8, '"' as u8, ',' as u8, '"' as u8, 'm' as u8, 'e' as u8, 't' as u8, 'h' as u8, 'o' as u8, 'd' as u8, '"' as u8, ':' as u8]
}

/// Append the byte template `{"type":"Http","method":`.
pub fn push_lit_http_open(out: &mut Vec<u8>)
    ensures
        final(out)@ == old(out)@ + spec_lit_http_open(),
{
    out.push('{' as u8);
    out.push('"' as u8);
    out.push('t' as u8);
    out.push('y' as u8);
    out.push('p' as u8);
    out.push('e' as u8);
    out.push('"' as u8);
    out.push(':' as u8);
    out.push('"' as u8);
    out.push('H' as u8);
    out.push('t' as u8);
    out.push('t' as u8);
    out.push('p' as u8);
    out.push('"' as u8);
    out.push(',' as u8);
    out.push('"' as u8);
    out.push('m' as u8);
    out.push('e' as u8);
    out.push('t' as u8);
    out.push('h' as u8);
    out.push('o' as u8);
    out.push('d' as u8);
    out.push('"' as u8);
    out.push(':' as u8);
    proof {
        assert(out@ =~= old(out)@ + spec_lit_http_open());
    }
}

/// The byte template `,"url":`.
pub open spec fn spec_lit_url_key() -> Seq<u8> {
    seq![',' as u8, '"' as u8, 'u' as u8, 'r' as u8, 'l' as u8, '"' as u8, ':' as u8]
}

/// Append the byte template `,"url":`.
pub fn push_lit_url_key(out: &mut Vec<u8>)
    ensures
        final(out)@ == old(out)@ + spec_lit_url_key(),
{
    out.push(',' as u8);
    out.push('"' as u8);
    out.push('u' as u8);
    out.push('r' as u8);
    out.push('l' as u8);
    out.push('"' as u8);
    out.push(':' as u8);
    proof {
        assert(out@ =~= old(out)@ + spec_lit_url_key());
    }
}

/// The byte template `{"type":"Command","command":`.
pub open spec fn spec_lit_command_open() -> Seq<u8> {
    seq!['{' as u8, '"' as u8, 't' as u8, 'y' as u8, 'p' as u8, 'e' as u8, '"' as u8, ':' as u8, '"' as u8, 'C' as u8, 'o' as u8, 'm' as u8, 'm' as u8, 'a' as u8, 'n' as u8, 'd' as u8, '"' as u8, ',' as u8, '"' as u8, 'c' as u8, 'o' as u8, 'm' as u8, 'm' as u8, 'a' as u8, 'n' as u8, 'd' as u8, '"' as u8, ':' as u8]
}

/// Append the byte template `{"type":"Command","command":`.
pub fn push_lit_command_open(out: &mut Vec<u8>)
    ensures
        final(out)@ == old(out)@ + spec_lit_command_open(),
{
    out.push('{' as u8);
    out.push('"' as u8);
    out.push('t' as u8);
    out.push('y' as u8);
    out.push('p' as u8);
    out.push('e' as u8);
    out.push('"' as u8);
    out.push(':' as u8);
    out.push('"' as u8);
    out.push('C' as u8);
    out.push('o' as u8);
    out.push('m' as u8);
    out.push('m' as u8);
    out.push('a' as u8);
    out.push('n' as u8);
    out.push('d' as u8);
    out.push('"' as u8);
    out.push(',' as u8);
    out.push('"' as u8);
    out.push('c' as u8);
    out.push('o' as u8);
    out.push('m' as u8);
    out.push('m' as u8);
    out.push('a' as u8);
    out.push('n' as u8);
    out.push('d' as u8);
    out.push('"' as u8);
    out.push(':' as u8);
    proof {
        assert(out@ =~= old(out)@ + spec_lit_command_open());
    }
}

/// The byte template `,"args":`.
pub open spec fn spec_lit_args_key() -> Seq<u8> {
    seq![',' as u8, '"' as u8, 'a' as u8, 'r' as u8, 'g' as u8, 's' as u8, '"' as u8, ':' as u8]
}

/// Append the byte template `,"args":`.
pub fn push_lit_args_key(out: &mut Vec<u8>)
    ensures
        final(out)@ == old(out)@ + spec_lit_args_key(),
{
    out.push(',' as u8);
    out.push('"' as u8);
    out.push('a' as u8);
    out.push('r' as u8);
    out.push('g' as u8);
    out.push('s' as u8);
    out.push('"' as u8);
    out.push(':' as u8);
    proof {
        assert(out@ =~= old(out)@ + spec_lit_args_key());
    }
}

/// The byte template `,"result":`.
pub open spec fn spec_lit_result_key() -> Seq<u8> {
    seq![',' as u8, '"' as u8, 'r' as u8, 'e' as u8, 's' as u8, 'u' as u8, 'l' as u8, 't' as u8, '"' as u8, ':' as u8]
}

/// Append the byte template `,"result":`.
pub fn push_lit_result_key(out: &mut Vec<u8>)
    ensures
        final(out)@ == old(out)@ + spec_lit_result_key(),
{
    out.push(',' as u8);
    out.push('"' as u8);
    out.push('r' as u8);
    out.push('e' as u8);
    out.push('s' as u8);
    out.push('u' as u8);
    out.push('l' as u8);
    out.push('t' as u8);
    out.push('"' as u8);
    out.push(':' as u8);
    proof {
        assert(out@ =~= old(out)@ + spec_lit_result_key());
    }
}

/// The byte template `{"outcome":"Success","type":"Http","status":"`.
pub open spec fn spec_lit_success_http_open() -> Seq<u8> {
    seq!['{' as u8, '"' as u8, 'o' as u8, 'u' as u8, 't' as u8, 'c' as u8, 'o' as u8, 'm' as u8, 'e' as u8, '"' as u8, ':' as u8, '"' as u8, 'S' as u8, 'u' as u8, 'c' as u8, 'c' as u8, 'e' as u8, 's' as u8, 's' as u8, '"' as u8, ',' as u8, '"' as u8, 't' as u8, 'y' as u8, 'p' as u8, 'e' as u8, '"' as u8, ':' as u8, '"' as u8, 'H' as u8, 't' as u8, 't' as u8, 'p' as u8, '"' as u8, ',' as u8, '"' as u8, 's' as u8, 't' as u8, 'a' as u8, 't' as u8, 'u' as u8, 's' as u8, '"' as u8, ':' as u8, '"' as u8]
}

/// Append the byte template `{"outcome":"Success","type":"Http","status":"`.
pub fn push_lit_success_http_open(out: &mut Vec<u8>)
    ensures
        final(out)@ == old(out)@ + spec_lit_success_http_open(),
{
    out.push('{' as u8);
    out.push('"' as u8);
    out.push('o' as u8);
    out.push('u' as u8);
    out.push('t' as u8);
    out.push('c' as u8);
    out.push('o' as u8);
    out.push('m' as u8);
    out.push('e' as u8);
    out.push('"' as u8);
    out.push(':' as u8);
    out.push('"' as u8);
    out.push('S' as u8);
    out.push('u' as u8);
    out.push('c' as u8);
    out.push('c' as u8);
    out.push('e' as u8);
    out.push('s' as u8);
    out.push('s' as u8);
    out.push('"' as u8);
    out.push(',' as u8);
    out.push('"' as u8);
    out.push('t' as u8);
    out.push('y' as u8);
    out.push('p' as u8);
    out.push('e' as u8);
    out.push('"' as u8);
    out.push(':' as u8);
    out.push('"' as u8);
    out.push('H' as u8);
    out.push('t' as u8);
    out.push('t' as u8);
    out.push('p' as u8);
    out.push('"' as u8);
    out.push(',' as u8);
    out.push('"' as u8);
    out.push('s' as u8);
    out.push('t' as u8);
    out.push('a' as u8);
    out.push('t' as u8);
    out.push('u' as u8);
    out.push('s' as u8);
    out.push('"' as u8);
    out.push(':' as u8);
    out.push('"' as u8);
    proof {
        assert(out@ =~= old(out)@ + spec_lit_success_http_open());
    }
}

/// The byte template `","body_sha256":"`.
pub open spec fn spec_lit_status_close() -> Seq<u8> {
    seq!['"' as u8, ',' as u8, '"' as u8, 'b' as u8, 'o' as u8, 'd' as u8, 'y' as u8, '_' as u8, 's' as u8, 'h' as u8, 'a' as u8, '2' as u8, '5' as u8, '6' as u8, '"' as u8, ':' as u8, '"' as u8]
}

/// Append the byte template `","body_sha256":"`.
pub fn push_lit_status_close(out: &mut Vec<u8>)
    ensures
        final(out)@ == old(out)@ + spec_lit_status_close(),
{
    out.push('"' as u8);
    out.push(',' as u8);
    out.push('"' as u8);
    out.push('b' as u8);
    out.push('o' as u8);
    out.push('d' as u8);
    out.push('y' as u8);
    out.push('_' as u8);
    out.push('s' as u8);
    out.push('h' as u8);
    out.push('a' as u8);
    out.push('2' as u8);
    out.push('5' as u8);
    out.push('6' as u8);
    out.push('"' as u8);
    out.push(':' as u8);
    out.push('"' as u8);
    proof {
        assert(out@ =~= old(out)@ + spec_lit_status_close());
    }
}

/// The byte template `{"outcome":"Success","type":"Command","exit_code":`.
pub open spec fn spec_lit_success_command_open() -> Seq<u8> {
    seq!['{' as u8, '"' as u8, 'o' as u8, 'u' as u8, 't' as u8, 'c' as u8, 'o' as u8, 'm' as u8, 'e' as u8, '"' as u8, ':' as u8, '"' as u8, 'S' as u8, 'u' as u8, 'c' as u8, 'c' as u8, 'e' as u8, 's' as u8, 's' as u8, '"' as u8, ',' as u8, '"' as u8, 't' as u8, 'y' as u8, 'p' as u8, 'e' as u8, '"' as u8, ':' as u8, '"' as u8, 'C' as u8, 'o' as u8, 'm' as u8, 'm' as u8, 'a' as u8, 'n' as u8, 'd' as u8, '"' as u8, ',' as u8, '"' as u8, 'e' as u8, 'x' as u8, 'i' as u8, 't' as u8, '_' as u8, 'c' as u8, 'o' as u8, 'd' as u8, 'e' as u8, '"' as u8, ':' as u8]
}

/// Append the byte template `{"outcome":"Success","type":"Command","exit_code":`.
pub fn push_lit_success_command_open(out: &mut Vec<u8>)
    ensures
        final(out)@ == old(out)@ + spec_lit_success_command_open(),
{
    out.push('{' as u8);
    out.push('"' as u8);
    out.push('o' as u8);
    out.push('u' as u8);
    out.push('t' as u8);
    out.push('c' as u8);
    out.push('o' as u8);
    out.push('m' as u8);
    out.push('e' as u8);
    out.push('"' as u8);
    out.push(':' as u8);
    out.push('"' as u8);
    out.push('S' as u8);
    out.push('u' as u8);
    out.push('c' as u8);
    out.push('c' as u8);
    out.push('e' as u8);
    out.push('s' as u8);
    out.push('s' as u8);
    out.push('"' as u8);
    out.push(',' as u8);
    out.push('"' as u8);
    out.push('t' as u8);
    out.push('y' as u8);
    out.push('p' as u8);
    out.push('e' as u8);
    out.push('"' as u8);
    out.push(':' as u8);
    out.push('"' as u8);
    out.push('C' as u8);
    out.push('o' as u8);
    out.push('m' as u8);
    out.push('m' as u8);
    out.push('a' as u8);
    out.push('n' as u8);
    out.push('d' as u8);
    out.push('"' as u8);
    out.push(',' as u8);
    out.push('"' as u8);
    out.push('e' as u8);
    out.push('x' as u8);
    out.push('i' as u8);
    out.push('t' as u8);
    out.push('_' as u8);
    out.push('c' as u8);
    out.push('o' as u8);
    out.push('d' as u8);
    out.push('e' as u8);
    out.push('"' as u8);
    out.push(':' as u8);
    proof {
        assert(out@ =~= old(out)@ + spec_lit_success_command_open());
    }
}

/// The byte template `,"body_sha256":"`.
pub open spec fn spec_lit_sha_key() -> Seq<u8> {
    seq![',' as u8, '"' as u8, 'b' as u8, 'o' as u8, 'd' as u8, 'y' as u8, '_' as u8, 's' as u8, 'h' as u8, 'a' as u8, '2' as u8, '5' as u8, '6' as u8, '"' as u8, ':' as u8, '"' as u8]
}

/// Append the byte template `,"body_sha256":"`.
pub fn push_lit_sha_key(out: &mut Vec<u8>)
    ensures
        final(out)@ == old(out)@ + spec_lit_sha_key(),
{
    out.push(',' as u8);
    out.push('"' as u8);
    out.push('b' as u8);
    out.push('o' as u8);
    out.push('d' as u8);
    out.push('y' as u8);
    out.push('_' as u8);
    out.push('s' as u8);
    out.push('h' as u8);
    out.push('a' as u8);
    out.push('2' as u8);
    out.push('5' as u8);
    out.push('6' as u8);
    out.push('"' as u8);
    out.push(':' as u8);
    out.push('"' as u8);
    proof {
        assert(out@ =~= old(out)@ + spec_lit_sha_key());
    }
}

/// The byte template `{"outcome":"Error","message":`.
pub open spec fn spec_lit_error_open() -> Seq<u8> {
    seq!['{' as u8, '"' as u8, 'o' as u8, 'u' as u8, 't' as u8, 'c' as u8, 'o' as u8, 'm' as u8, 'e' as u8, '"' as u8, ':' as u8, '"' as u8, 'E' as u8, 'r' as u8, 'r' as u8, 'o' as u8, 'r' as u8, '"' as u8, ',' as u8, '"' as u8, 'm' as u8, 'e' as u8, 's' as u8, 's' as u8, 'a' as u8, 'g' as u8, 'e' as u8, '"' as u8, ':' as u8]
}

/// Append the byte template `{"outcome":"Error","message":`.
pub fn push_lit_error_open(out: &mut Vec<u8>)
    ensures
        final(out)@ == old(out)@ + spec_lit_error_open(),
{
    out.push('{' as u8);
    out.push('"' as u8);
    out.push('o' as u8);
    out.push('u' as u8);
    out.push('t' as u8);
    out.push('c' as u8);
    out.push('o' as u8);
    out.push('m' as u8);
    out.push('e' as u8);
    out.push('"' as u8);
    out.push(':' as u8);
    out.push('"' as u8);
    out.push('E' as u8);
    out.push('r' as u8);
    out.push('r' as u8);
    out.push('o' as u8);
    out.push('r' as u8);
    out.push('"' as u8);
    out.push(',' as u8);
    out.push('"' as u8);
    out.push('m' as u8);
    out.push('e' as u8);
    out.push('s' as u8);
    out.push('s' as u8);
    out.push('a' as u8);
    out.push('g' as u8);
    out.push('e' as u8);
    out.push('"' as u8);
    out.push(':' as u8);
    proof {
        assert(out@ =~= old(out)@ + spec_lit_error_open());
    }
}

/// The byte template `{"id":"`.
pub open spec fn spec_lit_id_open() -> Seq<u8> {
    seq!['{' as u8, '"' as u8, 'i' as u8, 'd' as u8, '"' as u8, ':' as u8, '"' as u8]
}

/// Append the byte template `{"id":"`.
pub fn push_lit_id_open(out: &mut Vec<u8>)
    ensures
        final(out)@ == old(out)@ + spec_lit_id_open(),
{
    out.push('{' as u8);
    out.push('"' as u8);
    out.push('i' as u8);
    out.push('d' as u8);
    out.push('"' as u8);
    out.push(':' as u8);
    out.push('"' as u8);
    proof {
        assert(out@ =~= old(out)@ + spec_lit_id_open());
    }
}

/// The byte template `","remaining":`.
pub open spec fn spec_lit_remaining_key() -> Seq<u8> {
    seq!['"' as u8, ',' as u8, '"' as u8, 'r' as u8, 'e' as u8, 'm' as u8, 'a' as u8, 'i' as u8, 'n' as u8, 'i' as u8, 'n' as u8, 'g' as u8, '"' as u8, ':' as u8]
}

/// Append the byte template `","remaining":`.
pub fn push_lit_remaining_key(out: &mut Vec<u8>)
    ensures
        final(out)@ == old(out)@ + spec_lit_remaining_key(),
{
    out.push('"' as u8);
    out.push(',' as u8);
    out.push('"' as u8);
    out.push('r' as u8);
    out.push('e' as u8);
    out.push('m' as u8);
    out.push('a' as u8);
    out.push('i' as u8);
    out.push('n' as u8);
    out.push('i' as u8);
    out.push('n' as u8);
    out.push('g' as u8);
    out.push('"' as u8);
    out.push(':' as u8);
    proof {
        assert(out@ =~= old(out)@ + spec_lit_remaining_key());
    }
}

/// The byte template `,"data":"`.
pub open spec fn spec_lit_data_key() -> Seq<u8> {
    seq![',' as u8, '"' as u8, 'd' as u8, 'a' as u8, 't' as u8, 'a' as u8, '"' as u8, ':' as u8, '"' as u8]
}

/// Append the byte template `,"data":"`.
pub fn push_lit_data_key(out: &mut Vec<u8>)
    ensures
        final(out)@ == old(out)@ + spec_lit_data_key(),
{
    out.push(',' as u8);
    out.push('"' as u8);
    out.push('d' as u8);
    out.push('a' as u8);
    out.push('t' as u8);
    out.push('a' as u8);
    out.push('"' as u8);
    out.push(':' as u8);
    out.push('"' as u8);
    proof {
        assert(out@ =~= old(out)@ + spec_lit_data_key());
    }
}

/// The byte template `"}`.
pub open spec fn spec_lit_quote_brace() -> Seq<u8> {
    seq!['"' as u8, '}' as u8]
}

/// Append the byte template `"}`.
pub fn push_lit_quote_brace(out: &mut Vec<u8>)
    ensures
        final(out)@ == old(out)@ + spec_lit_quote_brace(),
{
    out.push('"' as u8);
    out.push('}' as u8);
    proof {
        assert(out@ =~= old(out)@ + spec_lit_quote_brace());
    }
}

/// The byte template `{"stdout":`.
pub open spec fn spec_lit_stdout_open() -> Seq<u8> {
    seq!['{' as u8, '"' as u8, 's' as u8, 't' as u8, 'd' as u8, 'o' as u8, 'u' as u8, 't' as u8, '"' as u8, ':' as u8]
}

/// Append the byte template `{"stdout":`.
pub fn push_lit_stdout_open(out: &mut Vec<u8>)
    ensures
        final(out)@ == old(out)@ + spec_lit_stdout_open(),
{
    out.push('{' as u8);
    out.push('"' as u8);
    out.push('s' as u8);
    out.push('t' as u8);
    out.push('d' as u8);
    out.push('o' as u8);
    out.push('u' as u8);
    out.push('t' as u8);
    out.push('"' as u8);
    out.push(':' as u8);
    proof {
        assert(out@ =~= old(out)@ + spec_lit_stdout_open());
    }
}

/// The byte template `,"stderr":`.
pub open spec fn spec_lit_stderr_key() -> Seq<u8> {
    seq![',' as u8, '"' as u8, 's' as u8, 't' as u8, 'd' as u8, 'e' as u8, 'r' as u8, 'r' as u8, '"' as u8, ':' as u8]
}

/// Append the byte template `,"stderr":`.
pub fn push_lit_stderr_key(out: &mut Vec<u8>)
    ensures
        final(out)@ == old(out)@ + spec_lit_stderr_key(),
{
    out.push(',' as u8);
    out.push('"' as u8);
    out.push('s' as u8);
    out.push('t' as u8);
    out.push('d' as u8);
    out.push('e' as u8);
    out.push('r' as u8);
    out.push('r' as u8);
    out.push('"' as u8);
    out.push(':' as u8);
    proof {
        assert(out@ =~= old(out)@ + spec_lit_stderr_key());
    }
}

/// The byte template `Http error: `.
pub open spec fn spec_lit_http_err_msg() -> Seq<u8> {
    seq!['H' as u8, 't' as u8, 't' as u8, 'p' as u8, ' ' as u8, 'e' as u8, 'r' as u8, 'r' as u8, 'o' as u8, 'r' as u8, ':' as u8, ' ' as u8]
}

/// Append the byte template `Http error: `.
pub fn push_lit_http_err_msg(out: &mut Vec<u8>)
    ensures
        final(out)@ == old(out)@ + spec_lit_http_err_msg(),
{
    out.push('H' as u8);
    out.push('t' as u8);
    out.push('t' as u8);
    out.push('p' as u8);
    out.push(' ' as u8);
    out.push('e' as u8);
    out.push('r' as u8);
    out.push('r' as u8);
    out.push('o' as u8);
    out.push('r' as u8);
    out.push(':' as u8);
    out.push(' ' as u8);
    proof {
        assert(out@ =~= old(out)@ + spec_lit_http_err_msg());
    }
}

/// The byte template `Io error: `.
pub open spec fn spec_lit_io_err_msg() -> Seq<u8> {
    seq!['I' as u8, 'o' as u8, ' ' as u8, 'e' as u8, 'r' as u8, 'r' as u8, 'o' as u8, 'r' as u8, ':' as u8, ' ' as u8]
}

/// Append the byte template `Io error: `.
pub fn push_lit_io_err_msg(out: &mut Vec<u8>)
    ensures
        final(out)@ == old(out)@ + spec_lit_io_err_msg(),
{
    out.push('I' as u8);
    out.push('o' as u8);
    out.push(' ' as u8);
    out.push('e' as u8);
    out.push('r' as u8);
    out.push('r' as u8);
    out.push('o' as u8);
    out.push('r' as u8);
    out.push(':' as u8);
    out.push(' ' as u8);
    proof {
        assert(out@ =~= old(out)@ + spec_lit_io_err_msg());
    }
}

/// The byte template `Scrape timed out`.
pub open spec fn spec_lit_timeout_msg() -> Seq<u8> {
    seq!['S' as u8, 'c' as u8, 'r' as u8, 'a' as u8, 'p' as u8, 'e' as u8, ' ' as u8, 't' as u8, 'i' as u8, 'm' as u8, 'e' as u8, 'd' as u8, ' ' as u8, 'o' as u8, 'u' as u8, 't' as u8]
}

/// Append the byte template `Scrape timed out`.
pub fn push_lit_timeout_msg(out: &mut Vec<u8>)
    ensures
        final(out)@ == old(out)@ + spec_lit_timeout_msg(),
{
    out.push('S' as u8);
    out.push('c' as u8);
    out.push('r' as u8);
    out.push('a' as u8);
    out.push('p' as u8);
    out.push('e' as u8);
    out.push(' ' as u8);
    out.push('t' as u8);
    out.push('i' as u8);
    out.push('m' as u8);
    out.push('e' as u8);
    out.push('d' as u8);
    out.push(' ' as u8);
    out.push('o' as u8);
    out.push('u' as u8);
    out.push('t' as u8);
    proof {
        assert(out@ =~= old(out)@ + spec_lit_timeout_msg());
    }
}

/// The byte template `Cancelled`.
pub open spec fn spec_lit_cancelled_msg() -> Seq<u8> {
    seq!['C' as u8, 'a' as u8, 'n' as u8, 'c' as u8, 'e' as u8, 'l' as u8, 'l' as u8, 'e' as u8, 'd' as u8]
}

/// Append the byte template `Cancelled`.
pub fn push_lit_cancelled_msg(out: &mut Vec<u8>)
    ensures
        final(out)@ == old(out)@ + spec_lit_cancelled_msg(),
{
    out.push('C' as u8);
    out.push('a' as u8);
    out.push('n' as u8);
    out.push('c' as u8);
    out.push('e' as u8);
    out.push('l' as u8);
    out.push('l' as u8);
    out.push('e' as u8);
    out.push('d' as u8);
    proof {
        assert(out@ =~= old(out)@ + spec_lit_cancelled_msg());
    }
}

} // verus!
