//! What the front end and the privileged helper say to each other. A message is
//! one line: the encoded value, then a line feed.

use crate::paths::{path_bytes, ConfigPath};
use crate::text::{is_white_space, trim_end, trimmed_end};
use vstd::prelude::*;

verus! {

/// What the front end asks of the helper.
#[derive(Debug)]
pub enum HelperRequest {
    /// Are you there?
    Ping,
    /// Which configuration files are in these directories?
    ListConfigs { dirs: Vec<ConfigPath> },
    /// Run `wg-quick` with this action on this file.
    WgQuick { action: String, path: ConfigPath },
    /// Stop.
    Quit,
}

/// What a `HelperRequest` holds.
#[verifier::ext_equal]
pub enum RequestModel {
    Ping,
    ListConfigs { dirs: Seq<Seq<u8>> },
    WgQuick { action: Seq<char>, path: Seq<u8> },
    Quit,
}

impl View for HelperRequest {
    type V = RequestModel;

    open spec fn view(&self) -> RequestModel {
        match self {
            HelperRequest::Ping => RequestModel::Ping,
            HelperRequest::ListConfigs { dirs } => RequestModel::ListConfigs {
                dirs: path_bytes(dirs@),
            },
            HelperRequest::WgQuick { action, path } => RequestModel::WgQuick {
                action: action@,
                path: path@,
            },
            HelperRequest::Quit => RequestModel::Quit,
        }
    }
}

/// What the helper answers.
#[derive(Debug)]
pub enum HelperResponse {
    /// I am here.
    Pong,
    /// These are the configuration files.
    Configs { paths: Vec<ConfigPath> },
    /// It is done.
    Done,
    /// It failed.
    Error { message: String },
}

/// What a `HelperResponse` holds.
#[verifier::ext_equal]
pub enum ResponseModel {
    Pong,
    Configs { paths: Seq<Seq<u8>> },
    Done,
    Error { message: Seq<char> },
}

impl View for HelperResponse {
    type V = ResponseModel;

    open spec fn view(&self) -> ResponseModel {
        match self {
            HelperResponse::Pong => ResponseModel::Pong,
            HelperResponse::Configs { paths } => ResponseModel::Configs { paths: path_bytes(paths@) },
            HelperResponse::Done => ResponseModel::Done,
            HelperResponse::Error { message } => ResponseModel::Error { message: message@ },
        }
    }
}

/// The text or the failure in a result.
pub open spec fn text_result(r: Result<String, String>) -> Result<Seq<char>, Seq<char>> {
    match r {
        Ok(t) => Ok(t@),
        Err(e) => Err(e@),
    }
}

/// The failure in a result.
pub open spec fn unit_result(r: Result<(), String>) -> Result<(), Seq<char>> {
    match r {
        Ok(_) => Ok(()),
        Err(e) => Err(e@),
    }
}

/// The answer or the failure in a result.
pub open spec fn reply_result(r: Result<HelperResponse, String>) -> Result<
    ResponseModel,
    Seq<char>,
> {
    match r {
        Ok(t) => Ok(t@),
        Err(e) => Err(e@),
    }
}

/// A message on the wire.
pub open spec fn framed(payload: Seq<char>) -> Seq<char> {
    payload.push('\n')
}

/// What ends a message on the wire.
pub open spec fn line_end() -> Seq<char> {
    seq!['\n']
}

/// A line feed, which ends a message.
pub fn line_feed() -> (res: String)
    ensures
        res@ == line_end(),
{
    proof {
        reveal_strlit("\n");
    }
    let res = "\n".to_owned();
    assert(res@ =~= line_end());
    res
}

/// Takes the encoded value out of a line.
pub fn unframe(line: &str) -> (res: String)
    ensures
        res@ == trimmed_end(line@),
{
    trim_end(line).to_owned()
}

/// An encoded value and then a line feed make a message.
pub proof fn law_frame_is_written_in_two(payload: Seq<char>)
    ensures
        payload + line_end() == framed(payload),
{
    assert(payload + line_end() =~= framed(payload));
}

/// What is framed comes out again, as long as it does not end in white space.
pub proof fn law_frame_round_trip(payload: Seq<char>)
    requires
        payload.len() > 0 ==> !is_white_space(payload.last()),
    ensures
        trimmed_end(framed(payload)) == payload,
{
    assert(framed(payload).drop_last() =~= payload);
    assert(is_white_space('\n'));
    assert(trimmed_end(payload) == payload);
}

/// A frame holds one line feed, its last character, as long as the payload
/// holds none: the reader of lines finds the end of each message.
pub proof fn law_frame_is_one_line(payload: Seq<char>)
    requires
        !payload.contains('\n'),
    ensures
        framed(payload).last() == '\n',
        !framed(payload).drop_last().contains('\n'),
{
    assert(framed(payload).drop_last() =~= payload);
}

/// A message is the encoded value and one line feed behind it.
pub proof fn law_frame(payload: Seq<char>)
    ensures
        framed(payload) == payload + seq!['\n'],
        line_end() == seq!['\n'],
{
    assert(framed(payload) =~= payload + seq!['\n']);
}

} // verus!
