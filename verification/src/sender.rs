//! The sending side of a transfer: where the two requests go, what they
//! carry, and how each reply is judged.
//!
//! A sender first posts an announcement to the peer, then streams the file
//! to the peer's upload address with the file's size declared in a header.
//! Either request counts as failed unless the peer answers it with status
//! 200.

use crate::text::{decimal, digit_char, push_decimal, render_decimal};
use crate::transfer::declared_size_spec;
use crate::{NotifyPayload, NotifyView};
use vstd::prelude::*;
use vstd::utf8::encode_utf8;

verus! {

/// Bytes that a percent-encoding leaves as they are: ASCII letters and
/// digits, and `-`, `.`, `_`, `~`.
pub open spec fn is_unreserved(b: u8) -> bool {
    ||| 0x30 <= b <= 0x39
    ||| 0x41 <= b <= 0x5a
    ||| 0x61 <= b <= 0x7a
    ||| b == 0x2d
    ||| b == 0x2e
    ||| b == 0x5f
    ||| b == 0x7e
}

/// The upper-case hexadecimal digit of a value below sixteen.
pub open spec fn hex_digit(d: nat) -> char {
    if d < 10 {
        digit_char(d)
    } else if d == 10 {
        'A'
    } else if d == 11 {
        'B'
    } else if d == 12 {
        'C'
    } else if d == 13 {
        'D'
    } else if d == 14 {
        'E'
    } else {
        'F'
    }
}

/// The percent-encoding of one byte: the byte itself if it is unreserved,
/// else `%` and its two hexadecimal digits.
pub open spec fn encoded_byte(b: u8) -> Seq<char> {
    if is_unreserved(b) {
        seq![b as char]
    } else {
        seq!['%', hex_digit((b / 16) as nat), hex_digit((b % 16) as nat)]
    }
}

/// The percent-encoding of a run of bytes: the encodings of its bytes, in
/// order.
pub open spec fn percent_encoded(bytes: Seq<u8>) -> Seq<char>
    decreases bytes.len(),
{
    if bytes.len() == 0 {
        Seq::empty()
    } else {
        percent_encoded(bytes.drop_last()) + encoded_byte(bytes.last())
    }
}

/// `urlencoding::encode` percent-encodes the UTF-8 bytes of a string:
/// every byte except ASCII letters, digits and `-`, `.`, `_`, `~` becomes
/// `%` followed by two upper-case hexadecimal digits.
#[verifier::external_body]
fn percent_encode(text: &str) -> (out: String)
    ensures
        out@ == percent_encoded(encode_utf8(text@)),
{
    urlencoding::encode(text).into_owned()
}

/// The address of a peer's HTTP endpoint set.
pub open spec fn base_url_spec(ip: Seq<char>, port: u16) -> Seq<char> {
    "http://"@ + ip + seq![':'] + decimal(port as nat)
}

/// The address to which an announcement is posted.
pub open spec fn notify_url_spec(ip: Seq<char>, port: u16) -> Seq<char> {
    base_url_spec(ip, port) + "/notify"@
}

/// The address to which a file named `filename` is streamed.
pub open spec fn upload_url_spec(ip: Seq<char>, port: u16, filename: Seq<char>) -> Seq<char> {
    base_url_spec(ip, port) + "/upload/"@ + percent_encoded(encode_utf8(filename))
}

/// The announcement of a file that the sender is about to push.
pub open spec fn announcement_spec(filename: Seq<char>, filesize: u64, sender_name: Seq<char>) -> NotifyView {
    NotifyView { filename, filesize, sender_name, download_url: Seq::empty() }
}

fn base_url(ip: &str, port: u16) -> (url: String)
    ensures
        url@ == base_url_spec(ip@, port),
{
    let mut url = String::from_str("http://");
    url.append(ip);
    url.push(':');
    push_decimal(&mut url, port as u128);
    url
}

/// The address to which an announcement for the peer at `ip`, `port` is
/// posted.
pub fn notify_url(ip: &str, port: u16) -> (url: String)
    ensures
        url@ == notify_url_spec(ip@, port),
{
    let mut url = base_url(ip, port);
    url.append("/notify");
    url
}

/// The address to which a file named `filename` is streamed, with the name
/// percent-encoded so that it stays one path segment.
pub fn upload_url(ip: &str, port: u16, filename: &str) -> (url: String)
    ensures
        url@ == upload_url_spec(ip@, port, filename@),
{
    let mut url = base_url(ip, port);
    url.append("/upload/");
    let segment = percent_encode(filename);
    url.append(segment.as_str());
    url
}

/// The value of the size header for a file of `filesize` bytes.
pub fn size_header_value(filesize: u64) -> (value: String)
    ensures
        value@ == decimal(filesize as nat),
{
    render_decimal(filesize as u128)
}

/// The announcement of a file that the sender is about to push.
pub fn announcement(filename: &str, filesize: u64, sender_name: &str) -> (payload: NotifyPayload)
    ensures
        payload@ == announcement_spec(filename@, filesize, sender_name@),
{
    NotifyPayload {
        filename: String::from_str(filename),
        filesize,
        sender_name: String::from_str(sender_name),
        download_url: String::new(),
    }
}

/// Everything the two requests of one transfer carry.
#[derive(Debug)]
pub struct SendPlan {
    /// Where the announcement goes.
    pub notify_url: String,
    /// The announcement.
    pub payload: NotifyPayload,
    /// Where the file goes.
    pub upload_url: String,
    /// The value of the size header on the upload.
    pub size_header: String,
}

/// The plan for sending a file of `filesize` bytes named `filename` to the
/// peer at `ip`, `port`, under the sender's display name.
pub fn plan_send(ip: &str, port: u16, filename: &str, filesize: u64, sender_name: &str) -> (plan:
    SendPlan)
    ensures
        plan.notify_url@ == notify_url_spec(ip@, port),
        plan.payload@ == announcement_spec(filename@, filesize, sender_name@),
        plan.upload_url@ == upload_url_spec(ip@, port, filename@),
        plan.size_header@ == decimal(filesize as nat),
{
    SendPlan {
        notify_url: notify_url(ip, port),
        payload: announcement(filename, filesize, sender_name),
        upload_url: upload_url(ip, port, filename),
        size_header: size_header_value(filesize),
    }
}

/// The two requests of a transfer, in the order in which they are made.
#[derive(Clone, Copy, Debug, PartialEq, Eq, Structural)]
pub enum SendStep {
    /// Posting the announcement.
    Notify,
    /// Streaming the file.
    Upload,
}

/// How a request ended.
#[derive(Debug)]
pub enum Reply {
    /// The peer answered with this HTTP status.
    Status(u16),
    /// No answer came; the text says what went wrong on the way.
    Transport(String),
}

/// The words that open the error of a failed request.
pub open spec fn failure_prefix(step: SendStep) -> Seq<char> {
    match step {
        SendStep::Notify => "Notify failed: "@,
        SendStep::Upload => "Upload failed: "@,
    }
}

/// The error that a reply amounts to, or `None` for status 200.
pub open spec fn failure_spec(step: SendStep, reply: Reply) -> Option<Seq<char>> {
    match reply {
        Reply::Status(code) => if code == 200 {
            None
        } else {
            Some(failure_prefix(step) + "status "@ + decimal(code as nat))
        },
        Reply::Transport(cause) => Some(failure_prefix(step) + cause@),
    }
}

/// Judges the reply to a request: status 200 lets the transfer go on, any
/// other status and any transport failure end it with an error that names
/// the request and the cause.
pub fn check_reply(step: SendStep, reply: &Reply) -> (checked: Result<(), String>)
    ensures
        match failure_spec(step, *reply) {
            None => checked is Ok,
            Some(text) => checked matches Err(e) && e@ == text,
        },
{
    let mut text = match step {
        SendStep::Notify => String::from_str("Notify failed: "),
        SendStep::Upload => String::from_str("Upload failed: "),
    };
    match reply {
        Reply::Status(code) => {
            if *code == 200 {
                Ok(())
            } else {
                text.append("status ");
                push_decimal(&mut text, *code as u128);
                Err(text)
            }
        },
        Reply::Transport(cause) => {
            text.append(cause.as_str());
            Err(text)
        },
    }
}

/// The request that follows `step` once its reply was good, or `None` when
/// the transfer is complete.
pub fn next_step(step: SendStep) -> (next: Option<SendStep>)
    ensures
        next == match step {
            SendStep::Notify => Some(SendStep::Upload),
            SendStep::Upload => None,
        },
{
    match step {
        SendStep::Notify => Some(SendStep::Upload),
        SendStep::Upload => None,
    }
}

/// The size a sender writes is the size a receiver reads: an upload that
/// carries the planned size header declares exactly the file's size,
/// whatever its content length says.
pub proof fn lemma_size_header_is_read_back(filesize: u64, content_length: Option<Seq<char>>)
    ensures
        declared_size_spec(Some(decimal(filesize as nat)), content_length) == Some(filesize),
{
    crate::text::lemma_parse_decimal_round_trip(filesize);
}

} // verus!
