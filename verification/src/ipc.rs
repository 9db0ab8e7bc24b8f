//! The protocol between the desktop front-end and the service: requests and
//! responses, each sent as a length-prefixed JSON message over a named pipe.

use vstd::prelude::*;

use crate::classify::Profile;
use crate::engine::BoostReport;
use crate::model::ReportModel;
use crate::scan::{ScanModel, ScanResult};
use crate::snapshot::Metrics;

verus! {

/// The name of the pipe that the service listens on.
pub const PIPE_NAME: &'static str = r"\\.\pipe\SystemBooster";

/// What the front-end asks of the service.
#[derive(Debug, Clone)]
pub enum Request {
    /// List processes and services and mark what `profile` may suspend.
    Scan { profile: Profile },
    /// Apply a boost for `profile`.
    StartBoost { profile: Profile },
    /// Restore everything.
    EndBoost,
    /// Keep the boost alive.
    Heartbeat,
    /// Current boost status and metrics.
    GetStatus,
}

/// What the service answers.
#[derive(Debug, Clone)]
pub enum Response {
    Scan(ScanResult),
    Boosted(BoostReport),
    Ended,
    Ack,
    Status(Status),
    Error { message: String },
}

/// The state of the service for the dashboard.
#[derive(Debug, Clone)]
pub struct Status {
    pub boosted: bool,
    pub active_profile: Option<String>,
    pub metrics: Metrics,
}

/// What a [`Response`] holds.
pub enum ResponseModel {
    Scan(ScanModel),
    Boosted(ReportModel),
    Ended,
    Ack,
    Status { boosted: bool, active_profile: Option<Seq<char>>, metrics: Metrics },
    Error { message: Seq<char> },
}

impl View for Response {
    type V = ResponseModel;

    open spec fn view(&self) -> ResponseModel {
        match *self {
            Response::Scan(scan) => ResponseModel::Scan(scan@),
            Response::Boosted(report) => ResponseModel::Boosted(report@),
            Response::Ended => ResponseModel::Ended,
            Response::Ack => ResponseModel::Ack,
            Response::Status(status) => ResponseModel::Status {
                boosted: status.boosted,
                active_profile: match status.active_profile {
                    Some(name) => Some(name@),
                    None => None,
                },
                metrics: status.metrics,
            },
            Response::Error { message } => ResponseModel::Error { message: message@ },
        }
    }
}

/// The four bytes of `n`, the highest first.
pub open spec fn be_bytes(n: int) -> Seq<u8> {
    seq![
        (n / 0x100_0000 % 0x100) as u8,
        (n / 0x1_0000 % 0x100) as u8,
        (n / 0x100 % 0x100) as u8,
        (n % 0x100) as u8,
    ]
}

/// The number that four bytes stand for, the highest first.
pub open spec fn be_value(b: Seq<u8>) -> int {
    b[0] * 0x100_0000 + b[1] * 0x1_0000 + b[2] * 0x100 + b[3]
}

/// A frame: the length of the body in four bytes, of which it keeps the low 32
/// bits, then the body.
pub open spec fn frame(body: Seq<u8>) -> Seq<u8> {
    be_bytes(body.len() as int % 0x1_0000_0000) + body
}

/// Frames the JSON body of a message.
pub fn encode(body: &Vec<u8>) -> (framed: Vec<u8>)
    ensures
        framed@ == frame(body@),
{
    let n: u64 = body.len() as u64 % 0x1_0000_0000;
    let mut framed: Vec<u8> = Vec::new();
    framed.push((n / 0x100_0000 % 0x100) as u8);
    framed.push((n / 0x1_0000 % 0x100) as u8);
    framed.push((n / 0x100 % 0x100) as u8);
    framed.push((n % 0x100) as u8);
    let mut i: usize = 0;
    while i < body.len()
        invariant
            i <= body@.len(),
            framed@ == be_bytes(body@.len() as int % 0x1_0000_0000) + body@.take(i as int),
        decreases body@.len() - i,
    {
        framed.push(body[i]);
        i += 1;
    }
    assert(body@.take(i as int) =~= body@);
    framed
}

/// The length of the body that follows a frame's first four bytes.
pub fn body_len(header: [u8; 4]) -> (n: u32)
    ensures
        n == be_value(header@),
{
    header[0] as u32 * 0x100_0000 + header[1] as u32 * 0x1_0000 + header[2] as u32 * 0x100
        + header[3] as u32
}

/// A frame reads back: whatever follows it on the wire, its first four bytes
/// give the length of the body, and that many bytes behind them are the body.
/// The length is to fit in the four bytes.
pub proof fn law_frame_reads_back(body: Seq<u8>, rest: Seq<u8>)
    requires
        body.len() < 0x1_0000_0000,
    ensures
        ({
            let wire = frame(body) + rest;
            &&& be_value(wire.take(4)) == body.len()
            &&& wire.subrange(4, 4 + be_value(wire.take(4))) == body
        }),
{
    let wire = frame(body) + rest;
    let n = body.len() as int;
    assert(n % 0x1_0000_0000 == n);
    let header = wire.take(4);
    assert(header =~= be_bytes(n));
    assert(be_value(header) == n);
    assert(wire.subrange(4, 4 + n) =~= body);
}

/// A frame is the length of its body, in four bytes with the highest first, and then the
/// body.
pub proof fn law_frame_starts_with_the_length(body: Seq<u8>)
    ensures
        frame(body).len() == body.len() + 4,
        frame(body).skip(4) == body,
        frame(body)[0] * 16_777_216 + frame(body)[1] * 65_536 + frame(body)[2] * 256
            + frame(body)[3] == body.len() as int % 4_294_967_296,
{
    assert(frame(body).skip(4) =~= body);
}

/// The length that a header gives has the highest byte first: any header is that of the
/// length which it gives.
pub proof fn law_header_has_the_highest_byte_first(header: Seq<u8>)
    requires
        header.len() == 4,
    ensures
        be_value(header) == header[0] * 16_777_216 + header[1] * 65_536 + header[2] * 256
            + header[3],
        0 <= be_value(header) < 4_294_967_296,
        be_bytes(be_value(header)) == header,
{
    lemma_bytes(header[0] as int, header[1] as int, header[2] as int, header[3] as int);
    assert(be_bytes(be_value(header)) =~= header);
}

/// The bytes of a number that is put together of four bytes are those bytes.
proof fn lemma_bytes(a: int, b: int, c: int, d: int)
    requires
        0 <= a < 0x100,
        0 <= b < 0x100,
        0 <= c < 0x100,
        0 <= d < 0x100,
    ensures
        ({
            let n = a * 0x100_0000 + b * 0x1_0000 + c * 0x100 + d;
            &&& n / 0x100_0000 % 0x100 == a
            &&& n / 0x1_0000 % 0x100 == b
            &&& n / 0x100 % 0x100 == c
            &&& n % 0x100 == d
        }),
{
    let n = a * 0x100_0000 + b * 0x1_0000 + c * 0x100 + d;
    lemma_divided(n, 0x100_0000, a, b * 0x1_0000 + c * 0x100 + d);
    lemma_divided(n, 0x1_0000, a * 0x100 + b, c * 0x100 + d);
    lemma_divided(n, 0x100, a * 0x1_0000 + b * 0x100 + c, d);
    lemma_divided(a * 0x100 + b, 0x100, a, b);
    lemma_divided(a * 0x1_0000 + b * 0x100 + c, 0x100, a * 0x100 + b, c);
}

proof fn lemma_divided(n: int, by: int, q: int, r: int)
    requires
        by > 0,
        n == q * by + r,
        0 <= r < by,
    ensures
        n / by == q,
        n % by == r,
{
    vstd::arithmetic::div_mod::lemma_fundamental_div_mod_converse(n, by, q, r);
}

/// What a response holds is what it carries.
pub proof fn law_response_holds_what_it_carries(
    scan: ScanResult,
    report: BoostReport,
    status: Status,
    message: String,
)
    ensures
        Response::Scan(scan)@ == ResponseModel::Scan(scan@),
        Response::Boosted(report)@ == ResponseModel::Boosted(report@),
        Response::Ended@ == ResponseModel::Ended,
        Response::Ack@ == ResponseModel::Ack,
        (Response::Error { message })@ == (ResponseModel::Error { message: message@ }),
        Response::Status(status)@ matches ResponseModel::Status {
            boosted,
            active_profile,
            metrics,
        } && {
            &&& boosted == status.boosted
            &&& active_profile is Some <==> status.active_profile is Some
            &&& active_profile is Some ==> active_profile->0 == status.active_profile->0@
            &&& metrics == status.metrics
        },
{
}

} // verus!
