use vstd::prelude::*;
use crate::json::{json_escape, dec_u64, parse_jstring, parse_u64, strip_prefix, suffix};
use crate::json::{push_escaped, push_decimal_u64, parse_jstring_exec, parse_u64_exec,
    strip_prefix_exec};
use crate::json::{lemma_parse_escaped, lemma_parse_decimal, lemma_strip_prefix_exact, is_digit};
use crate::json::{lemma_parse_jstring_sound, lemma_parse_u64_sound, lemma_strip_prefix_sound};
use crate::codec::push_bytes;
use crate::clock::{now_millis_clamped, format_rfc3339, rfc3339_of, MAX_RFC3339_MS};

verus! {

/// Why a job was routed to the dead-letter stream.
#[derive(Debug, Clone, Copy, PartialEq, Eq, Structural)]
pub enum DlqReason {
    /// The handler declared the failure non-transient.
    AbortError,
    /// A transient failure exhausted the configured delivery attempts.
    MaxDeliverExceeded,
}

impl DlqReason {
    /// The tag written into the DLQ record.
    pub open spec fn name_bytes(self) -> Seq<u8> {
        match self {
            DlqReason::AbortError => seq![97u8, 98u8, 111u8, 114u8, 116u8, 95u8, 101u8, 114u8, 114u8, 111u8, 114u8],
            DlqReason::MaxDeliverExceeded => seq![109u8, 97u8, 120u8, 95u8, 100u8, 101u8, 108u8, 105u8, 118u8, 101u8, 114u8, 95u8, 101u8, 120u8, 99u8, 101u8, 101u8, 100u8, 101u8, 100u8],
        }
    }

    /// The tag as bytes, `abort_error` or `max_deliver_exceeded`.
    pub fn name_ascii(self) -> (v: Vec<u8>)
        ensures
            v@ == self.name_bytes(),
    {
        let mut v: Vec<u8> = Vec::new();
        match self {
            DlqReason::AbortError => {
                v.push(97);
                v.push(98);
                v.push(111);
                v.push(114);
                v.push(116);
                v.push(95);
                v.push(101);
                v.push(114);
                v.push(114);
                v.push(111);
                v.push(114);
            }
            DlqReason::MaxDeliverExceeded => {
                v.push(109);
                v.push(97);
                v.push(120);
                v.push(95);
                v.push(100);
                v.push(101);
                v.push(108);
                v.push(105);
                v.push(118);
                v.push(101);
                v.push(114);
                v.push(95);
                v.push(101);
                v.push(120);
                v.push(99);
                v.push(101);
                v.push(101);
                v.push(100);
                v.push(101);
                v.push(100);
            }
        }
        proof {
            assert(v@ =~= self.name_bytes());
        }
        v
    }
}

/// The mathematical content of one dead-letter record.
pub struct DlqModel {
    /// Rendered attempt counter.
    pub attempts: Seq<u8>,
    /// Broker-reported delivery count at the time of routing.
    pub delivered_count: u64,
    /// Why the job was routed here.
    pub reason: DlqReason,
    /// Rendered error message.
    pub error: Seq<u8>,
    /// Task id of the original job.
    pub original_task_id: Seq<u8>,
    /// The original message bytes.
    pub payload: Seq<u8>,
    /// UTC RFC 3339 text of the routing time.
    pub timestamp: Seq<u8>,
}

/// The record written to the dead-letter stream.
#[derive(Debug, Clone)]
pub struct DlqEnvelope {
    /// Rendered attempt counter.
    pub attempts: Vec<u8>,
    /// Broker-reported delivery count at the time of routing.
    pub delivered_count: u64,
    /// Why the job was routed here.
    pub reason: DlqReason,
    /// Rendered error message.
    pub error: Vec<u8>,
    /// Task id of the original job.
    pub original_task_id: Vec<u8>,
    /// The original message bytes.
    pub payload: Vec<u8>,
    /// UTC RFC 3339 text of the routing time.
    pub timestamp: Vec<u8>,
}

impl View for DlqEnvelope {
    type V = DlqModel;

    open spec fn view(&self) -> DlqModel {
        DlqModel {
            attempts: self.attempts@,
            delivered_count: self.delivered_count,
            reason: self.reason,
            error: self.error@,
            original_task_id: self.original_task_id@,
            payload: self.payload@,
            timestamp: self.timestamp@,
        }
    }
}

/// The literal `{"attempts":"` of the DLQ layout.
pub open spec fn dlit_open() -> Seq<u8> {
    seq![123u8, 34u8, 97u8, 116u8, 116u8, 101u8, 109u8, 112u8, 116u8, 115u8, 34u8, 58u8, 34u8]
}

/// The literal `,"delivered_count":` of the DLQ layout.
pub open spec fn dlit_delivered() -> Seq<u8> {
    seq![44u8, 34u8, 100u8, 101u8, 108u8, 105u8, 118u8, 101u8, 114u8, 101u8, 100u8, 95u8, 99u8, 111u8, 117u8, 110u8, 116u8, 34u8, 58u8]
}

/// The literal `,"dlq_reason":"` of the DLQ layout.
pub open spec fn dlit_reason() -> Seq<u8> {
    seq![44u8, 34u8, 100u8, 108u8, 113u8, 95u8, 114u8, 101u8, 97u8, 115u8, 111u8, 110u8, 34u8, 58u8, 34u8]
}

/// The literal `","error":"` of the DLQ layout.
pub open spec fn dlit_error() -> Seq<u8> {
    seq![34u8, 44u8, 34u8, 101u8, 114u8, 114u8, 111u8, 114u8, 34u8, 58u8, 34u8]
}

/// The literal `,"original_task_id":"` of the DLQ layout.
pub open spec fn dlit_task() -> Seq<u8> {
    seq![44u8, 34u8, 111u8, 114u8, 105u8, 103u8, 105u8, 110u8, 97u8, 108u8, 95u8, 116u8, 97u8, 115u8, 107u8, 95u8, 105u8, 100u8, 34u8, 58u8, 34u8]
}

/// The literal `,"payload":"` of the DLQ layout.
pub open spec fn dlit_payload() -> Seq<u8> {
    seq![44u8, 34u8, 112u8, 97u8, 121u8, 108u8, 111u8, 97u8, 100u8, 34u8, 58u8, 34u8]
}

/// The literal `,"timestamp":"` of the DLQ layout.
pub open spec fn dlit_timestamp() -> Seq<u8> {
    seq![44u8, 34u8, 116u8, 105u8, 109u8, 101u8, 115u8, 116u8, 97u8, 109u8, 112u8, 34u8, 58u8, 34u8]
}

/// The literal `}` of the DLQ layout.
pub open spec fn dlit_close() -> Seq<u8> {
    seq![125u8]
}

/// Build the literal `{"attempts":"`.
pub fn dlit_open_vec() -> (v: Vec<u8>)
    ensures
        v@ == dlit_open(),
{
    let mut v: Vec<u8> = Vec::new();
    v.push(123);
    v.push(34);
    v.push(97);
    v.push(116);
    v.push(116);
    v.push(101);
    v.push(109);
    v.push(112);
    v.push(116);
    v.push(115);
    v.push(34);
    v.push(58);
    v.push(34);
    proof {
        assert(v@ =~= dlit_open());
    }
    v
}

/// Build the literal `,"delivered_count":`.
pub fn dlit_delivered_vec() -> (v: Vec<u8>)
    ensures
        v@ == dlit_delivered(),
{
    let mut v: Vec<u8> = Vec::new();
    v.push(44);
    v.push(34);
    v.push(100);
    v.push(101);
    v.push(108);
    v.push(105);
    v.push(118);
    v.push(101);
    v.push(114);
    v.push(101);
    v.push(100);
    v.push(95);
    v.push(99);
    v.push(111);
    v.push(117);
    v.push(110);
    v.push(116);
    v.push(34);
    v.push(58);
    proof {
        assert(v@ =~= dlit_delivered());
    }
    v
}

/// Build the literal `,"dlq_reason":"`.
pub fn dlit_reason_vec() -> (v: Vec<u8>)
    ensures
        v@ == dlit_reason(),
{
    let mut v: Vec<u8> = Vec::new();
    v.push(44);
    v.push(34);
    v.push(100);
    v.push(108);
    v.push(113);
    v.push(95);
    v.push(114);
    v.push(101);
    v.push(97);
    v.push(115);
    v.push(111);
    v.push(110);
    v.push(34);
    v.push(58);
    v.push(34);
    proof {
        assert(v@ =~= dlit_reason());
    }
    v
}

/// Build the literal `","error":"`.
pub fn dlit_error_vec() -> (v: Vec<u8>)
    ensures
        v@ == dlit_error(),
{
    let mut v: Vec<u8> = Vec::new();
    v.push(34);
    v.push(44);
    v.push(34);
    v.push(101);
    v.push(114);
    v.push(114);
    v.push(111);
    v.push(114);
    v.push(34);
    v.push(58);
    v.push(34);
    proof {
        assert(v@ =~= dlit_error());
    }
    v
}

/// Build the literal `,"original_task_id":"`.
pub fn dlit_task_vec() -> (v: Vec<u8>)
    ensures
        v@ == dlit_task(),
{
    let mut v: Vec<u8> = Vec::new();
    v.push(44);
    v.push(34);
    v.push(111);
    v.push(114);
    v.push(105);
    v.push(103);
    v.push(105);
    v.push(110);
    v.push(97);
    v.push(108);
    v.push(95);
    v.push(116);
    v.push(97);
    v.push(115);
    v.push(107);
    v.push(95);
    v.push(105);
    v.push(100);
    v.push(34);
    v.push(58);
    v.push(34);
    proof {
        assert(v@ =~= dlit_task());
    }
    v
}

/// Build the literal `,"payload":"`.
pub fn dlit_payload_vec() -> (v: Vec<u8>)
    ensures
        v@ == dlit_payload(),
{
    let mut v: Vec<u8> = Vec::new();
    v.push(44);
    v.push(34);
    v.push(112);
    v.push(97);
    v.push(121);
    v.push(108);
    v.push(111);
    v.push(97);
    v.push(100);
    v.push(34);
    v.push(58);
    v.push(34);
    proof {
        assert(v@ =~= dlit_payload());
    }
    v
}

/// Build the literal `,"timestamp":"`.
pub fn dlit_timestamp_vec() -> (v: Vec<u8>)
    ensures
        v@ == dlit_timestamp(),
{
    let mut v: Vec<u8> = Vec::new();
    v.push(44);
    v.push(34);
    v.push(116);
    v.push(105);
    v.push(109);
    v.push(101);
    v.push(115);
    v.push(116);
    v.push(97);
    v.push(109);
    v.push(112);
    v.push(34);
    v.push(58);
    v.push(34);
    proof {
        assert(v@ =~= dlit_timestamp());
    }
    v
}

/// Build the literal `}`.
pub fn dlit_close_vec() -> (v: Vec<u8>)
    ensures
        v@ == dlit_close(),
{
    let mut v: Vec<u8> = Vec::new();
    v.push(125);
    proof {
        assert(v@ =~= dlit_close());
    }
    v
}

/// The JSON bytes of one DLQ record: keys in alphabetical order, escaped
/// text fields, decimal delivery count, tagged reason.
pub open spec fn spec_encode_dlq(m: DlqModel) -> Seq<u8> {
    dlit_open() + json_escape(m.attempts) + seq![34u8]
    + dlit_delivered() + dec_u64(m.delivered_count)
    + dlit_reason() + m.reason.name_bytes()
    + dlit_error() + json_escape(m.error) + seq![34u8]
    + dlit_task() + json_escape(m.original_task_id) + seq![34u8]
    + dlit_payload() + json_escape(m.payload) + seq![34u8]
    + dlit_timestamp() + json_escape(m.timestamp) + seq![34u8]
    + dlit_close()
}

/// Read a DLQ reason tag off the front of the input.
pub open spec fn parse_reason(inp: Seq<u8>) -> Option<(DlqReason, Seq<u8>)> {
    match strip_prefix(inp, DlqReason::AbortError.name_bytes()) {
        Some(r) => Some((DlqReason::AbortError, r)),
        None => match strip_prefix(inp, DlqReason::MaxDeliverExceeded.name_bytes()) {
            Some(r) => Some((DlqReason::MaxDeliverExceeded, r)),
            None => None,
        },
    }
}

/// Decode a DLQ record: accept exactly the layout `spec_encode_dlq` writes.
pub open spec fn spec_decode_dlq(inp: Seq<u8>) -> Option<DlqModel> {
    match strip_prefix(inp, dlit_open()) {
        None => None,
        Some(r0) => match parse_jstring(r0) {
            None => None,
            Some(att) => match strip_prefix(att.1, dlit_delivered()) {
                None => None,
                Some(r1) => match parse_u64(r1) {
                    None => None,
                    Some(del) => match strip_prefix(del.1, dlit_reason()) {
                        None => None,
                        Some(r2) => match parse_reason(r2) {
                            None => None,
                            Some(rr) => match strip_prefix(rr.1, dlit_error()) {
                                None => None,
                                Some(r3) => match parse_jstring(r3) {
                                    None => None,
                                    Some(err) => match strip_prefix(err.1, dlit_task()) {
                                        None => None,
                                        Some(r4) => match parse_jstring(r4) {
                                            None => None,
                                            Some(tid) => match strip_prefix(tid.1, dlit_payload()) {
                                                None => None,
                                                Some(r5) => match parse_jstring(r5) {
                                                    None => None,
                                                    Some(pay) => match strip_prefix(pay.1, dlit_timestamp()) {
                                                        None => None,
                                                        Some(r6) => match parse_jstring(r6) {
                                                            None => None,
                                                            Some(ts) => match strip_prefix(ts.1, dlit_close()) {
                                                                None => None,
                                                                Some(r7) => if r7.len() == 0 {
                                                                    Some(DlqModel {
                                                                        attempts: att.0,
                                                                        delivered_count: del.0,
                                                                        reason: rr.0,
                                                                        error: err.0,
                                                                        original_task_id: tid.0,
                                                                        payload: pay.0,
                                                                        timestamp: ts.0,
                                                                    })
                                                                } else {
                                                                    None
                                                                },
                                                            },
                                                        },
                                                    },
                                                },
                                            },
                                        },
                                    },
                                },
                            },
                        },
                    },
                },
            },
        },
    }
}

/// Read a DLQ reason tag starting at `start`, mirroring `parse_reason`.
pub fn parse_reason_exec(inp: &Vec<u8>, start: usize) -> (r: Option<(DlqReason, usize)>)
    requires
        start <= inp@.len(),
    ensures
        r matches Some(pj) ==> pj.1 <= inp@.len() && parse_reason(suffix(inp@, start as int))
            == Some((pj.0, suffix(inp@, pj.1 as int))),
        r is None ==> parse_reason(suffix(inp@, start as int)) is None,
{
    let ab = DlqReason::AbortError.name_ascii();
    if let Some(j) = strip_prefix_exec(inp, start, &ab) {
        return Some((DlqReason::AbortError, j));
    }
    let mx = DlqReason::MaxDeliverExceeded.name_ascii();
    if let Some(j) = strip_prefix_exec(inp, start, &mx) {
        return Some((DlqReason::MaxDeliverExceeded, j));
    }
    None
}

impl DlqEnvelope {
    /// Serialize the record to its JSON bytes.
    pub fn encode(&self) -> (out: Vec<u8>)
        ensures
            out@ == spec_encode_dlq(self@),
    {
        let mut out: Vec<u8> = Vec::new();
        let lit = dlit_open_vec();
        push_bytes(&mut out, &lit);
        push_escaped(&mut out, &self.attempts);
        out.push(34);
        let lit = dlit_delivered_vec();
        push_bytes(&mut out, &lit);
        push_decimal_u64(&mut out, self.delivered_count);
        let lit = dlit_reason_vec();
        push_bytes(&mut out, &lit);
        let rb = self.reason.name_ascii();
        push_bytes(&mut out, &rb);
        let lit = dlit_error_vec();
        push_bytes(&mut out, &lit);
        push_escaped(&mut out, &self.error);
        out.push(34);
        let lit = dlit_task_vec();
        push_bytes(&mut out, &lit);
        push_escaped(&mut out, &self.original_task_id);
        out.push(34);
        let lit = dlit_payload_vec();
        push_bytes(&mut out, &lit);
        push_escaped(&mut out, &self.payload);
        out.push(34);
        let lit = dlit_timestamp_vec();
        push_bytes(&mut out, &lit);
        push_escaped(&mut out, &self.timestamp);
        out.push(34);
        let lit = dlit_close_vec();
        push_bytes(&mut out, &lit);
        proof {
            assert(out@ =~= spec_encode_dlq(self@));
        }
        out
    }

    /// Parse a DLQ record from JSON bytes; refuse anything that is not the
    /// exact layout `spec_encode_dlq` writes.
    pub fn decode(inp: &Vec<u8>) -> (r: Option<DlqEnvelope>)
        ensures
            r matches Some(e) ==> spec_decode_dlq(inp@) == Some(e@),
            r is None ==> spec_decode_dlq(inp@) is None,
    {
        proof {
            assert(suffix(inp@, 0) =~= inp@);
        }
        let lit = dlit_open_vec();
        let j0 = match strip_prefix_exec(inp, 0, &lit) {
            Some(j) => j,
            None => {
                return None;
            },
        };
        let (attempts, j1) = match parse_jstring_exec(inp, j0) {
            Some(sj) => sj,
            None => {
                return None;
            },
        };
        let lit = dlit_delivered_vec();
        let j2 = match strip_prefix_exec(inp, j1, &lit) {
            Some(j) => j,
            None => {
                return None;
            },
        };
        let (delivered, j3) = match parse_u64_exec(inp, j2) {
            Some(vj) => vj,
            None => {
                return None;
            },
        };
        let lit = dlit_reason_vec();
        let j4 = match strip_prefix_exec(inp, j3, &lit) {
            Some(j) => j,
            None => {
                return None;
            },
        };
        let (reason, j5) = match parse_reason_exec(inp, j4) {
            Some(pj) => pj,
            None => {
                return None;
            },
        };
        let lit = dlit_error_vec();
        let j6 = match strip_prefix_exec(inp, j5, &lit) {
            Some(j) => j,
            None => {
                return None;
            },
        };
        let (error, j7) = match parse_jstring_exec(inp, j6) {
            Some(sj) => sj,
            None => {
                return None;
            },
        };
        let lit = dlit_task_vec();
        let j8 = match strip_prefix_exec(inp, j7, &lit) {
            Some(j) => j,
            None => {
                return None;
            },
        };
        let (task_id, j9) = match parse_jstring_exec(inp, j8) {
            Some(sj) => sj,
            None => {
                return None;
            },
        };
        let lit = dlit_payload_vec();
        let j10 = match strip_prefix_exec(inp, j9, &lit) {
            Some(j) => j,
            None => {
                return None;
            },
        };
        let (payload, j11) = match parse_jstring_exec(inp, j10) {
            Some(sj) => sj,
            None => {
                return None;
            },
        };
        let lit = dlit_timestamp_vec();
        let j12 = match strip_prefix_exec(inp, j11, &lit) {
            Some(j) => j,
            None => {
                return None;
            },
        };
        let (timestamp, j13) = match parse_jstring_exec(inp, j12) {
            Some(sj) => sj,
            None => {
                return None;
            },
        };
        let lit = dlit_close_vec();
        let j14 = match strip_prefix_exec(inp, j13, &lit) {
            Some(j) => j,
            None => {
                return None;
            },
        };
        if j14 < inp.len() {
            proof {
                assert(suffix(inp@, j14 as int).len() > 0);
            }
            return None;
        }
        proof {
            assert(suffix(inp@, j14 as int).len() == 0);
        }
        Some(DlqEnvelope {
            attempts,
            delivered_count: delivered,
            reason,
            error,
            original_task_id: task_id,
            payload,
            timestamp,
        })
    }
}

/// Assemble the DLQ record for one failed delivery: the rendered attempt
/// counter is the decimal delivery count, and the timestamp is the clock's
/// RFC 3339 text at the time of routing.
pub fn build_dlq_record(
    task_id: &Vec<u8>,
    error_text: &Vec<u8>,
    delivered: u64,
    payload: &Vec<u8>,
    reason: DlqReason,
) -> (r: DlqEnvelope)
    ensures
        r.original_task_id@ == task_id@,
        r.error@ == error_text@,
        r.delivered_count == delivered,
        r.reason == reason,
        r.payload@ == payload@,
        r.attempts@ == dec_u64(delivered),
        exists|ms: u64| ms <= MAX_RFC3339_MS && r.timestamp@ == rfc3339_of(ms),
{
    let mut attempts: Vec<u8> = Vec::new();
    push_decimal_u64(&mut attempts, delivered);
    let ms = now_millis_clamped();
    let timestamp = format_rfc3339(ms);
    let r = DlqEnvelope {
        attempts,
        delivered_count: delivered,
        reason,
        error: error_text.clone(),
        original_task_id: task_id.clone(),
        payload: payload.clone(),
        timestamp,
    };
    proof {
        assert(ms <= MAX_RFC3339_MS && r.timestamp@ == rfc3339_of(ms));
    }
    r
}

/// Reading a reason tag off the front of later text gives that reason back.
pub proof fn lemma_parse_reason_name(r: DlqReason, rest: Seq<u8>)
    ensures
        parse_reason(r.name_bytes() + rest) == Some((r, rest)),
{
    let inp = r.name_bytes() + rest;
    lemma_strip_prefix_exact(r.name_bytes(), rest);
    match r {
        DlqReason::AbortError => {
        }
        DlqReason::MaxDeliverExceeded => {
            assert(inp[0] == 109);
            if inp.len() >= 11 {
                assert(inp.subrange(0, 11)[0] == 109);
            }
            assert(strip_prefix(inp, DlqReason::AbortError.name_bytes()) is None);
        }
    }
}

/// The encoded record, regrouped so that each field stands in front of all
/// that follows it.
#[verifier::rlimit(100)]
pub proof fn lemma_dlq_regroup(m: DlqModel)
    ensures
        spec_encode_dlq(m) == dlit_open() + (json_escape(m.attempts) + seq![34u8] + (
            dlit_delivered() + (dec_u64(m.delivered_count) + (dlit_reason() + (
            m.reason.name_bytes() + (dlit_error() + (json_escape(m.error) + seq![34u8] + (
            dlit_task() + (json_escape(m.original_task_id) + seq![34u8] + (dlit_payload() + (
            json_escape(m.payload) + seq![34u8] + (dlit_timestamp() + (json_escape(m.timestamp)
            + seq![34u8] + (dlit_close() + Seq::<u8>::empty())))))))))))))),
{
    assert(spec_encode_dlq(m) =~= dlit_open() + (json_escape(m.attempts) + seq![34u8] + (
        dlit_delivered() + (dec_u64(m.delivered_count) + (dlit_reason() + (
        m.reason.name_bytes() + (dlit_error() + (json_escape(m.error) + seq![34u8] + (
        dlit_task() + (json_escape(m.original_task_id) + seq![34u8] + (dlit_payload() + (
        json_escape(m.payload) + seq![34u8] + (dlit_timestamp() + (json_escape(m.timestamp)
        + seq![34u8] + (dlit_close() + Seq::<u8>::empty())))))))))))))));
}

/// Decoding an encoded DLQ record gives the record back.
#[verifier::rlimit(100)]
pub proof fn lemma_dlq_round_trip(m: DlqModel)
    ensures
        spec_decode_dlq(spec_encode_dlq(m)) == Some(m),
{
    let r7: Seq<u8> = Seq::empty();
    let t_close = dlit_close() + r7;
    let t_ts_str = json_escape(m.timestamp) + seq![34u8] + t_close;
    let t_ts = dlit_timestamp() + t_ts_str;
    let t_pay_str = json_escape(m.payload) + seq![34u8] + t_ts;
    let t_pay = dlit_payload() + t_pay_str;
    let t_tid_str = json_escape(m.original_task_id) + seq![34u8] + t_pay;
    let t_tid = dlit_task() + t_tid_str;
    let t_err_str = json_escape(m.error) + seq![34u8] + t_tid;
    let t_err = dlit_error() + t_err_str;
    let t_reason_name = m.reason.name_bytes() + t_err;
    let t_reason = dlit_reason() + t_reason_name;
    let t_del_num = dec_u64(m.delivered_count) + t_reason;
    let t_del = dlit_delivered() + t_del_num;
    let t_att_str = json_escape(m.attempts) + seq![34u8] + t_del;
    let inp = dlit_open() + t_att_str;

    lemma_dlq_regroup(m);
    assert(spec_encode_dlq(m) == inp);

    lemma_strip_prefix_exact(dlit_open(), t_att_str);
    assert(strip_prefix(inp, dlit_open()) == Some(t_att_str));
    lemma_parse_escaped(m.attempts, t_del);
    assert(parse_jstring(t_att_str) == Some((m.attempts, t_del)));
    lemma_strip_prefix_exact(dlit_delivered(), t_del_num);
    assert(strip_prefix(t_del, dlit_delivered()) == Some(t_del_num));
    assert(t_reason[0] == 44 && !is_digit(44));
    lemma_parse_decimal(m.delivered_count, t_reason);
    assert(parse_u64(t_del_num) == Some((m.delivered_count, t_reason)));
    lemma_strip_prefix_exact(dlit_reason(), t_reason_name);
    assert(strip_prefix(t_reason, dlit_reason()) == Some(t_reason_name));
    lemma_parse_reason_name(m.reason, t_err);
    assert(parse_reason(t_reason_name) == Some((m.reason, t_err)));
    lemma_strip_prefix_exact(dlit_error(), t_err_str);
    assert(strip_prefix(t_err, dlit_error()) == Some(t_err_str));
    lemma_parse_escaped(m.error, t_tid);
    assert(parse_jstring(t_err_str) == Some((m.error, t_tid)));
    lemma_strip_prefix_exact(dlit_task(), t_tid_str);
    assert(strip_prefix(t_tid, dlit_task()) == Some(t_tid_str));
    lemma_parse_escaped(m.original_task_id, t_pay);
    assert(parse_jstring(t_tid_str) == Some((m.original_task_id, t_pay)));
    lemma_strip_prefix_exact(dlit_payload(), t_pay_str);
    assert(strip_prefix(t_pay, dlit_payload()) == Some(t_pay_str));
    lemma_parse_escaped(m.payload, t_ts);
    assert(parse_jstring(t_pay_str) == Some((m.payload, t_ts)));
    lemma_strip_prefix_exact(dlit_timestamp(), t_ts_str);
    assert(strip_prefix(t_ts, dlit_timestamp()) == Some(t_ts_str));
    lemma_parse_escaped(m.timestamp, t_close);
    assert(parse_jstring(t_ts_str) == Some((m.timestamp, t_close)));
    lemma_strip_prefix_exact(dlit_close(), r7);
    assert(strip_prefix(t_close, dlit_close()) == Some(r7));
    assert(spec_decode_dlq(inp) == Some(m));
}

/// What a successful reason parse consumed is that reason's tag.
pub proof fn lemma_parse_reason_sound(inp: Seq<u8>, rr: DlqReason, r: Seq<u8>)
    requires
        parse_reason(inp) == Some((rr, r)),
    ensures
        inp =~= rr.name_bytes() + r,
{
    match strip_prefix(inp, DlqReason::AbortError.name_bytes()) {
        Some(r0) => {
            lemma_strip_prefix_sound(inp, DlqReason::AbortError.name_bytes(), r0);
        }
        None => match strip_prefix(inp, DlqReason::MaxDeliverExceeded.name_bytes()) {
            Some(r0) => {
                lemma_strip_prefix_sound(inp, DlqReason::MaxDeliverExceeded.name_bytes(), r0);
            }
            None => {
                assert(false);
            }
        },
    }
}

/// The DLQ decoder accepts only canonical bytes: whatever decodes to a
/// record is exactly that record's encoding.
#[verifier::rlimit(100)]
pub proof fn lemma_dlq_decode_sound(inp: Seq<u8>, m: DlqModel)
    requires
        spec_decode_dlq(inp) == Some(m),
    ensures
        inp =~= spec_encode_dlq(m),
{
    match strip_prefix(inp, dlit_open()) {
        None => {
            assert(false);
        }
        Some(r0) => {
            lemma_strip_prefix_sound(inp, dlit_open(), r0);
            match parse_jstring(r0) {
                None => {
                    assert(false);
                }
                Some(att) => {
                    lemma_parse_jstring_sound(r0, att.0, att.1);
                    match strip_prefix(att.1, dlit_delivered()) {
                        None => {
                            assert(false);
                        }
                        Some(r1) => {
                            lemma_strip_prefix_sound(att.1, dlit_delivered(), r1);
                            match parse_u64(r1) {
                                None => {
                                    assert(false);
                                }
                                Some(del) => {
                                    lemma_parse_u64_sound(r1, del.0, del.1);
                                    match strip_prefix(del.1, dlit_reason()) {
                                        None => {
                                            assert(false);
                                        }
                                        Some(r2) => {
                                            lemma_strip_prefix_sound(del.1, dlit_reason(), r2);
                                            lemma_dlq_decode_sound_mid(inp, m, r2);
                                            lemma_dlq_regroup(m);
                                            assert(inp =~= spec_encode_dlq(m));
                                        }
                                    }
                                }
                            }
                        }
                    }
                }
            }
        }
    }
}

/// The record's bytes after the task id field: payload, timestamp, brace.
pub open spec fn dlq_tail_after_task(m: DlqModel) -> Seq<u8> {
    dlit_payload() + json_escape(m.payload) + seq![34u8] + dlit_timestamp() + json_escape(
        m.timestamp,
    ) + seq![34u8] + dlit_close()
}

/// The record's bytes after the reason tag: error, task id, and the rest.
pub open spec fn dlq_tail_after_reason(m: DlqModel) -> Seq<u8> {
    dlit_error() + json_escape(m.error) + seq![34u8] + dlit_task() + json_escape(
        m.original_task_id,
    ) + seq![34u8] + dlq_tail_after_task(m)
}

/// The middle of the DLQ soundness walk: the reason tag, the error and the
/// task id.
#[verifier::rlimit(100)]
proof fn lemma_dlq_decode_sound_mid(inp: Seq<u8>, m: DlqModel, r2: Seq<u8>)
    requires
        spec_decode_dlq(inp) == Some(m),
        ({
            &&& strip_prefix(inp, dlit_open()) matches Some(r0)
            &&& parse_jstring(r0) matches Some(att)
            &&& strip_prefix(att.1, dlit_delivered()) matches Some(r1)
            &&& parse_u64(r1) matches Some(del)
            &&& strip_prefix(del.1, dlit_reason()) == Some(r2)
        }),
    ensures
        r2 =~= m.reason.name_bytes() + dlq_tail_after_reason(m),
{
    match parse_reason(r2) {
        None => {
            assert(false);
        }
        Some(rr) => {
            lemma_parse_reason_sound(r2, rr.0, rr.1);
            match strip_prefix(rr.1, dlit_error()) {
                None => {
                    assert(false);
                }
                Some(r3) => {
                    lemma_strip_prefix_sound(rr.1, dlit_error(), r3);
                    match parse_jstring(r3) {
                        None => {
                            assert(false);
                        }
                        Some(err) => {
                            lemma_parse_jstring_sound(r3, err.0, err.1);
                            match strip_prefix(err.1, dlit_task()) {
                                None => {
                                    assert(false);
                                }
                                Some(r4) => {
                                    lemma_strip_prefix_sound(err.1, dlit_task(), r4);
                                    match parse_jstring(r4) {
                                        None => {
                                            assert(false);
                                        }
                                        Some(tid) => {
                                            lemma_parse_jstring_sound(r4, tid.0, tid.1);
                                            lemma_dlq_decode_sound_end(inp, m, tid.1);
                                            assert(r2 =~= m.reason.name_bytes()
                                                + dlq_tail_after_reason(m));
                                        }
                                    }
                                }
                            }
                        }
                    }
                }
            }
        }
    }
}

/// The end of the DLQ soundness walk: the payload, the timestamp and the
/// closing brace.
#[verifier::rlimit(100)]
proof fn lemma_dlq_decode_sound_end(inp: Seq<u8>, m: DlqModel, t: Seq<u8>)
    requires
        spec_decode_dlq(inp) == Some(m),
        ({
            &&& strip_prefix(inp, dlit_open()) matches Some(r0)
            &&& parse_jstring(r0) matches Some(att)
            &&& strip_prefix(att.1, dlit_delivered()) matches Some(r1)
            &&& parse_u64(r1) matches Some(del)
            &&& strip_prefix(del.1, dlit_reason()) matches Some(r2)
            &&& parse_reason(r2) matches Some(rr)
            &&& strip_prefix(rr.1, dlit_error()) matches Some(r3)
            &&& parse_jstring(r3) matches Some(err)
            &&& strip_prefix(err.1, dlit_task()) matches Some(r4)
            &&& parse_jstring(r4) matches Some(tid)
            &&& tid.1 == t
        }),
    ensures
        t =~= dlq_tail_after_task(m),
{
    match strip_prefix(t, dlit_payload()) {
        None => {
            assert(false);
        }
        Some(r5) => {
            lemma_strip_prefix_sound(t, dlit_payload(), r5);
            match parse_jstring(r5) {
                None => {
                    assert(false);
                }
                Some(pay) => {
                    lemma_parse_jstring_sound(r5, pay.0, pay.1);
                    match strip_prefix(pay.1, dlit_timestamp()) {
                        None => {
                            assert(false);
                        }
                        Some(r6) => {
                            lemma_strip_prefix_sound(pay.1, dlit_timestamp(), r6);
                            match parse_jstring(r6) {
                                None => {
                                    assert(false);
                                }
                                Some(ts) => {
                                    lemma_parse_jstring_sound(r6, ts.0, ts.1);
                                    match strip_prefix(ts.1, dlit_close()) {
                                        None => {
                                            assert(false);
                                        }
                                        Some(r7) => {
                                            lemma_strip_prefix_sound(ts.1, dlit_close(), r7);
                                            assert(r7.len() == 0);
                                            assert(ts.1 =~= dlit_close());
                                        }
                                    }
                                }
                            }
                        }
                    }
                }
            }
        }
    }
}

} // verus!
