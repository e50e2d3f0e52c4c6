use vstd::prelude::*;
use crate::json::{json_escape, dec_u64, parse_jstring, parse_u64, strip_prefix, suffix};
use crate::json::{push_escaped, push_decimal_u64, parse_jstring_exec, parse_u64_exec,
    strip_prefix_exec};
use crate::json::{lemma_parse_escaped, lemma_parse_decimal, lemma_strip_prefix_exact, is_digit};
use crate::json::{lemma_parse_jstring_sound, lemma_parse_u64_sound, lemma_strip_prefix_sound};
use crate::priority::Priority;

verus! {

/// The mathematical content of a job envelope: what one job looks like on
/// the wire, with every text field as its bytes.
pub struct EnvelopeModel {
    /// Unique task identifier.
    pub id: Seq<u8>,
    /// User payload, already encoded by the caller's codec.
    pub data: Seq<u8>,
    /// Priority class, immutable once published.
    pub priority: Priority,
    /// Producer-initialized shadow of the delivery count.
    pub attempts: u64,
    /// Producer clock at publish time, milliseconds since the epoch.
    pub created_at_ms: u64,
    /// Namespace of the storage that published the job.
    pub namespace: Seq<u8>,
}

/// The unit persisted on the wire: one job with its metadata.
#[derive(Debug, Clone)]
pub struct JobEnvelope {
    /// Unique task identifier.
    pub id: Vec<u8>,
    /// User payload, already encoded by the caller's codec.
    pub data: Vec<u8>,
    /// Priority class, immutable once published.
    pub priority: Priority,
    /// Producer-initialized shadow of the delivery count.
    pub attempts: u64,
    /// Producer clock at publish time, milliseconds since the epoch.
    pub created_at_ms: u64,
    /// Namespace of the storage that published the job.
    pub namespace: Vec<u8>,
}

impl View for JobEnvelope {
    type V = EnvelopeModel;

    open spec fn view(&self) -> EnvelopeModel {
        EnvelopeModel {
            id: self.id@,
            data: self.data@,
            priority: self.priority,
            attempts: self.attempts,
            created_at_ms: self.created_at_ms,
            namespace: self.namespace@,
        }
    }
}

/// The literal `{"id":"` of the envelope layout.
pub open spec fn lit_open() -> Seq<u8> {
    seq![123u8, 34u8, 105u8, 100u8, 34u8, 58u8, 34u8]
}

/// The literal `,"data":"` of the envelope layout.
pub open spec fn lit_data() -> Seq<u8> {
    seq![44u8, 34u8, 100u8, 97u8, 116u8, 97u8, 34u8, 58u8, 34u8]
}

/// The literal `,"priority":"` of the envelope layout.
pub open spec fn lit_priority() -> Seq<u8> {
    seq![44u8, 34u8, 112u8, 114u8, 105u8, 111u8, 114u8, 105u8, 116u8, 121u8, 34u8, 58u8, 34u8]
}

/// The literal `","attempts":` of the envelope layout.
pub open spec fn lit_attempts() -> Seq<u8> {
    seq![34u8, 44u8, 34u8, 97u8, 116u8, 116u8, 101u8, 109u8, 112u8, 116u8, 115u8, 34u8, 58u8]
}

/// The literal `,"created_at":` of the envelope layout.
pub open spec fn lit_created() -> Seq<u8> {
    seq![44u8, 34u8, 99u8, 114u8, 101u8, 97u8, 116u8, 101u8, 100u8, 95u8, 97u8, 116u8, 34u8, 58u8]
}

/// The literal `,"namespace":"` of the envelope layout.
pub open spec fn lit_namespace() -> Seq<u8> {
    seq![44u8, 34u8, 110u8, 97u8, 109u8, 101u8, 115u8, 112u8, 97u8, 99u8, 101u8, 34u8, 58u8, 34u8]
}

/// The literal `}` of the envelope layout.
pub open spec fn lit_close() -> Seq<u8> {
    seq![125u8]
}

/// Build the literal `{"id":"`.
pub fn lit_open_vec() -> (v: Vec<u8>)
    ensures
        v@ == lit_open(),
{
    let mut v: Vec<u8> = Vec::new();
    v.push(123);
    v.push(34);
    v.push(105);
    v.push(100);
    v.push(34);
    v.push(58);
    v.push(34);
    proof {
        assert(v@ =~= lit_open());
    }
    v
}

/// Build the literal `,"data":"`.
pub fn lit_data_vec() -> (v: Vec<u8>)
    ensures
        v@ == lit_data(),
{
    let mut v: Vec<u8> = Vec::new();
    v.push(44);
    v.push(34);
    v.push(100);
    v.push(97);
    v.push(116);
    v.push(97);
    v.push(34);
    v.push(58);
    v.push(34);
    proof {
        assert(v@ =~= lit_data());
    }
    v
}

/// Build the literal `,"priority":"`.
pub fn lit_priority_vec() -> (v: Vec<u8>)
    ensures
        v@ == lit_priority(),
{
    let mut v: Vec<u8> = Vec::new();
    v.push(44);
    v.push(34);
    v.push(112);
    v.push(114);
    v.push(105);
    v.push(111);
    v.push(114);
    v.push(105);
    v.push(116);
    v.push(121);
    v.push(34);
    v.push(58);
    v.push(34);
    proof {
        assert(v@ =~= lit_priority());
    }
    v
}

/// Build the literal `","attempts":`.
pub fn lit_attempts_vec() -> (v: Vec<u8>)
    ensures
        v@ == lit_attempts(),
{
    let mut v: Vec<u8> = Vec::new();
    v.push(34);
    v.push(44);
    v.push(34);
    v.push(97);
    v.push(116);
    v.push(116);
    v.push(101);
    v.push(109);
    v.push(112);
    v.push(116);
    v.push(115);
    v.push(34);
    v.push(58);
    proof {
        assert(v@ =~= lit_attempts());
    }
    v
}

/// Build the literal `,"created_at":`.
pub fn lit_created_vec() -> (v: Vec<u8>)
    ensures
        v@ == lit_created(),
{
    let mut v: Vec<u8> = Vec::new();
    v.push(44);
    v.push(34);
    v.push(99);
    v.push(114);
    v.push(101);
    v.push(97);
    v.push(116);
    v.push(101);
    v.push(100);
    v.push(95);
    v.push(97);
    v.push(116);
    v.push(34);
    v.push(58);
    proof {
        assert(v@ =~= lit_created());
    }
    v
}

/// Build the literal `,"namespace":"`.
pub fn lit_namespace_vec() -> (v: Vec<u8>)
    ensures
        v@ == lit_namespace(),
{
    let mut v: Vec<u8> = Vec::new();
    v.push(44);
    v.push(34);
    v.push(110);
    v.push(97);
    v.push(109);
    v.push(101);
    v.push(115);
    v.push(112);
    v.push(97);
    v.push(99);
    v.push(101);
    v.push(34);
    v.push(58);
    v.push(34);
    proof {
        assert(v@ =~= lit_namespace());
    }
    v
}

/// Build the literal `}`.
pub fn lit_close_vec() -> (v: Vec<u8>)
    ensures
        v@ == lit_close(),
{
    let mut v: Vec<u8> = Vec::new();
    v.push(125);
    proof {
        assert(v@ =~= lit_close());
    }
    v
}

/// The JSON bytes of one envelope: fixed key order, escaped text fields,
/// lowercase priority, decimal counters.
pub open spec fn spec_encode(m: EnvelopeModel) -> Seq<u8> {
    lit_open() + json_escape(m.id) + seq![34u8]
    + lit_data() + json_escape(m.data) + seq![34u8]
    + lit_priority() + m.priority.name_bytes()
    + lit_attempts() + dec_u64(m.attempts)
    + lit_created() + dec_u64(m.created_at_ms)
    + lit_namespace() + json_escape(m.namespace) + seq![34u8]
    + lit_close()
}

/// Read a priority name off the front of the input.
pub open spec fn parse_priority(inp: Seq<u8>) -> Option<(Priority, Seq<u8>)> {
    match strip_prefix(inp, Priority::High.name_bytes()) {
        Some(r) => Some((Priority::High, r)),
        None => match strip_prefix(inp, Priority::Medium.name_bytes()) {
            Some(r) => Some((Priority::Medium, r)),
            None => match strip_prefix(inp, Priority::Low.name_bytes()) {
                Some(r) => Some((Priority::Low, r)),
                None => None,
            },
        },
    }
}

/// Decode an envelope: accept exactly the layout `spec_encode` writes.
pub open spec fn spec_decode(inp: Seq<u8>) -> Option<EnvelopeModel> {
    match strip_prefix(inp, lit_open()) {
        None => None,
        Some(r0) => match parse_jstring(r0) {
            None => None,
            Some(idr) => match strip_prefix(idr.1, lit_data()) {
                None => None,
                Some(r1) => match parse_jstring(r1) {
                    None => None,
                    Some(datar) => match strip_prefix(datar.1, lit_priority()) {
                        None => None,
                        Some(r2) => match parse_priority(r2) {
                            None => None,
                            Some(pr) => match strip_prefix(pr.1, lit_attempts()) {
                                None => None,
                                Some(r3) => match parse_u64(r3) {
                                    None => None,
                                    Some(ar) => match strip_prefix(ar.1, lit_created()) {
                                        None => None,
                                        Some(r4) => match parse_u64(r4) {
                                            None => None,
                                            Some(cr) => match strip_prefix(cr.1, lit_namespace()) {
                                                None => None,
                                                Some(nsr0) => match parse_jstring(nsr0) {
                                                    None => None,
                                                    Some(nsr) => match strip_prefix(nsr.1, lit_close()) {
                                                        None => None,
                                                        Some(r6) => if r6.len() == 0 {
                                                            Some(EnvelopeModel {
                                                                id: idr.0,
                                                                data: datar.0,
                                                                priority: pr.0,
                                                                attempts: ar.0,
                                                                created_at_ms: cr.0,
                                                                namespace: nsr.0,
                                                            })
                                                        } else {
                                                            None
                                                        },
                                                    },
                                                },
                                            },
                                        },
                                    },
                                },
                            },
                        },
                    },
                },
            },
        },
    }
}

/// Append the bytes of `src`.
pub fn push_bytes(out: &mut Vec<u8>, src: &Vec<u8>)
    ensures
        final(out)@ == old(out)@ + src@,
{
    let mut i: usize = 0;
    while i < src.len()
        invariant
            i <= src.len(),
            out@ == old(out)@ + src@.subrange(0, i as int),
        decreases src.len() - i,
    {
        out.push(src[i]);
        proof {
            assert(out@ =~= old(out)@ + src@.subrange(0, i + 1 as int));
        }
        i = i + 1;
    }
    proof {
        assert(src@.subrange(0, src@.len() as int) =~= src@);
    }
}

/// Read a priority name starting at `start`, mirroring `parse_priority`.
pub fn parse_priority_exec(inp: &Vec<u8>, start: usize) -> (r: Option<(Priority, usize)>)
    requires
        start <= inp@.len(),
    ensures
        r matches Some(pj) ==> pj.1 <= inp@.len() && parse_priority(suffix(inp@, start as int))
            == Some((pj.0, suffix(inp@, pj.1 as int))),
        r is None ==> parse_priority(suffix(inp@, start as int)) is None,
{
    let hi = Priority::High.name_ascii();
    if let Some(j) = strip_prefix_exec(inp, start, &hi) {
        return Some((Priority::High, j));
    }
    let me = Priority::Medium.name_ascii();
    if let Some(j) = strip_prefix_exec(inp, start, &me) {
        return Some((Priority::Medium, j));
    }
    let lo = Priority::Low.name_ascii();
    if let Some(j) = strip_prefix_exec(inp, start, &lo) {
        return Some((Priority::Low, j));
    }
    None
}

impl JobEnvelope {
    /// Serialize the envelope to its JSON bytes.
    pub fn encode(&self) -> (out: Vec<u8>)
        ensures
            out@ == spec_encode(self@),
    {
        let mut out: Vec<u8> = Vec::new();
        let lit = lit_open_vec();
        push_bytes(&mut out, &lit);
        push_escaped(&mut out, &self.id);
        out.push(34);
        let lit = lit_data_vec();
        push_bytes(&mut out, &lit);
        push_escaped(&mut out, &self.data);
        out.push(34);
        let lit = lit_priority_vec();
        push_bytes(&mut out, &lit);
        let pb = self.priority.name_ascii();
        push_bytes(&mut out, &pb);
        let lit = lit_attempts_vec();
        push_bytes(&mut out, &lit);
        push_decimal_u64(&mut out, self.attempts);
        let lit = lit_created_vec();
        push_bytes(&mut out, &lit);
        push_decimal_u64(&mut out, self.created_at_ms);
        let lit = lit_namespace_vec();
        push_bytes(&mut out, &lit);
        push_escaped(&mut out, &self.namespace);
        out.push(34);
        let lit = lit_close_vec();
        push_bytes(&mut out, &lit);
        proof {
            assert(out@ =~= spec_encode(self@));
        }
        out
    }

    /// Parse an envelope from JSON bytes; refuse anything that is not the
    /// exact layout `spec_encode` writes.
    pub fn decode(inp: &Vec<u8>) -> (r: Option<JobEnvelope>)
        ensures
            r matches Some(e) ==> spec_decode(inp@) == Some(e@),
            r is None ==> spec_decode(inp@) is None,
    {
        proof {
            assert(suffix(inp@, 0) =~= inp@);
        }
        let lit = lit_open_vec();
        let j0 = match strip_prefix_exec(inp, 0, &lit) {
            Some(j) => j,
            None => {
                return None;
            },
        };
        let (id, j1) = match parse_jstring_exec(inp, j0) {
            Some(sj) => sj,
            None => {
                return None;
            },
        };
        let lit = lit_data_vec();
        let j2 = match strip_prefix_exec(inp, j1, &lit) {
            Some(j) => j,
            None => {
                return None;
            },
        };
        let (data, j3) = match parse_jstring_exec(inp, j2) {
            Some(sj) => sj,
            None => {
                return None;
            },
        };
        let lit = lit_priority_vec();
        let j4 = match strip_prefix_exec(inp, j3, &lit) {
            Some(j) => j,
            None => {
                return None;
            },
        };
        let (prio, j5) = match parse_priority_exec(inp, j4) {
            Some(pj) => pj,
            None => {
                return None;
            },
        };
        let lit = lit_attempts_vec();
        let j6 = match strip_prefix_exec(inp, j5, &lit) {
            Some(j) => j,
            None => {
                return None;
            },
        };
        let (attempts, j7) = match parse_u64_exec(inp, j6) {
            Some(vj) => vj,
            None => {
                return None;
            },
        };
        let lit = lit_created_vec();
        let j8 = match strip_prefix_exec(inp, j7, &lit) {
            Some(j) => j,
            None => {
                return None;
            },
        };
        let (created, j9) = match parse_u64_exec(inp, j8) {
            Some(vj) => vj,
            None => {
                return None;
            },
        };
        let lit = lit_namespace_vec();
        let j10 = match strip_prefix_exec(inp, j9, &lit) {
            Some(j) => j,
            None => {
                return None;
            },
        };
        let (namespace, j11) = match parse_jstring_exec(inp, j10) {
            Some(sj) => sj,
            None => {
                return None;
            },
        };
        let lit = lit_close_vec();
        let j12 = match strip_prefix_exec(inp, j11, &lit) {
            Some(j) => j,
            None => {
                return None;
            },
        };
        if j12 < inp.len() {
            proof {
                assert(suffix(inp@, j12 as int).len() > 0);
            }
            return None;
        }
        proof {
            assert(suffix(inp@, j12 as int).len() == 0);
        }
        Some(JobEnvelope {
            id,
            data,
            priority: prio,
            attempts,
            created_at_ms: created,
            namespace,
        })
    }
}

/// Reading a priority name off the front of later text gives that priority
/// back: the names are prefix-free against the layout that follows them.
pub proof fn lemma_parse_priority_name(p: Priority, rest: Seq<u8>)
    ensures
        parse_priority(p.name_bytes() + rest) == Some((p, rest)),
{
    let inp = p.name_bytes() + rest;
    lemma_strip_prefix_exact(p.name_bytes(), rest);
    match p {
        Priority::High => {
        }
        Priority::Medium => {
            assert(inp[0] == 109);
            if inp.len() >= 4 {
                assert(inp.subrange(0, 4)[0] == 109);
            }
            assert(strip_prefix(inp, Priority::High.name_bytes()) is None);
        }
        Priority::Low => {
            assert(inp[0] == 108);
            if inp.len() >= 4 {
                assert(inp.subrange(0, 4)[0] == 108);
            }
            assert(strip_prefix(inp, Priority::High.name_bytes()) is None);
            if inp.len() >= 6 {
                assert(inp.subrange(0, 6)[0] == 108);
            }
            assert(strip_prefix(inp, Priority::Medium.name_bytes()) is None);
        }
    }
}

/// Decoding an encoded envelope gives the envelope back.
#[verifier::rlimit(100)]
pub proof fn lemma_codec_round_trip(m: EnvelopeModel)
    ensures
        spec_decode(spec_encode(m)) == Some(m),
{
    let r6: Seq<u8> = Seq::empty();
    let t_close = lit_close() + r6;
    let t_ns_str = json_escape(m.namespace) + seq![34u8] + t_close;
    let t_ns = lit_namespace() + t_ns_str;
    let t_created_num = dec_u64(m.created_at_ms) + t_ns;
    let t_created = lit_created() + t_created_num;
    let t_att_num = dec_u64(m.attempts) + t_created;
    let t_att = lit_attempts() + t_att_num;
    let t_prio_name = m.priority.name_bytes() + t_att;
    let t_prio = lit_priority() + t_prio_name;
    let t_data_str = json_escape(m.data) + seq![34u8] + t_prio;
    let t_data = lit_data() + t_data_str;
    let t_id_str = json_escape(m.id) + seq![34u8] + t_data;
    let inp = lit_open() + t_id_str;

    assert(spec_encode(m) =~= inp);

    lemma_strip_prefix_exact(lit_open(), t_id_str);
    assert(t_id_str =~= json_escape(m.id) + seq![34u8] + t_data);
    lemma_parse_escaped(m.id, t_data);
    lemma_strip_prefix_exact(lit_data(), t_data_str);
    lemma_parse_escaped(m.data, t_prio);
    lemma_strip_prefix_exact(lit_priority(), t_prio_name);
    lemma_parse_priority_name(m.priority, t_att);
    lemma_strip_prefix_exact(lit_attempts(), t_att_num);
    assert(t_created[0] == 44 && !is_digit(44));
    lemma_parse_decimal(m.attempts, t_created);
    lemma_strip_prefix_exact(lit_created(), t_created_num);
    assert(t_ns[0] == 44 && !is_digit(44));
    lemma_parse_decimal(m.created_at_ms, t_ns);
    lemma_strip_prefix_exact(lit_namespace(), t_ns_str);
    lemma_parse_escaped(m.namespace, t_close);
    lemma_strip_prefix_exact(lit_close(), r6);
    assert(spec_decode(inp) == Some(m));
}

/// What a successful priority parse consumed is that priority's name.
pub proof fn lemma_parse_priority_sound(inp: Seq<u8>, p: Priority, r: Seq<u8>)
    requires
        parse_priority(inp) == Some((p, r)),
    ensures
        inp =~= p.name_bytes() + r,
{
    match strip_prefix(inp, Priority::High.name_bytes()) {
        Some(r0) => {
            lemma_strip_prefix_sound(inp, Priority::High.name_bytes(), r0);
        }
        None => match strip_prefix(inp, Priority::Medium.name_bytes()) {
            Some(r0) => {
                lemma_strip_prefix_sound(inp, Priority::Medium.name_bytes(), r0);
            }
            None => match strip_prefix(inp, Priority::Low.name_bytes()) {
                Some(r0) => {
                    lemma_strip_prefix_sound(inp, Priority::Low.name_bytes(), r0);
                }
                None => {
                    assert(false);
                }
            },
        },
    }
}

/// The envelope's bytes after the priority name: counters, namespace,
/// closing brace.
pub open spec fn env_tail_after_priority(m: EnvelopeModel) -> Seq<u8> {
    lit_attempts() + dec_u64(m.attempts) + lit_created() + dec_u64(m.created_at_ms)
        + lit_namespace() + json_escape(m.namespace) + seq![34u8] + lit_close()
}

/// The encoded envelope, regrouped so that each field stands in front of
/// all that follows it.
#[verifier::rlimit(100)]
pub proof fn lemma_env_regroup(m: EnvelopeModel)
    ensures
        spec_encode(m) == lit_open() + (json_escape(m.id) + seq![34u8] + (lit_data() + (
        json_escape(m.data) + seq![34u8] + (lit_priority() + (m.priority.name_bytes()
            + env_tail_after_priority(m)))))),
{
    assert(spec_encode(m) =~= lit_open() + (json_escape(m.id) + seq![34u8] + (lit_data() + (
        json_escape(m.data) + seq![34u8] + (lit_priority() + (m.priority.name_bytes()
            + env_tail_after_priority(m)))))));
}

/// The decoder accepts only canonical bytes: whatever decodes to an
/// envelope is exactly that envelope's encoding.
#[verifier::rlimit(100)]
pub proof fn lemma_decode_sound(inp: Seq<u8>, m: EnvelopeModel)
    requires
        spec_decode(inp) == Some(m),
    ensures
        inp =~= spec_encode(m),
{
    match strip_prefix(inp, lit_open()) {
        None => {
            assert(false);
        }
        Some(r0) => {
            lemma_strip_prefix_sound(inp, lit_open(), r0);
            match parse_jstring(r0) {
                None => {
                    assert(false);
                }
                Some(idr) => {
                    lemma_parse_jstring_sound(r0, idr.0, idr.1);
                    match strip_prefix(idr.1, lit_data()) {
                        None => {
                            assert(false);
                        }
                        Some(r1) => {
                            lemma_strip_prefix_sound(idr.1, lit_data(), r1);
                            match parse_jstring(r1) {
                                None => {
                                    assert(false);
                                }
                                Some(datar) => {
                                    lemma_parse_jstring_sound(r1, datar.0, datar.1);
                                    match strip_prefix(datar.1, lit_priority()) {
                                        None => {
                                            assert(false);
                                        }
                                        Some(r2) => {
                                            lemma_strip_prefix_sound(
                                                datar.1,
                                                lit_priority(),
                                                r2,
                                            );
                                            lemma_decode_sound_tail(inp, m, r2);
                                            lemma_env_regroup(m);
                                            assert(inp =~= spec_encode(m));
                                        }
                                    }
                                }
                            }
                        }
                    }
                }
            }
        }
    }
}

/// The tail of the soundness walk: from the priority name to the closing
/// brace.
#[verifier::rlimit(100)]
proof fn lemma_decode_sound_tail(inp: Seq<u8>, m: EnvelopeModel, r2: Seq<u8>)
    requires
        spec_decode(inp) == Some(m),
        ({
            &&& strip_prefix(inp, lit_open()) matches Some(r0)
            &&& parse_jstring(r0) matches Some(idr)
            &&& strip_prefix(idr.1, lit_data()) matches Some(r1)
            &&& parse_jstring(r1) matches Some(datar)
            &&& strip_prefix(datar.1, lit_priority()) == Some(r2)
        }),
    ensures
        r2 =~= m.priority.name_bytes() + env_tail_after_priority(m),
{
    match parse_priority(r2) {
        None => {
            assert(false);
        }
        Some(pr) => {
            lemma_parse_priority_sound(r2, pr.0, pr.1);
            match strip_prefix(pr.1, lit_attempts()) {
                None => {
                    assert(false);
                }
                Some(r3) => {
                    lemma_strip_prefix_sound(pr.1, lit_attempts(), r3);
                    match parse_u64(r3) {
                        None => {
                            assert(false);
                        }
                        Some(ar) => {
                            lemma_parse_u64_sound(r3, ar.0, ar.1);
                            match strip_prefix(ar.1, lit_created()) {
                                None => {
                                    assert(false);
                                }
                                Some(r4) => {
                                    lemma_strip_prefix_sound(ar.1, lit_created(), r4);
                                    match parse_u64(r4) {
                                        None => {
                                            assert(false);
                                        }
                                        Some(cr) => {
                                            lemma_parse_u64_sound(r4, cr.0, cr.1);
                                            match strip_prefix(cr.1, lit_namespace()) {
                                                None => {
                                                    assert(false);
                                                }
                                                Some(nsr0) => {
                                                    lemma_strip_prefix_sound(
                                                        cr.1,
                                                        lit_namespace(),
                                                        nsr0,
                                                    );
                                                    match parse_jstring(nsr0) {
                                                        None => {
                                                            assert(false);
                                                        }
                                                        Some(nsr) => {
                                                            lemma_parse_jstring_sound(
                                                                nsr0,
                                                                nsr.0,
                                                                nsr.1,
                                                            );
                                                            match strip_prefix(
                                                                nsr.1,
                                                                lit_close(),
                                                            ) {
                                                                None => {
                                                                    assert(false);
                                                                }
                                                                Some(r6) => {
                                                                    lemma_strip_prefix_sound(
                                                                        nsr.1,
                                                                        lit_close(),
                                                                        r6,
                                                                    );
                                                                    assert(r6.len() == 0);
                                                                    assert(nsr.1 =~= lit_close());
                                                                }
                                                            }
                                                        }
                                                    }
                                                }
                                            }
                                        }
                                    }
                                }
                            }
                        }
                    }
                }
            }
        }
    }
}

/// The encoding is injective: two envelopes with the same bytes are the
/// same envelope.
pub proof fn lemma_encode_injective(a: EnvelopeModel, b: EnvelopeModel)
    requires
        spec_encode(a) == spec_encode(b),
    ensures
        a == b,
{
    lemma_codec_round_trip(a);
    lemma_codec_round_trip(b);
}

} // verus!
