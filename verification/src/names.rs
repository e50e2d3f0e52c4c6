use vstd::prelude::*;
use crate::priority::Priority;
use crate::codec::push_bytes;

verus! {

/// The stream name for one priority: `{ns}_{priority}`.
pub open spec fn stream_name_of(ns: Seq<u8>, p: Priority) -> Seq<u8> {
    ns + seq![95u8] + p.name_bytes()
}

/// The subject for one priority: `{ns}.{priority}`.
pub open spec fn subject_of(ns: Seq<u8>, p: Priority) -> Seq<u8> {
    ns + seq![46u8] + p.name_bytes()
}

/// The shared durable consumer name for one priority: `{ns}_{priority}_consumer`.
pub open spec fn consumer_name_of(ns: Seq<u8>, p: Priority) -> Seq<u8> {
    ns + seq![95u8] + p.name_bytes() + seq![
        95u8,
        99u8,
        111u8,
        110u8,
        115u8,
        117u8,
        109u8,
        101u8,
        114u8,
    ]
}

/// The dead-letter stream name: `{ns}_dlq`.
pub open spec fn dlq_stream_name_of(ns: Seq<u8>) -> Seq<u8> {
    ns + seq![95u8, 100u8, 108u8, 113u8]
}

/// The dead-letter subject: `{ns}.dlq`.
pub open spec fn dlq_subject_of(ns: Seq<u8>) -> Seq<u8> {
    ns + seq![46u8, 100u8, 108u8, 113u8]
}

/// Build the stream name for a priority.
pub fn stream_name(ns: &Vec<u8>, p: Priority) -> (r: Vec<u8>)
    ensures
        r@ == stream_name_of(ns@, p),
{
    let mut out: Vec<u8> = Vec::new();
    push_bytes(&mut out, ns);
    out.push(95);
    let pb = p.name_ascii();
    push_bytes(&mut out, &pb);
    proof {
        assert(out@ =~= stream_name_of(ns@, p));
    }
    out
}

/// Build the subject for a priority.
pub fn subject(ns: &Vec<u8>, p: Priority) -> (r: Vec<u8>)
    ensures
        r@ == subject_of(ns@, p),
{
    let mut out: Vec<u8> = Vec::new();
    push_bytes(&mut out, ns);
    out.push(46);
    let pb = p.name_ascii();
    push_bytes(&mut out, &pb);
    proof {
        assert(out@ =~= subject_of(ns@, p));
    }
    out
}

/// Build the shared durable consumer name for a priority.
pub fn consumer_name(ns: &Vec<u8>, p: Priority) -> (r: Vec<u8>)
    ensures
        r@ == consumer_name_of(ns@, p),
{
    let mut out: Vec<u8> = Vec::new();
    push_bytes(&mut out, ns);
    out.push(95);
    let pb = p.name_ascii();
    push_bytes(&mut out, &pb);
    out.push(95);
    out.push(99);
    out.push(111);
    out.push(110);
    out.push(115);
    out.push(117);
    out.push(109);
    out.push(101);
    out.push(114);
    proof {
        assert(out@ =~= consumer_name_of(ns@, p));
    }
    out
}

/// Build the dead-letter stream name.
pub fn dlq_stream_name(ns: &Vec<u8>) -> (r: Vec<u8>)
    ensures
        r@ == dlq_stream_name_of(ns@),
{
    let mut out: Vec<u8> = Vec::new();
    push_bytes(&mut out, ns);
    out.push(95);
    out.push(100);
    out.push(108);
    out.push(113);
    proof {
        assert(out@ =~= dlq_stream_name_of(ns@));
    }
    out
}

/// Build the dead-letter subject.
pub fn dlq_subject(ns: &Vec<u8>) -> (r: Vec<u8>)
    ensures
        r@ == dlq_subject_of(ns@),
{
    let mut out: Vec<u8> = Vec::new();
    push_bytes(&mut out, ns);
    out.push(46);
    out.push(100);
    out.push(108);
    out.push(113);
    proof {
        assert(out@ =~= dlq_subject_of(ns@));
    }
    out
}

} // verus!
