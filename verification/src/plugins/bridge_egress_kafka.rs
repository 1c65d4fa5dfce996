//! The bridge that forwards publishes to Kafka: what it is told to do,
//! and what it tells of the producers it runs.

use vstd::prelude::*;

verus! {

/// What the bridge is told to do.
#[derive(Clone, Copy, Debug, PartialEq, Eq, Structural)]
pub enum Command {
    Start,
    Close,
}

/// The producers of one entry of one bridge, by their client ids.
#[derive(Debug, PartialEq, Eq)]
pub struct Sink {
    pub bridge_name: String,
    pub entry_idx: usize,
    pub producers: Vec<String>,
}

/// What the bridge tells of one producer.
#[derive(Debug, PartialEq, Eq)]
pub struct ProducerAttr {
    pub client_id: String,
    pub name: String,
    pub entry_idx: usize,
    pub client_no: usize,
}

/// What is told of the producer at place `client_no` of a sink.
pub open spec fn attr_of(sink: Sink, client_no: int) -> ProducerAttr {
    ProducerAttr {
        client_id: sink.producers@[client_no],
        name: sink.bridge_name,
        entry_idx: sink.entry_idx,
        client_no: client_no as usize,
    }
}

/// What is told of the first `n` producers of a sink, in their order.
pub open spec fn attrs_of(sink: Sink, n: int) -> Seq<ProducerAttr> {
    Seq::new(n as nat, |i: int| attr_of(sink, i))
}

/// What is told of the producers of the first `n` sinks: sink by sink,
/// and within a sink producer by producer.
pub open spec fn attrs_upto(sinks: Seq<Sink>, n: int) -> Seq<ProducerAttr>
    decreases n,
{
    if n <= 0 {
        Seq::empty()
    } else {
        attrs_upto(sinks, n - 1) + attrs_of(sinks[n - 1], sinks[n - 1].producers@.len() as int)
    }
}

/// What the bridge tells of its producers: for each the client id, the
/// name of the bridge, the entry it serves and its number among the
/// producers of that entry.
pub fn producer_attrs(sinks: &Vec<Sink>) -> (r: Vec<ProducerAttr>)
    ensures
        r@ == attrs_upto(sinks@, sinks@.len() as int),
{
    let mut out: Vec<ProducerAttr> = Vec::new();
    let mut i: usize = 0;
    while i < sinks.len()
        invariant
            i <= sinks.len(),
            out@ == attrs_upto(sinks@, i as int),
        decreases sinks.len() - i,
    {
        let sink = &sinks[i];
        let ghost done = out@;
        let mut j: usize = 0;
        while j < sink.producers.len()
            invariant
                j <= sink.producers.len(),
                out@ == done + attrs_of(*sink, j as int),
            decreases sink.producers.len() - j,
        {
            out.push(
                ProducerAttr {
                    client_id: sink.producers[j].clone(),
                    name: sink.bridge_name.clone(),
                    entry_idx: sink.entry_idx,
                    client_no: j,
                },
            );
            proof {
                assert(attrs_of(*sink, j + 1) =~= attrs_of(*sink, j as int).push(
                    attr_of(*sink, j as int),
                ));
                assert(out@ =~= done + attrs_of(*sink, j + 1));
            }
            j = j + 1;
        }
        proof {
            assert(done + attrs_of(*sink, 0) =~= done);
        }
        i = i + 1;
    }
    out
}

} // verus!
