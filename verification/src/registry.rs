//! What a gateway node writes to the node registry: its key, its record, its lease,
//! and the registry's endpoints.

use vstd::prelude::*;
use vstd::string::{StrSliceExecFns, StringExecFns};

verus! {

/// The pieces of `s` between the occurrences of `sep`: one more piece than there are
/// separators, empty pieces included.
pub open spec fn split_on(s: Seq<char>, sep: char) -> Seq<Seq<char>>
    decreases s.len(),
{
    if s.len() == 0 {
        seq![Seq::<char>::empty()]
    } else {
        let init = split_on(s.drop_last(), sep);
        if s.last() == sep {
            init.push(Seq::<char>::empty())
        } else {
            init.update(init.len() - 1, init.last().push(s.last()))
        }
    }
}

proof fn lemma_split_on_nonempty(s: Seq<char>, sep: char)
    ensures
        split_on(s, sep).len() >= 1,
    decreases s.len(),
{
    if s.len() > 0 {
        lemma_split_on_nonempty(s.drop_last(), sep);
    }
}

/// The pieces joined back with `sep` between each two.
pub open spec fn join_with(pieces: Seq<Seq<char>>, sep: char) -> Seq<char>
    decreases pieces.len(),
{
    if pieces.len() == 0 {
        Seq::empty()
    } else if pieces.len() == 1 {
        pieces[0]
    } else {
        join_with(pieces.drop_last(), sep).push(sep) + pieces.last()
    }
}

proof fn lemma_join_extend_last(xs: Seq<Seq<char>>, sep: char, c: char)
    requires
        xs.len() >= 1,
    ensures
        join_with(xs.update(xs.len() - 1, xs.last().push(c)), sep) == join_with(xs, sep).push(c),
{
    let ys = xs.update(xs.len() - 1, xs.last().push(c));
    if xs.len() == 1 {
        assert(ys[0] == xs[0].push(c));
    } else {
        assert(ys.drop_last() =~= xs.drop_last());
        assert(join_with(ys, sep) =~= join_with(xs, sep).push(c));
    }
}

/// Joining the pieces of a split with the separator gives back the text.
pub proof fn law_split_join(s: Seq<char>, sep: char)
    ensures
        join_with(split_on(s, sep), sep) == s,
    decreases s.len(),
{
    if s.len() == 0 {
        assert(join_with(split_on(s, sep), sep) =~= s);
    } else {
        let t = s.drop_last();
        law_split_join(t, sep);
        lemma_split_on_nonempty(t, sep);
        let init = split_on(t, sep);
        if s.last() == sep {
            assert(init.push(Seq::<char>::empty()).drop_last() =~= init);
            assert(join_with(split_on(s, sep), sep) =~= t.push(sep));
        } else {
            lemma_join_extend_last(init, sep, s.last());
        }
        assert(t.push(s.last()) =~= s);
    }
}

/// The registry's endpoints: the pieces of `endpoints` between its commas.
pub fn split_endpoints(endpoints: &str) -> (r: Vec<String>)
    ensures
        r@.map_values(|p: String| p@) == split_on(endpoints@, ','),
{
    let n = endpoints.unicode_len();
    let mut pieces: Vec<String> = Vec::new();
    let mut start: usize = 0;
    let mut i: usize = 0;
    proof {
        assert(endpoints@.take(0) =~= Seq::<char>::empty());
        assert(pieces@.map_values(|p: String| p@).push(endpoints@.subrange(0, 0)) =~= split_on(
            endpoints@.take(0),
            ',',
        ));
    }
    while i < n
        invariant
            n == endpoints@.len(),
            start <= i <= n,
            pieces@.map_values(|p: String| p@).push(endpoints@.subrange(start as int, i as int))
                == split_on(endpoints@.take(i as int), ','),
        decreases n - i,
    {
        let c = endpoints.get_char(i);
        let ghost prev = pieces@.map_values(|p: String| p@);
        proof {
            assert(endpoints@.take(i + 1).drop_last() =~= endpoints@.take(i as int));
            assert(endpoints@.take(i + 1).last() == c);
        }
        if c == ',' {
            let ghost s0 = start;
            let piece = endpoints.substring_char(start, i);
            pieces.push(piece.to_owned());
            start = i + 1;
            proof {
                assert(pieces@.map_values(|p: String| p@) =~= prev.push(
                    endpoints@.subrange(s0 as int, i as int),
                ));
                assert(endpoints@.subrange(start as int, (i + 1) as int) =~= Seq::<char>::empty());
                assert(pieces@.map_values(|p: String| p@).push(
                    endpoints@.subrange(start as int, (i + 1) as int),
                ) =~= split_on(endpoints@.take(i + 1), ','));
            }
        } else {
            proof {
                assert(endpoints@.subrange(start as int, (i + 1) as int) =~= endpoints@.subrange(
                    start as int,
                    i as int,
                ).push(c));
                assert(pieces@.map_values(|p: String| p@).push(
                    endpoints@.subrange(start as int, (i + 1) as int),
                ) =~= split_on(endpoints@.take(i + 1), ','));
            }
        }
        i = i + 1;
    }
    let last = endpoints.substring_char(start, n);
    pieces.push(last.to_owned());
    proof {
        assert(endpoints@.take(n as int) =~= endpoints@);
        assert(pieces@.map_values(|p: String| p@) =~= split_on(endpoints@, ','));
    }
    pieces
}

/// The key under which node `node_id` registers: the service prefix, then the id.
pub fn registry_key(service_prefix: &str, node_id: &str) -> (r: String)
    ensures
        r@ == service_prefix@ + node_id@,
{
    let mut s = String::from_str(service_prefix);
    s.append(node_id);
    s
}

/// The record node `node_id` registers: a JSON object of its id and two empty
/// addresses. The id is written as it is, without escaping.
pub fn build_node_info(node_id: &str) -> (r: String)
    ensures
        r@ == "{\"node_id\":\""@ + node_id@ + "\",\"listen_addr\":\"\",\"grpc_addr\":\"\"}"@,
{
    let mut s = String::from_str("{\"node_id\":\"");
    s.append(node_id);
    s.append("\",\"listen_addr\":\"\",\"grpc_addr\":\"\"}");
    s
}

/// The time to live of the node's lease, in seconds: three heartbeat intervals, each
/// counted in whole seconds.
pub fn lease_ttl(heartbeat_interval_ms: u64) -> (r: i64)
    ensures
        r == (heartbeat_interval_ms / 1000) * 3,
{
    let secs: i64 = (heartbeat_interval_ms / 1000) as i64;
    secs * 3
}

} // verus!
