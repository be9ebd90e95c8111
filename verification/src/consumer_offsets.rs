use vstd::prelude::*;
use vstd::string::StringExecFns;

verus! {

/// Snapshot of one consumer's committed position, recomputed fresh on each
/// query; never a live reference into the offset table.
#[derive(Clone, Copy, Debug, PartialEq, Eq, Structural)]
pub struct ConsumerOffsetInfo {
    pub stream_id: u64,
    pub topic_id: u64,
    pub consumer_id: u64,
    pub offset: u64,
}

/// Resource path of the consumer-offset operations for one topic, as used
/// by the request/response transport.
pub fn get_path(stream_id: &str, topic_id: &str) -> (p: String)
    ensures
        p@ == "streams/"@ + stream_id@ + "/topics/"@ + topic_id@ + "/consumer-offsets"@,
{
    String::from_str("streams/").concat(stream_id).concat("/topics/").concat(topic_id).concat(
        "/consumer-offsets",
    )
}

/// The character of one decimal digit.
pub open spec fn digit_char(d: int) -> char
    recommends
        0 <= d < 10,
{
    if d == 0 {
        '0'
    } else if d == 1 {
        '1'
    } else if d == 2 {
        '2'
    } else if d == 3 {
        '3'
    } else if d == 4 {
        '4'
    } else if d == 5 {
        '5'
    } else if d == 6 {
        '6'
    } else if d == 7 {
        '7'
    } else if d == 8 {
        '8'
    } else {
        '9'
    }
}

/// The decimal notation of a number: most significant digit first, no
/// leading zeros, and a single zero for zero itself.
pub open spec fn spec_decimal(n: nat) -> Seq<char>
    decreases n,
{
    if n < 10 {
        seq![digit_char(n as int)]
    } else {
        spec_decimal(n / 10).push(digit_char((n % 10) as int))
    }
}

/// One decimal digit as a string.
fn digit_str(d: u64) -> (s: String)
    requires
        d < 10,
    ensures
        s@ =~= seq![digit_char(d as int)],
{
    proof {
        reveal_strlit("0");
        reveal_strlit("1");
        reveal_strlit("2");
        reveal_strlit("3");
        reveal_strlit("4");
        reveal_strlit("5");
        reveal_strlit("6");
        reveal_strlit("7");
        reveal_strlit("8");
        reveal_strlit("9");
    }
    if d == 0 {
        String::from_str("0")
    } else if d == 1 {
        String::from_str("1")
    } else if d == 2 {
        String::from_str("2")
    } else if d == 3 {
        String::from_str("3")
    } else if d == 4 {
        String::from_str("4")
    } else if d == 5 {
        String::from_str("5")
    } else if d == 6 {
        String::from_str("6")
    } else if d == 7 {
        String::from_str("7")
    } else if d == 8 {
        String::from_str("8")
    } else {
        String::from_str("9")
    }
}

/// Writes a number in decimal, as identities appear inside resource paths.
pub fn u64_to_decimal(n: u64) -> (s: String)
    ensures
        s@ == spec_decimal(n as nat),
    decreases n,
{
    if n < 10 {
        digit_str(n)
    } else {
        let mut s = u64_to_decimal(n / 10);
        let tail = digit_str(n % 10);
        s.append(tail.as_str());
        proof {
            assert(s@ =~= spec_decimal((n / 10) as nat).push(digit_char((n % 10) as int)));
        }
        s
    }
}

/// Resource path of the consumer-offset operations for one topic, built
/// from numeric identities.
pub fn offset_path(stream_id: u64, topic_id: u64) -> (p: String)
    ensures
        p@ == "streams/"@ + spec_decimal(stream_id as nat) + "/topics/"@ + spec_decimal(
            topic_id as nat,
        ) + "/consumer-offsets"@,
{
    let stream_part = u64_to_decimal(stream_id);
    let topic_part = u64_to_decimal(topic_id);
    get_path(stream_part.as_str(), topic_part.as_str())
}

} // verus!
