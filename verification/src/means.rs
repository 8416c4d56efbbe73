//! The binary time-series protocol's frame decoder. A frame is nine
//! bytes: one type byte, then two big-endian 32-bit two's-complement
//! integers — an insert of a price at a timestamp, or a query over a
//! closed time range.
use vstd::prelude::*;
use vstd::string::StringExecFns;

verus! {

/// The fixed frame length in bytes.
pub const MESSAGE_LEN: usize = 9;

/// An insertion of a price at a timestamp.
pub struct InsertRequest {
    pub timestamp: i32,
    pub price: i32,
}

/// A query for the mean price over a closed time range.
pub struct QueryRequest {
    pub mintime: i32,
    pub maxtime: i32,
}

/// One decoded frame.
pub enum Request {
    Insert(InsertRequest),
    Query(QueryRequest),
}

#[verifier::external_type_specification]
#[verifier::external_body]
pub struct ExIoError(std::io::Error);

/// Why decoding failed.
#[derive(Debug)]
pub enum MessageCodecError {
    /// The type byte was neither of the two known tags.
    InvalidMessageType,
    /// The transport failed underneath the decoder.
    Io(std::io::Error),
}

impl From<std::io::Error> for MessageCodecError {
    fn from(e: std::io::Error) -> (r: MessageCodecError) {
        MessageCodecError::Io(e)
    }
}

impl vstd::std_specs::convert::FromSpecImpl<std::io::Error> for MessageCodecError {
    open spec fn obeys_from_spec() -> bool {
        true
    }

    open spec fn from_spec(e: std::io::Error) -> MessageCodecError {
        MessageCodecError::Io(e)
    }
}

/// Relies on std::io::Error's Display implementation for the transport
/// error's text.
#[verifier::external_body]
fn io_error_message(e: &std::io::Error) -> String {
    format!("{}", e)
}

impl MessageCodecError {
    /// The description the error displays.
    pub fn message(&self) -> (r: String)
        ensures
            self is InvalidMessageType ==> r@ == "unrecognized message type - must be 'I' or 'Q'"@,
    {
        match self {
            MessageCodecError::InvalidMessageType => String::from_str(
                "unrecognized message type - must be 'I' or 'Q'",
            ),
            MessageCodecError::Io(e) => io_error_message(e),
        }
    }
}

/// The unsigned value of four big-endian bytes.
pub open spec fn be_u32_val(s: Seq<u8>) -> int
    recommends
        s.len() == 4,
{
    s[0] * 0x100_0000 + s[1] * 0x1_0000 + s[2] * 0x100 + s[3]
}

/// The two's-complement value of four big-endian bytes.
pub open spec fn be_i32_val(s: Seq<u8>) -> int
    recommends
        s.len() == 4,
{
    if be_u32_val(s) < 0x8000_0000 {
        be_u32_val(s)
    } else {
        be_u32_val(s) - 0x1_0000_0000
    }
}

/// Reads a big-endian 32-bit signed integer from four bytes.
fn read_be_i32(b0: u8, b1: u8, b2: u8, b3: u8) -> (r: i32)
    ensures
        r as int == be_i32_val(seq![b0, b1, b2, b3]),
{
    let u: u32 = (b0 as u32) * 0x100_0000 + (b1 as u32) * 0x1_0000 + (b2 as u32) * 0x100 + (
    b3 as u32);
    if u < 0x8000_0000 {
        u as i32
    } else {
        ((u as i64) - 0x1_0000_0000i64) as i32
    }
}

/// The stateless frame decoder.
pub struct MessageCodec;

impl MessageCodec {
    /// Decodes one frame from the front of `src`: nothing until nine
    /// bytes have arrived, then a request per the type byte, or the type
    /// error. The caller consumes `MESSAGE_LEN` bytes exactly when a
    /// request comes back.
    pub fn decode_data(&self, src: &Vec<u8>) -> (r: Result<Option<Request>, MessageCodecError>)
        ensures
            src@.len() < MESSAGE_LEN ==> (r matches Ok(o) && o is None),
            src@.len() >= MESSAGE_LEN ==> ({
                if src@[0] == 'I' as u8 {
                    &&& r matches Ok(o)
                    &&& o matches Some(q)
                    &&& q matches Request::Insert(i)
                    &&& i.timestamp as int == be_i32_val(src@.subrange(1, 5))
                    &&& i.price as int == be_i32_val(src@.subrange(5, 9))
                } else if src@[0] == 'Q' as u8 {
                    &&& r matches Ok(o)
                    &&& o matches Some(q)
                    &&& q matches Request::Query(i)
                    &&& i.mintime as int == be_i32_val(src@.subrange(1, 5))
                    &&& i.maxtime as int == be_i32_val(src@.subrange(5, 9))
                } else {
                    r matches Err(e) && e is InvalidMessageType
                }
            }),
    {
        if src.len() < MESSAGE_LEN {
            return Ok(None);
        }
        proof {
            assert(src@.subrange(1, 5) =~= seq![src@[1], src@[2], src@[3], src@[4]]);
            assert(src@.subrange(5, 9) =~= seq![src@[5], src@[6], src@[7], src@[8]]);
        }
        let tag = src[0];
        if tag == 'I' as u8 {
            let timestamp = read_be_i32(src[1], src[2], src[3], src[4]);
            let price = read_be_i32(src[5], src[6], src[7], src[8]);
            Ok(Some(Request::Insert(InsertRequest { timestamp, price })))
        } else if tag == 'Q' as u8 {
            let mintime = read_be_i32(src[1], src[2], src[3], src[4]);
            let maxtime = read_be_i32(src[5], src[6], src[7], src[8]);
            Ok(Some(Request::Query(QueryRequest { mintime, maxtime })))
        } else {
            Err(MessageCodecError::InvalidMessageType)
        }
    }
}

/// No timestamp occurs twice among the entries.
pub open spec fn unique_keys(s: Seq<(i32, i32)>) -> bool {
    forall|i: int, j: int| 0 <= i < j < s.len() ==> s[i].0 != s[j].0
}

/// No entry carries timestamp `t`.
pub open spec fn key_absent(s: Seq<(i32, i32)>, t: i32) -> bool {
    forall|i: int| 0 <= i < s.len() ==> s[i].0 != t
}

/// The entries with every entry at timestamp `t` removed, order kept.
pub open spec fn remove_key(s: Seq<(i32, i32)>, t: i32) -> Seq<(i32, i32)>
    decreases s.len(),
{
    if s.len() == 0 {
        s
    } else {
        let rest = remove_key(s.drop_last(), t);
        if s.last().0 == t {
            rest
        } else {
            rest.push(s.last())
        }
    }
}

/// Removing an absent timestamp changes nothing.
pub proof fn lemma_remove_key_absent(s: Seq<(i32, i32)>, t: i32)
    requires
        key_absent(s, t),
    ensures
        remove_key(s, t) == s,
    decreases s.len(),
{
    if s.len() > 0 {
        lemma_remove_key_absent(s.drop_last(), t);
        assert(remove_key(s, t) =~= s);
    } else {
        assert(remove_key(s, t) =~= s);
    }
}

/// With unique timestamps, removing the timestamp of the entry at `k`
/// removes exactly that entry.
pub proof fn lemma_remove_key_at(s: Seq<(i32, i32)>, t: i32, k: int)
    requires
        unique_keys(s),
        0 <= k < s.len(),
        s[k].0 == t,
    ensures
        remove_key(s, t) == s.remove(k),
    decreases s.len(),
{
    if k == s.len() - 1 {
        assert(key_absent(s.drop_last(), t)) by {
            assert forall|i: int| 0 <= i < s.drop_last().len() implies s.drop_last()[i].0 != t by {
                assert(s[i] == s.drop_last()[i]);
            }
        }
        lemma_remove_key_absent(s.drop_last(), t);
        assert(remove_key(s, t) =~= s.remove(k));
    } else {
        assert(s.last().0 != t) by {
            assert(s[k].0 == t && s[s.len() - 1].0 == s.last().0);
        }
        assert(unique_keys(s.drop_last()) && s.drop_last()[k].0 == t) by {
            assert(forall|i: int| 0 <= i < s.drop_last().len() ==> s.drop_last()[i] == s[i]);
        }
        lemma_remove_key_at(s.drop_last(), t, k);
        assert(remove_key(s, t) =~= s.remove(k));
    }
}

/// The sum of the prices whose timestamp lies in the closed range.
pub open spec fn range_sum(s: Seq<(i32, i32)>, lo: i32, hi: i32) -> int
    decreases s.len(),
{
    if s.len() == 0 {
        0
    } else {
        (if lo <= s[0].0 && s[0].0 <= hi {
            s[0].1 as int
        } else {
            0
        }) + range_sum(s.drop_first(), lo, hi)
    }
}

/// How many timestamps lie in the closed range.
pub open spec fn range_count(s: Seq<(i32, i32)>, lo: i32, hi: i32) -> int
    decreases s.len(),
{
    if s.len() == 0 {
        0
    } else {
        (if lo <= s[0].0 && s[0].0 <= hi {
            1int
        } else {
            0int
        }) + range_count(s.drop_first(), lo, hi)
    }
}

/// Integer division truncating toward zero, as the machine divides.
pub open spec fn div_toward_zero(a: int, b: int) -> int
    recommends
        b > 0,
{
    if a >= 0 {
        a / b
    } else {
        -((-a) / b)
    }
}

/// The per-connection time-series store: at most one price per
/// timestamp; a later insert at the same timestamp overwrites.
pub struct PriceStore {
    entries: Vec<(i32, i32)>,
}

impl View for PriceStore {
    type V = Seq<(i32, i32)>;

    closed spec fn view(&self) -> Seq<(i32, i32)> {
        self.entries@
    }
}

impl PriceStore {
    /// The store invariant: timestamps are unique.
    pub open spec fn wf(&self) -> bool {
        unique_keys(self@)
    }

    /// An empty store for a fresh connection.
    pub fn new() -> (r: PriceStore)
        ensures
            r@ == Seq::<(i32, i32)>::empty(),
            r.wf(),
    {
        let r = PriceStore { entries: Vec::new() };
        proof {
            assert(r@ =~= Seq::<(i32, i32)>::empty());
        }
        r
    }

    /// Stores `price` at `timestamp`, overwriting any earlier price
    /// there.
    pub fn insert(&mut self, timestamp: i32, price: i32)
        requires
            old(self).wf(),
        ensures
            final(self).wf(),
            final(self)@ == remove_key(old(self)@, timestamp).push((timestamp, price)),
    {
        let ghost oldv = self@;
        let n = self.entries.len();
        let mut k: usize = 0;
        while k < n
            invariant
                n == self.entries.len(),
                k <= n,
                *self == *old(self),
                oldv == self@,
                unique_keys(oldv),
                forall|j: int| 0 <= j < k ==> self@[j].0 != timestamp,
            decreases n - k,
        {
            if self.entries[k].0 == timestamp {
                let ghost ki = k as int;
                self.entries.remove(k);
                self.entries.push((timestamp, price));
                proof {
                    lemma_remove_key_at(oldv, timestamp, ki);
                    let removed = oldv.remove(ki);
                    assert(self@ =~= removed.push((timestamp, price)));
                    assert forall|j: int| 0 <= j < removed.len() implies removed[j].0
                        != timestamp by {
                        if j >= ki {
                            assert(removed[j] == oldv[j + 1]);
                        }
                    }
                    assert forall|i: int, j: int|
                        0 <= i < j < removed.len() implies removed[i].0 != removed[j].0 by {
                        assert(removed[i] == if i < ki {
                            oldv[i]
                        } else {
                            oldv[i + 1]
                        });
                        assert(removed[j] == if j < ki {
                            oldv[j]
                        } else {
                            oldv[j + 1]
                        });
                    }
                }
                return;
            }
            k += 1;
        }
        self.entries.push((timestamp, price));
        proof {
            assert(key_absent(oldv, timestamp));
            lemma_remove_key_absent(oldv, timestamp);
        }
    }

    /// The mean — truncated toward zero — of the prices whose timestamp
    /// lies in `mintime ..= maxtime`, or nothing when no entry does.
    pub fn query_mean(&self, mintime: i32, maxtime: i32) -> (r: Option<i32>)
        ensures
            r is None <==> range_count(self@, mintime, maxtime) == 0,
            r matches Some(m) ==> m as int == div_toward_zero(
                range_sum(self@, mintime, maxtime),
                range_count(self@, mintime, maxtime),
            ),
    {
        let ghost total = range_sum(self@, mintime, maxtime);
        let ghost cnt = range_count(self@, mintime, maxtime);
        let n = self.entries.len();
        let mut k: usize = 0;
        let mut pos: u128 = 0;
        let mut neg: u128 = 0;
        let mut count: usize = 0;
        proof {
            assert(self@.skip(0) =~= self@);
        }
        while k < n
            invariant
                n == self.entries.len(),
                k <= n,
                count <= k,
                total == range_sum(self@, mintime, maxtime),
                cnt == range_count(self@, mintime, maxtime),
                pos as int <= count as int * 0x7FFF_FFFF,
                neg as int <= count as int * 0x8000_0000,
                pos as int - neg as int + range_sum(self@.skip(k as int), mintime, maxtime)
                    == total,
                count as int + range_count(self@.skip(k as int), mintime, maxtime) == cnt,
            decreases n - k,
        {
            proof {
                assert(self@.skip(k as int).drop_first() =~= self@.skip(k as int + 1));
                assert(self@.skip(k as int)[0] == self@[k as int]);
            }
            let (t, p) = self.entries[k];
            if mintime <= t && t <= maxtime {
                proof {
                    assert((count as int + 1) * 0x7FFF_FFFF == count as int * 0x7FFF_FFFF
                        + 0x7FFF_FFFF) by (nonlinear_arith);
                    assert((count as int + 1) * 0x8000_0000 == count as int * 0x8000_0000
                        + 0x8000_0000) by (nonlinear_arith);
                    assert((count as int + 1) * 0x8000_0000
                        < 0x1_0000_0000_0000_0000_0000_0000_0000_0000) by (nonlinear_arith)
                        requires
                            0 <= count as int + 1 <= 0x1_0000_0000_0000_0000,
                    ;
                }
                if p >= 0 {
                    pos = pos + (p as u128);
                } else {
                    neg = neg + ((-(p as i64)) as u128);
                }
                count = count + 1;
            }
            k += 1;
        }
        proof {
            assert(self@.skip(n as int) =~= Seq::<(i32, i32)>::empty());
        }
        if count == 0 {
            return None;
        }
        if pos >= neg {
            let net = pos - neg;
            let q = net / (count as u128);
            proof {
                assert(net as int == total);
                assert(cnt == count as int);
                vstd::arithmetic::div_mod::lemma_div_is_ordered(
                    net as int,
                    count as int * 0x7FFF_FFFF,
                    count as int,
                );
                vstd::arithmetic::div_mod::lemma_div_multiples_vanish(
                    0x7FFF_FFFF,
                    count as int,
                );
                assert(q as int <= 0x7FFF_FFFF);
            }
            Some(q as i32)
        } else {
            let mag = neg - pos;
            let q = mag / (count as u128);
            proof {
                assert(mag as int == -total);
                assert(cnt == count as int);
                vstd::arithmetic::div_mod::lemma_div_is_ordered(
                    mag as int,
                    count as int * 0x8000_0000,
                    count as int,
                );
                vstd::arithmetic::div_mod::lemma_div_multiples_vanish(
                    0x8000_0000,
                    count as int,
                );
                assert(q as int <= 0x8000_0000);
            }
            let qi = -(q as i64);
            Some(qi as i32)
        }
    }
}

} // verus!
