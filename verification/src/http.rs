//! HTTP decisions of the media server: answering a byte range request, cutting
//! streamed data to a range, and which client addresses are trusted.
use vstd::prelude::*;

verus! {

// ---------------------------------------------------------------------------
// Byte ranges
// ---------------------------------------------------------------------------

/// The single byte range a `Range: bytes=...` header asks for.
#[derive(Debug, Clone, Copy, PartialEq, Eq, Structural)]
pub enum ByteRangeSpec {
    /// `start-end`, both inclusive.
    FromTo(u64, u64),
    /// `start-`.
    From(u64),
    /// `-length`: the last bytes.
    Last(u64),
}

/// How a request for a resource of a known size is answered.
#[derive(Debug, Clone, Copy, PartialEq, Eq, Structural)]
pub enum RangeAnswer {
    /// `200 OK` with the whole resource.
    Full { length: u64 },
    /// `416 Range Not Satisfiable`, naming the resource's size.
    NotSatisfiable { instance_length: u64 },
    /// `206 Partial Content`: `length` bytes from `start`, the last one at `end`.
    Partial { start: u64, length: u64, end: u64, instance_length: u64 },
}

pub open spec fn min_u64(a: u64, b: u64) -> u64 {
    if a <= b {
        a
    } else {
        b
    }
}

/// The answers for a range: a range that starts past the end cannot be served; an
/// end past the last byte is cut to it; a suffix longer than the resource is the
/// whole resource.
pub open spec fn range_answer_spec(range: Option<ByteRangeSpec>, size: u64) -> RangeAnswer {
    match range {
        None => RangeAnswer::Full { length: size },
        Some(ByteRangeSpec::FromTo(start, end)) => if start >= size {
            RangeAnswer::NotSatisfiable { instance_length: size }
        } else {
            let last = min_u64(end, (size - 1) as u64);
            RangeAnswer::Partial {
                start,
                length: (last - start + 1) as u64,
                end: last,
                instance_length: size,
            }
        },
        Some(ByteRangeSpec::From(start)) => if start >= size {
            RangeAnswer::NotSatisfiable { instance_length: size }
        } else {
            RangeAnswer::Partial {
                start,
                length: (size - start) as u64,
                end: (size - 1) as u64,
                instance_length: size,
            }
        },
        Some(ByteRangeSpec::Last(n)) => {
            let length = min_u64(n, size);
            RangeAnswer::Partial {
                start: (size - length) as u64,
                length,
                end: (size - 1) as u64,
                instance_length: size,
            }
        },
    }
}

/// A range can be answered without arithmetic going wrong: an explicit end is not
/// before its start, and the last bytes of an empty resource are not asked for.
pub open spec fn range_computable(range: Option<ByteRangeSpec>, size: u64) -> bool {
    match range {
        Some(ByteRangeSpec::FromTo(start, end)) => start < size ==> start <= end,
        Some(ByteRangeSpec::Last(_)) => size > 0,
        _ => true,
    }
}

/// A range with an explicit end that starts within the resource is served from
/// its start to its end or to the last byte, whichever comes first: no byte past
/// the end asked for, and none short of it that the resource has.
pub proof fn law_range_serves_what_was_asked(start: u64, end: u64, size: u64)
    requires
        start < size,
        start <= end,
    ensures
        range_answer_spec(Some(ByteRangeSpec::FromTo(start, end)), size) matches RangeAnswer::Partial {
            start: s,
            length,
            end: e,
            instance_length,
        } && s == start && e <= end && e < size && (e == end || e == size - 1) && length == e - s + 1
            && instance_length == size,
{
}

/// A range that starts at or past the end of the resource cannot be served, and
/// names the resource's size; no range asked for gives the whole resource.
pub proof fn law_range_outside_or_absent(range: Option<ByteRangeSpec>, size: u64)
    ensures
        range is None ==> range_answer_spec(range, size) == (RangeAnswer::Full { length: size }),
        (range matches Some(ByteRangeSpec::FromTo(start, _)) && start >= size) ==> range_answer_spec(range, size)
            == (RangeAnswer::NotSatisfiable { instance_length: size }),
        (range matches Some(ByteRangeSpec::From(start)) && start >= size) ==> range_answer_spec(range, size)
            == (RangeAnswer::NotSatisfiable { instance_length: size }),
{
}

/// An open range from within the resource is served from its start to the last
/// byte.
pub proof fn law_open_range_to_the_end(start: u64, size: u64)
    requires
        start < size,
    ensures
        range_answer_spec(Some(ByteRangeSpec::From(start)), size) matches RangeAnswer::Partial {
            start: s,
            length,
            end: e,
            instance_length,
        } && s == start && e == size - 1 && length == size - start && instance_length == size,
{
}

/// A request for the last bytes of a resource that has some is served the last
/// ones, as many as were asked for or as the resource has.
pub proof fn law_last_bytes(n: u64, size: u64)
    requires
        size > 0,
    ensures
        range_answer_spec(Some(ByteRangeSpec::Last(n)), size) matches RangeAnswer::Partial {
            start: s,
            length,
            end: e,
            instance_length,
        } && e == size - 1 && length <= n && length <= size && (length == n || length == size) && s + length
            == size && instance_length == size,
{
}

/// How to answer a request for a resource of `size` bytes.
pub fn range_answer(range: Option<ByteRangeSpec>, size: u64) -> (r: RangeAnswer)
    requires
        range_computable(range, size),
    ensures
        r == range_answer_spec(range, size),
{
    match range {
        None => RangeAnswer::Full { length: size },
        Some(ByteRangeSpec::FromTo(start, end)) => {
            if start >= size {
                return RangeAnswer::NotSatisfiable { instance_length: size };
            }
            let last = if end <= size - 1 {
                end
            } else {
                size - 1
            };
            let length = last - start + 1;
            RangeAnswer::Partial { start, length, end: start + length - 1, instance_length: size }
        },
        Some(ByteRangeSpec::From(start)) => {
            if start >= size {
                return RangeAnswer::NotSatisfiable { instance_length: size };
            }
            let length = size - start;
            RangeAnswer::Partial { start, length, end: start + length - 1, instance_length: size }
        },
        Some(ByteRangeSpec::Last(n)) => {
            let length = if n <= size {
                n
            } else {
                size
            };
            let start = size - length;
            RangeAnswer::Partial { start, length, end: start + length - 1, instance_length: size }
        },
    }
}

/// A partial answer lies within the resource and its end is its start plus its
/// length, less one; a full answer is the whole resource.
pub proof fn lemma_range_within(range: Option<ByteRangeSpec>, size: u64)
    requires
        range_computable(range, size),
    ensures
        match range_answer_spec(range, size) {
            RangeAnswer::Partial { start, length, end, instance_length } => {
                &&& instance_length == size
                &&& start + length <= size
                &&& end == start + length - 1
                &&& (range matches Some(ByteRangeSpec::Last(n)) ==> start + length == size)
                &&& (range matches Some(ByteRangeSpec::From(s)) ==> start == s && start + length
                    == size)
            },
            RangeAnswer::Full { length } => length == size && range is None,
            RangeAnswer::NotSatisfiable { instance_length } => instance_length == size,
        },
{
}

// ---------------------------------------------------------------------------
// Streaming a synced video file
// ---------------------------------------------------------------------------

/// Where a file is read from before it is streamed.
#[derive(Debug, Clone, Copy, PartialEq, Eq, Structural)]
pub enum SeekTarget {
    /// This many bytes from the start.
    Start(u64),
    /// This many bytes before the end.
    End(u64),
}

/// How the web interface streams a video file of a known size.
#[derive(Debug, Clone, Copy, PartialEq, Eq, Structural)]
pub enum StreamPlan {
    /// `404 Not Found`: the file cannot be read from where the range starts.
    NotFound,
    /// `200 OK` with the whole file.
    Whole { length: u64 },
    /// `206 Partial Content`: seek, then send `body_length` bytes, cut at `limit`
    /// when there is one; the `Content-Range` header names the two range values and
    /// the size.
    Partial {
        seek: SeekTarget,
        range_first: u64,
        range_second: u64,
        instance_length: u64,
        body_length: u64,
        limit: Option<u64>,
    },
}

/// The plan for a request of a file of `size` bytes that asked for `ranges`: one
/// range is served from where it starts (a suffix longer than the file cannot be
/// read); any other number of ranges gets the whole file.
pub open spec fn stream_plan_spec(ranges: Seq<ByteRangeSpec>, size: u64) -> StreamPlan {
    if ranges.len() != 1 {
        StreamPlan::Whole { length: size }
    } else {
        match ranges[0] {
            ByteRangeSpec::From(start) => StreamPlan::Partial {
                seek: SeekTarget::Start(start),
                range_first: start,
                range_second: (size - 1) as u64,
                instance_length: size,
                body_length: (size - start) as u64,
                limit: None,
            },
            ByteRangeSpec::Last(end) => if end > size {
                StreamPlan::NotFound
            } else {
                StreamPlan::Partial {
                    seek: SeekTarget::End(end),
                    range_first: (size - end) as u64,
                    range_second: end,
                    instance_length: size,
                    body_length: end,
                    limit: None,
                }
            },
            ByteRangeSpec::FromTo(start, end) => StreamPlan::Partial {
                seek: SeekTarget::Start(start),
                range_first: start,
                range_second: end,
                instance_length: size,
                body_length: (end - start + 1) as u64,
                limit: Some((end + 1) as u64),
            },
        }
    }
}

/// The arithmetic of a plan stays in range: a range from a start needs a file that
/// is not empty and a start within it; an explicit end is not before its start
/// and is not the greatest value.
pub open spec fn stream_plan_computable(ranges: Seq<ByteRangeSpec>, size: u64) -> bool {
    ranges.len() == 1 ==> match ranges[0] {
        ByteRangeSpec::From(start) => 1 <= size && start <= size,
        ByteRangeSpec::FromTo(start, end) => start <= end && end < u64::MAX,
        ByteRangeSpec::Last(_) => true,
    }
}

/// How to stream a file of `size` bytes for a request with the given ranges.
pub fn stream_plan(ranges: &[ByteRangeSpec], size: u64) -> (r: StreamPlan)
    requires
        stream_plan_computable(ranges@, size),
    ensures
        r == stream_plan_spec(ranges@, size),
{
    if ranges.len() != 1 {
        return StreamPlan::Whole { length: size };
    }
    match ranges[0] {
        ByteRangeSpec::From(start) => StreamPlan::Partial {
            seek: SeekTarget::Start(start),
            range_first: start,
            range_second: size - 1,
            instance_length: size,
            body_length: size - start,
            limit: None,
        },
        ByteRangeSpec::Last(end) => {
            if end > size {
                return StreamPlan::NotFound;
            }
            StreamPlan::Partial {
                seek: SeekTarget::End(end),
                range_first: size - end,
                range_second: end,
                instance_length: size,
                body_length: end,
                limit: None,
            }
        },
        ByteRangeSpec::FromTo(start, end) => StreamPlan::Partial {
            seek: SeekTarget::Start(start),
            range_first: start,
                range_second: end,
            instance_length: size,
            body_length: end - start + 1,
            limit: Some(end + 1),
        },
    }
}

// ---------------------------------------------------------------------------
// Reading no more than a range
// ---------------------------------------------------------------------------

/// The count of a response that stops after a number of bytes: the bytes read in
/// all, and those still to be sent.
pub struct ByteRangeResponse {
    pub total: u64,
    pub remaining: u64,
}

impl ByteRangeResponse {
    pub fn new(length: u64) -> (r: ByteRangeResponse)
        ensures
            r.total == 0,
            r.remaining == length,
    {
        ByteRangeResponse { total: 0, remaining: length }
    }

    /// Whether the response has sent all it is to send.
    pub fn finished(&self) -> (r: bool)
        ensures
            r == (self.remaining == 0),
    {
        self.remaining == 0
    }

    /// After a read filled the buffer from `before` to `after` bytes: the length
    /// the buffer is to be left with. A read past the range leaves the buffer with
    /// as many bytes as were remaining.
    pub fn after_read(&mut self, before: usize, after: usize) -> (r: usize)
        requires
            before <= after,
            old(self).total + (after - before) <= u64::MAX,
        ensures
            final(self).total == old(self).total + (after - before),
            old(self).remaining < (after - before) ==> (r == old(self).remaining
                && final(self).remaining == 0),
            old(self).remaining >= (after - before) ==> (r == after && final(self).remaining
                == old(self).remaining - (after - before)),
    {
        let filled = (after - before) as u64;
        self.total = self.total + filled;
        if filled > 0 && self.remaining < filled {
            let kept = self.remaining as usize;
            self.remaining = 0;
            kept
        } else {
            self.remaining = self.remaining - filled;
            after
        }
    }
}

/// A stream cut to end at `limit`: where it started and how far it has got.
pub struct StreamLimiter {
    pub start_position: u64,
    pub position: u64,
    pub limit: u64,
}

impl StreamLimiter {
    pub open spec fn wf(&self) -> bool {
        self.start_position <= self.position <= self.limit
    }

    pub fn new(start_position: u64, limit: u64) -> (r: StreamLimiter)
        requires
            start_position <= limit,
        ensures
            r.wf(),
            r.start_position == start_position,
            r.position == start_position,
            r.limit == limit,
    {
        StreamLimiter { start_position, position: start_position, limit }
    }

    /// Whether the stream has reached its limit.
    pub fn done(&self) -> (r: bool)
        ensures
            r == (self.position >= self.limit),
    {
        self.position >= self.limit
    }

    /// After a chunk of `len` bytes arrived: how many of them to pass on. A chunk
    /// that crosses the limit is cut at it.
    pub fn on_chunk(&mut self, len: usize) -> (r: usize)
        requires
            old(self).wf(),
            old(self).position + len <= u64::MAX,
        ensures
            final(self).wf(),
            final(self).start_position == old(self).start_position,
            final(self).limit == old(self).limit,
            old(self).position + len <= old(self).limit ==> (r == len && final(self).position
                == old(self).position + len),
            old(self).position + len > old(self).limit ==> (r == old(self).limit
                - old(self).position && final(self).position == old(self).limit),
            r <= len,
            final(self).position - final(self).start_position == old(self).position - old(
                self,
            ).start_position + r,
    {
        let new_position = self.position + len as u64;
        if self.limit < new_position {
            let cut = (new_position - self.limit) as usize;
            self.position = self.limit;
            len - cut
        } else {
            self.position = new_position;
            len
        }
    }

    /// The bytes still to come.
    pub fn remaining(&self) -> (r: u64)
        requires
            self.wf(),
        ensures
            r == self.limit - self.position,
    {
        self.limit - self.position
    }

    /// The bytes streamed so far.
    pub fn streamed(&self) -> (r: u64)
        requires
            self.wf(),
        ensures
            r == self.position - self.start_position,
    {
        self.position - self.start_position
    }
}

// ---------------------------------------------------------------------------
// Addresses
// ---------------------------------------------------------------------------

/// A peer's IP address: IPv4 as its 32 bit value, IPv6 as its 128 bit value.
#[derive(Debug, Clone, Copy, PartialEq, Eq, Structural)]
pub enum IpAddress {
    V4(u32),
    V6(u128),
}

pub open spec fn octets(a: u32) -> (u32, u32, u32, u32) {
    (a / 0x100_0000, (a / 0x1_0000) % 256, (a / 256) % 256, a % 256)
}

/// A private IPv4 address: `10.0.0.0/8`, `172.16.0.0/12` or `192.168.0.0/16`.
pub open spec fn is_private_v4(a: u32) -> bool {
    let (o0, o1, _, _) = octets(a);
    o0 == 10 || (o0 == 172 && 16 <= o1 < 32) || (o0 == 192 && o1 == 168)
}

/// A loopback IPv4 address: `127.0.0.0/8`.
pub open spec fn is_loopback_v4(a: u32) -> bool {
    octets(a).0 == 127
}

/// A link local IPv4 address: `169.254.0.0/16`.
pub open spec fn is_link_local_v4(a: u32) -> bool {
    octets(a).0 == 169 && octets(a).1 == 254
}

/// A peer whose forwarding headers are trusted: a private, loopback or link local
/// IPv4 address, or the IPv6 loopback address `::1`.
pub open spec fn is_safe_spec(addr: IpAddress) -> bool {
    match addr {
        IpAddress::V4(a) => is_private_v4(a) || is_loopback_v4(a) || is_link_local_v4(a),
        IpAddress::V6(a) => a == 1,
    }
}

pub fn is_safe(addr: IpAddress) -> (r: bool)
    ensures
        r == is_safe_spec(addr),
{
    match addr {
        IpAddress::V4(a) => {
            let o0 = a / 0x100_0000;
            let o1 = (a / 0x1_0000) % 256;
            o0 == 10 || (o0 == 172 && 16 <= o1 && o1 < 32) || (o0 == 192 && o1 == 168) || o0 == 127
                || (o0 == 169 && o1 == 254)
        },
        IpAddress::V6(a) => a == 1,
    }
}

/// The client address to record for a request: the address the forwarding
/// headers give when the peer is trusted and they give one, the peer's own address
/// otherwise, nothing when the peer is not known.
pub fn client_addr(peer: Option<(IpAddress, String)>, forwarded: Option<String>) -> (r: Option<
    String,
>)
    ensures
        match peer {
            None => r is None,
            Some((ip, text)) => match forwarded {
                Some(f) => r matches Some(s) && s@ == (if is_safe_spec(ip) {
                    f@
                } else {
                    text@
                }),
                None => r matches Some(s) && s@ == text@,
            },
        },
{
    match peer {
        None => None,
        Some((ip, text)) => {
            if is_safe(ip) {
                if let Some(f) = forwarded {
                    return Some(f);
                }
            }
            Some(text)
        },
    }
}

} // verus!
