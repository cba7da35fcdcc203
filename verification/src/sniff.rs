//! Per-connection protocol detection.  A fresh connection is
//! classified by its first bytes: the fixed 24-byte preface announces
//! version 2 of the wire protocol, anything else (or a failed or timed
//! out read) is served as version 1.  Whatever was read while sniffing
//! is replayed, byte for byte, before the live stream is read again,
//! so no byte is lost or duplicated across the detection boundary.

use vstd::prelude::*;

verus! {

/// The version-2 connection preface, `PRI * HTTP/2.0\r\n\r\nSM\r\n\r\n`.
pub open spec fn http2_preface() -> Seq<u8> {
    seq![
        80u8, 82, 73, 32, 42, 32, 72, 84, 84, 80, 47, 50, 46, 48, 13, 10, 13, 10, 83, 77, 13, 10,
        13, 10,
    ]
}

/// The preface as bytes a reader can be handed.
pub fn http2_preface_bytes() -> (r: Vec<u8>)
    ensures
        r@ == http2_preface(),
{
    let mut v: Vec<u8> = Vec::new();
    v.push(80);
    v.push(82);
    v.push(73);
    v.push(32);
    v.push(42);
    v.push(32);
    v.push(72);
    v.push(84);
    v.push(84);
    v.push(80);
    v.push(47);
    v.push(50);
    v.push(46);
    v.push(48);
    v.push(13);
    v.push(10);
    v.push(13);
    v.push(10);
    v.push(83);
    v.push(77);
    v.push(13);
    v.push(10);
    v.push(13);
    v.push(10);
    proof {
        assert(v@ =~= http2_preface());
    }
    v
}

/// The two wire protocols one listening socket serves.
#[derive(Clone, Copy, Debug, PartialEq, Eq, Structural)]
pub enum ProtocolVersion {
    Version1,
    Version2,
}

/// Version 2 exactly when the captured bytes are the whole preface.
pub fn classify_preface(buf: &Vec<u8>) -> (v: ProtocolVersion)
    ensures
        (v == ProtocolVersion::Version2) <==> (buf@ == http2_preface()),
{
    let preface = http2_preface_bytes();
    if crate::scan::bytes_eq(buf, &preface) {
        ProtocolVersion::Version2
    } else {
        ProtocolVersion::Version1
    }
}

/// The bytes consumed while sniffing, waiting to be served again.  Its
/// view is the part not yet replayed; reads drain it from the front,
/// and once it is empty the caller passes reads straight through to
/// the live stream.
pub struct ReplayBuffer {
    data: Vec<u8>,
    pos: usize,
}

impl View for ReplayBuffer {
    type V = Seq<u8>;

    closed spec fn view(&self) -> Seq<u8> {
        self.data@.skip(self.pos as int)
    }
}

impl ReplayBuffer {
    pub closed spec fn wf(self) -> bool {
        self.pos <= self.data@.len()
    }

    /// A buffer holding all of `data`, nothing replayed yet.
    pub fn new(data: Vec<u8>) -> (r: Self)
        ensures
            r.wf(),
            r@ == data@,
    {
        let r = ReplayBuffer { data, pos: 0 };
        proof {
            assert(r@ =~= r.data@);
        }
        r
    }

    /// How many captured bytes are still to be replayed.
    pub fn remaining(&self) -> (n: usize)
        requires
            self.wf(),
        ensures
            n == self@.len(),
    {
        self.data.len() - self.pos
    }

    /// Serve up to `max` of the replayed bytes.  The bytes handed out,
    /// followed by what the buffer still holds, are exactly what it
    /// held before: nothing is lost, duplicated or reordered.
    pub fn take(&mut self, max: usize) -> (chunk: Vec<u8>)
        requires
            old(self).wf(),
        ensures
            final(self).wf(),
            old(self)@ == chunk@ + final(self)@,
            chunk@.len() == if max as int <= old(self)@.len() {
                max as int
            } else {
                old(self)@.len() as int
            },
    {
        let avail = self.data.len() - self.pos;
        let k = if max < avail {
            max
        } else {
            avail
        };
        let chunk = crate::scan::subvec(&self.data, self.pos, self.pos + k);
        self.pos = self.pos + k;
        proof {
            assert(old(self)@ =~= chunk@ + self@);
        }
        chunk
    }
}

/// The transition of the two-state connection machine: from
/// unclassified, with the outcome of the bounded preface read, to a
/// protocol version and the buffer that replays the captured bytes.
/// A failed or partial read (`read_ok == false`) never fails the
/// connection: it is served as version 1, replaying whatever was
/// captured — possibly nothing.
pub fn sniff_transition(read_ok: bool, captured: Vec<u8>) -> (r: (ProtocolVersion, ReplayBuffer))
    ensures
        (r.0 == ProtocolVersion::Version2) <==> (read_ok && captured@ == http2_preface()),
        r.1.wf(),
        r.1@ == captured@,
{
    let version = if read_ok {
        classify_preface(&captured)
    } else {
        ProtocolVersion::Version1
    };
    (version, ReplayBuffer::new(captured))
}

} // verus!
