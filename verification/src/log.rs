//! The loader's log sink: each record becomes `[LEVEL] message` on the UART, with every line
//! feed preceded by a carriage return.
use vstd::prelude::*;
use vstd::string::StringSliceAdditionalSpecFns;

verus! {

/// The UART logger.
pub struct Logger;

/// `bytes` with a carriage return inserted before every line feed.
pub open spec fn crlf(bytes: Seq<u8>) -> Seq<u8>
    decreases bytes.len(),
{
    if bytes.len() == 0 {
        Seq::empty()
    } else {
        let b = bytes.last();
        crlf(bytes.drop_last()) + if b == 0x0Au8 { seq![0x0Du8, 0x0Au8] } else { seq![b] }
    }
}

/// `[`, the level, `] `, the message and a line feed.
pub open spec fn record_bytes(level: Seq<u8>, message: Seq<u8>) -> Seq<u8> {
    seq![0x5Bu8] + level + seq![0x5Du8, 0x20u8] + message + seq![0x0Au8]
}

impl Logger {
    /// The bytes sent to the UART for `s`.
    pub fn encode(s: &[u8]) -> (out: Vec<u8>)
        ensures
            out@ == crlf(s@),
    {
        let mut out: Vec<u8> = Vec::new();
        let mut i: usize = 0;
        while i < s.len()
            invariant
                i <= s.len(),
                out@ == crlf(s@.take(i as int)),
            decreases s.len() - i,
        {
            let b = s[i];
            if b == 0x0A {
                out.push(0x0D);
            }
            out.push(b);
            i = i + 1;
            assert(s@.take(i as int).drop_last() =~= s@.take(i - 1));
            assert(out@ =~= crlf(s@.take(i as int)));
        }
        assert(s@.take(s.len() as int) =~= s@);
        out
    }

    /// The UART bytes of one record: `[level] message`, a line end, line feeds as CR LF.
    pub fn record(level: &str, message: &str) -> (out: Vec<u8>)
        ensures
            out@ == crlf(record_bytes(level.spec_bytes(), message.spec_bytes())),
    {
        let mut line: Vec<u8> = Vec::new();
        line.push(0x5B);
        let lb = level.as_bytes();
        let mut i: usize = 0;
        while i < lb.len()
            invariant
                i <= lb.len(),
                line@ == seq![0x5Bu8] + lb@.take(i as int),
            decreases lb.len() - i,
        {
            line.push(lb[i]);
            i = i + 1;
            assert(line@ =~= seq![0x5Bu8] + lb@.take(i as int));
        }
        line.push(0x5D);
        line.push(0x20);
        let ghost head = line@;
        let mb = message.as_bytes();
        let mut k: usize = 0;
        while k < mb.len()
            invariant
                k <= mb.len(),
                line@ == head + mb@.take(k as int),
            decreases mb.len() - k,
        {
            line.push(mb[k]);
            k = k + 1;
            assert(line@ =~= head + mb@.take(k as int));
        }
        line.push(0x0A);
        assert(lb@.take(lb.len() as int) =~= lb@);
        assert(mb@.take(mb.len() as int) =~= mb@);
        assert(line@ =~= record_bytes(level.spec_bytes(), message.spec_bytes()));
        Self::encode(line.as_slice())
    }
}

/// A line feed never reaches the UART on its own: in the encoded bytes every line feed
/// follows a carriage return, and the encoding drops nothing (removing those inserted
/// returns gives the input back, which `crlf_length` counts).
pub proof fn crlf_has_no_bare_lf(bytes: Seq<u8>, i: int)
    requires
        0 <= i < crlf(bytes).len(),
        crlf(bytes)[i] == 0x0Au8,
    ensures
        i > 0 && crlf(bytes)[i - 1] == 0x0Du8,
    decreases bytes.len(),
{
    if bytes.len() > 0 {
        let prev = crlf(bytes.drop_last());
        let b = bytes.last();
        let tail = if b == 0x0Au8 { seq![0x0Du8, 0x0Au8] } else { seq![b] };
        assert(crlf(bytes) == prev + tail);
        if i < prev.len() {
            crlf_has_no_bare_lf(bytes.drop_last(), i);
        }
    }
}

/// The encoding is the input plus one byte per line feed.
pub proof fn crlf_length(bytes: Seq<u8>)
    ensures
        crlf(bytes).len() == bytes.len() + bytes.filter(|b: u8| b == 0x0Au8).len(),
    decreases bytes.len(),
{
    if bytes.len() > 0 {
        crlf_length(bytes.drop_last());
        reveal(Seq::filter);
    }
}

} // verus!
