//! The host side of the capability bridge: a per-execution table of staged
//! responses, addressed by integer handles, that guests drain through a buffer
//! of fixed size, one read at a time.
use std::collections::HashMap;
use vstd::prelude::*;

verus! {

broadcast use vstd::std_specs::hash::group_hash_axioms;

/// Import namespace under which the database host functions are installed.
pub const MODULE: &'static str = "bifrost_mongodb";

/// Name of the linear memory that guests export to the host.
pub const MEMORY: &'static str = "memory";

/// The call succeeded.
pub const SUCCESS: u32 = 0;

/// Guest memory could not be reached or written.
pub const ERR_MEMORY_ACCESS_FAILED: u32 = 1;

/// The query bytes could not be read from guest memory.
pub const ERR_QUERY_READ_FAILED: u32 = 2;

/// The query bytes did not decode.
pub const ERR_QUERY_DECODE_FAILED: u32 = 3;

/// No connection to the resource could be made.
pub const ERR_CONNECT_FAILED: u32 = 4;

/// The query failed to execute.
pub const ERR_QUERY_FAILED: u32 = 5;

/// The result could not be encoded.
pub const ERR_SERIALIZE_FAILED: u32 = 6;

/// The encoded result could not be registered under a handle.
pub const ERR_PUSH_RESPONSE_FAILED: u32 = 7;

/// A document could not be read from the result cursor.
pub const ERR_DOC_READ_FAILED: u32 = 8;

/// The handle table could not be read.
pub const ERR_READ_RESPONSE_FAILED: u32 = 9;

/// The handle is not held by the table.
pub const ERR_INVALID_HANDLE: u32 = 10;

/// Key of a staged response.
pub type Handle = u32;

/// A staged response and how far the guest has read it.
pub struct Staged {
    pub bytes: Vec<u8>,
    pub pos: usize,
}

/// The handle that follows `h`; the counter wraps around at the top of its range.
pub open spec fn next_after(h: Handle) -> Handle {
    if h == u32::MAX {
        0
    } else {
        (h + 1) as u32
    }
}

/// Where a read of at most `b` bytes from offset `pos` of `len` bytes stops.
pub open spec fn chunk_end(len: nat, pos: nat, b: nat) -> nat {
    if pos + b <= len {
        pos + b
    } else {
        len
    }
}

/// The bytes that a read with a buffer of `b` bytes copies from offset `pos`.
pub open spec fn chunk(data: Seq<u8>, pos: nat, b: nat) -> Seq<u8> {
    data.subrange(pos as int, chunk_end(data.len(), pos, b) as int)
}

/// The chunks that successive reads with a buffer of `b` bytes return from
/// offset `pos`, up to and including the first one that does not fill the
/// buffer (whose continuation flag is false).
pub open spec fn read_sequence(data: Seq<u8>, pos: nat, b: nat) -> Seq<Seq<u8>>
    decreases data.len() - pos,
{
    let c = chunk(data, pos, b);
    if b > 0 && pos < data.len() && c.len() == b {
        seq![c] + read_sequence(data, pos + b, b)
    } else {
        seq![c]
    }
}

/// The staged responses of one execution: handle to bytes and read offset.
pub type Entries = Map<Handle, (Seq<u8>, nat)>;

/// How a read of at most `b` bytes under handle `h` relates the table before,
/// its result, and the table after.
pub open spec fn read_result(before: Entries, h: Handle, b: nat, r: Result<Seq<u8>, u32>, after: Entries) -> bool {
    if before.contains_key(h) {
        let (data, pos) = before[h];
        let c = chunk(data, pos, b);
        &&& r == Ok::<Seq<u8>, u32>(c)
        &&& after == before.insert(h, (data, pos + c.len()))
    } else {
        &&& r == Err::<Seq<u8>, u32>(ERR_INVALID_HANDLE)
        &&& after == before
    }
}

/// Paging a response through a buffer of `b > 0` bytes loses and repeats
/// nothing: the chunks that successive reads return, up to the first one with a
/// false continuation flag, concatenate to the unread bytes. There are
/// `(len - pos) / b + 1` of them; each but the last fills the buffer, and the
/// last does not (it is empty when the unread length is a multiple of `b`).
pub proof fn lemma_read_sequence(data: Seq<u8>, pos: nat, b: nat)
    requires
        b > 0,
        pos <= data.len(),
    ensures
        read_sequence(data, pos, b).flatten() == data.subrange(pos as int, data.len() as int),
        read_sequence(data, pos, b).len() == (data.len() - pos) / (b as int) + 1,
        forall|i: int|
            0 <= i < read_sequence(data, pos, b).len() - 1 ==> #[trigger] read_sequence(
                data,
                pos,
                b,
            )[i].len() == b,
        read_sequence(data, pos, b).last().len() < b,
    decreases data.len() - pos,
{
    let c = chunk(data, pos, b);
    let s = read_sequence(data, pos, b);
    if pos < data.len() && c.len() == b {
        let rest = read_sequence(data, pos + b, b);
        lemma_read_sequence(data, pos + b, b);
        assert(s == seq![c] + rest);
        assert(s.drop_first() =~= rest);
        assert(s.first() == c);
        assert(s.flatten() == c + rest.flatten());
        assert(c + data.subrange((pos + b) as int, data.len() as int) =~= data.subrange(pos as int, data.len() as int));
        let x = data.len() - pos - b;
        assert((x + b) / (b as int) == x / (b as int) + 1) by (nonlinear_arith)
            requires
                b > 0,
                x >= 0,
        ;
        assert forall|i: int| 0 <= i < s.len() - 1 implies #[trigger] s[i].len() == b by {
            if i > 0 {
                assert(s[i] == rest[i - 1]);
            }
        }
    } else {
        assert(s == seq![c]);
        assert(s.drop_first() =~= Seq::<Seq<u8>>::empty());
        assert(s.first() == c);
        assert(s.drop_first().flatten() == Seq::<u8>::empty());
        assert(s.flatten() == c + Seq::<u8>::empty());
        assert(c + Seq::<u8>::empty() =~= c);
        assert(c =~= data.subrange(pos as int, data.len() as int));
        let x = data.len() - pos;
        assert(x < b);
        assert(x / (b as int) == 0) by (nonlinear_arith)
            requires
                b > 0,
                0 <= x < b,
        ;
    }
}

/// Once a handle is closed, reading it fails with the invalid-handle code and
/// leaves the table as it is.
pub proof fn lemma_read_after_close(before: Entries, h: Handle, b: nat, r: Result<Seq<u8>, u32>, after: Entries)
    requires
        read_result(before.remove(h), h, b, r, after),
    ensures
        r == Err::<Seq<u8>, u32>(ERR_INVALID_HANDLE),
        after == before.remove(h),
{
}

/// Per-execution table of staged responses.
pub struct HandleTable {
    responses: HashMap<Handle, Staged>,
    next: Handle,
}

impl HandleTable {
    /// The staged responses: bytes and read offset under each handle.
    pub closed spec fn entries(&self) -> Entries {
        Map::new(
            |h: Handle| self.responses@.contains_key(h),
            |h: Handle| (self.responses@[h].bytes@, self.responses@[h].pos as nat),
        )
    }

    /// The handle that the next staged response receives.
    pub closed spec fn next_handle(&self) -> Handle {
        self.next
    }

    /// Every read offset lies within its response.
    pub open spec fn wf(&self) -> bool {
        forall|h: Handle| #[trigger]
            self.entries().contains_key(h) ==> self.entries()[h].1 <= self.entries()[h].0.len()
    }

    /// An empty table whose first handle is 0.
    pub fn new() -> (r: HandleTable)
        ensures
            r.wf(),
            r.entries() == Entries::empty(),
            r.next_handle() == 0,
    {
        let r = HandleTable { responses: HashMap::new(), next: 0 };
        assert(r.entries() =~= Map::<Handle, (Seq<u8>, nat)>::empty());
        r
    }

    /// Stages `bytes` under a fresh handle, read from the start, and returns it.
    pub fn push(&mut self, bytes: Vec<u8>) -> (h: Handle)
        requires
            old(self).wf(),
        ensures
            final(self).wf(),
            h == old(self).next_handle(),
            final(self).next_handle() == next_after(h),
            final(self).entries() == old(self).entries().insert(h, (bytes@, 0nat)),
    {
        let h = self.next;
        self.next = if self.next == u32::MAX {
            0
        } else {
            self.next + 1
        };
        let ghost data = bytes@;
        self.responses.insert(h, Staged { bytes, pos: 0 });
        assert(self.entries() =~= old(self).entries().insert(h, (data, 0nat)));
        h
    }

    /// Copies up to `buf_len` bytes of the response under `handle`, from its
    /// read offset on, and advances the offset past them.
    pub fn read(&mut self, handle: Handle, buf_len: usize) -> (r: Result<Vec<u8>, u32>)
        requires
            old(self).wf(),
        ensures
            final(self).wf(),
            final(self).next_handle() == old(self).next_handle(),
            read_result(
                old(self).entries(),
                handle,
                buf_len as nat,
                match r {
                    Ok(v) => Ok(v@),
                    Err(e) => Err(e),
                },
                final(self).entries(),
            ),
    {
        let data = match self.responses.remove(&handle) {
            Some(d) => d,
            None => {
                assert(self.entries() =~= old(self).entries());
                return Err(ERR_INVALID_HANDLE);
            },
        };
        assert(old(self).entries().contains_key(handle));
        let len = data.bytes.len();
        let end = if buf_len <= len - data.pos {
            data.pos + buf_len
        } else {
            len
        };
        let mut out: Vec<u8> = Vec::new();
        let mut i: usize = data.pos;
        while i < end
            invariant
                data.pos <= i <= end <= data.bytes.len(),
                out@ == data.bytes@.subrange(data.pos as int, i as int),
            decreases end - i,
        {
            out.push(data.bytes[i]);
            i = i + 1;
            assert(out@ =~= data.bytes@.subrange(data.pos as int, i as int));
        }
        let ghost bytes = data.bytes@;
        self.responses.insert(handle, Staged { bytes: data.bytes, pos: end });
        assert(self.entries() =~= old(self).entries().insert(
            handle,
            (bytes, data.pos as nat + out@.len()),
        ));
        Ok(out)
    }

    /// A read as the guest sees it: the bytes, and whether they filled the
    /// buffer (so that more may remain).
    pub fn read_chunk(&mut self, handle: Handle, buf_len: usize) -> (r: Result<(Vec<u8>, bool), u32>)
        requires
            old(self).wf(),
        ensures
            final(self).wf(),
            final(self).next_handle() == old(self).next_handle(),
            read_result(
                old(self).entries(),
                handle,
                buf_len as nat,
                match r {
                    Ok(v) => Ok(v.0@),
                    Err(e) => Err(e),
                },
                final(self).entries(),
            ),
            r matches Ok((v, more)) ==> more == (v@.len() == buf_len),
    {
        match self.read(handle, buf_len) {
            Ok(v) => {
                let more = v.len() == buf_len;
                Ok((v, more))
            },
            Err(e) => Err(e),
        }
    }

    /// The guest's way to take a whole response: reads through a buffer of
    /// `buf_len` bytes until a read does not fill it, then closes the handle.
    /// Returns the bytes that were unread, which are the concatenation of the
    /// chunks those reads returned.
    pub fn read_to_end(&mut self, handle: Handle, buf_len: usize) -> (r: Result<Vec<u8>, u32>)
        requires
            old(self).wf(),
            buf_len > 0,
        ensures
            final(self).wf(),
            final(self).next_handle() == old(self).next_handle(),
            final(self).entries() == old(self).entries().remove(handle),
            match r {
                Ok(v) => {
                    let (data, pos) = old(self).entries()[handle];
                    &&& old(self).entries().contains_key(handle)
                    &&& v@ == data.subrange(pos as int, data.len() as int)
                    &&& v@ == read_sequence(data, pos, buf_len as nat).flatten()
                },
                Err(e) => !old(self).entries().contains_key(handle) && e == ERR_INVALID_HANDLE,
            },
    {
        if !self.responses.contains_key(&handle) {
            assert(!old(self).entries().contains_key(handle));
            assert(old(self).entries().remove(handle) =~= old(self).entries());
            return Err(ERR_INVALID_HANDLE);
        }
        assert(old(self).entries().contains_key(handle));
        let ghost data = old(self).entries()[handle].0;
        let ghost pos = old(self).entries()[handle].1;
        let ghost mut cur: nat = pos;
        let mut out: Vec<u8> = Vec::new();
        let mut more = true;
        assert(out@ =~= data.subrange(pos as int, cur as int));
        assert(old(self).entries().insert(handle, (data, cur)) =~= old(self).entries());
        while more
            invariant
                buf_len > 0,
                self.wf(),
                self.next_handle() == old(self).next_handle(),
                pos <= cur <= data.len(),
                self.entries() == old(self).entries().insert(handle, (data, cur)),
                out@ == data.subrange(pos as int, cur as int),
                !more ==> cur == data.len(),
            decreases data.len() - cur + (if more { 1int } else { 0int }),
        {
            match self.read_chunk(handle, buf_len) {
                Ok((v, m)) => {
                    let mut v = v;
                    proof {
                        assert(old(self).entries().insert(handle, (data, cur))[handle] == (data, cur));
                        assert(data.subrange(pos as int, cur as int) + v@ =~= data.subrange(
                            pos as int,
                            (cur + v@.len()) as int,
                        ));
                        assert(v@ == chunk(data, cur, buf_len as nat));
                        assert(cur + v@.len() <= data.len());
                        if m {
                            assert(v@.len() == buf_len);
                        } else {
                            assert(v@.len() < buf_len);
                            assert(cur + v@.len() == data.len());
                        }
                        let prev = cur;
                        cur = cur + v@.len();
                        assert(old(self).entries().insert(handle, (data, prev)).insert(
                            handle,
                            (data, cur),
                        ) =~= old(self).entries().insert(handle, (data, cur)));
                    }
                    out.append(&mut v);
                    more = m;
                },
                Err(e) => {
                    return Err(e);
                },
            }
        }
        let _ = self.close(handle);
        assert(old(self).entries().insert(handle, (data, cur)).remove(handle) =~= old(self).entries().remove(
            handle,
        ));
        proof {
            lemma_read_sequence(data, pos, buf_len as nat);
        }
        Ok(out)
    }

    /// Drops the response under `handle`.
    pub fn close(&mut self, handle: Handle) -> (r: Result<(), u32>)
        requires
            old(self).wf(),
        ensures
            final(self).wf(),
            final(self).next_handle() == old(self).next_handle(),
            final(self).entries() == old(self).entries().remove(handle),
            old(self).entries().contains_key(handle) ==> r is Ok,
            !old(self).entries().contains_key(handle) ==> r is Err && r->Err_0 == ERR_INVALID_HANDLE,
    {
        let r = match self.responses.remove(&handle) {
            Some(_) => Ok(()),
            None => Err(ERR_INVALID_HANDLE),
        };
        assert(self.entries() =~= old(self).entries().remove(handle));
        r
    }
}

} // verus!
