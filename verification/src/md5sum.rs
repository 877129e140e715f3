//! Streaming MD5 digests for downloaded tarballs.
//!
//! A tarball is never held in memory whole: the caller reads it in small
//! fixed-size chunks and feeds each to a [`StreamingHasher`], whose ghost
//! state tracks exactly which bytes have been absorbed. The digest of those
//! bytes is named by [`md5_hex_of`]; the hash computation itself is the md5
//! crate's.

use vstd::prelude::*;

verus! {

/// The 32-digit lowercase hex MD5 digest of a byte sequence.
pub uninterp spec fn md5_hex_of(bytes: Seq<u8>) -> Seq<char>;

/// The bytes an md5 context has absorbed so far, in order.
pub uninterp spec fn md5_ctx_bytes(ctx: md5::Context) -> Seq<u8>;

#[verifier::external_type_specification]
#[verifier::external_body]
pub struct ExMd5Context(md5::Context);

/// Relies on md5::Context::new: a fresh context has absorbed nothing.
#[verifier::external_body]
fn md5_context_new() -> (c: md5::Context)
    ensures
        md5_ctx_bytes(c) == Seq::<u8>::empty(),
{
    md5::Context::new()
}

/// Relies on md5::Context::consume: the context absorbs exactly the bytes
/// handed to it, after everything absorbed before.
#[verifier::external_body]
fn md5_context_consume(c: &mut md5::Context, data: &[u8])
    ensures
        md5_ctx_bytes(*final(c)) == md5_ctx_bytes(*old(c)) + data@,
{
    c.consume(data)
}

/// Relies on md5::Context::finalize and md5::Digest's LowerHex format: the
/// digest depends on the absorbed bytes alone, and prints as exactly 32
/// lowercase hex digits, two per digest byte.
#[verifier::external_body]
fn md5_context_hex(c: md5::Context) -> (r: String)
    ensures
        r@ == md5_hex_of(md5_ctx_bytes(c)),
        r@.len() == 32,
{
    format!("{:x}", c.finalize())
}

/// A running MD5 digest over chunks of a download.
pub struct StreamingHasher {
    ctx: md5::Context,
    absorbed: Ghost<Seq<u8>>,
}

impl StreamingHasher {
    /// The bytes absorbed so far.
    pub closed spec fn bytes(&self) -> Seq<u8> {
        self.absorbed@
    }

    /// The context has absorbed exactly the tracked bytes.
    pub closed spec fn wf(&self) -> bool {
        md5_ctx_bytes(self.ctx) == self.absorbed@
    }

    /// A hasher that has absorbed nothing.
    pub fn new() -> (h: Self)
        ensures
            h.wf(),
            h.bytes() == Seq::<u8>::empty(),
    {
        StreamingHasher { ctx: md5_context_new(), absorbed: Ghost(Seq::empty()) }
    }

    /// Absorbs one chunk.
    pub fn update(&mut self, chunk: &[u8])
        requires
            old(self).wf(),
        ensures
            final(self).wf(),
            final(self).bytes() == old(self).bytes() + chunk@,
    {
        let ghost absorbed = self.absorbed@ + chunk@;
        md5_context_consume(&mut self.ctx, chunk);
        self.absorbed = Ghost(absorbed);
    }

    /// The digest of everything absorbed, as 32 lowercase hex digits.
    pub fn finish_hex(self) -> (r: String)
        requires
            self.wf(),
        ensures
            r@ == md5_hex_of(self.bytes()),
            r@.len() == 32,
    {
        md5_context_hex(self.ctx)
    }
}

} // verus!
