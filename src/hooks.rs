//! Prefix-matched listeners on the inbound packets of a channel.
//!
//! A hook is a record with a prefix, the id of a callback that the runtime
//! keeps, and what happens to the record after it fires. Every inbound
//! packet is offered to the hooks in insertion order before it is queued for
//! the receiver; hooks observe and never consume it.

use vstd::prelude::*;
use crate::protocol::{has_prefix, starts_with};

verus! {

/// Whether a hook stays installed after it fires.
#[derive(Debug, Clone, Copy, PartialEq, Eq, Structural)]
pub enum HookDisposition {
    Discard,
    Retain,
}

/// What a prefix buffer holds, in order.
pub uninterp spec fn prefix_bytes(v: heapless::Vec<u8, 8>) -> Seq<u8>;

/// Relies on `heapless::Vec::new`: an empty buffer.
#[verifier::external_body]
fn prefix_empty() -> (r: heapless::Vec<u8, 8>)
    ensures
        prefix_bytes(r) == Seq::<u8>::empty(),
{
    heapless::Vec::new()
}

/// Relies on `heapless::Vec::from_slice`: a copy of `b` when it fits in
/// eight bytes.
#[verifier::external_body]
fn prefix_from_slice(b: &[u8]) -> (r: Option<heapless::Vec<u8, 8>>)
    ensures
        r is Some <==> b@.len() <= 8,
        r matches Some(v) ==> prefix_bytes(v) == b@,
{
    heapless::Vec::from_slice(b).ok()
}

/// Relies on `heapless::Vec::as_slice`: the bytes in order.
#[verifier::external_body]
fn prefix_slice(v: &heapless::Vec<u8, 8>) -> (r: &[u8])
    ensures
        r@ == prefix_bytes(*v),
{
    v.as_slice()
}

/// One installed hook.
#[derive(Debug)]
pub struct Hook {
    /// Prefix bytes, at most eight.
    pub prefix: heapless::Vec<u8, 8>,
    /// Callback id.
    pub id: u32,
    pub disposition: HookDisposition,
}

impl Hook {
    /// A hook that fires once, on every packet until a prefix is set.
    pub fn once(id: u32) -> (r: Hook)
        ensures
            r.id == id,
            prefix_bytes(r.prefix).len() == 0,
            r.disposition == HookDisposition::Discard,
    {
        Hook { prefix: prefix_empty(), id, disposition: HookDisposition::Discard }
    }

    /// The same hook, firing only on packets that start with `pfx`.
    pub fn prefix(self, pfx: &[u8]) -> (r: Hook)
        requires
            pfx@.len() <= 8,
        ensures
            r.id == self.id,
            prefix_bytes(r.prefix) == pfx@,
            r.disposition == self.disposition,
    {
        let stored = match prefix_from_slice(pfx) {
            Some(v) => v,
            None => prefix_empty(),
        };
        Hook { prefix: stored, id: self.id, disposition: self.disposition }
    }

    /// Whether the hook fires on `bytes`, and its disposition then (a hook
    /// that does not fire is retained).
    pub fn passthrough(&self, bytes: &[u8]) -> (r: (bool, HookDisposition))
        ensures
            r.0 == has_prefix(bytes@, prefix_bytes(self.prefix)),
            r.1 == (if r.0 { self.disposition } else { HookDisposition::Retain }),
    {
        if starts_with(bytes, prefix_slice(&self.prefix)) {
            (true, self.disposition)
        } else {
            (false, HookDisposition::Retain)
        }
    }
}

/// Ids of the hooks that fire on `bytes`, in insertion order.
pub open spec fn fired(hooks: Seq<Hook>, bytes: Seq<u8>) -> Seq<u32>
    decreases hooks.len(),
{
    if hooks.len() == 0 {
        Seq::empty()
    } else {
        let h = hooks.last();
        fired(hooks.drop_last(), bytes) + if has_prefix(bytes, prefix_bytes(h.prefix)) { seq![h.id] } else { Seq::empty() }
    }
}

/// Whether a hook stays after `bytes` was offered.
pub open spec fn stays(h: Hook, bytes: Seq<u8>) -> bool {
    !(has_prefix(bytes, prefix_bytes(h.prefix)) && h.disposition == HookDisposition::Discard)
}

/// The hooks that stay installed after `bytes`, in insertion order: all but
/// the fired ones that discard themselves.
pub open spec fn kept(hooks: Seq<Hook>, bytes: Seq<u8>) -> Seq<Hook>
    decreases hooks.len(),
{
    if hooks.len() == 0 {
        Seq::empty()
    } else {
        let h = hooks.last();
        kept(hooks.drop_last(), bytes) + if stays(h, bytes) { seq![h] } else { Seq::empty() }
    }
}

/// The hooks installed on a channel.
#[derive(Debug)]
pub struct Hooks {
    pub hooks: Vec<Hook>,
}

impl Hooks {
    pub fn new() -> (r: Hooks)
        ensures
            r.hooks@.len() == 0,
    {
        Hooks { hooks: Vec::new() }
    }

    /// Adds a hook after the others.
    pub fn install(self, hook: Hook) -> (r: Hooks)
        ensures
            r.hooks@ == self.hooks@.push(hook),
    {
        let mut hooks = self.hooks;
        hooks.push(hook);
        Hooks { hooks }
    }

    /// Adds a one-shot hook on `prefix` for callback `id`.
    pub fn prefix_once(self, prefix: &[u8], id: u32) -> (r: Hooks)
        requires
            prefix@.len() <= 8,
        ensures
            r.hooks@.len() == self.hooks@.len() + 1,
            r.hooks@.drop_last() == self.hooks@,
            r.hooks@.last().id == id,
            prefix_bytes(r.hooks@.last().prefix) == prefix@,
            r.hooks@.last().disposition == HookDisposition::Discard,
    {
        let r = self.install(Hook::once(id).prefix(prefix));
        assert(r.hooks@.drop_last() =~= self.hooks@);
        r
    }

    /// Offers an inbound packet to every hook: returns the ids of those that
    /// fire, in order, and removes the fired ones that discard themselves.
    pub fn passthrough(&mut self, bytes: &[u8]) -> (r: Vec<u32>)
        ensures
            r@ == fired(old(self).hooks@, bytes@),
            final(self).hooks@ == kept(old(self).hooks@, bytes@),
    {
        let mut fired_ids: Vec<u32> = Vec::new();
        let mut kept_hooks: Vec<Hook> = Vec::new();
        let ghost h0 = self.hooks@;
        let n0 = self.hooks.len();
        let mut i: usize = 0;
        while self.hooks.len() > 0
            invariant
                i + self.hooks@.len() == h0.len(),
                h0.len() == n0,
                self.hooks@ == h0.subrange(i as int, h0.len() as int),
                fired_ids@ == fired(h0.subrange(0, i as int), bytes@),
                kept_hooks@ == kept(h0.subrange(0, i as int), bytes@),
            decreases self.hooks@.len(),
        {
            let h = self.hooks.remove(0);
            assert(h == h0[i as int]);
            let ghost pre = h0.subrange(0, i as int + 1);
            assert(pre.drop_last() =~= h0.subrange(0, i as int));
            assert(pre.last() == h);
            let (hit, disp) = h.passthrough(bytes);
            if hit {
                fired_ids.push(h.id);
            }
            assert(fired_ids@ =~= fired(pre, bytes@));
            if disp == HookDisposition::Retain {
                kept_hooks.push(h);
            }
            assert(kept_hooks@ =~= kept(pre, bytes@));
            assert(self.hooks@ =~= h0.subrange(i as int + 1, h0.len() as int));
            i = i + 1;
        }
        assert(h0.subrange(0, h0.len() as int) =~= h0);
        self.hooks = kept_hooks;
        fired_ids
    }
}

} // verus!
