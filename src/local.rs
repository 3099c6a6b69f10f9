use crate::error::LlamaError;
use crate::text::contains_str;
use crate::text::occurs_in;
use vstd::prelude::*;

verus! {

/// The prompt handed to the chat template: with images and no media marker in the prompt,
/// the marker and a space come first.
pub open spec fn full_prompt_of(prompt: Seq<char>, marker: Seq<char>, n_images: nat) -> Seq<char> {
    if n_images > 0 && !occurs_in(prompt, marker) {
        marker + seq![' '] + prompt
    } else {
        prompt
    }
}

/// Puts the media marker in front of a prompt that has images and lacks it.
pub fn full_prompt(prompt: &str, marker: &str, n_images: usize) -> (r: String)
    ensures
        r@ == full_prompt_of(prompt@, marker@, n_images as nat),
{
    if n_images > 0 && !contains_str(prompt, marker) {
        let mut r = String::from_str(marker);
        r.append(" ");
        r.append(prompt);
        proof {
            reveal_strlit(" ");
        }
        assert(r@ =~= marker@ + seq![' '] + prompt@);
        r
    } else {
        String::from_str(prompt)
    }
}

/// How far a decode context's key-value cache is filled, out of its capacity.
pub struct CachePosition {
    n_past: usize,
    n_ctx: usize,
}

impl CachePosition {
    pub closed spec fn past(&self) -> nat {
        self.n_past as nat
    }

    pub closed spec fn capacity(&self) -> nat {
        self.n_ctx as nat
    }

    pub closed spec fn wf(&self) -> bool {
        self.n_past <= self.n_ctx
    }

    /// An empty cache of the given capacity.
    pub fn new(n_ctx: usize) -> (r: CachePosition)
        ensures
            r.wf(),
            r.past() == 0,
            r.capacity() == n_ctx,
    {
        CachePosition { n_past: 0, n_ctx }
    }

    /// The number of positions already evaluated.
    pub fn n_past(&self) -> (r: usize)
        ensures
            r == self.past(),
    {
        self.n_past
    }

    /// The number of positions the cache can hold.
    pub fn n_ctx(&self) -> (r: usize)
        ensures
            r == self.capacity(),
    {
        self.n_ctx
    }

    /// Empties the cache.
    pub fn reset(&mut self)
        ensures
            final(self).wf(),
            final(self).past() == 0,
            final(self).capacity() == old(self).capacity(),
    {
        self.n_past = 0;
    }

    /// Records where prompt evaluation left the cache. A position behind the current one or
    /// beyond the capacity is an evaluation error, and nothing changes.
    pub fn record_prompt_eval(&mut self, new_n_past: i32) -> (r: Result<(), LlamaError>)
        requires
            old(self).wf(),
        ensures
            final(self).wf(),
            final(self).capacity() == old(self).capacity(),
            r is Ok <==> old(self).past() <= new_n_past && new_n_past <= old(self).capacity(),
            r is Ok ==> final(self).past() == new_n_past,
            r is Err ==> final(self).past() == old(self).past() && r matches Err(LlamaError::Eval(_)),
    {
        if new_n_past < 0 || (new_n_past as usize) < self.n_past || (new_n_past as usize)
            > self.n_ctx {
            return Err(LlamaError::Eval(String::from_str("prompt evaluation left the cache out of range")));
        }
        self.n_past = new_n_past as usize;
        Ok(())
    }
}

/// The token-by-token generation of one answer over a cache.
pub struct ResponseStream {
    is_done: bool,
    emitted: usize,
    start: Ghost<nat>,
}

impl ResponseStream {
    pub closed spec fn done(&self) -> bool {
        self.is_done
    }

    /// The number of fragments handed out so far.
    pub closed spec fn emitted_count(&self) -> nat {
        self.emitted as nat
    }

    /// The cache holds the prompt and exactly one position per fragment handed out.
    pub closed spec fn consistent(&self, cache: CachePosition) -> bool {
        cache.wf() && cache.past() == self.start@ + self.emitted
    }

    /// Generation that starts where the prompt left the cache.
    pub fn new(cache: &CachePosition) -> (r: ResponseStream)
        requires
            cache.wf(),
        ensures
            r.consistent(*cache),
            !r.done(),
            r.emitted_count() == 0,
    {
        ResponseStream { is_done: false, emitted: 0, start: Ghost(cache.n_past as nat) }
    }

    /// Whether generation has ended.
    pub fn is_done(&self) -> (r: bool)
        ensures
            r == self.done(),
    {
        self.is_done
    }

    /// The number of fragments handed out so far.
    pub fn emitted(&self) -> (r: usize)
        ensures
            r == self.emitted_count(),
    {
        self.emitted
    }

    /// Decides on a freshly sampled token. An end-of-generation token ends the stream with no
    /// fragment (`None`); a full cache ends it with an evaluation error; any other token is to
    /// be placed at the returned position and evaluated.
    pub fn on_sampled(&mut self, cache: &CachePosition, is_eog: bool) -> (r: Option<
        Result<usize, LlamaError>,
    >)
        requires
            old(self).consistent(*cache),
        ensures
            final(self).consistent(*cache),
            final(self).emitted_count() == old(self).emitted_count(),
            old(self).done() ==> r is None && final(self).done(),
            !old(self).done() && is_eog ==> r is None && final(self).done(),
            !old(self).done() && !is_eog && cache.past() >= cache.capacity() ==> final(self).done()
                && r matches Some(Err(LlamaError::Eval(_))),
            !old(self).done() && !is_eog && cache.past() < cache.capacity() ==> !final(self).done()
                && r == Some(Ok::<usize, LlamaError>(cache.past() as usize)),
    {
        if self.is_done {
            return None;
        }
        if is_eog {
            self.is_done = true;
            return None;
        }
        if cache.n_past >= cache.n_ctx {
            self.is_done = true;
            return Some(Err(LlamaError::Eval(String::from_str("the context is full"))));
        }
        Some(Ok(cache.n_past))
    }

    /// Takes the outcome of turning the placed token into text and evaluating it. A fragment
    /// advances the cache by one position and is handed out; an error ends the stream and
    /// leaves the cache where it was.
    pub fn on_evaluated(&mut self, cache: &mut CachePosition, outcome: Result<String, LlamaError>) -> (r:
        Option<Result<String, LlamaError>>)
        requires
            old(self).consistent(*old(cache)),
            !old(self).done(),
            old(cache).past() < old(cache).capacity(),
        ensures
            final(self).consistent(*final(cache)),
            final(cache).capacity() == old(cache).capacity(),
            r == Some(outcome),
            outcome is Ok ==> !final(self).done() && final(cache).past() == old(cache).past() + 1
                && final(self).emitted_count() == old(self).emitted_count() + 1,
            outcome is Err ==> final(self).done() && final(cache).past() == old(cache).past()
                && final(self).emitted_count() == old(self).emitted_count(),
    {
        match outcome {
            Ok(piece) => {
                cache.n_past = cache.n_past + 1;
                self.emitted = self.emitted + 1;
                Some(Ok(piece))
            },
            Err(e) => {
                self.is_done = true;
                Some(Err(e))
            },
        }
    }
}

} // verus!
