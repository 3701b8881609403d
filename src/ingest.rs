//! The text buffer fed from standard input once per frame.

use vstd::prelude::*;

verus! {

/// `(buffer, displayed)` after one tick that read `read`: the buffer grows by
/// what was read, and the displayed text becomes the whole buffer only when
/// something was read.
pub open spec fn after_tick(state: (Seq<char>, Seq<char>), read: Seq<char>) -> (
    Seq<char>,
    Seq<char>,
) {
    let buffer = state.0 + read;
    if read.len() > 0 {
        (buffer, buffer)
    } else {
        (buffer, state.1)
    }
}

/// `(buffer, displayed)` after one tick for each of `reads`, in order.
pub open spec fn after_ticks(state: (Seq<char>, Seq<char>), reads: Seq<Seq<char>>) -> (
    Seq<char>,
    Seq<char>,
)
    decreases reads.len(),
{
    if reads.len() == 0 {
        state
    } else {
        after_tick(after_ticks(state, reads.drop_last()), reads.last())
    }
}

/// All of `reads` one after another.
pub open spec fn joined(reads: Seq<Seq<char>>) -> Seq<char>
    decreases reads.len(),
{
    if reads.len() == 0 {
        Seq::empty()
    } else {
        joined(reads.drop_last()) + reads.last()
    }
}

/// Whatever the stream is cut into from tick to tick, empty reads included,
/// after the ticks that read it the displayed text is the whole stream.
pub proof fn lemma_displays_whole_stream(reads: Seq<Seq<char>>)
    ensures
        after_ticks((Seq::empty(), Seq::empty()), reads) == (joined(reads), joined(reads)),
    decreases reads.len(),
{
    if reads.len() > 0 {
        lemma_displays_whole_stream(reads.drop_last());
        let j = joined(reads.drop_last());
        if reads.last().len() == 0 {
            assert(j + reads.last() =~= j);
        }
    }
}

/// What a tick did.
#[derive(Clone, Copy, Debug, PartialEq, Eq, Structural)]
pub enum Tick {
    /// Nothing new was read; the displayed text was left alone.
    Idle,
    /// New text was read and the displayed text refreshed.
    Refreshing,
}

/// Everything read from standard input so far, and the text on display.
pub struct Vju {
    pub buffer: String,
    pub output: String,
}

impl Vju {
    pub open spec fn state(&self) -> (Seq<char>, Seq<char>) {
        (self.buffer@, self.output@)
    }

    /// Nothing read and nothing displayed.
    pub fn new() -> (r: Self)
        ensures
            r.buffer@ == Seq::<char>::empty(),
            r.output@ == Seq::<char>::empty(),
    {
        Vju { buffer: String::new(), output: String::new() }
    }

    /// One ingestion tick that read `read` from standard input.
    pub fn tick(&mut self, read: &str) -> (r: Tick)
        ensures
            final(self).state() == after_tick(old(self).state(), read@),
            r == (if read@.len() > 0 {
                Tick::Refreshing
            } else {
                Tick::Idle
            }),
    {
        self.buffer.append(read);
        if !read.is_empty() {
            self.output = self.buffer.clone();
            Tick::Refreshing
        } else {
            Tick::Idle
        }
    }

    /// The text on display.
    pub fn displayed(&self) -> (r: &str)
        ensures
            r@ == self.output@,
    {
        self.output.as_str()
    }
}

impl Default for Vju {
    fn default() -> (r: Self)
        ensures
            r.buffer@ == Seq::<char>::empty(),
            r.output@ == Seq::<char>::empty(),
    {
        Vju::new()
    }
}

} // verus!
