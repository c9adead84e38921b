//! The per-request stream producer, as a state machine over its emission
//! counter. Before each emission the driver pauses; `next_step` says for how
//! long, or that the stream has ended. The driver then asks for the event.

use crate::words::{lemma_words_single_line, single_line, word_at, word_list, WORD_COUNT};
use axum::response::sse::Event;
use rand::Rng;
use vstd::prelude::*;

verus! {

#[verifier::external_type_specification]
#[verifier::external_body]
pub struct ExEvent(Event);

/// Seconds of pause before each emission.
pub const DELAY_SECS: u64 = 1;

/// What the driver does next.
#[derive(Debug, Clone, Copy, PartialEq, Eq, Structural)]
pub enum Step {
    /// Wait this many seconds, then take the next event.
    Pause { seconds: u64 },
    /// The stream is over: close the response.
    Finish,
}

/// Whether a producer that has emitted `c` events emits another.
pub open spec fn yields(c: nat) -> bool {
    c < WORD_COUNT
}

/// The counter after one advance from `c`.
pub open spec fn next_count(c: nat) -> nat {
    if yields(c) {
        c + 1
    } else {
        c
    }
}

/// The step that a producer with counter `c` asks of its driver.
pub open spec fn step_of(c: nat) -> Step {
    if yields(c) {
        Step::Pause { seconds: DELAY_SECS }
    } else {
        Step::Finish
    }
}

/// The counter of a fresh producer after `k` advances.
pub open spec fn count_after(k: nat) -> nat
    decreases k,
{
    if k == 0 {
        0
    } else {
        next_count(count_after((k - 1) as nat))
    }
}

/// The seconds of pause a fresh producer asks for over its first `k` advances.
pub open spec fn pause_total(k: nat) -> nat
    decreases k,
{
    if k == 0 {
        0
    } else {
        pause_total((k - 1) as nat) + match step_of(count_after((k - 1) as nat)) {
            Step::Pause { seconds } => seconds as nat,
            Step::Finish => 0nat,
        }
    }
}

/// A fresh stream emits on exactly its first `WORD_COUNT` advances: after `k`
/// advances its counter is `min(k, WORD_COUNT)`, and the next advance emits an
/// event if and only if `k < WORD_COUNT`.
pub proof fn lemma_emits_word_count(k: nat)
    ensures
        count_after(k) == if k < WORD_COUNT { k } else { WORD_COUNT as nat },
        yields(count_after(k)) <==> k < WORD_COUNT,
    decreases k,
{
    if k > 0 {
        lemma_emits_word_count((k - 1) as nat);
    }
}

/// A fresh stream pauses `DELAY_SECS` before each of its emissions and never
/// after it has ended: over its first `k` advances it asks for
/// `min(k, WORD_COUNT) * DELAY_SECS` seconds of pause, so its `k`-th event
/// (counting from one) comes after at least `k * DELAY_SECS` seconds.
pub proof fn lemma_pacing(k: nat)
    ensures
        pause_total(k) == (if k < WORD_COUNT { k } else { WORD_COUNT as nat }) * DELAY_SECS,
        1 <= k <= WORD_COUNT ==> pause_total(k) == k * DELAY_SECS,
    decreases k,
{
    if k > 0 {
        lemma_pacing((k - 1) as nat);
        lemma_emits_word_count((k - 1) as nat);
    }
}

/// Relies on rand's `thread_rng` and `Rng::gen_range`: a value drawn from `0..n`,
/// which is below `n`; `gen_range` panics on an empty range.
#[verifier::external_body]
fn draw_index(n: usize) -> (r: usize)
    requires
        n > 0,
    ensures
        r < n,
{
    rand::thread_rng().gen_range(0..n)
}

/// The event that axum builds with `text` as its data.
pub uninterp spec fn data_event_of(text: Seq<char>) -> Event;

/// Relies on axum's `Event::default` and `Event::data`: an event whose data is
/// `text`, which depends on `text` alone; `data` panics when `text` holds a
/// carriage return.
#[verifier::external_body]
fn data_event(text: &str) -> (r: Event)
    requires
        !text@.contains('\r'),
    ensures
        r == data_event_of(text@),
{
    Event::default().data(text)
}

/// The state of one stream: how many events it has emitted.
pub struct WordStream {
    count: usize,
}

impl View for WordStream {
    type V = nat;

    closed spec fn view(&self) -> nat {
        self.count as nat
    }
}

impl WordStream {
    /// The counter never passes the length of the word list.
    pub open spec fn wf(&self) -> bool {
        self@ <= WORD_COUNT
    }

    /// A fresh stream, which has emitted nothing.
    pub fn new() -> (r: WordStream)
        ensures
            r@ == 0,
            r.wf(),
    {
        WordStream { count: 0 }
    }

    /// How many events this stream has emitted.
    pub fn emitted(&self) -> (r: usize)
        ensures
            r == self@,
    {
        self.count
    }

    /// Whether the stream has ended.
    pub fn is_finished(&self) -> (r: bool)
        ensures
            r == !yields(self@),
    {
        self.count >= WORD_COUNT
    }

    /// What the driver does next: pause before an emission, or finish.
    pub fn next_step(&self) -> (r: Step)
        ensures
            r == step_of(self@),
    {
        if self.count < WORD_COUNT {
            Step::Pause { seconds: DELAY_SECS }
        } else {
            Step::Finish
        }
    }

    /// Advances with the word at `index`: that word while the stream has not
    /// ended, nothing afterwards.
    pub fn advance_with(&mut self, index: usize) -> (r: Option<&'static str>)
        requires
            old(self).wf(),
            index < WORD_COUNT,
        ensures
            final(self).wf(),
            final(self)@ == next_count(old(self)@),
            yields(old(self)@) ==> (r matches Some(w) && w@ == word_list()[index as int]),
            !yields(old(self)@) ==> r is None,
    {
        if self.count < WORD_COUNT {
            self.count = self.count + 1;
            Some(word_at(index))
        } else {
            None
        }
    }

    /// Advances with a word drawn at random from the list.
    pub fn advance(&mut self) -> (r: Option<&'static str>)
        requires
            old(self).wf(),
        ensures
            final(self).wf(),
            final(self)@ == next_count(old(self)@),
            yields(old(self)@) ==> (r matches Some(w) && word_list().contains(w@)),
            !yields(old(self)@) ==> r is None,
    {
        if self.count < WORD_COUNT {
            let index = draw_index(WORD_COUNT);
            self.advance_with(index)
        } else {
            None
        }
    }

    /// Advances with the word at `index`, wrapped as an SSE event with one
    /// `data` line.
    pub fn next_event_with(&mut self, index: usize) -> (r: Option<Event>)
        requires
            old(self).wf(),
            index < WORD_COUNT,
        ensures
            final(self).wf(),
            final(self)@ == next_count(old(self)@),
            yields(old(self)@) ==> r == Some(data_event_of(word_list()[index as int])),
            !yields(old(self)@) ==> r is None,
    {
        match self.advance_with(index) {
            Some(w) => {
                proof {
                    lemma_words_single_line();
                    assert(single_line(word_list()[index as int]));
                }
                Some(data_event(w))
            },
            None => None,
        }
    }

    /// Advances with a word drawn at random from the list, wrapped as an SSE
    /// event with one `data` line.
    pub fn next_event(&mut self) -> (r: Option<Event>)
        requires
            old(self).wf(),
        ensures
            final(self).wf(),
            final(self)@ == next_count(old(self)@),
            yields(old(self)@) ==> (r matches Some(e) && exists|i: int|
                0 <= i < WORD_COUNT && e == data_event_of(#[trigger] word_list()[i])),
            !yields(old(self)@) ==> r is None,
    {
        if self.count < WORD_COUNT {
            let index = draw_index(WORD_COUNT);
            self.next_event_with(index)
        } else {
            None
        }
    }
}

} // verus!
