//! The sink's duplicate filter: a message is forwarded the first time its
//! text is seen and discarded ever after.  The set of seen texts lives in
//! memory only.

use vstd::prelude::*;
use vstd::string::StringExecFns;
use crate::listing::texts;

verus! {

/// The texts that were forwarded so far.
pub struct Deduplicator {
    seen: Vec<String>,
}

/// The messages of a batch that are forwarded, in order: those whose text
/// is neither in `seen` nor earlier in the batch.
pub open spec fn forwarded(seen: Set<Seq<char>>, messages: Seq<Seq<char>>) -> Seq<Seq<char>>
    decreases messages.len(),
{
    if messages.len() == 0 {
        Seq::empty()
    } else if seen.contains(messages.last()) || messages.drop_last().contains(messages.last()) {
        forwarded(seen, messages.drop_last())
    } else {
        forwarded(seen, messages.drop_last()).push(messages.last())
    }
}

/// The texts of a batch as a set.
pub open spec fn text_set(messages: Seq<Seq<char>>) -> Set<Seq<char>> {
    Set::new(|text: Seq<char>| messages.contains(text))
}

/// The line that the sink writes for a message: its text and a newline.
pub open spec fn record_of(message: Seq<char>) -> Seq<char> {
    message + "\n"@
}

/// What is forwarded is new and is forwarded once: no text of the output
/// was seen before, none occurs twice, each comes from the batch, and every
/// text of the batch that was not seen before is in the output.
pub proof fn lemma_forwarded_is_fresh(seen: Set<Seq<char>>, messages: Seq<Seq<char>>)
    ensures
        forwarded(seen, messages).no_duplicates(),
        forall|text: Seq<char>|
            forwarded(seen, messages).contains(text) <==> messages.contains(text)
                && !seen.contains(text),
    decreases messages.len(),
{
    let out = forwarded(seen, messages);
    if messages.len() > 0 {
        let front = messages.drop_last();
        let last = messages.last();
        let kept = forwarded(seen, front);
        lemma_forwarded_is_fresh(seen, front);
        assert(front.push(last) == messages);
        assert forall|text: Seq<char>| messages.contains(text) <==> front.contains(text) || text
            == last by {
            if messages.contains(text) {
                let k = choose|k: int| 0 <= k < messages.len() && messages[k] == text;
                if k < front.len() {
                    assert(front[k] == text);
                }
            }
            if front.contains(text) {
                let k = choose|k: int| 0 <= k < front.len() && front[k] == text;
                assert(messages[k] == text);
            }
            if text == last {
                assert(messages[messages.len() - 1] == text);
            }
        }
        if !(seen.contains(last) || front.contains(last)) {
            assert(!kept.contains(last));
            assert forall|text: Seq<char>| out.contains(text) <==> kept.contains(text) || text
                == last by {
                if out.contains(text) {
                    let k = choose|k: int| 0 <= k < out.len() && out[k] == text;
                    if k < kept.len() {
                        assert(kept[k] == text);
                    }
                }
                if kept.contains(text) {
                    let k = choose|k: int| 0 <= k < kept.len() && kept[k] == text;
                    assert(out[k] == text);
                }
                if text == last {
                    assert(out[out.len() - 1] == text);
                }
            }
            assert forall|i: int, j: int| 0 <= i < out.len() && 0 <= j < out.len() && i
                != j implies out[i] != out[j] by {
                if i == kept.len() {
                    assert(kept.contains(out[j]));
                } else if j == kept.len() {
                    assert(kept.contains(out[i]));
                }
            }
        }
    }
}

/// A batch that comes again forwards nothing: once its texts are seen,
/// polling the same messages anew gives no output.
pub proof fn lemma_repeated_batch_forwards_nothing(seen: Set<Seq<char>>, messages: Seq<Seq<char>>)
    ensures
        forwarded(seen.union(text_set(messages)), messages) == Seq::<Seq<char>>::empty(),
{
    let known = seen.union(text_set(messages));
    let out = forwarded(known, messages);
    lemma_forwarded_is_fresh(known, messages);
    if out.len() > 0 {
        assert(out.contains(out[0]));
        assert(messages.contains(out[0]));
        assert(known.contains(out[0]));
    }
}

impl Deduplicator {
    /// The set of texts seen so far.
    pub closed spec fn seen(&self) -> Set<Seq<char>> {
        text_set(texts(self.seen@))
    }

    /// No text is held twice.
    pub closed spec fn well_formed(&self) -> bool {
        forall|i: int, j: int|
            0 <= i < j < self.seen@.len() ==> (#[trigger] self.seen@[i])@ != (
            #[trigger] self.seen@[j])@
    }

    /// A filter that has seen nothing.
    pub fn new() -> (filter: Deduplicator)
        ensures
            filter.well_formed(),
            filter.seen() == Set::<Seq<char>>::empty(),
    {
        let filter = Deduplicator { seen: Vec::new() };
        assert(filter.seen() =~= Set::<Seq<char>>::empty());
        filter
    }

    /// Whether `message` was seen before.
    pub fn contains(&self, message: &str) -> (known: bool)
        ensures
            known == self.seen().contains(message@),
    {
        let wanted = message.to_owned();
        let mut i: usize = 0;
        while i < self.seen.len()
            invariant
                i <= self.seen.len(),
                wanted@ == message@,
                forall|k: int| 0 <= k < i ==> (#[trigger] self.seen@[k])@ != message@,
            decreases self.seen.len() - i,
        {
            if self.seen[i] == wanted {
                assert(texts(self.seen@)[i as int] == message@);
                return true;
            }
            i += 1;
        }
        assert(!texts(self.seen@).contains(message@)) by {
            if texts(self.seen@).contains(message@) {
                let k = choose|k: int|
                    0 <= k < texts(self.seen@).len() && texts(self.seen@)[k] == message@;
                assert(self.seen@[k]@ == message@);
            }
        }
        false
    }

    /// Takes one message in: `true` where its text is new, and the message
    /// is to be forwarded; `false` where it is a repeat, to be discarded.
    pub fn observe(&mut self, message: &str) -> (fresh: bool)
        requires
            old(self).well_formed(),
        ensures
            final(self).well_formed(),
            fresh == !old(self).seen().contains(message@),
            final(self).seen() == old(self).seen().insert(message@),
    {
        if self.contains(message) {
            assert(self.seen().insert(message@) =~= self.seen());
            false
        } else {
            let ghost before = self.seen@;
            let text = message.to_owned();
            self.seen.push(text);
            proof {
                assert forall|i: int, j: int| 0 <= i < j < self.seen@.len() implies (
                #[trigger] self.seen@[i])@ != (#[trigger] self.seen@[j])@ by {
                    if j == before.len() {
                        assert(texts(before)[i] == before[i]@);
                    }
                }
                assert(texts(self.seen@) =~= texts(before).push(message@));
                assert forall|t: Seq<char>|
                    text_set(texts(self.seen@)).contains(t) == text_set(texts(before)).insert(
                        message@,
                    ).contains(t) by {
                    if texts(before).contains(t) {
                        let k = choose|k: int| 0 <= k < texts(before).len() && texts(before)[k] == t;
                        assert(texts(self.seen@)[k] == t);
                    }
                    if t == message@ {
                        assert(texts(self.seen@)[before.len() as int] == t);
                    }
                }
                assert(text_set(texts(self.seen@)) =~= text_set(texts(before)).insert(message@));
            }
            true
        }
    }

    /// Takes a batch in and gives back the messages to forward, in order.
    pub fn forward(&mut self, messages: Vec<String>) -> (fresh: Vec<String>)
        requires
            old(self).well_formed(),
        ensures
            final(self).well_formed(),
            texts(fresh@) == forwarded(old(self).seen(), texts(messages@)),
            final(self).seen() == old(self).seen().union(text_set(texts(messages@))),
    {
        let mut fresh: Vec<String> = Vec::new();
        let ghost all = texts(messages@);
        let ghost start = self.seen();
        proof {
            assert(all.take(0) == Seq::<Seq<char>>::empty());
            assert(texts(fresh@) == Seq::<Seq<char>>::empty());
            assert(start.union(text_set(all.take(0))) =~= start);
        }
        for message in it: messages
            invariant
                self.well_formed(),
                all == texts(messages@),
                texts(fresh@) == forwarded(start, all.take(it.index() as int)),
                self.seen() == start.union(text_set(all.take(it.index() as int))),
        {
            let ghost n = it.index() as int;
            proof {
                let prev = all.take(n);
                let next = all.take(n + 1);
                assert(next.drop_last() == prev);
                assert(next.last() == message@);
                assert forall|t: Seq<char>|
                    text_set(next).contains(t) == text_set(prev).insert(message@).contains(
                        t,
                    ) by {
                    if next.contains(t) {
                        let k = choose|k: int| 0 <= k < next.len() && next[k] == t;
                        if k < n {
                            assert(prev[k] == t);
                        }
                    }
                    if prev.contains(t) {
                        let k = choose|k: int| 0 <= k < prev.len() && prev[k] == t;
                        assert(next[k] == t);
                    }
                    if t == message@ {
                        assert(next[n] == t);
                    }
                }
                assert(text_set(next) =~= text_set(prev).insert(message@));
                assert(start.union(text_set(prev)).insert(message@) =~= start.union(
                    text_set(next),
                ));
            }
            let ghost kept = texts(fresh@);
            if self.observe(message.as_str()) {
                fresh.push(message);
                assert(texts(fresh@) =~= kept.push(message@));
            }
        }
        assert(all.take(all.len() as int) == all);
        fresh
    }
}

/// The line to write to the sink for a forwarded message.
pub fn record(message: &str) -> (line: String)
    ensures
        line@ == record_of(message@),
{
    message.to_owned().concat("\n")
}

} // verus!
