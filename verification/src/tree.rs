//! The structured tree event model: the operations a writer emits against a
//! sink (start element with attributes, character data, end element), and
//! the well-formed-nesting predicate over event streams.

use vstd::prelude::*;

verus! {

/// Mathematical model of one sink operation.
#[verifier::ext_equal]
pub enum EventModel {
    Start { tag: Seq<char>, attrs: Seq<(Seq<char>, Seq<char>)> },
    Characters(Seq<char>),
    End,
}

/// One sink operation as plain data: a nested element stream is a sequence
/// of these.
#[derive(Debug, PartialEq, Eq)]
pub enum Event {
    Start { tag: String, attrs: Vec<(String, String)> },
    Characters(String),
    End,
}

/// The attribute list that a sequence of plain name/value pairs models.
pub open spec fn attrs_view(s: Seq<(String, String)>) -> Seq<(Seq<char>, Seq<char>)> {
    s.map_values(|p: (String, String)| (p.0@, p.1@))
}

impl View for Event {
    type V = EventModel;

    open spec fn view(&self) -> EventModel {
        match self {
            Event::Start { tag, attrs } => EventModel::Start {
                tag: tag@,
                attrs: attrs_view(attrs@),
            },
            Event::Characters(s) => EventModel::Characters(s@),
            Event::End => EventModel::End,
        }
    }
}

/// The event stream that a sequence of plain events models.
pub open spec fn events_view(s: Seq<Event>) -> Seq<EventModel> {
    s.map_values(|e: Event| e@)
}

/// How many start-element operations a stream holds.
pub open spec fn start_count(s: Seq<EventModel>) -> int
    decreases s.len(),
{
    if s.len() == 0 {
        0
    } else {
        start_count(s.drop_last()) + (if s.last() is Start { 1int } else { 0int })
    }
}

/// How many end-element operations a stream holds.
pub open spec fn end_count(s: Seq<EventModel>) -> int
    decreases s.len(),
{
    if s.len() == 0 {
        0
    } else {
        end_count(s.drop_last()) + (if s.last() is End { 1int } else { 0int })
    }
}

/// A balanced stream: starts and ends match in number, and no prefix closes
/// more elements than it has opened, so nesting depth never goes negative.
pub open spec fn balanced(s: Seq<EventModel>) -> bool {
    &&& start_count(s) == end_count(s)
    &&& forall|i: int| 0 <= i <= s.len() ==> end_count(#[trigger] s.take(i)) <= start_count(s.take(i))
}

/// The empty stream holds no operations of either kind.
pub proof fn lemma_counts_empty()
    ensures
        start_count(Seq::<EventModel>::empty()) == 0,
        end_count(Seq::<EventModel>::empty()) == 0,
{
}

/// Counting a one-operation stream.
pub proof fn lemma_counts_singleton(e: EventModel)
    ensures
        start_count(seq![e]) == (if e is Start { 1int } else { 0int }),
        end_count(seq![e]) == (if e is End { 1int } else { 0int }),
{
    lemma_counts_empty();
    assert(seq![e].drop_last() =~= Seq::<EventModel>::empty());
    assert(seq![e].last() == e);
}

/// Prefixes compose.
pub proof fn lemma_prefix_trans(a: Seq<EventModel>, b: Seq<EventModel>, c: Seq<EventModel>)
    requires
        a.is_prefix_of(b),
        b.is_prefix_of(c),
    ensures
        a.is_prefix_of(c),
{
    assert(a =~= c.subrange(0, a.len() as int));
}

/// Counting operations distributes over concatenation.
pub proof fn lemma_counts_concat(a: Seq<EventModel>, b: Seq<EventModel>)
    ensures
        start_count(a + b) == start_count(a) + start_count(b),
        end_count(a + b) == end_count(a) + end_count(b),
    decreases b.len(),
{
    if b.len() == 0 {
        assert(a + b =~= a);
    } else {
        assert((a + b).drop_last() =~= a + b.drop_last());
        assert((a + b).last() == b.last());
        lemma_counts_concat(a, b.drop_last());
    }
}

/// Two balanced streams concatenate to a balanced stream.
pub proof fn lemma_balanced_concat(a: Seq<EventModel>, b: Seq<EventModel>)
    requires
        balanced(a),
        balanced(b),
    ensures
        balanced(a + b),
{
    lemma_counts_concat(a, b);
    assert forall|i: int| 0 <= i <= (a + b).len() implies end_count(#[trigger] (a + b).take(i))
        <= start_count((a + b).take(i)) by {
        if i <= a.len() {
            assert((a + b).take(i) =~= a.take(i));
        } else {
            assert((a + b).take(i) =~= a + b.take(i - a.len()));
            lemma_counts_concat(a, b.take(i - a.len()));
        }
    }
}

/// Wrapping a balanced stream in one matching start/end pair keeps it
/// balanced.
pub proof fn lemma_balanced_wrap(
    tag: Seq<char>,
    attrs: Seq<(Seq<char>, Seq<char>)>,
    m: Seq<EventModel>,
)
    requires
        balanced(m),
    ensures
        balanced(seq![EventModel::Start { tag, attrs }] + m + seq![EventModel::End]),
{
    let open_part = seq![EventModel::Start { tag, attrs }];
    let close_part = seq![EventModel::End];
    let whole = open_part + m + close_part;
    lemma_counts_singleton(EventModel::Start { tag, attrs });
    lemma_counts_singleton(EventModel::End);
    lemma_counts_concat(open_part + m, close_part);
    lemma_counts_concat(open_part, m);
    assert forall|i: int| 0 <= i <= whole.len() implies end_count(#[trigger] whole.take(i))
        <= start_count(whole.take(i)) by {
        if i == 0 {
            lemma_counts_empty();
            assert(whole.take(i) =~= Seq::<EventModel>::empty());
        } else if i <= 1 + m.len() {
            assert(whole.take(i) =~= open_part + m.take(i - 1));
            lemma_counts_concat(open_part, m.take(i - 1));
            assert(end_count(m.take(i - 1)) <= start_count(m.take(i - 1)));
        } else {
            assert(whole.take(i) =~= whole);
        }
    }
}

/// The empty stream is balanced.
pub proof fn lemma_balanced_empty()
    ensures
        balanced(Seq::<EventModel>::empty()),
{
    lemma_counts_empty();
    assert forall|i: int| 0 <= i <= Seq::<EventModel>::empty().len() implies end_count(
        #[trigger] Seq::<EventModel>::empty().take(i),
    ) <= start_count(Seq::<EventModel>::empty().take(i)) by {
        assert(Seq::<EventModel>::empty().take(i) =~= Seq::<EventModel>::empty());
    }
}

/// A stream of one characters operation is balanced.
pub proof fn lemma_balanced_characters(text: Seq<char>)
    ensures
        balanced(seq![EventModel::Characters(text)]),
{
    let s = seq![EventModel::Characters(text)];
    lemma_counts_empty();
    lemma_counts_singleton(EventModel::Characters(text));
    assert forall|i: int| 0 <= i <= s.len() implies end_count(#[trigger] s.take(i)) <= start_count(
        s.take(i),
    ) by {
        if i == 0 {
            assert(s.take(i) =~= Seq::<EventModel>::empty());
        } else {
            assert(s.take(i) =~= s);
        }
    }
}

} // verus!
