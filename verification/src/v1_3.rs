//! The v1.3 schema representation of the hash entity: its wire shape, the
//! adapter pair to and from the canonical model, and its writer protocol
//! over the structured tree sink.

use vstd::prelude::*;

use crate::models;
use crate::models::{alg_name_seq, alg_of_seq, alg_wf};
use crate::sink::{xml_render, XmlSink, XmlWriteError};
use crate::tree::{
    balanced, lemma_balanced_characters, lemma_balanced_concat, lemma_balanced_empty,
    lemma_balanced_wrap, lemma_prefix_trans, Event, EventModel, events_view,
};

verus! {

/// Mathematical model of one v1.3 hash record: the algorithm name as it
/// appears on the wire, and the digest text.
#[verifier::ext_equal]
pub struct HashModel {
    pub alg: Seq<char>,
    pub content: Seq<char>,
}

/// The opaque value wrapper of this schema version: one raw string.
#[derive(Debug, PartialEq, Eq)]
pub struct HashValue(pub String);

impl View for HashValue {
    type V = Seq<char>;

    open spec fn view(&self) -> Seq<char> {
        self.0@
    }
}

impl HashValue {
    /// Structure-preserving identity: copies the string.
    pub fn from_canonical(other: &models::HashValue) -> (r: HashValue)
        ensures
            r@ == other@,
    {
        HashValue(other.0.clone())
    }

    /// Structure-preserving identity: copies the string.
    pub fn to_canonical(&self) -> (r: models::HashValue)
        ensures
            r@ == self@,
    {
        models::HashValue(self.0.clone())
    }
}

/// One v1.3 hash record: algorithm name rendered as a plain string, digest
/// held by the opaque wrapper.
#[derive(Debug, PartialEq, Eq)]
pub struct Hash {
    pub alg: String,
    pub content: HashValue,
}

impl View for Hash {
    type V = HashModel;

    open spec fn view(&self) -> HashModel {
        HashModel { alg: self.alg@, content: self.content@ }
    }
}

/// What `Hash::from_canonical` produces: the vocabulary value rendered to
/// its canonical string form, the digest copied.
pub open spec fn spec_from_canonical(c: models::HashModel) -> HashModel {
    HashModel { alg: alg_name_seq(c.alg), content: c.content }
}

/// What `Hash::to_canonical` produces: the wire name resolved through the
/// vocabulary (never failing), the digest copied.
pub open spec fn spec_to_canonical(v: HashModel) -> models::HashModel {
    models::HashModel { alg: alg_of_seq(v.alg), content: v.content }
}

/// Round-trip identity for one record: converting a canonical instance to
/// its v1.3 shape and back returns the instance, field by field.
pub proof fn lemma_round_trip(c: models::HashModel)
    requires
        alg_wf(c.alg),
    ensures
        spec_to_canonical(spec_from_canonical(c)) == c,
{
    models::lemma_alg_name_round_trip(c.alg);
    assert(spec_to_canonical(spec_from_canonical(c)) =~= c);
}

impl Hash {
    /// Total conversion from the canonical model: every canonical instance
    /// maps to exactly one v1.3 instance.
    pub fn from_canonical(other: &models::Hash) -> (r: Hash)
        ensures
            r@ == spec_from_canonical(other@),
    {
        let r = Hash {
            alg: other.alg.to_text(),
            content: HashValue::from_canonical(&other.content),
        };
        proof {
            assert(r@ =~= spec_from_canonical(other@));
        }
        r
    }

    /// Total conversion to the canonical model: an unrecognized algorithm
    /// name is preserved under the catch-all variant, never rejected.
    pub fn to_canonical(&self) -> (r: models::Hash)
        ensures
            r@ == spec_to_canonical(self@),
            alg_wf(r@.alg),
    {
        let r = models::Hash {
            alg: models::HashAlgorithm::new_unchecked(self.alg.clone()),
            content: self.content.to_canonical(),
        };
        proof {
            assert(r@ =~= spec_to_canonical(self@));
        }
        r
    }
}

/// The element stream one record writes: start of `hash` carrying the `alg`
/// attribute, the digest as character data, end.
pub open spec fn hash_events(h: HashModel) -> Seq<EventModel> {
    seq![
        EventModel::Start { tag: "hash"@, attrs: seq![("alg"@, h.alg)] },
        EventModel::Characters(h.content),
        EventModel::End,
    ]
}

/// The concatenation of each element's stream, in collection order.
pub open spec fn hashes_child_events(s: Seq<HashModel>) -> Seq<EventModel>
    decreases s.len(),
{
    if s.len() == 0 {
        Seq::empty()
    } else {
        hash_events(s[0]) + hashes_child_events(s.drop_first())
    }
}

/// The element stream a collection writes: start of `hashes`, every
/// element's stream in order, end.
pub open spec fn hashes_events(s: Seq<HashModel>) -> Seq<EventModel> {
    seq![EventModel::Start { tag: "hashes"@, attrs: Seq::empty() }] + hashes_child_events(s)
        + seq![EventModel::End]
}

/// Appending one record to a collection appends its stream to the
/// children's stream.
pub proof fn lemma_child_events_snoc(s: Seq<HashModel>, x: HashModel)
    ensures
        hashes_child_events(s.push(x)) == hashes_child_events(s) + hash_events(x),
    decreases s.len(),
{
    if s.len() == 0 {
        assert(s.push(x)[0] == x);
        assert(s.push(x).drop_first() =~= Seq::<HashModel>::empty());
        assert(hashes_child_events(Seq::<HashModel>::empty()) == Seq::<EventModel>::empty());
        assert(s =~= Seq::<HashModel>::empty());
        assert(hashes_child_events(s.push(x)) =~= hashes_child_events(s) + hash_events(x));
    } else {
        assert(s.push(x)[0] == s[0]);
        assert(s.push(x).drop_first() =~= s.drop_first().push(x));
        lemma_child_events_snoc(s.drop_first(), x);
        assert(hashes_child_events(s.push(x)) == hash_events(s[0]) + hashes_child_events(
            s.drop_first().push(x),
        ));
        assert(hashes_child_events(s.push(x)) =~= hashes_child_events(s) + hash_events(x));
    }
}

/// The v1.3 collection wrapper: an ordered sequence of records, constructed
/// without reordering or deduplication.
#[derive(Debug, PartialEq, Eq)]
pub struct Hashes(pub Vec<Hash>);

impl View for Hashes {
    type V = Seq<HashModel>;

    open spec fn view(&self) -> Seq<HashModel> {
        self.0@.map_values(|h: Hash| h@)
    }
}

impl Hashes {
    /// Order preservation: the v1.3 collection has the same length as the
    /// canonical one, and its element at index `i` is the conversion of the
    /// canonical element at index `i`.
    pub fn from_canonical(other: &models::Hashes) -> (r: Hashes)
        ensures
            r@.len() == other@.len(),
            forall|i: int| 0 <= i < other@.len() ==> r@[i] == spec_from_canonical(other@[i]),
    {
        let mut out: Vec<Hash> = Vec::new();
        let mut idx: usize = 0;
        while idx < other.0.len()
            invariant
                idx <= other.0.len(),
                out@.len() == idx as int,
                forall|i: int| 0 <= i < idx as int ==> out@[i]@ == spec_from_canonical(other@[i]),
            decreases other.0.len() - idx,
        {
            out.push(Hash::from_canonical(&other.0[idx]));
            idx += 1;
        }
        Hashes(out)
    }

    /// Order preservation in the reverse direction: element-wise conversion
    /// back to the canonical model, keeping length and order.
    pub fn to_canonical(&self) -> (r: models::Hashes)
        ensures
            r@.len() == self@.len(),
            forall|i: int| 0 <= i < self@.len() ==> r@[i] == spec_to_canonical(self@[i]),
            forall|i: int| 0 <= i < self@.len() ==> alg_wf(#[trigger] r@[i].alg),
    {
        let mut out: Vec<models::Hash> = Vec::new();
        let mut idx: usize = 0;
        while idx < self.0.len()
            invariant
                idx <= self.0.len(),
                out@.len() == idx as int,
                forall|i: int| 0 <= i < idx as int ==> out@[i]@ == spec_to_canonical(self@[i]),
                forall|i: int| 0 <= i < idx as int ==> alg_wf(#[trigger] out@[i]@.alg),
            decreases self.0.len() - idx,
        {
            out.push(self.0[idx].to_canonical());
            idx += 1;
        }
        models::Hashes(out)
    }
}

/// Round-trip identity for a collection: element-wise conversion to the
/// v1.3 shape and back returns the input sequence.
pub proof fn lemma_collection_round_trip(c: Seq<models::HashModel>)
    requires
        forall|i: int| 0 <= i < c.len() ==> alg_wf(#[trigger] c[i].alg),
    ensures
        c.map_values(|x: models::HashModel| spec_from_canonical(x)).map_values(
            |v: HashModel| spec_to_canonical(v),
        ) == c,
{
    let m = c.map_values(|x: models::HashModel| spec_from_canonical(x)).map_values(
        |v: HashModel| spec_to_canonical(v),
    );
    assert forall|i: int| 0 <= i < c.len() implies m[i] == c[i] by {
        lemma_round_trip(c[i]);
    }
    assert(m =~= c);
}

impl Hash {
    /// Writes this record against the sink: start of `hash` with the `alg`
    /// attribute, the digest text, end. On success the sink's stream grows
    /// by exactly this record's stream; a sink failure aborts immediately,
    /// tagged with the element name.
    pub fn write_xml_element(&self, writer: &mut XmlSink) -> (r: Result<(), XmlWriteError>)
        ensures
            r is Ok ==> final(writer).events() == old(writer).events() + hash_events(self@),
            r is Err ==> r->Err_0.element@ == "hash"@ && old(writer).events().is_prefix_of(
                final(writer).events(),
            ),
    {
        let ghost at_entry = writer.events();
        match writer.start_element_with_attr("hash", "alg", self.alg.as_str()) {
            Ok(()) => {}
            Err(e) => {
                proof {
                    assert(at_entry =~= writer.events().subrange(0, at_entry.len() as int));
                }
                return Err(e);
            }
        }
        match writer.characters(self.content.0.as_str(), "hash") {
            Ok(()) => {}
            Err(e) => {
                proof {
                    assert(at_entry =~= writer.events().subrange(0, at_entry.len() as int));
                }
                return Err(e);
            }
        }
        match writer.end_element("hash") {
            Ok(()) => {}
            Err(e) => {
                proof {
                    assert(at_entry =~= writer.events().subrange(0, at_entry.len() as int));
                }
                return Err(e);
            }
        }
        proof {
            assert(writer.events() =~= at_entry + hash_events(self@));
        }
        Ok(())
    }
}

impl Hashes {
    /// Writes the collection against the sink: start of `hashes`, every
    /// record in collection order, end. Invoked on an empty collection it
    /// emits an empty outer element with no children; callers wanting to
    /// omit the group entirely must check emptiness first.
    pub fn write_xml_element(&self, writer: &mut XmlSink) -> (r: Result<(), XmlWriteError>)
        ensures
            r is Ok ==> final(writer).events() == old(writer).events() + hashes_events(self@),
            r is Err ==> (r->Err_0.element@ == "hashes"@ || r->Err_0.element@ == "hash"@)
                && old(writer).events().is_prefix_of(final(writer).events()),
    {
        let ghost at_entry = writer.events();
        match writer.start_element("hashes") {
            Ok(()) => {}
            Err(e) => {
                proof {
                    assert(at_entry =~= writer.events().subrange(0, at_entry.len() as int));
                }
                return Err(e);
            }
        }
        proof {
            assert(self@.take(0int) =~= Seq::<HashModel>::empty());
            assert(hashes_child_events(Seq::<HashModel>::empty()) == Seq::<EventModel>::empty());
            assert(writer.events() =~= at_entry + seq![
                EventModel::Start { tag: "hashes"@, attrs: Seq::empty() },
            ] + hashes_child_events(self@.take(0int)));
        }
        let mut idx: usize = 0;
        while idx < self.0.len()
            invariant
                idx <= self.0.len(),
                at_entry == old(writer).events(),
                writer.events() == at_entry + seq![
                    EventModel::Start { tag: "hashes"@, attrs: Seq::empty() },
                ] + hashes_child_events(self@.take(idx as int)),
            decreases self.0.len() - idx,
        {
            let ghost before_child = writer.events();
            match self.0[idx].write_xml_element(writer) {
                Ok(()) => {}
                Err(e) => {
                    proof {
                        assert(at_entry.is_prefix_of(before_child)) by {
                            assert(at_entry =~= before_child.subrange(0, at_entry.len() as int));
                        }
                        lemma_prefix_trans(at_entry, before_child, writer.events());
                    }
                    return Err(e);
                }
            }
            proof {
                assert(self@.take(idx as int + 1) =~= self@.take(idx as int).push(
                    self@[idx as int],
                ));
                lemma_child_events_snoc(self@.take(idx as int), self@[idx as int]);
                assert(self.0@[idx as int]@ == self@[idx as int]);
                assert(writer.events() =~= at_entry + seq![
                    EventModel::Start { tag: "hashes"@, attrs: Seq::empty() },
                ] + hashes_child_events(self@.take(idx as int + 1)));
            }
            idx += 1;
        }
        match writer.end_element("hashes") {
            Ok(()) => {}
            Err(e) => {
                proof {
                    assert(at_entry =~= writer.events().subrange(0, at_entry.len() as int));
                }
                return Err(e);
            }
        }
        proof {
            assert(self@.take(self.0@.len() as int) =~= self@);
            assert(writer.events() =~= at_entry + hashes_events(self@));
        }
        Ok(())
    }
}

impl Hash {
    /// Serializes this one record to XML text through a fresh sink.
    pub fn to_xml_string(&self) -> (r: Result<String, XmlWriteError>)
        ensures
            r is Ok ==> r->Ok_0@ == xml_render(hash_events(self@)),
            r is Err ==> r->Err_0.element@ == "hash"@,
    {
        let mut sink = XmlSink::new();
        match self.write_xml_element(&mut sink) {
            Err(e) => Err(e),
            Ok(()) => {
                proof {
                    assert(sink.events() =~= hash_events(self@));
                }
                Ok(sink.into_string())
            }
        }
    }

    /// Emits this record's element stream as plain data.
    pub fn to_event_stream(&self) -> (r: Vec<Event>)
        ensures
            events_view(r@) == hash_events(self@),
    {
        let mut attrs: Vec<(String, String)> = Vec::new();
        attrs.push(("alg".to_owned(), self.alg.clone()));
        let mut out: Vec<Event> = Vec::new();
        out.push(Event::Start { tag: "hash".to_owned(), attrs });
        out.push(Event::Characters(self.content.0.clone()));
        out.push(Event::End);
        proof {
            assert(events_view(out@) =~~= hash_events(self@));
        }
        out
    }
}

impl Hashes {
    /// Serializes the collection to XML text through a fresh sink.
    pub fn to_xml_string(&self) -> (r: Result<String, XmlWriteError>)
        ensures
            r is Ok ==> r->Ok_0@ == xml_render(hashes_events(self@)),
            r is Err ==> r->Err_0.element@ == "hashes"@ || r->Err_0.element@ == "hash"@,
    {
        let mut sink = XmlSink::new();
        match self.write_xml_element(&mut sink) {
            Err(e) => Err(e),
            Ok(()) => {
                proof {
                    assert(sink.events() =~= hashes_events(self@));
                }
                Ok(sink.into_string())
            }
        }
    }

    /// Emits the collection's element stream as plain data.
    pub fn to_event_stream(&self) -> (r: Vec<Event>)
        ensures
            events_view(r@) == hashes_events(self@),
    {
        let mut out: Vec<Event> = Vec::new();
        out.push(Event::Start { tag: "hashes".to_owned(), attrs: Vec::new() });
        proof {
            assert(self@.take(0int) =~= Seq::<HashModel>::empty());
            assert(hashes_child_events(Seq::<HashModel>::empty()) == Seq::<EventModel>::empty());
            assert(events_view(out@) =~~= seq![
                EventModel::Start { tag: "hashes"@, attrs: Seq::empty() },
            ] + hashes_child_events(self@.take(0int)));
        }
        let mut idx: usize = 0;
        while idx < self.0.len()
            invariant
                idx <= self.0.len(),
                events_view(out@) == seq![
                    EventModel::Start { tag: "hashes"@, attrs: Seq::empty() },
                ] + hashes_child_events(self@.take(idx as int)),
            decreases self.0.len() - idx,
        {
            let mut child = self.0[idx].to_event_stream();
            let ghost out_before = out@;
            let ghost child_view = events_view(child@);
            out.append(&mut child);
            proof {
                assert(self@.take(idx as int + 1) =~= self@.take(idx as int).push(
                    self@[idx as int],
                ));
                lemma_child_events_snoc(self@.take(idx as int), self@[idx as int]);
                assert(self.0@[idx as int]@ == self@[idx as int]);
                assert(events_view(out@) =~= events_view(out_before) + child_view);
                assert(events_view(out@) =~= seq![
                    EventModel::Start { tag: "hashes"@, attrs: Seq::empty() },
                ] + hashes_child_events(self@.take(idx as int + 1)));
            }
            idx += 1;
        }
        out.push(Event::End);
        proof {
            assert(self@.take(self.0@.len() as int) =~= self@);
            assert(events_view(out@) =~~= hashes_events(self@));
        }
        out
    }
}

/// Well-formed nesting: one record's write emits a balanced stream.
pub proof fn lemma_hash_events_balanced(h: HashModel)
    ensures
        balanced(hash_events(h)),
{
    lemma_balanced_characters(h.content);
    lemma_balanced_wrap(
        "hash"@,
        seq![("alg"@, h.alg)],
        seq![EventModel::Characters(h.content)],
    );
    assert(hash_events(h) =~= seq![
        EventModel::Start { tag: "hash"@, attrs: seq![("alg"@, h.alg)] },
    ] + seq![EventModel::Characters(h.content)] + seq![EventModel::End]);
}

/// The children of a collection write form a balanced stream.
pub proof fn lemma_child_events_balanced(s: Seq<HashModel>)
    ensures
        balanced(hashes_child_events(s)),
    decreases s.len(),
{
    if s.len() == 0 {
        lemma_balanced_empty();
    } else {
        lemma_hash_events_balanced(s[0]);
        lemma_child_events_balanced(s.drop_first());
        lemma_balanced_concat(hash_events(s[0]), hashes_child_events(s.drop_first()));
    }
}

/// Well-formed nesting: a collection's write emits a balanced stream.
pub proof fn lemma_hashes_events_balanced(s: Seq<HashModel>)
    ensures
        balanced(hashes_events(s)),
{
    lemma_child_events_balanced(s);
    lemma_balanced_wrap("hashes"@, Seq::empty(), hashes_child_events(s));
}

/// Empty collection behavior: the stream of an empty collection is exactly
/// a start of `hashes` followed by its end, with no children.
pub proof fn lemma_empty_collection_events()
    ensures
        hashes_events(Seq::empty()) == seq![
            EventModel::Start { tag: "hashes"@, attrs: Seq::empty() },
            EventModel::End,
        ],
{
    assert(hashes_events(Seq::empty()) =~= seq![
        EventModel::Start { tag: "hashes"@, attrs: Seq::empty() },
        EventModel::End,
    ]);
}

} // verus!
