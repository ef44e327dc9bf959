//! The structured tree reader protocol for the v1.3 hash entity: rebuilds
//! records and collections from a nested element stream. Unknown attributes
//! and unknown child elements (with their whole subtrees) are ignored, so
//! documents written against a future vocabulary still load; malformed
//! nesting or a missing required field fails with a structural parse error
//! identifying the offending tag.

use vstd::prelude::*;

use crate::tree::{attrs_view, events_view, Event, EventModel};
use crate::v1_3::{hash_events, hashes_child_events, hashes_events, HashModel, HashValue, Hashes};

verus! {

/// Mathematical model of a structural parse failure.
#[verifier::ext_equal]
pub enum ReadErrorModel {
    UnexpectedEndOfStream { element: Seq<char> },
    UnexpectedEvent { element: Seq<char> },
    MissingAttribute { element: Seq<char>, attribute: Seq<char> },
    MissingContent { element: Seq<char> },
    UnexpectedTrailing { element: Seq<char> },
}

/// A structural parse failure, naming the element being read when the
/// stream did not fit its shape.
#[derive(Debug, PartialEq, Eq)]
pub enum XmlReadError {
    UnexpectedEndOfStream { element: String },
    UnexpectedEvent { element: String },
    MissingAttribute { element: String, attribute: String },
    MissingContent { element: String },
    UnexpectedTrailing { element: String },
}

impl View for XmlReadError {
    type V = ReadErrorModel;

    open spec fn view(&self) -> ReadErrorModel {
        match self {
            XmlReadError::UnexpectedEndOfStream { element } => {
                ReadErrorModel::UnexpectedEndOfStream { element: element@ }
            }
            XmlReadError::UnexpectedEvent { element } => {
                ReadErrorModel::UnexpectedEvent { element: element@ }
            }
            XmlReadError::MissingAttribute { element, attribute } => {
                ReadErrorModel::MissingAttribute { element: element@, attribute: attribute@ }
            }
            XmlReadError::MissingContent { element } => {
                ReadErrorModel::MissingContent { element: element@ }
            }
            XmlReadError::UnexpectedTrailing { element } => {
                ReadErrorModel::UnexpectedTrailing { element: element@ }
            }
        }
    }
}

/// The value of the first attribute with the given name, if any; later
/// duplicates and unknown attributes are ignored.
pub open spec fn spec_find_attr(attrs: Seq<(Seq<char>, Seq<char>)>, name: Seq<char>) -> Option<
    Seq<char>,
>
    decreases attrs.len(),
{
    if attrs.len() == 0 {
        None
    } else if attrs[0].0 == name {
        Some(attrs[0].1)
    } else {
        spec_find_attr(attrs.drop_first(), name)
    }
}

/// The position just past the subtree that is open at `i` with `depth`
/// unclosed elements, or nothing if the stream ends first.
pub open spec fn spec_skip(s: Seq<EventModel>, i: int, depth: int) -> Option<int>
    decreases s.len() - i,
{
    if i < 0 || i >= s.len() {
        None
    } else {
        match s[i] {
            EventModel::Start { .. } => spec_skip(s, i + 1, depth + 1),
            EventModel::Characters(_) => spec_skip(s, i + 1, depth),
            EventModel::End => {
                if depth <= 1 {
                    Some(i + 1)
                } else {
                    spec_skip(s, i + 1, depth - 1)
                }
            }
        }
    }
}

/// Skipping moves strictly forward and never past the end.
pub proof fn lemma_spec_skip_bounds(s: Seq<EventModel>, i: int, depth: int)
    ensures
        spec_skip(s, i, depth) matches Some(j) ==> i < j <= s.len(),
    decreases s.len() - i,
{
    if 0 <= i < s.len() {
        lemma_spec_skip_bounds(s, i + 1, depth + 1);
        lemma_spec_skip_bounds(s, i + 1, depth);
        lemma_spec_skip_bounds(s, i + 1, depth - 1);
    }
}

/// Parsing the inside of a `hash` element from position `i`: `alg` came
/// from the start tag, `text` is the character data seen so far. Character
/// data may come at most once; unknown child elements are skipped whole;
/// the matching end yields the record.
pub open spec fn spec_parse_hash_children(
    s: Seq<EventModel>,
    i: int,
    alg: Seq<char>,
    text: Option<Seq<char>>,
) -> Result<(HashModel, int), ReadErrorModel>
    decreases s.len() - i,
{
    if i < 0 || i >= s.len() {
        Err(ReadErrorModel::UnexpectedEndOfStream { element: "hash"@ })
    } else {
        match s[i] {
            EventModel::Characters(t) => {
                if text is Some {
                    Err(ReadErrorModel::UnexpectedEvent { element: "hash"@ })
                } else {
                    spec_parse_hash_children(s, i + 1, alg, Some(t))
                }
            }
            EventModel::Start { .. } => {
                match spec_skip(s, i + 1, 1) {
                    None => Err(ReadErrorModel::UnexpectedEndOfStream { element: "hash"@ }),
                    Some(j) => {
                        proof {
                            lemma_spec_skip_bounds(s, i + 1, 1);
                        }
                        spec_parse_hash_children(s, j, alg, text)
                    }
                }
            }
            EventModel::End => {
                match text {
                    Some(t) => Ok((HashModel { alg, content: t }, i + 1)),
                    None => Err(ReadErrorModel::MissingContent { element: "hash"@ }),
                }
            }
        }
    }
}

/// Parsing one `hash` element that starts at position `i`: the start tag
/// must be `hash` and must carry an `alg` attribute; unknown attributes are
/// ignored.
pub open spec fn spec_parse_hash(s: Seq<EventModel>, i: int) -> Result<
    (HashModel, int),
    ReadErrorModel,
> {
    if i < 0 || i >= s.len() {
        Err(ReadErrorModel::UnexpectedEndOfStream { element: "hash"@ })
    } else {
        match s[i] {
            EventModel::Start { tag, attrs } => {
                if tag == "hash"@ {
                    match spec_find_attr(attrs, "alg"@) {
                        Some(alg) => spec_parse_hash_children(s, i + 1, alg, None),
                        None => Err(
                            ReadErrorModel::MissingAttribute {
                                element: "hash"@,
                                attribute: "alg"@,
                            },
                        ),
                    }
                } else {
                    Err(ReadErrorModel::UnexpectedEvent { element: "hash"@ })
                }
            }
            _ => Err(ReadErrorModel::UnexpectedEvent { element: "hash"@ }),
        }
    }
}

/// A successful element parse moves strictly forward and never past the
/// end.
pub proof fn lemma_spec_parse_hash_children_bounds(
    s: Seq<EventModel>,
    i: int,
    alg: Seq<char>,
    text: Option<Seq<char>>,
)
    ensures
        spec_parse_hash_children(s, i, alg, text) matches Ok((h, j)) ==> i < j <= s.len(),
    decreases s.len() - i,
{
    if 0 <= i < s.len() {
        match s[i] {
            EventModel::Characters(t) => {
                lemma_spec_parse_hash_children_bounds(s, i + 1, alg, Some(t));
            }
            EventModel::Start { .. } => {
                if let Some(j) = spec_skip(s, i + 1, 1) {
                    lemma_spec_skip_bounds(s, i + 1, 1);
                    lemma_spec_parse_hash_children_bounds(s, j, alg, text);
                }
            }
            EventModel::End => {}
        }
    }
}

/// A successful element parse moves strictly forward and never past the
/// end.
pub proof fn lemma_spec_parse_hash_bounds(s: Seq<EventModel>, i: int)
    ensures
        spec_parse_hash(s, i) matches Ok((h, j)) ==> i < j <= s.len(),
{
    if 0 <= i < s.len() {
        if let EventModel::Start { tag, attrs } = s[i] {
            if let Some(alg) = spec_find_attr(attrs, "alg"@) {
                lemma_spec_parse_hash_children_bounds(s, i + 1, alg, None);
            }
        }
    }
}

/// Parsing the inside of a `hashes` element from position `i`: each `hash`
/// child is parsed in order; unknown child elements are skipped whole and
/// stray character data is ignored; the matching end yields the collected
/// records.
pub open spec fn spec_parse_hashes_children(
    s: Seq<EventModel>,
    i: int,
    acc: Seq<HashModel>,
) -> Result<(Seq<HashModel>, int), ReadErrorModel>
    decreases s.len() - i,
{
    if i < 0 || i >= s.len() {
        Err(ReadErrorModel::UnexpectedEndOfStream { element: "hashes"@ })
    } else {
        match s[i] {
            EventModel::End => Ok((acc, i + 1)),
            EventModel::Characters(_) => spec_parse_hashes_children(s, i + 1, acc),
            EventModel::Start { tag, .. } => {
                if tag == "hash"@ {
                    match spec_parse_hash(s, i) {
                        Ok((h, j)) => {
                            proof {
                                lemma_spec_parse_hash_bounds(s, i);
                            }
                            spec_parse_hashes_children(s, j, acc.push(h))
                        }
                        Err(e) => Err(e),
                    }
                } else {
                    match spec_skip(s, i + 1, 1) {
                        None => Err(
                            ReadErrorModel::UnexpectedEndOfStream { element: "hashes"@ },
                        ),
                        Some(j) => {
                            proof {
                                lemma_spec_skip_bounds(s, i + 1, 1);
                            }
                            spec_parse_hashes_children(s, j, acc)
                        }
                    }
                }
            }
        }
    }
}

/// Parsing a whole stream as one `hashes` collection: the stream must be
/// exactly one `hashes` element (its attributes are ignored) with nothing
/// after it.
pub open spec fn spec_parse_hashes(s: Seq<EventModel>) -> Result<Seq<HashModel>, ReadErrorModel> {
    if s.len() == 0 {
        Err(ReadErrorModel::UnexpectedEndOfStream { element: "hashes"@ })
    } else {
        match s[0] {
            EventModel::Start { tag, .. } => {
                if tag == "hashes"@ {
                    match spec_parse_hashes_children(s, 1, Seq::empty()) {
                        Ok((items, j)) => {
                            if j == s.len() {
                                Ok(items)
                            } else {
                                Err(ReadErrorModel::UnexpectedTrailing { element: "hashes"@ })
                            }
                        }
                        Err(e) => Err(e),
                    }
                } else {
                    Err(ReadErrorModel::UnexpectedEvent { element: "hashes"@ })
                }
            }
            _ => Err(ReadErrorModel::UnexpectedEvent { element: "hashes"@ }),
        }
    }
}

/// Parsing a whole stream as one `hash` record with nothing after it.
pub open spec fn spec_parse_hash_doc(s: Seq<EventModel>) -> Result<HashModel, ReadErrorModel> {
    match spec_parse_hash(s, 0) {
        Ok((h, j)) => {
            if j == s.len() {
                Ok(h)
            } else {
                Err(ReadErrorModel::UnexpectedTrailing { element: "hash"@ })
            }
        }
        Err(e) => Err(e),
    }
}

/// The character stream an optional text value models.
pub open spec fn opt_text_view(t: Option<String>) -> Option<Seq<char>> {
    match t {
        Some(s) => Some(s@),
        None => None,
    }
}

fn lookup_attr(attrs: &Vec<(String, String)>, name: &String) -> (r: Option<String>)
    ensures
        match r {
            Some(v) => spec_find_attr(attrs_view(attrs@), name@) == Some(v@),
            None => spec_find_attr(attrs_view(attrs@), name@) is None,
        },
{
    proof {
        assert(attrs_view(attrs@).skip(0int) =~= attrs_view(attrs@));
    }
    let mut k: usize = 0;
    while k < attrs.len()
        invariant
            k <= attrs@.len(),
            spec_find_attr(attrs_view(attrs@), name@) == spec_find_attr(
                attrs_view(attrs@).skip(k as int),
                name@,
            ),
        decreases attrs@.len() - k,
    {
        proof {
            assert(attrs_view(attrs@).skip(k as int)[0] == (
                attrs@[k as int].0@,
                attrs@[k as int].1@,
            ));
            assert(attrs_view(attrs@).skip(k as int).drop_first() =~= attrs_view(attrs@).skip(
                k as int + 1,
            ));
        }
        if attrs[k].0 == *name {
            return Some(attrs[k].1.clone());
        }
        k += 1;
    }
    proof {
        assert(attrs_view(attrs@).skip(attrs@.len() as int) =~= Seq::<(
            Seq<char>,
            Seq<char>,
        )>::empty());
    }
    None
}

fn skip_subtree(events: &Vec<Event>, i: usize, depth: usize) -> (r: Option<usize>)
    requires
        i <= events@.len(),
        events@.len() < usize::MAX,
        1 <= depth,
        depth <= i + 1,
    ensures
        match r {
            Some(j) => spec_skip(events_view(events@), i as int, depth as int) == Some(j as int)
                && i < j <= events@.len(),
            None => spec_skip(events_view(events@), i as int, depth as int) is None,
        },
    decreases events@.len() - i,
{
    if i >= events.len() {
        return None;
    }
    proof {
        assert(events_view(events@)[i as int] == events@[i as int]@);
    }
    match &events[i] {
        Event::Start { .. } => skip_subtree(events, i + 1, depth + 1),
        Event::Characters(_) => skip_subtree(events, i + 1, depth),
        Event::End => {
            if depth <= 1 {
                Some(i + 1)
            } else {
                skip_subtree(events, i + 1, depth - 1)
            }
        }
    }
}

fn parse_hash_children(events: &Vec<Event>, i: usize, alg: String, text: Option<String>) -> (r:
    Result<(crate::v1_3::Hash, usize), XmlReadError>)
    requires
        i <= events@.len(),
        events@.len() < usize::MAX,
    ensures
        ({
            let sr = spec_parse_hash_children(
                events_view(events@),
                i as int,
                alg@,
                opt_text_view(text),
            );
            match r {
                Ok((h, j)) => sr == Ok::<(HashModel, int), ReadErrorModel>((h@, j as int)) && i < j
                    <= events@.len(),
                Err(e) => sr == Err::<(HashModel, int), ReadErrorModel>(e@),
            }
        }),
    decreases events@.len() - i,
{
    if i >= events.len() {
        return Err(XmlReadError::UnexpectedEndOfStream { element: "hash".to_owned() });
    }
    proof {
        assert(events_view(events@)[i as int] == events@[i as int]@);
    }
    match &events[i] {
        Event::Characters(t) => {
            if text.is_some() {
                Err(XmlReadError::UnexpectedEvent { element: "hash".to_owned() })
            } else {
                parse_hash_children(events, i + 1, alg, Some(t.clone()))
            }
        }
        Event::Start { .. } => {
            match skip_subtree(events, i + 1, 1) {
                None => Err(XmlReadError::UnexpectedEndOfStream { element: "hash".to_owned() }),
                Some(j) => parse_hash_children(events, j, alg, text),
            }
        }
        Event::End => {
            match text {
                Some(t) => Ok((crate::v1_3::Hash { alg, content: HashValue(t) }, i + 1)),
                None => Err(XmlReadError::MissingContent { element: "hash".to_owned() }),
            }
        }
    }
}

fn parse_hash_at(events: &Vec<Event>, i: usize) -> (r: Result<
    (crate::v1_3::Hash, usize),
    XmlReadError,
>)
    requires
        i <= events@.len(),
        events@.len() < usize::MAX,
    ensures
        ({
            let sr = spec_parse_hash(events_view(events@), i as int);
            match r {
                Ok((h, j)) => sr == Ok::<(HashModel, int), ReadErrorModel>((h@, j as int)) && i < j
                    <= events@.len(),
                Err(e) => sr == Err::<(HashModel, int), ReadErrorModel>(e@),
            }
        }),
{
    if i >= events.len() {
        return Err(XmlReadError::UnexpectedEndOfStream { element: "hash".to_owned() });
    }
    proof {
        assert(events_view(events@)[i as int] == events@[i as int]@);
    }
    match &events[i] {
        Event::Start { tag, attrs } => {
            if *tag == "hash".to_owned() {
                match lookup_attr(attrs, &"alg".to_owned()) {
                    Some(alg) => parse_hash_children(events, i + 1, alg, None),
                    None => Err(
                        XmlReadError::MissingAttribute {
                            element: "hash".to_owned(),
                            attribute: "alg".to_owned(),
                        },
                    ),
                }
            } else {
                Err(XmlReadError::UnexpectedEvent { element: "hash".to_owned() })
            }
        }
        _ => Err(XmlReadError::UnexpectedEvent { element: "hash".to_owned() }),
    }
}

fn parse_hashes_children(events: &Vec<Event>, i: usize, acc: Vec<crate::v1_3::Hash>) -> (r: Result<
    (Vec<crate::v1_3::Hash>, usize),
    XmlReadError,
>)
    requires
        i <= events@.len(),
        events@.len() < usize::MAX,
    ensures
        ({
            let sr = spec_parse_hashes_children(
                events_view(events@),
                i as int,
                acc@.map_values(|h: crate::v1_3::Hash| h@),
            );
            match r {
                Ok((v, j)) => sr == Ok::<(Seq<HashModel>, int), ReadErrorModel>(
                    (v@.map_values(|h: crate::v1_3::Hash| h@), j as int),
                ),
                Err(e) => sr == Err::<(Seq<HashModel>, int), ReadErrorModel>(e@),
            }
        }),
    decreases events@.len() - i,
{
    if i >= events.len() {
        return Err(XmlReadError::UnexpectedEndOfStream { element: "hashes".to_owned() });
    }
    proof {
        assert(events_view(events@)[i as int] == events@[i as int]@);
    }
    match &events[i] {
        Event::End => Ok((acc, i + 1)),
        Event::Characters(_) => parse_hashes_children(events, i + 1, acc),
        Event::Start { tag, .. } => {
            if *tag == "hash".to_owned() {
                match parse_hash_at(events, i) {
                    Ok((h, j)) => {
                        let ghost acc_view = acc@.map_values(|x: crate::v1_3::Hash| x@);
                        let ghost h_view = h@;
                        let mut acc2 = acc;
                        acc2.push(h);
                        proof {
                            assert(acc2@.map_values(|x: crate::v1_3::Hash| x@) =~= acc_view.push(
                                h_view,
                            ));
                        }
                        parse_hashes_children(events, j, acc2)
                    }
                    Err(e) => Err(e),
                }
            } else {
                match skip_subtree(events, i + 1, 1) {
                    None => Err(
                        XmlReadError::UnexpectedEndOfStream { element: "hashes".to_owned() },
                    ),
                    Some(j) => parse_hashes_children(events, j, acc),
                }
            }
        }
    }
}

impl Hashes {
    /// Reads a collection back from a nested element stream: the stream
    /// must be exactly one `hashes` element; unknown attributes and unknown
    /// child elements are ignored.
    pub fn from_event_stream(events: &Vec<Event>) -> (r: Result<Hashes, XmlReadError>)
        requires
            events@.len() < usize::MAX,
        ensures
            ({
                let sr = spec_parse_hashes(events_view(events@));
                match r {
                    Ok(hs) => sr == Ok::<Seq<HashModel>, ReadErrorModel>(hs@),
                    Err(e) => sr == Err::<Seq<HashModel>, ReadErrorModel>(e@),
                }
            }),
    {
        if events.len() == 0 {
            return Err(XmlReadError::UnexpectedEndOfStream { element: "hashes".to_owned() });
        }
        proof {
            assert(events_view(events@)[0int] == events@[0int]@);
        }
        match &events[0] {
            Event::Start { tag, .. } => {
                if *tag == "hashes".to_owned() {
                    let acc: Vec<crate::v1_3::Hash> = Vec::new();
                    proof {
                        assert(acc@.map_values(|x: crate::v1_3::Hash| x@) =~= Seq::<
                            HashModel,
                        >::empty());
                    }
                    match parse_hashes_children(events, 1, acc) {
                        Ok((v, j)) => {
                            if j == events.len() {
                                Ok(Hashes(v))
                            } else {
                                Err(
                                    XmlReadError::UnexpectedTrailing {
                                        element: "hashes".to_owned(),
                                    },
                                )
                            }
                        }
                        Err(e) => Err(e),
                    }
                } else {
                    Err(XmlReadError::UnexpectedEvent { element: "hashes".to_owned() })
                }
            }
            _ => Err(XmlReadError::UnexpectedEvent { element: "hashes".to_owned() }),
        }
    }
}

impl crate::v1_3::Hash {
    /// Reads one record back from a nested element stream: the stream must
    /// be exactly one `hash` element; unknown attributes and unknown child
    /// elements are ignored.
    pub fn from_event_stream(events: &Vec<Event>) -> (r: Result<crate::v1_3::Hash, XmlReadError>)
        requires
            events@.len() < usize::MAX,
        ensures
            ({
                let sr = spec_parse_hash_doc(events_view(events@));
                match r {
                    Ok(h) => sr == Ok::<HashModel, ReadErrorModel>(h@),
                    Err(e) => sr == Err::<HashModel, ReadErrorModel>(e@),
                }
            }),
    {
        match parse_hash_at(events, 0) {
            Ok((h, j)) => {
                if j == events.len() {
                    Ok(h)
                } else {
                    Err(XmlReadError::UnexpectedTrailing { element: "hash".to_owned() })
                }
            }
            Err(e) => Err(e),
        }
    }
}

/// Parsing exactly one record's written stream inside a larger stream
/// succeeds with that record and stops right after it.
proof fn lemma_parse_hash_exact(s: Seq<EventModel>, i: int, h: HashModel)
    requires
        0 <= i,
        i + 3 <= s.len(),
        s[i] == (EventModel::Start { tag: "hash"@, attrs: seq![("alg"@, h.alg)] }),
        s[i + 1] == EventModel::Characters(h.content),
        s[i + 2] == EventModel::End,
    ensures
        spec_parse_hash(s, i) == Ok::<(HashModel, int), ReadErrorModel>((h, i + 3)),
{
    let attrs = seq![("alg"@, h.alg)];
    assert(attrs[0] == ("alg"@, h.alg));
    assert(spec_find_attr(attrs, "alg"@) == Some(h.alg));
    assert(spec_parse_hash_children(s, i + 1, h.alg, None) == spec_parse_hash_children(
        s,
        i + 2,
        h.alg,
        Some(h.content),
    ));
    assert(spec_parse_hash_children(s, i + 2, h.alg, Some(h.content))
        == Ok::<(HashModel, int), ReadErrorModel>((
        HashModel { alg: h.alg, content: h.content },
        i + 3,
    )));
    assert(HashModel { alg: h.alg, content: h.content } =~= h);
}

/// Parsing the written streams of a sequence of records, followed by the
/// closing end of the collection, collects exactly those records.
proof fn lemma_parse_children_exact(
    s: Seq<EventModel>,
    i: int,
    items: Seq<HashModel>,
    acc: Seq<HashModel>,
)
    requires
        0 <= i <= s.len(),
        s.subrange(i, s.len() as int) == hashes_child_events(items) + seq![EventModel::End],
    ensures
        spec_parse_hashes_children(s, i, acc) == Ok::<(Seq<HashModel>, int), ReadErrorModel>(
            (acc + items, s.len() as int),
        ),
    decreases items.len(),
{
    let tail = s.subrange(i, s.len() as int);
    assert(tail.len() == s.len() - i);
    if items.len() == 0 {
        assert(hashes_child_events(items) == Seq::<EventModel>::empty());
        assert(tail =~= seq![EventModel::End]);
        assert(s[i] == tail[0]);
        assert(i + 1 == s.len());
        assert(acc + items =~= acc);
    } else {
        let h0 = items[0];
        let rest = items.drop_first();
        assert(hashes_child_events(items) == hash_events(h0) + hashes_child_events(rest));
        assert(hash_events(h0)[0] == EventModel::Start {
            tag: "hash"@,
            attrs: seq![("alg"@, h0.alg)],
        });
        assert(hash_events(h0)[1] == EventModel::Characters(h0.content));
        assert(hash_events(h0)[2] == EventModel::End);
        assert(tail[0] == hash_events(h0)[0]);
        assert(tail[1] == hash_events(h0)[1]);
        assert(tail[2] == hash_events(h0)[2]);
        assert(s[i] == tail[0] && s[i + 1] == tail[1] && s[i + 2] == tail[2]);
        assert(i + 3 <= s.len());
        lemma_parse_hash_exact(s, i, h0);
        let after = s.subrange(i + 3, s.len() as int);
        let rest_tail = hashes_child_events(rest) + seq![EventModel::End];
        assert(after.len() == rest_tail.len());
        assert forall|k: int| 0 <= k < after.len() implies after[k] == rest_tail[k] by {
            assert(after[k] == s[i + 3 + k]);
            assert(s[i + 3 + k] == tail[3 + k]);
            assert(tail[3 + k] == rest_tail[k]);
        }
        assert(after =~= rest_tail);
        lemma_parse_children_exact(s, i + 3, rest, acc.push(h0));
        assert(acc.push(h0) + rest =~= acc + items);
    }
}

/// Write/read identity for one record: the stream its writer emits parses
/// back to the record itself.
pub proof fn lemma_write_read_hash(h: HashModel)
    ensures
        spec_parse_hash_doc(hash_events(h)) == Ok::<HashModel, ReadErrorModel>(h),
{
    let s = hash_events(h);
    assert(s[0] == EventModel::Start { tag: "hash"@, attrs: seq![("alg"@, h.alg)] });
    assert(s[1] == EventModel::Characters(h.content));
    assert(s[2] == EventModel::End);
    lemma_parse_hash_exact(s, 0, h);
}

/// Write/read identity for a collection: the stream its writer emits
/// parses back to the same sequence of records, in the same order.
pub proof fn lemma_write_read_hashes(items: Seq<HashModel>)
    ensures
        spec_parse_hashes(hashes_events(items)) == Ok::<Seq<HashModel>, ReadErrorModel>(items),
{
    let s = hashes_events(items);
    assert(s[0] == EventModel::Start { tag: "hashes"@, attrs: Seq::empty() });
    assert(s.subrange(1, s.len() as int) =~= hashes_child_events(items) + seq![EventModel::End]);
    lemma_parse_children_exact(s, 1, items, Seq::empty());
    assert(Seq::<HashModel>::empty() + items =~= items);
}

/// Full-cycle identity for one record: rendering a canonical record
/// through the v1.3 adapter and the writer, then reading it back through
/// the reader and the adapter, returns the record.
pub proof fn lemma_canonical_cycle(c: crate::models::HashModel)
    requires
        crate::models::alg_wf(c.alg),
    ensures
        ({
            let v = crate::v1_3::spec_from_canonical(c);
            &&& spec_parse_hash_doc(hash_events(v)) == Ok::<HashModel, ReadErrorModel>(v)
            &&& crate::v1_3::spec_to_canonical(v) == c
        }),
{
    lemma_write_read_hash(crate::v1_3::spec_from_canonical(c));
    crate::v1_3::lemma_round_trip(c);
}

/// Full-cycle identity for a collection: rendering, writing, reading and
/// converting back returns the same sequence of canonical records.
pub proof fn lemma_canonical_cycle_collection(c: Seq<crate::models::HashModel>)
    requires
        forall|i: int| 0 <= i < c.len() ==> crate::models::alg_wf(#[trigger] c[i].alg),
    ensures
        ({
            let v = c.map_values(|x: crate::models::HashModel| crate::v1_3::spec_from_canonical(x));
            &&& spec_parse_hashes(hashes_events(v)) == Ok::<Seq<HashModel>, ReadErrorModel>(v)
            &&& v.map_values(|x: HashModel| crate::v1_3::spec_to_canonical(x)) == c
        }),
{
    let v = c.map_values(|x: crate::models::HashModel| crate::v1_3::spec_from_canonical(x));
    lemma_write_read_hashes(v);
    crate::v1_3::lemma_collection_round_trip(c);
}

} // verus!
