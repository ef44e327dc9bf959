//! The sink boundary: a structured tree sink backed by the xml crate's
//! event writer, recording in ghost state the stream of operations it was
//! given. Verified writers state their output exactly over that stream.

use vstd::prelude::*;

use crate::tree::EventModel;

verus! {

#[verifier::external_type_specification]
#[verifier::external_body]
pub struct ExEmitterError(xml::writer::Error);

#[verifier::external_type_specification]
#[verifier::external_body]
#[verifier::reject_recursive_types(W)]
pub struct ExEventWriter<W>(xml::writer::EventWriter<W>);

/// A failed sink operation: the xml emitter's own error, tagged with the
/// element that was being written when it occurred.
#[derive(Debug)]
pub struct XmlWriteError {
    pub element: String,
    pub error: xml::writer::Error,
}

/// The text that the xml emitter prints for a given operation stream, under
/// the fixed configuration that `XmlSink::new` chooses. The emitter is
/// deterministic, so the text is a function of the stream alone.
pub uninterp spec fn xml_render(events: Seq<EventModel>) -> Seq<char>;

/// Relies on xml::EmitterConfig::new and EmitterConfig::create_writer: a
/// freshly created writer has emitted nothing. The configuration differs
/// from the default only in not writing the XML document declaration.
#[verifier::external_body]
fn new_event_writer() -> xml::writer::EventWriter<Vec<u8>> {
    xml::EmitterConfig::new().write_document_declaration(false).create_writer(Vec::new())
}

/// A structured tree sink writing XML text into an in-memory buffer.
pub struct XmlSink {
    inner: xml::writer::EventWriter<Vec<u8>>,
    log: Ghost<Seq<EventModel>>,
}

impl XmlSink {
    /// The stream of operations accepted so far.
    pub closed spec fn events(&self) -> Seq<EventModel> {
        self.log@
    }

    /// A fresh sink that has accepted no operations yet.
    pub fn new() -> (s: XmlSink)
        ensures
            s.events() == Seq::<EventModel>::empty(),
    {
        XmlSink { inner: new_event_writer(), log: Ghost(Seq::empty()) }
    }

    /// Relies on xml::EventWriter::write with XmlEvent::start_element: on
    /// success exactly one start-element operation with no attributes is
    /// emitted; on failure the emitter reports its error and nothing is
    /// added to the document.
    #[verifier::external_body]
    pub(crate) fn start_element(&mut self, tag: &str) -> (r: Result<(), XmlWriteError>)
        ensures
            r is Ok ==> final(self).events() == old(self).events().push(
                EventModel::Start { tag: tag@, attrs: Seq::empty() },
            ),
            r is Err ==> final(self).events() == old(self).events() && r->Err_0.element@ == tag@,
    {
        match self.inner.write(xml::writer::XmlEvent::start_element(tag)) {
            Ok(()) => Ok(()),
            Err(e) => Err(XmlWriteError { element: tag.to_owned(), error: e }),
        }
    }

    /// Relies on xml::EventWriter::write with XmlEvent::start_element and
    /// StartElementBuilder::attr: on success exactly one start-element
    /// operation carrying the one given attribute is emitted.
    #[verifier::external_body]
    pub(crate) fn start_element_with_attr(
        &mut self,
        tag: &str,
        attr_name: &str,
        attr_value: &str,
    ) -> (r: Result<(), XmlWriteError>)
        ensures
            r is Ok ==> final(self).events() == old(self).events().push(
                EventModel::Start { tag: tag@, attrs: seq![(attr_name@, attr_value@)] },
            ),
            r is Err ==> final(self).events() == old(self).events() && r->Err_0.element@ == tag@,
    {
        match self.inner.write(
            xml::writer::XmlEvent::start_element(tag).attr(attr_name, attr_value),
        ) {
            Ok(()) => Ok(()),
            Err(e) => Err(XmlWriteError { element: tag.to_owned(), error: e }),
        }
    }

    /// Relies on xml::EventWriter::write with XmlEvent::characters: on
    /// success exactly one characters operation with the given text is
    /// emitted. The `element` argument only tags a failure.
    #[verifier::external_body]
    pub(crate) fn characters(&mut self, text: &str, element: &str) -> (r: Result<
        (),
        XmlWriteError,
    >)
        ensures
            r is Ok ==> final(self).events() == old(self).events().push(
                EventModel::Characters(text@),
            ),
            r is Err ==> final(self).events() == old(self).events() && r->Err_0.element@
                == element@,
    {
        match self.inner.write(xml::writer::XmlEvent::characters(text)) {
            Ok(()) => Ok(()),
            Err(e) => Err(XmlWriteError { element: element.to_owned(), error: e }),
        }
    }

    /// Relies on xml::EventWriter::write with XmlEvent::end_element: on
    /// success exactly one end-element operation is emitted, closing the
    /// innermost open element. The `element` argument only tags a failure.
    #[verifier::external_body]
    pub(crate) fn end_element(&mut self, element: &str) -> (r: Result<(), XmlWriteError>)
        ensures
            r is Ok ==> final(self).events() == old(self).events().push(EventModel::End),
            r is Err ==> final(self).events() == old(self).events() && r->Err_0.element@
                == element@,
    {
        match self.inner.write(xml::writer::XmlEvent::end_element()) {
            Ok(()) => Ok(()),
            Err(e) => Err(XmlWriteError { element: element.to_owned(), error: e }),
        }
    }

    /// Relies on xml::EventWriter::into_inner: the buffer holds exactly the
    /// text the emitter printed for the accepted operations, which is
    /// `xml_render` of the recorded stream.
    #[verifier::external_body]
    pub(crate) fn into_string(self) -> (r: String)
        ensures
            r@ == xml_render(self.events()),
    {
        String::from_utf8_lossy(&self.inner.into_inner()).into_owned()
    }
}

} // verus!
