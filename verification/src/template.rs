//! The request that every replica carries, in its canonical binary form.

use vstd::prelude::*;

verus! {

/// `bhttp::Message`: a decoded request or response. Nothing here looks
/// inside one; it is carried from the reader to the writer.
#[verifier::external_type_specification]
#[verifier::external_body]
pub struct ExMessage(bhttp::Message);

/// `bhttp::Error`, known by its name only.
#[verifier::external_type_specification]
#[verifier::external_body]
pub struct ExMessageError(bhttp::Error);

/// The message that `bhttp::Message::read_bhttp` reads from `input`, if it
/// reads one.
pub uninterp spec fn binary_message(input: Seq<u8>) -> Option<bhttp::Message>;

/// The lengths of the byte strings that `message` is made of: the name and
/// the value of every field, the parts of a request's control data that are
/// not empty, and the content.
pub uninterp spec fn message_lengths(message: bhttp::Message) -> Seq<usize>;

/// What `bhttp::Message::write_bhttp` writes for `message` in known-length
/// mode, if it writes anything.
pub uninterp spec fn known_length_form(message: bhttp::Message) -> Option<Seq<u8>>;

/// The first length that the binary framing cannot express: 2^62.
pub const LENGTH_LIMIT: u64 = 0x4000_0000_0000_0000;

/// An upper bound on the encoded size of byte strings of the given lengths,
/// each with a length prefix of at most eight bytes.
pub open spec fn framed_size(lengths: Seq<usize>) -> int
    decreases lengths.len(),
{
    if lengths.len() == 0 {
        0
    } else {
        framed_size(lengths.drop_last()) + lengths.last() + 8
    }
}

/// Whether byte strings of the given lengths, and any section made of them,
/// stay below the limit of the framing.
pub open spec fn framing_fits(lengths: Seq<usize>) -> bool {
    framed_size(lengths) < LENGTH_LIMIT
}

/// `bhttp::Message::read_bhttp` on a byte string held in memory.
///
/// Trusted: what is read depends on the bytes alone. The reader checks every
/// length against what is left of the input before it allocates.
#[verifier::external_body]
fn read_binary(input: &[u8]) -> (read: Result<bhttp::Message, bhttp::Error>)
    ensures
        match read {
            Ok(message) => binary_message(input@) == Some(message),
            Err(_) => binary_message(input@) is None,
        },
{
    bhttp::Message::read_bhttp(&mut std::io::Cursor::new(input))
}

/// The accessors of `bhttp::Message`, for the length of every byte string
/// in it.
///
/// Trusted: the lengths depend on the message alone.
#[verifier::external_body]
fn byte_string_lengths(message: &bhttp::Message) -> (lengths: Vec<usize>)
    ensures
        lengths@ == message_lengths(*message),
{
    let control = message.control();
    let target = [control.method(), control.scheme(), control.authority(), control.path()];
    let interim = message.informational().iter().map(|response| response.fields());
    let sections = interim.chain([message.header(), message.trailer()]);
    let fields = sections.flat_map(|section| section.fields());
    let mut lengths: Vec<usize> =
        fields.flat_map(|field| [field.name().len(), field.value().len()]).collect();
    lengths.extend(target.iter().flatten().map(|part| part.len()));
    lengths.push(message.content().len());
    lengths
}

/// `bhttp::Message::write_bhttp` in `Mode::KnownLength`, into a fresh buffer.
///
/// Trusted: what is written depends on the message alone. The writer panics
/// on a length of `LENGTH_LIMIT` or more. Each length that it writes is that
/// of one byte string of the message or of one section of fields, and a
/// section holds its byte strings with a length prefix each; the precondition
/// keeps all of them below the limit.
#[verifier::external_body]
fn write_known_length(message: &bhttp::Message) -> (written: Result<Vec<u8>, bhttp::Error>)
    requires
        framing_fits(message_lengths(*message)),
    ensures
        match written {
            Ok(encoded) => known_length_form(*message) == Some(encoded@),
            Err(_) => known_length_form(*message) is None,
        },
{
    let mut encoded = Vec::new();
    match message.write_bhttp(bhttp::Mode::KnownLength, &mut encoded) {
        Ok(()) => Ok(encoded),
        Err(error) => Err(error),
    }
}

/// Why an input gives no template.
#[derive(Debug, Clone, Copy, PartialEq, Eq)]
pub enum TemplateError {
    /// The input is no well-formed message.
    Decode,
    /// The message is beyond the lengths that the known-length framing can
    /// express, or could not be written.
    Framing,
}

/// The canonical encoding of a decoded message.
pub open spec fn canonical_encoding(message: bhttp::Message) -> Result<Seq<u8>, TemplateError> {
    if !framing_fits(message_lengths(message)) {
        Err(TemplateError::Framing)
    } else {
        match known_length_form(message) {
            None => Err(TemplateError::Framing),
            Some(encoded) => Ok(encoded),
        }
    }
}

/// The canonical encoding of the message that a binary input holds.
pub open spec fn canonical_form(input: Seq<u8>) -> Result<Seq<u8>, TemplateError> {
    match binary_message(input) {
        None => Err(TemplateError::Decode),
        Some(message) => canonical_encoding(message),
    }
}

/// The bound grows with every byte string that is counted.
proof fn lemma_framed_size_grows(lengths: Seq<usize>, count: int)
    requires
        0 <= count <= lengths.len(),
    ensures
        0 <= framed_size(lengths.take(count)) <= framed_size(lengths),
    decreases lengths.len() - count,
{
    if count == lengths.len() {
        assert(lengths.take(count) == lengths);
        lemma_framed_size_positive(lengths);
    } else {
        lemma_framed_size_grows(lengths, count + 1);
        assert(lengths.take(count + 1).drop_last() == lengths.take(count));
        lemma_framed_size_positive(lengths.take(count));
    }
}

/// The bound is never negative.
proof fn lemma_framed_size_positive(lengths: Seq<usize>)
    ensures
        0 <= framed_size(lengths),
    decreases lengths.len(),
{
    if lengths.len() > 0 {
        lemma_framed_size_positive(lengths.drop_last());
    }
}

/// Whether byte strings of these lengths stay below the limit of the framing.
pub fn fits_framing(lengths: &[usize]) -> (fits: bool)
    ensures
        fits == framing_fits(lengths@),
{
    let mut size: u64 = 0;
    let mut count: usize = 0;
    while count < lengths.len()
        invariant
            count <= lengths.len(),
            size == framed_size(lengths@.take(count as int)),
            size < LENGTH_LIMIT,
        decreases lengths.len() - count,
    {
        let length: u64 = lengths[count] as u64;
        proof {
            assert(lengths@.take(count + 1).drop_last() == lengths@.take(count as int));
            lemma_framed_size_grows(lengths@, count + 1);
        }
        if length >= LENGTH_LIMIT - 8 || size >= LENGTH_LIMIT - 8 - length {
            return false;
        }
        size = size + length + 8;
        count += 1;
    }
    proof {
        assert(lengths@.take(count as int) == lengths@);
    }
    true
}

/// One logical request, encoded once in known-length binary form. Every
/// replica is encapsulated from these bytes.
#[derive(Debug, PartialEq, Eq)]
pub struct MessageTemplate {
    canonical: Vec<u8>,
}

impl View for MessageTemplate {
    type V = Seq<u8>;

    closed spec fn view(&self) -> Seq<u8> {
        self.canonical@
    }
}

impl MessageTemplate {
    /// A template over bytes that already are a canonical encoding.
    pub fn from_canonical(canonical: Vec<u8>) -> (template: MessageTemplate)
        ensures
            template@ == canonical@,
    {
        MessageTemplate { canonical }
    }

    /// Encodes a decoded message in its canonical form, the known-length
    /// binary framing.
    pub fn from_message(message: &bhttp::Message) -> (encoded: Result<
        MessageTemplate,
        TemplateError,
    >)
        ensures
            match encoded {
                Ok(template) => canonical_encoding(*message) == Ok::<Seq<u8>, TemplateError>(
                    template@,
                ),
                Err(error) => canonical_encoding(*message) == Err::<Seq<u8>, TemplateError>(
                    error,
                ),
            },
    {
        let lengths = byte_string_lengths(message);
        if !fits_framing(lengths.as_slice()) {
            return Err(TemplateError::Framing);
        }
        match write_known_length(message) {
            Ok(canonical) => Ok(MessageTemplate { canonical }),
            Err(_) => Err(TemplateError::Framing),
        }
    }

    /// Decodes a message in binary framing, of either length mode, and
    /// encodes it in its canonical form.
    pub fn from_binary(input: &[u8]) -> (decoded: Result<MessageTemplate, TemplateError>)
        ensures
            match decoded {
                Ok(template) => canonical_form(input@) == Ok::<Seq<u8>, TemplateError>(template@),
                Err(error) => canonical_form(input@) == Err::<Seq<u8>, TemplateError>(error),
            },
    {
        match read_binary(input) {
            Ok(message) => MessageTemplate::from_message(&message),
            Err(_) => Err(TemplateError::Decode),
        }
    }

    /// The canonical encoding: the plaintext of every replica.
    pub fn canonical(&self) -> (bytes: &[u8])
        ensures
            bytes@ == self@,
    {
        self.canonical.as_slice()
    }
}

} // verus!
