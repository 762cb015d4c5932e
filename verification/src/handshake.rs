//! Handshake templates: a service name, the request to send and the bytes
//! expected in the answer.
use base64::engine::general_purpose::STANDARD;
use base64::Engine;
use vstd::prelude::*;

verus! {

/// A handshake as it is written down, request and response in base64.
#[derive(Debug, Clone, Hash, PartialEq, Eq)]
pub struct HandshakeDefinition {
    pub service: String,
    pub request: String,
    pub response: String,
}

/// A handshake ready for use.
#[derive(Debug, Clone, Hash, PartialEq, Eq)]
pub struct Handshake {
    pub service: String,
    pub request: Vec<u8>,
    pub response: Vec<u8>,
}

/// The field of a definition that is not base64.
#[derive(Debug, Clone, Copy, PartialEq, Eq, Structural)]
pub enum HandshakeField {
    Request,
    Response,
}

/// The first definition of a list that could not be decoded, and why.
#[derive(Debug, Clone, Copy, PartialEq, Eq, Structural)]
pub struct HandshakeLoadError {
    pub index: usize,
    pub field: HandshakeField,
}

#[verifier::external_type_specification]
#[verifier::external_body]
pub struct ExDecodeError(base64::DecodeError);

/// The bytes that the standard base64 alphabet with padding decodes `text`
/// to; `None` where `text` is not such an encoding.
pub uninterp spec fn base64_decoded(text: Seq<char>) -> Option<Seq<u8>>;

/// Calls `decode` of `base64::engine::general_purpose::STANDARD`. Trusted: the
/// outcome depends on the text alone.
#[verifier::external_body]
fn decode_base64(text: &str) -> (r: Result<Vec<u8>, base64::DecodeError>)
    ensures
        match r {
            Ok(bytes) => base64_decoded(text@) == Some(bytes@),
            Err(_) => base64_decoded(text@).is_none(),
        },
{
    STANDARD.decode(text)
}

/// What a definition decodes to: the field at fault, or the decoded request
/// and response.
pub open spec fn decoded_fields(request: Seq<char>, response: Seq<char>) -> Result<
    (Seq<u8>, Seq<u8>),
    HandshakeField,
> {
    match (base64_decoded(request), base64_decoded(response)) {
        (None, _) => Err(HandshakeField::Request),
        (Some(_), None) => Err(HandshakeField::Response),
        (Some(req), Some(resp)) => Ok((req, resp)),
    }
}

/// Whether `h` is what the definition `d` decodes to.
pub open spec fn decodes_to(d: HandshakeDefinition, h: Handshake) -> bool {
    h.service@ == d.service@ && decoded_fields(d.request@, d.response@) == Ok::<
        _,
        HandshakeField,
    >((h.request@, h.response@))
}

/// Whether `field` is the first field of `d` that is not base64.
pub open spec fn fails_at(d: HandshakeDefinition, field: HandshakeField) -> bool {
    decoded_fields(d.request@, d.response@) == Err::<(Seq<u8>, Seq<u8>), _>(field)
}

impl HandshakeDefinition {
    /// Decodes request and response; the service name is kept.
    pub fn to_handshake(self) -> (r: Result<Handshake, HandshakeField>)
        ensures
            match r {
                Ok(h) => decodes_to(self, h),
                Err(field) => fails_at(self, field),
            },
    {
        self.decode()
    }

    /// As `to_handshake`, of a borrowed definition.
    pub fn decode(&self) -> (r: Result<Handshake, HandshakeField>)
        ensures
            match r {
                Ok(h) => decodes_to(*self, h),
                Err(field) => fails_at(*self, field),
            },
    {
        let request = match decode_base64(self.request.as_str()) {
            Ok(bytes) => bytes,
            Err(_) => {
                return Err(HandshakeField::Request);
            },
        };
        let response = match decode_base64(self.response.as_str()) {
            Ok(bytes) => bytes,
            Err(_) => {
                return Err(HandshakeField::Response);
            },
        };
        Ok(Handshake { service: self.service.clone(), request, response })
    }
}

/// Whether the definition at `index` is the first that does not decode, and
/// `field` the field at fault.
pub open spec fn first_failure(
    definitions: Seq<HandshakeDefinition>,
    index: int,
    field: HandshakeField,
) -> bool {
    &&& 0 <= index < definitions.len()
    &&& fails_at(definitions[index], field)
    &&& forall|j: int|
        0 <= j < index ==> decoded_fields(
            (#[trigger] definitions[j]).request@,
            definitions[j].response@,
        ).is_ok()
}

/// Decodes the definitions in their order. Fails at the first that is not
/// base64, and says which and where.
pub fn get_service_handshakes(definitions: Vec<HandshakeDefinition>) -> (r: Result<
    Vec<Handshake>,
    HandshakeLoadError,
>)
    ensures
        match r {
            Ok(handshakes) => handshakes@.len() == definitions@.len() && forall|i: int|
                0 <= i < definitions@.len() ==> decodes_to(
                    #[trigger] definitions@[i],
                    handshakes@[i],
                ),
            Err(e) => first_failure(definitions@, e.index as int, e.field),
        },
{
    let mut handshakes: Vec<Handshake> = Vec::new();
    let mut i: usize = 0;
    while i < definitions.len()
        invariant
            i <= definitions@.len(),
            handshakes@.len() == i,
            forall|j: int|
                0 <= j < i ==> decodes_to(#[trigger] definitions@[j], handshakes@[j]),
        decreases definitions@.len() - i,
    {
        match definitions[i].decode() {
            Ok(h) => {
                handshakes.push(h);
            },
            Err(field) => {
                return Err(HandshakeLoadError { index: i, field });
            },
        }
        i += 1;
    }
    Ok(handshakes)
}

} // verus!
