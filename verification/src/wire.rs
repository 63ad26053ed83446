//! Request builders and response views for the display protocol.
//!
//! Requests are built as protobuf payloads ready for framing. Responses are
//! parsed into borrowed views; fields the views do not know about are left
//! in place and ignored.

pub mod field;

use vstd::prelude::*;

use crate::pb::{DecodeError, Fields, Message, Value};

verus! {

/// Header version carried by every request.
pub const PROTOCOL_VERSION: u64 = 1;

/// Placeholder string carried by the bootstrap query tokens: `NA`.
pub const QUERY_DUMMY: [u8; 2] = [0x4e, 0x41];

/// Key sent with the authentication query.
pub const AUTH_KEY: u64 = 1;

/// Payload sent with every keepalive ping: `hello?`.
pub const PING_PAYLOAD: [u8; 6] = [0x68, 0x65, 0x6c, 0x6c, 0x6f, 0x3f];

/// Field numbers inside the header.
const HEADER_VERSION: u32 = 1;

const HEADER_TRACK_ID: u32 = 2;

const HEADER_PAYLOAD_CRC32: u32 = 3;

/// Field numbers inside the error.
const ERROR_CODE: u32 = 1;

const ERROR_WHY: u32 = 2;

// ---------------------------------------------------------------------------
// Requests.
// ---------------------------------------------------------------------------

/// A request: its header, then its body in field `number`.
pub open spec fn request_bytes(header: Seq<u8>, number: u32, body: Seq<u8>) -> Seq<u8> {
    crate::pb::message_field(field::HEADER, header) + crate::pb::message_field(number, body)
}

/// The header of an untracked request.
pub open spec fn untracked_header_bytes() -> Seq<u8> {
    crate::pb::uint_field(1, PROTOCOL_VERSION)
}

/// The header of the request with this track id.
pub open spec fn tracked_header_bytes(track_id: u64) -> Seq<u8> {
    crate::pb::uint_field(1, PROTOCOL_VERSION) + crate::pb::uint_field(2, track_id)
}

/// The placeholder body of a bootstrap query.
pub open spec fn query_token_bytes() -> Seq<u8> {
    crate::pb::bytes_field(1, QUERY_DUMMY@)
}

/// What [`device_information_query`] builds.
pub open spec fn device_information_query_bytes() -> Seq<u8> {
    request_bytes(untracked_header_bytes(), field::DEVICE_INFORMATION_QUERY, query_token_bytes())
}

/// What [`system_configuration_query`] builds.
pub open spec fn system_configuration_query_bytes() -> Seq<u8> {
    request_bytes(untracked_header_bytes(), field::SYSTEM_CONFIGURATION_QUERY, query_token_bytes())
}

/// What [`device_authentication_query`] builds.
pub open spec fn device_authentication_query_bytes() -> Seq<u8> {
    request_bytes(
        untracked_header_bytes(),
        field::DEVICE_AUTHENTICATION_QUERY,
        crate::pb::uint_field(1, AUTH_KEY),
    )
}

/// What [`keepalive_ping`] builds.
pub open spec fn keepalive_ping_bytes() -> Seq<u8> {
    request_bytes(Seq::empty(), field::PING, crate::pb::bytes_field(1, PING_PAYLOAD@))
}

/// What [`activation_trigger`] builds.
pub open spec fn activation_trigger_bytes(track_id: u64) -> Seq<u8> {
    request_bytes(tracked_header_bytes(track_id), field::OVERLAY_LAYOUT, Seq::empty())
}

/// What [`user_configuration_query`] builds.
pub open spec fn user_configuration_query_bytes(track_id: u64) -> Seq<u8> {
    request_bytes(tracked_header_bytes(track_id), field::USER_CONFIGURATION_QUERY, Seq::empty())
}

fn bootstrap_header() -> (header: Message)
    ensures
        header@ == untracked_header_bytes(),
{
    let header = Message::new().uint(HEADER_VERSION, PROTOCOL_VERSION);
    assert(header@ == untracked_header_bytes());
    header
}

fn tracked_header(track_id: u64) -> (header: Message)
    ensures
        header@ == tracked_header_bytes(track_id),
{
    let header = Message::new().uint(HEADER_VERSION, PROTOCOL_VERSION).uint(
        HEADER_TRACK_ID,
        track_id,
    );
    assert(header@ == tracked_header_bytes(track_id));
    header
}

fn query_token() -> (token: Message)
    ensures
        token@ == query_token_bytes(),
{
    let token = Message::new().bytes(1, &QUERY_DUMMY);
    assert(token@ == query_token_bytes());
    token
}

/// A request with this header and this body.
fn request(header: &Message, number: u32, body: &Message) -> (bytes: Vec<u8>)
    ensures
        bytes@ == request_bytes(header@, number, body@),
{
    let bytes = Message::new().message(field::HEADER, header).message(number, body).into_bytes();
    assert(bytes@ == request_bytes(header@, number, body@));
    bytes
}

/// First bootstrap request. Untracked; answered by `DEVICE_INFORMATION`.
pub fn device_information_query() -> (bytes: Vec<u8>)
    ensures
        bytes@ == device_information_query_bytes(),
{
    request(&bootstrap_header(), field::DEVICE_INFORMATION_QUERY, &query_token())
}

/// Second bootstrap request. Untracked; answered by `SYSTEM_CONFIGURATION`.
pub fn system_configuration_query() -> (bytes: Vec<u8>)
    ensures
        bytes@ == system_configuration_query_bytes(),
{
    request(&bootstrap_header(), field::SYSTEM_CONFIGURATION_QUERY, &query_token())
}

/// Third bootstrap request. Untracked; answered by `DEVICE_AUTHENTICATION`.
pub fn device_authentication_query() -> (bytes: Vec<u8>)
    ensures
        bytes@ == device_authentication_query_bytes(),
{
    let key = Message::new().uint(1, AUTH_KEY);
    assert(key@ == crate::pb::uint_field(1, AUTH_KEY));
    request(&bootstrap_header(), field::DEVICE_AUTHENTICATION_QUERY, &key)
}

/// Keepalive. Untracked and write-only; the header is present but empty.
pub fn keepalive_ping() -> (bytes: Vec<u8>)
    ensures
        bytes@ == keepalive_ping_bytes(),
{
    let body = Message::new().bytes(1, &PING_PAYLOAD);
    assert(body@ == crate::pb::bytes_field(1, PING_PAYLOAD@));
    request(&Message::new(), field::PING, &body)
}

/// Empty overlay layout that activates the stored configuration. Tracked;
/// a response is optional.
pub fn activation_trigger(track_id: u64) -> (bytes: Vec<u8>)
    ensures
        bytes@ == activation_trigger_bytes(track_id),
{
    request(&tracked_header(track_id), field::OVERLAY_LAYOUT, &Message::new())
}

/// Read-only configuration query. Tracked; answered by `USER_CONFIGURATION`.
pub fn user_configuration_query(track_id: u64) -> (bytes: Vec<u8>)
    ensures
        bytes@ == user_configuration_query_bytes(track_id),
{
    request(&tracked_header(track_id), field::USER_CONFIGURATION_QUERY, &Message::new())
}

// ---------------------------------------------------------------------------
// Responses.
// ---------------------------------------------------------------------------

/// The text that `String::from_utf8_lossy` makes of `bytes`.
pub uninterp spec fn lossy_text(bytes: Seq<u8>) -> Seq<char>;

/// The text in `bytes`.
///
/// Calls `String::from_utf8_lossy`. Valid UTF-8 is taken as it stands; of
/// other input only this is claimed, that the result depends on the bytes
/// alone, and it has the name [`lossy_text`].
#[verifier::external_body]
fn text(bytes: &[u8]) -> (text: String)
    ensures
        text@ == lossy_text(bytes@),
        vstd::utf8::valid_utf8(bytes@) ==> text@ == vstd::utf8::decode_utf8(bytes@),
{
    String::from_utf8_lossy(bytes).into_owned()
}

/// `WireHeader` as sent by the device.
#[derive(Debug, Clone, Copy, PartialEq, Eq, Structural)]
pub struct Header {
    pub version: u64,
    pub track_id: u64,
    pub payload_crc32: u64,
}

/// A header with every field at its default.
pub open spec fn empty_header() -> Header {
    Header { version: 0, track_id: 0, payload_crc32: 0 }
}

impl Default for Header {
    fn default() -> (header: Self)
        ensures
            header == empty_header(),
    {
        Header { version: 0, track_id: 0, payload_crc32: 0 }
    }
}

/// `header` after one more of its fields. Only numbers count.
pub open spec fn header_with(header: Header, field: crate::pb::FieldView) -> Header {
    match field.value.number() {
        None => header,
        Some(value) => if field.number == 1 {
            Header { version: value, ..header }
        } else if field.number == 2 {
            Header { track_id: value, ..header }
        } else if field.number == 3 {
            Header { payload_crc32: value, ..header }
        } else {
            header
        },
    }
}

/// What [`Header::parse`] makes of `body`.
pub open spec fn header_of(body: Seq<u8>) -> Result<Header, DecodeError> {
    crate::pb::fold_fields(body, empty_header(), header_step())
}

/// Takes up one field of a header.
pub open spec fn header_step() -> spec_fn(Header, crate::pb::FieldView) -> Result<
    Header,
    DecodeError,
> {
    |header: Header, field: crate::pb::FieldView| Ok(header_with(header, field))
}

impl Header {
    /// Reads a header. Of a field given more than once the last one counts.
    pub fn parse(body: &[u8]) -> (result: Result<Self, DecodeError>)
        ensures
            result == header_of(body@),
    {
        let mut header = Header::default();
        let mut fields = Fields::new(body);
        loop
            invariant
                crate::pb::fold_fields(fields.rest(), header, header_step()) == header_of(body@),
            ensures
                header_of(body@) == Ok::<Header, DecodeError>(header),
            decreases fields.rest().len(),
        {
            proof {
                crate::pb::field_size(fields.rest());
            }
            let field = match fields.next() {
                None => break,
                Some(Err(error)) => return Err(error),
                Some(Ok(field)) => field,
            };
            if let Some(value) = field.value.as_u64() {
                if field.number == HEADER_VERSION {
                    header.version = value;
                } else if field.number == HEADER_TRACK_ID {
                    header.track_id = value;
                } else if field.number == HEADER_PAYLOAD_CRC32 {
                    header.payload_crc32 = value;
                }
            }
        }
        Ok(header)
    }
}

/// `ProtocolError` as sent by the device. Code zero means success.
#[derive(Debug, PartialEq, Eq)]
pub struct ProtocolError {
    pub code: u64,
    pub why: String,
}

/// What a [`ProtocolError`] holds.
pub struct ProtocolErrorView {
    pub code: u64,
    pub why: Seq<char>,
}

impl View for ProtocolError {
    type V = ProtocolErrorView;

    open spec fn view(&self) -> ProtocolErrorView {
        ProtocolErrorView { code: self.code, why: self.why@ }
    }
}

impl Clone for ProtocolError {
    fn clone(&self) -> (copy: Self)
        ensures
            copy == *self,
    {
        ProtocolError { code: self.code, why: self.why.clone() }
    }
}

/// No error.
pub open spec fn no_error() -> ProtocolErrorView {
    ProtocolErrorView { code: 0, why: Seq::empty() }
}

impl Default for ProtocolError {
    fn default() -> (error: Self)
        ensures
            error@ == no_error(),
    {
        ProtocolError { code: 0, why: String::new() }
    }
}

/// `error` after one more of its fields.
pub open spec fn error_with(
    error: ProtocolErrorView,
    field: crate::pb::FieldView,
) -> ProtocolErrorView {
    match (field.number, field.value.number(), field.value.bytes()) {
        (1, Some(code), _) => ProtocolErrorView { code, ..error },
        (2, _, Some(bytes)) => ProtocolErrorView { why: lossy_text(bytes), ..error },
        _ => error,
    }
}

/// Takes up one field of an error.
pub open spec fn error_step() -> spec_fn(ProtocolErrorView, crate::pb::FieldView) -> Result<
    ProtocolErrorView,
    DecodeError,
> {
    |error: ProtocolErrorView, field: crate::pb::FieldView| Ok(error_with(error, field))
}

/// What [`ProtocolError::parse`] makes of `body`.
pub open spec fn error_of(body: Seq<u8>) -> Result<ProtocolErrorView, DecodeError> {
    crate::pb::fold_fields(body, no_error(), error_step())
}

impl ProtocolError {
    /// Reads an error.
    pub fn parse(body: &[u8]) -> (result: Result<Self, DecodeError>)
        ensures
            match error_of(body@) {
                Ok(view) => result matches Ok(error) && error@ == view,
                Err(error) => result == Err::<Self, DecodeError>(error),
            },
    {
        let mut error = ProtocolError::default();
        let mut fields = Fields::new(body);
        loop
            invariant
                crate::pb::fold_fields(fields.rest(), error@, error_step()) == error_of(body@),
            ensures
                error_of(body@) == Ok::<ProtocolErrorView, DecodeError>(error@),
            decreases fields.rest().len(),
        {
            proof {
                crate::pb::field_size(fields.rest());
            }
            let field = match fields.next() {
                None => break,
                Some(Err(error)) => return Err(error),
                Some(Ok(field)) => field,
            };
            if field.number == ERROR_CODE {
                if let Some(code) = field.value.as_u64() {
                    error.code = code;
                }
            } else if field.number == ERROR_WHY {
                if let Value::Len(bytes) = field.value {
                    error.why = text(bytes);
                }
            }
        }
        Ok(error)
    }

    /// Whether the device reported success.
    pub fn is_success(&self) -> (success: bool)
        ensures
            success == (self@.code == 0),
    {
        self.code == 0
    }
}

/// The envelope of a device response.
#[derive(Debug, Clone, PartialEq, Eq)]
pub struct Response<'a> {
    /// `None` when the header field is absent. An empty header is `Some`
    /// with every field at its default.
    pub header: Option<Header>,
    /// `None` when the error field is absent.
    pub error: Option<ProtocolError>,
    /// The body field number and its raw bytes, if any known body is set.
    pub body: Option<(u32, &'a [u8])>,
}

/// What a [`Response`] holds.
pub struct ResponseView {
    pub header: Option<Header>,
    pub error: Option<ProtocolErrorView>,
    pub body: Option<(u32, Seq<u8>)>,
}

impl<'a> View for Response<'a> {
    type V = ResponseView;

    open spec fn view(&self) -> ResponseView {
        ResponseView {
            header: self.header,
            error: match self.error {
                Some(error) => Some(error@),
                None => None,
            },
            body: match self.body {
                Some((number, bytes)) => Some((number, bytes@)),
                None => None,
            },
        }
    }
}

impl ResponseView {
    /// The error when the device reported one with a non-zero code.
    pub open spec fn rejection(self) -> Option<ProtocolErrorView> {
        match self.error {
            Some(error) => if error.code != 0 {
                Some(error)
            } else {
                None
            },
            None => None,
        }
    }

    /// The body field number, if a body is present.
    pub open spec fn body_number(self) -> Option<u32> {
        match self.body {
            Some((number, _)) => Some(number),
            None => None,
        }
    }
}

/// A response without fields.
pub open spec fn empty_response() -> ResponseView {
    ResponseView { header: None, error: None, body: None }
}

/// Takes up one field of a response: the last header, the last error and the
/// last body stay; a header or an error that cannot be read is the failure of
/// the response.
pub open spec fn response_step() -> spec_fn(ResponseView, crate::pb::FieldView) -> Result<
    ResponseView,
    DecodeError,
> {
    |response: ResponseView, field: crate::pb::FieldView|
        match field.value.bytes() {
            None => Ok(response),
            Some(bytes) => if field.number == field::HEADER {
                match header_of(bytes) {
                    Ok(header) => Ok(ResponseView { header: Some(header), ..response }),
                    Err(error) => Err(error),
                }
            } else if field.number == field::ERROR {
                match error_of(bytes) {
                    Ok(error) => Ok(ResponseView { error: Some(error), ..response }),
                    Err(error) => Err(error),
                }
            } else if field::is_body(field.number) {
                Ok(ResponseView { body: Some((field.number, bytes)), ..response })
            } else {
                Ok(response)
            },
        }
}

/// What [`Response::parse`] makes of `payload`.
pub open spec fn response_of(payload: Seq<u8>) -> Result<ResponseView, DecodeError> {
    crate::pb::fold_fields(payload, empty_response(), response_step())
}

impl<'a> Response<'a> {
    /// Reads the envelope of a response.
    pub fn parse(payload: &'a [u8]) -> (result: Result<Self, DecodeError>)
        ensures
            match response_of(payload@) {
                Ok(view) => result matches Ok(response) && response@ == view,
                Err(error) => result == Err::<Self, DecodeError>(error),
            },
    {
        let mut response = Response { header: None, error: None, body: None };
        let mut fields = Fields::new(payload);
        loop
            invariant
                crate::pb::fold_fields(fields.rest(), response@, response_step()) == response_of(
                    payload@,
                ),
            ensures
                response_of(payload@) == Ok::<ResponseView, DecodeError>(response@),
            decreases fields.rest().len(),
        {
            proof {
                crate::pb::field_size(fields.rest());
            }
            let ghost before = response@;
            let field = match fields.next() {
                None => break,
                Some(Err(error)) => return Err(error),
                Some(Ok(field)) => field,
            };
            if let Value::Len(bytes) = field.value {
                if field.number == field::HEADER {
                    match Header::parse(bytes) {
                        Ok(header) => {
                            response.header = Some(header);
                        },
                        Err(error) => return Err(error),
                    }
                } else if field.number == field::ERROR {
                    match ProtocolError::parse(bytes) {
                        Ok(error) => {
                            response.error = Some(error);
                        },
                        Err(error) => return Err(error),
                    }
                } else if field::is_response_body(field.number) {
                    response.body = Some((field.number, bytes));
                }
            }
            assert(response_step()(before, field@) == Ok::<ResponseView, DecodeError>(response@));
        }
        Ok(response)
    }

    /// The body field number, if a body is present.
    pub fn body_number(&self) -> (number: Option<u32>)
        ensures
            number == self@.body_number(),
    {
        match self.body {
            Some((number, _)) => Some(number),
            None => None,
        }
    }

    /// The error when the device reported one with a non-zero code.
    pub fn rejection(&self) -> (rejection: Option<&ProtocolError>)
        ensures
            match self@.rejection() {
                Some(view) => rejection matches Some(error) && error@ == view,
                None => rejection is None,
            },
    {
        match &self.error {
            Some(error) => if error.is_success() {
                None
            } else {
                Some(error)
            },
            None => None,
        }
    }
}

/// `DeviceInformation` response body.
#[derive(Debug, Clone, PartialEq, Eq)]
pub struct DeviceInformation {
    pub os_name: String,
    pub os_version: String,
    pub firmware_version: String,
    pub product_name: String,
    pub app_version: String,
    pub serial_number: String,
    pub serial_number_locked: bool,
    pub chip_id: String,
}

/// What a [`DeviceInformation`] holds.
pub struct DeviceInformationView {
    pub os_name: Seq<char>,
    pub os_version: Seq<char>,
    pub firmware_version: Seq<char>,
    pub product_name: Seq<char>,
    pub app_version: Seq<char>,
    pub serial_number: Seq<char>,
    pub serial_number_locked: bool,
    pub chip_id: Seq<char>,
}

impl View for DeviceInformation {
    type V = DeviceInformationView;

    open spec fn view(&self) -> DeviceInformationView {
        DeviceInformationView {
            os_name: self.os_name@,
            os_version: self.os_version@,
            firmware_version: self.firmware_version@,
            product_name: self.product_name@,
            app_version: self.app_version@,
            serial_number: self.serial_number@,
            serial_number_locked: self.serial_number_locked,
            chip_id: self.chip_id@,
        }
    }
}

/// Nothing said of the device.
pub open spec fn empty_device_information() -> DeviceInformationView {
    DeviceInformationView {
        os_name: Seq::empty(),
        os_version: Seq::empty(),
        firmware_version: Seq::empty(),
        product_name: Seq::empty(),
        app_version: Seq::empty(),
        serial_number: Seq::empty(),
        serial_number_locked: false,
        chip_id: Seq::empty(),
    }
}

impl Default for DeviceInformation {
    fn default() -> (info: Self)
        ensures
            info@ == empty_device_information(),
    {
        DeviceInformation {
            os_name: String::new(),
            os_version: String::new(),
            firmware_version: String::new(),
            product_name: String::new(),
            app_version: String::new(),
            serial_number: String::new(),
            serial_number_locked: false,
            chip_id: String::new(),
        }
    }
}

/// `info` after one more of its fields.
pub open spec fn device_information_with(
    info: DeviceInformationView,
    field: crate::pb::FieldView,
) -> DeviceInformationView {
    if field.number == 9 {
        DeviceInformationView { serial_number_locked: field.value.number() == Some(1u64), ..info }
    } else {
        match field.value.bytes() {
            None => info,
            Some(bytes) => if field.number == 1 {
                DeviceInformationView { os_name: lossy_text(bytes), ..info }
            } else if field.number == 2 {
                DeviceInformationView { os_version: lossy_text(bytes), ..info }
            } else if field.number == 3 {
                DeviceInformationView { firmware_version: lossy_text(bytes), ..info }
            } else if field.number == 4 {
                DeviceInformationView { product_name: lossy_text(bytes), ..info }
            } else if field.number == 5 {
                DeviceInformationView { app_version: lossy_text(bytes), ..info }
            } else if field.number == 8 {
                DeviceInformationView { serial_number: lossy_text(bytes), ..info }
            } else if field.number == 10 {
                DeviceInformationView { chip_id: lossy_text(bytes), ..info }
            } else {
                info
            },
        }
    }
}

/// Takes up one field of a device information body.
pub open spec fn device_information_step() -> spec_fn(
    DeviceInformationView,
    crate::pb::FieldView,
) -> Result<DeviceInformationView, DecodeError> {
    |info: DeviceInformationView, field: crate::pb::FieldView|
        Ok(device_information_with(info, field))
}

/// What [`DeviceInformation::parse`] makes of `body`.
pub open spec fn device_information_of(body: Seq<u8>) -> Result<
    DeviceInformationView,
    DecodeError,
> {
    crate::pb::fold_fields(body, empty_device_information(), device_information_step())
}

/// Whether a number field says yes.
fn is_one(value: &Value<'_>) -> (one: bool)
    ensures
        one == (value@.number() == Some(1u64)),
{
    match value.as_u64() {
        Some(number) => number == 1,
        None => false,
    }
}

impl DeviceInformation {
    /// Reads a device information body.
    pub fn parse(body: &[u8]) -> (result: Result<Self, DecodeError>)
        ensures
            match device_information_of(body@) {
                Ok(view) => result matches Ok(info) && info@ == view,
                Err(error) => result == Err::<Self, DecodeError>(error),
            },
    {
        let mut info = DeviceInformation::default();
        let mut fields = Fields::new(body);
        loop
            invariant
                crate::pb::fold_fields(fields.rest(), info@, device_information_step())
                    == device_information_of(body@),
            ensures
                device_information_of(body@) == Ok::<DeviceInformationView, DecodeError>(info@),
            decreases fields.rest().len(),
        {
            proof {
                crate::pb::field_size(fields.rest());
            }
            let field = match fields.next() {
                None => break,
                Some(Err(error)) => return Err(error),
                Some(Ok(field)) => field,
            };
            if field.number == 9 {
                info.serial_number_locked = is_one(&field.value);
            } else if let Value::Len(bytes) = field.value {
                if field.number == 1 {
                    info.os_name = text(bytes);
                } else if field.number == 2 {
                    info.os_version = text(bytes);
                } else if field.number == 3 {
                    info.firmware_version = text(bytes);
                } else if field.number == 4 {
                    info.product_name = text(bytes);
                } else if field.number == 5 {
                    info.app_version = text(bytes);
                } else if field.number == 8 {
                    info.serial_number = text(bytes);
                } else if field.number == 10 {
                    info.chip_id = text(bytes);
                }
            }
        }
        Ok(info)
    }
}

/// Keeps the text of the last length-delimited field with this number.
pub open spec fn text_step(number: u32) -> spec_fn(Seq<char>, crate::pb::FieldView) -> Result<
    Seq<char>,
    DecodeError,
> {
    |kept: Seq<char>, field: crate::pb::FieldView|
        match field.value.bytes() {
            Some(bytes) => if field.number == number {
                Ok(lossy_text(bytes))
            } else {
                Ok(kept)
            },
            None => Ok(kept),
        }
}

/// The text of the last length-delimited field with this number; empty when
/// there is none.
pub open spec fn text_of(body: Seq<u8>, number: u32) -> Result<Seq<char>, DecodeError> {
    crate::pb::fold_fields(body, Seq::<char>::empty(), text_step(number))
}

/// The text of the last length-delimited field with this number.
fn last_text(body: &[u8], number: u32) -> (result: Result<String, DecodeError>)
    ensures
        match text_of(body@, number) {
            Ok(kept) => result matches Ok(text) && text@ == kept,
            Err(error) => result == Err::<String, DecodeError>(error),
        },
{
    let mut kept = String::new();
    let mut fields = Fields::new(body);
    loop
        invariant
            crate::pb::fold_fields(fields.rest(), kept@, text_step(number)) == text_of(
                body@,
                number,
            ),
        ensures
            text_of(body@, number) == Ok::<Seq<char>, DecodeError>(kept@),
        decreases fields.rest().len(),
    {
        proof {
            crate::pb::field_size(fields.rest());
        }
        let field = match fields.next() {
            None => break,
            Some(Err(error)) => return Err(error),
            Some(Ok(field)) => field,
        };
        if let Value::Len(bytes) = field.value {
            if field.number == number {
                kept = text(bytes);
            }
        }
    }
    Ok(kept)
}

/// `DeviceAuthentication` response body: the opaque `auth` string.
pub fn parse_device_authentication(body: &[u8]) -> (result: Result<String, DecodeError>)
    ensures
        match text_of(body@, 1) {
            Ok(view) => result matches Ok(auth) && auth@ == view,
            Err(error) => result == Err::<String, DecodeError>(error),
        },
{
    last_text(body, 1)
}

/// How the panel arranges its media.
#[derive(Debug, Clone, Copy, PartialEq, Eq, Structural)]
pub enum MediaMode {
    Single,
    Dual,
    Kaleidoscope,
    Unknown(u64),
}

/// The mode with this number.
pub open spec fn media_mode(value: u64) -> MediaMode {
    if value == 0 {
        MediaMode::Single
    } else if value == 1 {
        MediaMode::Dual
    } else if value == 2 {
        MediaMode::Kaleidoscope
    } else {
        MediaMode::Unknown(value)
    }
}

impl From<u64> for MediaMode {
    fn from(value: u64) -> (mode: Self) {
        match value {
            0 => MediaMode::Single,
            1 => MediaMode::Dual,
            2 => MediaMode::Kaleidoscope,
            other => MediaMode::Unknown(other),
        }
    }
}

impl vstd::std_specs::convert::FromSpecImpl<u64> for MediaMode {
    open spec fn obeys_from_spec() -> bool {
        true
    }

    open spec fn from_spec(value: u64) -> Self {
        media_mode(value)
    }
}

/// How the panel repeats its media.
#[derive(Debug, Clone, Copy, PartialEq, Eq, Structural)]
pub enum LoopMode {
    Single,
    All,
    Random,
    Unknown(u64),
}

/// The mode with this number.
pub open spec fn loop_mode(value: u64) -> LoopMode {
    if value == 0 {
        LoopMode::Single
    } else if value == 1 {
        LoopMode::All
    } else if value == 2 {
        LoopMode::Random
    } else {
        LoopMode::Unknown(value)
    }
}

impl From<u64> for LoopMode {
    fn from(value: u64) -> (mode: Self) {
        match value {
            0 => LoopMode::Single,
            1 => LoopMode::All,
            2 => LoopMode::Random,
            other => LoopMode::Unknown(other),
        }
    }
}

impl vstd::std_specs::convert::FromSpecImpl<u64> for LoopMode {
    open spec fn obeys_from_spec() -> bool {
        true
    }

    open spec fn from_spec(value: u64) -> Self {
        loop_mode(value)
    }
}

/// What the panel shows when it powers on.
#[derive(Debug, Clone, PartialEq, Eq)]
pub struct PowerOnConfiguration {
    pub media_file: String,
}

/// What a [`PowerOnConfiguration`] holds.
pub struct PowerOnConfigurationView {
    pub media_file: Seq<char>,
}

impl View for PowerOnConfiguration {
    type V = PowerOnConfigurationView;

    open spec fn view(&self) -> PowerOnConfigurationView {
        PowerOnConfigurationView { media_file: self.media_file@ }
    }
}

impl Default for PowerOnConfiguration {
    fn default() -> (config: Self)
        ensures
            config@.media_file.len() == 0,
    {
        PowerOnConfiguration { media_file: String::new() }
    }
}

/// The power-on section in `body`.
pub open spec fn poweron_of(body: Seq<u8>) -> Result<PowerOnConfigurationView, DecodeError> {
    match text_of(body, 1) {
        Ok(media_file) => Ok(PowerOnConfigurationView { media_file }),
        Err(error) => Err(error),
    }
}

fn parse_poweron(body: &[u8]) -> (result: Result<PowerOnConfiguration, DecodeError>)
    ensures
        match poweron_of(body@) {
            Ok(view) => result matches Ok(config) && config@ == view,
            Err(error) => result == Err::<PowerOnConfiguration, DecodeError>(error),
        },
{
    match last_text(body, 1) {
        Ok(media_file) => Ok(PowerOnConfiguration { media_file }),
        Err(error) => Err(error),
    }
}

/// What the panel shows in standby.
#[derive(Debug, Clone, PartialEq, Eq)]
pub struct StandbyConfiguration {
    pub enable: bool,
    pub media_file: String,
}

/// What a [`StandbyConfiguration`] holds.
pub struct StandbyConfigurationView {
    pub enable: bool,
    pub media_file: Seq<char>,
}

impl View for StandbyConfiguration {
    type V = StandbyConfigurationView;

    open spec fn view(&self) -> StandbyConfigurationView {
        StandbyConfigurationView { enable: self.enable, media_file: self.media_file@ }
    }
}

/// Standby off, no media.
pub open spec fn empty_standby() -> StandbyConfigurationView {
    StandbyConfigurationView { enable: false, media_file: Seq::empty() }
}

impl Default for StandbyConfiguration {
    fn default() -> (config: Self)
        ensures
            config@ == empty_standby(),
    {
        StandbyConfiguration { enable: false, media_file: String::new() }
    }
}

/// `config` after one more of its fields.
pub open spec fn standby_with(
    config: StandbyConfigurationView,
    field: crate::pb::FieldView,
) -> StandbyConfigurationView {
    match (field.number, field.value.bytes()) {
        (1, _) => StandbyConfigurationView {
            enable: field.value.number() == Some(1u64),
            ..config
        },
        (2, Some(bytes)) => StandbyConfigurationView { media_file: lossy_text(bytes), ..config },
        _ => config,
    }
}

/// Takes up one field of a standby section.
pub open spec fn standby_step() -> spec_fn(
    StandbyConfigurationView,
    crate::pb::FieldView,
) -> Result<StandbyConfigurationView, DecodeError> {
    |config: StandbyConfigurationView, field: crate::pb::FieldView| Ok(standby_with(config, field))
}

/// The standby section in `body`.
pub open spec fn standby_of(body: Seq<u8>) -> Result<StandbyConfigurationView, DecodeError> {
    crate::pb::fold_fields(body, empty_standby(), standby_step())
}

fn parse_standby(body: &[u8]) -> (result: Result<StandbyConfiguration, DecodeError>)
    ensures
        match standby_of(body@) {
            Ok(view) => result matches Ok(config) && config@ == view,
            Err(error) => result == Err::<StandbyConfiguration, DecodeError>(error),
        },
{
    let mut config = StandbyConfiguration::default();
    let mut fields = Fields::new(body);
    loop
        invariant
            crate::pb::fold_fields(fields.rest(), config@, standby_step()) == standby_of(body@),
        ensures
            standby_of(body@) == Ok::<StandbyConfigurationView, DecodeError>(config@),
        decreases fields.rest().len(),
    {
        proof {
            crate::pb::field_size(fields.rest());
        }
        let field = match fields.next() {
            None => break,
            Some(Err(error)) => return Err(error),
            Some(Ok(field)) => field,
        };
        if field.number == 1 {
            config.enable = is_one(&field.value);
        } else if field.number == 2 {
            if let Value::Len(bytes) = field.value {
                config.media_file = text(bytes);
            }
        }
    }
    Ok(config)
}

/// What the panel shows while it works.
#[derive(Debug, Clone, PartialEq, Eq)]
pub struct WorkConfiguration {
    pub media_mode: MediaMode,
    pub loop_mode: LoopMode,
    pub single_mode_media_file: String,
    pub dual_mode_left_media_file: String,
    pub dual_mode_right_media_file: String,
    pub kaleidoscope_media_file: String,
    pub kaleidoscope_source: u64,
}

/// What a [`WorkConfiguration`] holds.
pub struct WorkConfigurationView {
    pub media_mode: MediaMode,
    pub loop_mode: LoopMode,
    pub single_mode_media_file: Seq<char>,
    pub dual_mode_left_media_file: Seq<char>,
    pub dual_mode_right_media_file: Seq<char>,
    pub kaleidoscope_media_file: Seq<char>,
    pub kaleidoscope_source: u64,
}

impl View for WorkConfiguration {
    type V = WorkConfigurationView;

    open spec fn view(&self) -> WorkConfigurationView {
        WorkConfigurationView {
            media_mode: self.media_mode,
            loop_mode: self.loop_mode,
            single_mode_media_file: self.single_mode_media_file@,
            dual_mode_left_media_file: self.dual_mode_left_media_file@,
            dual_mode_right_media_file: self.dual_mode_right_media_file@,
            kaleidoscope_media_file: self.kaleidoscope_media_file@,
            kaleidoscope_source: self.kaleidoscope_source,
        }
    }
}

/// Both modes single, no media.
pub open spec fn empty_work() -> WorkConfigurationView {
    WorkConfigurationView {
        media_mode: MediaMode::Single,
        loop_mode: LoopMode::Single,
        single_mode_media_file: Seq::empty(),
        dual_mode_left_media_file: Seq::empty(),
        dual_mode_right_media_file: Seq::empty(),
        kaleidoscope_media_file: Seq::empty(),
        kaleidoscope_source: 0,
    }
}

impl Default for WorkConfiguration {
    fn default() -> (config: Self)
        ensures
            config@ == empty_work(),
    {
        WorkConfiguration {
            media_mode: MediaMode::Single,
            loop_mode: LoopMode::Single,
            single_mode_media_file: String::new(),
            dual_mode_left_media_file: String::new(),
            dual_mode_right_media_file: String::new(),
            kaleidoscope_media_file: String::new(),
            kaleidoscope_source: 0,
        }
    }
}

/// `config` after one more of its fields.
pub open spec fn work_with(
    config: WorkConfigurationView,
    field: crate::pb::FieldView,
) -> WorkConfigurationView {
    match (field.number, field.value.number(), field.value.bytes()) {
        (1, Some(v), _) => WorkConfigurationView { media_mode: media_mode(v), ..config },
        (2, Some(v), _) => WorkConfigurationView { loop_mode: loop_mode(v), ..config },
        (3, _, Some(b)) => WorkConfigurationView {
            single_mode_media_file: lossy_text(b),
            ..config
        },
        (4, _, Some(b)) => WorkConfigurationView {
            dual_mode_left_media_file: lossy_text(b),
            ..config
        },
        (5, _, Some(b)) => WorkConfigurationView {
            dual_mode_right_media_file: lossy_text(b),
            ..config
        },
        (6, _, Some(b)) => WorkConfigurationView {
            kaleidoscope_media_file: lossy_text(b),
            ..config
        },
        (7, Some(v), _) => WorkConfigurationView { kaleidoscope_source: v, ..config },
        _ => config,
    }
}

/// Takes up one field of a work section.
pub open spec fn work_step() -> spec_fn(WorkConfigurationView, crate::pb::FieldView) -> Result<
    WorkConfigurationView,
    DecodeError,
> {
    |config: WorkConfigurationView, field: crate::pb::FieldView| Ok(work_with(config, field))
}

/// The work section in `body`.
pub open spec fn work_of(body: Seq<u8>) -> Result<WorkConfigurationView, DecodeError> {
    crate::pb::fold_fields(body, empty_work(), work_step())
}

fn parse_work(body: &[u8]) -> (result: Result<WorkConfiguration, DecodeError>)
    ensures
        match work_of(body@) {
            Ok(view) => result matches Ok(config) && config@ == view,
            Err(error) => result == Err::<WorkConfiguration, DecodeError>(error),
        },
{
    let mut config = WorkConfiguration::default();
    let mut fields = Fields::new(body);
    loop
        invariant
            crate::pb::fold_fields(fields.rest(), config@, work_step()) == work_of(body@),
        ensures
            work_of(body@) == Ok::<WorkConfigurationView, DecodeError>(config@),
        decreases fields.rest().len(),
    {
        proof {
            crate::pb::field_size(fields.rest());
        }
        let field = match fields.next() {
            None => break,
            Some(Err(error)) => return Err(error),
            Some(Ok(field)) => field,
        };
        match field.value {
            Value::Len(bytes) => {
                if field.number == 3 {
                    config.single_mode_media_file = text(bytes);
                } else if field.number == 4 {
                    config.dual_mode_left_media_file = text(bytes);
                } else if field.number == 5 {
                    config.dual_mode_right_media_file = text(bytes);
                } else if field.number == 6 {
                    config.kaleidoscope_media_file = text(bytes);
                }
            },
            value => {
                if let Some(v) = value.as_u64() {
                    if field.number == 1 {
                        config.media_mode = MediaMode::from(v);
                    } else if field.number == 2 {
                        config.loop_mode = LoopMode::from(v);
                    } else if field.number == 7 {
                        config.kaleidoscope_source = v;
                    }
                }
            },
        }
    }
    Ok(config)
}

/// How the panel shows its picture.
#[derive(Debug, Clone, Copy, PartialEq, Eq, Structural)]
pub struct DisplayConfiguration {
    pub backlight_enable: bool,
    pub backlight_brightness: u64,
    pub mirror: bool,
    pub ui_rotation: u64,
    pub media_rotation: u64,
}

/// Everything off.
pub open spec fn empty_display() -> DisplayConfiguration {
    DisplayConfiguration {
        backlight_enable: false,
        backlight_brightness: 0,
        mirror: false,
        ui_rotation: 0,
        media_rotation: 0,
    }
}

impl Default for DisplayConfiguration {
    fn default() -> (config: Self)
        ensures
            config == empty_display(),
    {
        DisplayConfiguration {
            backlight_enable: false,
            backlight_brightness: 0,
            mirror: false,
            ui_rotation: 0,
            media_rotation: 0,
        }
    }
}

/// `config` after one more of its fields. Only numbers count.
pub open spec fn display_with(
    config: DisplayConfiguration,
    field: crate::pb::FieldView,
) -> DisplayConfiguration {
    match field.value.number() {
        None => config,
        Some(value) => if field.number == 1 {
            DisplayConfiguration { backlight_enable: value == 1, ..config }
        } else if field.number == 2 {
            DisplayConfiguration { backlight_brightness: value, ..config }
        } else if field.number == 3 {
            DisplayConfiguration { mirror: value == 1, ..config }
        } else if field.number == 4 {
            DisplayConfiguration { ui_rotation: value, ..config }
        } else if field.number == 5 {
            DisplayConfiguration { media_rotation: value, ..config }
        } else {
            config
        },
    }
}

/// Takes up one field of a display section.
pub open spec fn display_step() -> spec_fn(DisplayConfiguration, crate::pb::FieldView) -> Result<
    DisplayConfiguration,
    DecodeError,
> {
    |config: DisplayConfiguration, field: crate::pb::FieldView| Ok(display_with(config, field))
}

/// The display section in `body`.
pub open spec fn display_of(body: Seq<u8>) -> Result<DisplayConfiguration, DecodeError> {
    crate::pb::fold_fields(body, empty_display(), display_step())
}

fn parse_display(body: &[u8]) -> (result: Result<DisplayConfiguration, DecodeError>)
    ensures
        result == display_of(body@),
{
    let mut config = DisplayConfiguration::default();
    let mut fields = Fields::new(body);
    loop
        invariant
            crate::pb::fold_fields(fields.rest(), config, display_step()) == display_of(body@),
        ensures
            display_of(body@) == Ok::<DisplayConfiguration, DecodeError>(config),
        decreases fields.rest().len(),
    {
        proof {
            crate::pb::field_size(fields.rest());
        }
        let field = match fields.next() {
            None => break,
            Some(Err(error)) => return Err(error),
            Some(Ok(field)) => field,
        };
        if let Some(value) = field.value.as_u64() {
            if field.number == 1 {
                config.backlight_enable = value == 1;
            } else if field.number == 2 {
                config.backlight_brightness = value;
            } else if field.number == 3 {
                config.mirror = value == 1;
            } else if field.number == 4 {
                config.ui_rotation = value;
            } else if field.number == 5 {
                config.media_rotation = value;
            }
        }
    }
    Ok(config)
}

/// `UserConfiguration` response body. Each section is `None` when the
/// device did not include it.
#[derive(Debug, Clone, PartialEq, Eq)]
pub struct UserConfiguration {
    pub poweron: Option<PowerOnConfiguration>,
    pub standby: Option<StandbyConfiguration>,
    pub work: Option<WorkConfiguration>,
    pub display: Option<DisplayConfiguration>,
}

/// What a [`UserConfiguration`] holds.
pub struct UserConfigurationView {
    pub poweron: Option<PowerOnConfigurationView>,
    pub standby: Option<StandbyConfigurationView>,
    pub work: Option<WorkConfigurationView>,
    pub display: Option<DisplayConfiguration>,
}

impl View for UserConfiguration {
    type V = UserConfigurationView;

    open spec fn view(&self) -> UserConfigurationView {
        UserConfigurationView {
            poweron: match self.poweron {
                Some(section) => Some(section@),
                None => None,
            },
            standby: match self.standby {
                Some(section) => Some(section@),
                None => None,
            },
            work: match self.work {
                Some(section) => Some(section@),
                None => None,
            },
            display: self.display,
        }
    }
}

/// No section at all.
pub open spec fn empty_configuration() -> UserConfigurationView {
    UserConfigurationView { poweron: None, standby: None, work: None, display: None }
}

impl Default for UserConfiguration {
    fn default() -> (config: Self)
        ensures
            config@ == empty_configuration(),
    {
        UserConfiguration { poweron: None, standby: None, work: None, display: None }
    }
}

/// Takes up one field of a user configuration: the last section of each kind
/// stays; one that cannot be read is the failure of the whole.
pub open spec fn configuration_step() -> spec_fn(
    UserConfigurationView,
    crate::pb::FieldView,
) -> Result<UserConfigurationView, DecodeError> {
    |config: UserConfigurationView, field: crate::pb::FieldView|
        match field.value.bytes() {
            None => Ok(config),
            Some(bytes) => if field.number == 1 {
                match poweron_of(bytes) {
                    Ok(section) => Ok(UserConfigurationView { poweron: Some(section), ..config }),
                    Err(error) => Err(error),
                }
            } else if field.number == 2 {
                match standby_of(bytes) {
                    Ok(section) => Ok(UserConfigurationView { standby: Some(section), ..config }),
                    Err(error) => Err(error),
                }
            } else if field.number == 3 {
                match work_of(bytes) {
                    Ok(section) => Ok(UserConfigurationView { work: Some(section), ..config }),
                    Err(error) => Err(error),
                }
            } else if field.number == 5 {
                match display_of(bytes) {
                    Ok(section) => Ok(UserConfigurationView { display: Some(section), ..config }),
                    Err(error) => Err(error),
                }
            } else {
                Ok(config)
            },
        }
}

/// What [`UserConfiguration::parse`] makes of `body`.
pub open spec fn configuration_of(body: Seq<u8>) -> Result<UserConfigurationView, DecodeError> {
    crate::pb::fold_fields(body, empty_configuration(), configuration_step())
}

impl UserConfiguration {
    /// Reads a user configuration body.
    pub fn parse(body: &[u8]) -> (result: Result<Self, DecodeError>)
        ensures
            match configuration_of(body@) {
                Ok(view) => result matches Ok(config) && config@ == view,
                Err(error) => result == Err::<Self, DecodeError>(error),
            },
    {
        let mut config = UserConfiguration::default();
        let mut fields = Fields::new(body);
        loop
            invariant
                crate::pb::fold_fields(fields.rest(), config@, configuration_step())
                    == configuration_of(body@),
            ensures
                configuration_of(body@) == Ok::<UserConfigurationView, DecodeError>(config@),
            decreases fields.rest().len(),
        {
            proof {
                crate::pb::field_size(fields.rest());
            }
            let ghost before = config@;
            let field = match fields.next() {
                None => break,
                Some(Err(error)) => return Err(error),
                Some(Ok(field)) => field,
            };
            if let Value::Len(bytes) = field.value {
                if field.number == 1 {
                    match parse_poweron(bytes) {
                        Ok(section) => {
                            config.poweron = Some(section);
                        },
                        Err(error) => return Err(error),
                    }
                } else if field.number == 2 {
                    match parse_standby(bytes) {
                        Ok(section) => {
                            config.standby = Some(section);
                        },
                        Err(error) => return Err(error),
                    }
                } else if field.number == 3 {
                    match parse_work(bytes) {
                        Ok(section) => {
                            config.work = Some(section);
                        },
                        Err(error) => return Err(error),
                    }
                } else if field.number == 5 {
                    match parse_display(bytes) {
                        Ok(section) => {
                            config.display = Some(section);
                        },
                        Err(error) => return Err(error),
                    }
                }
            }
            assert(configuration_step()(before, field@) == Ok::<
                UserConfigurationView,
                DecodeError,
            >(config@));
        }
        Ok(config)
    }
}

// ---------------------------------------------------------------------------
// Laws.
// ---------------------------------------------------------------------------

/// The headers of requests are read back: version one, no checksum, and the
/// track id that was written, zero where none was.
pub proof fn header_round_trip(track_id: u64)
    ensures
        header_of(tracked_header_bytes(track_id)) == Ok::<Header, DecodeError>(
            Header { version: 1, track_id, payload_crc32: 0 },
        ),
        header_of(untracked_header_bytes()) == Ok::<Header, DecodeError>(
            Header { version: 1, track_id: 0, payload_crc32: 0 },
        ),
        header_of(Seq::empty()) == Ok::<Header, DecodeError>(empty_header()),
{
    let nothing = Seq::<u8>::empty();
    let first = crate::pb::uint_field(1, PROTOCOL_VERSION);
    crate::pb::uint_field_is_added(nothing, 1, PROTOCOL_VERSION, empty_header(), header_step());
    assert(nothing + first == first);
    crate::pb::uint_field_is_added(first, 2, track_id, empty_header(), header_step());
}

proof fn lemma_request(header: Seq<u8>, number: u32, body: Seq<u8>)
    requires
        header_of(header) is Ok,
        header.len() <= u64::MAX,
        body.len() <= u64::MAX,
        2 < number <= crate::pb::MAX_FIELD,
    ensures
        response_of(request_bytes(header, number, body)) == Ok::<ResponseView, DecodeError>(
            ResponseView {
                header: Some(header_of(header)->Ok_0),
                error: None,
                body: if field::is_body(number) {
                    Some((number, body))
                } else {
                    None
                },
            },
        ),
{
    let nothing = Seq::<u8>::empty();
    let first = crate::pb::message_field(field::HEADER, header);
    crate::pb::message_field_is_added(
        nothing,
        field::HEADER,
        header,
        empty_response(),
        response_step(),
    );
    assert(nothing + first == first);
    crate::pb::message_field_is_added(first, number, body, empty_response(), response_step());
}

proof fn lemma_body_numbers()
    ensures
        field::is_body(field::PONG),
        !field::is_body(field::OVERLAY_LAYOUT),
        !field::is_body(field::USER_CONFIGURATION_QUERY),
        !field::is_body(field::DEVICE_INFORMATION_QUERY),
        !field::is_body(field::SYSTEM_CONFIGURATION_QUERY),
        !field::is_body(field::DEVICE_AUTHENTICATION_QUERY),
{
    assert(field::RESPONSE_BODIES@[0] == field::PONG);
}

proof fn lemma_short(value: u64)
    ensures
        crate::pb::uint_field(1, value).len() <= 20,
        crate::pb::uint_field(2, value).len() <= 20,
        crate::pb::bytes_field(1, QUERY_DUMMY@).len() <= 20,
        crate::pb::bytes_field(1, PING_PAYLOAD@).len() <= 30,
{
    let nothing = Seq::<u8>::empty();
    crate::pb::varint_round_trip(value, nothing);
    crate::pb::varint_round_trip(8, nothing);
    crate::pb::varint_round_trip(16, nothing);
    crate::pb::varint_round_trip(10, nothing);
    crate::pb::varint_round_trip(2, nothing);
    crate::pb::varint_round_trip(6, nothing);
}

/// A tracked request, seen as a response, carries the header it was built
/// with, no error and no body.
pub proof fn tracked_requests_round_trip(track_id: u64)
    ensures
        response_of(activation_trigger_bytes(track_id)) == Ok::<ResponseView, DecodeError>(
            ResponseView {
                header: Some(Header { version: 1, track_id, payload_crc32: 0 }),
                error: None,
                body: None,
            },
        ),
        response_of(user_configuration_query_bytes(track_id)) == Ok::<ResponseView, DecodeError>(
            ResponseView {
                header: Some(Header { version: 1, track_id, payload_crc32: 0 }),
                error: None,
                body: None,
            },
        ),
{
    header_round_trip(track_id);
    lemma_body_numbers();
    lemma_short(PROTOCOL_VERSION);
    lemma_short(track_id);
    let header = tracked_header_bytes(track_id);
    lemma_request(header, field::OVERLAY_LAYOUT, Seq::empty());
    lemma_request(header, field::USER_CONFIGURATION_QUERY, Seq::empty());
}

/// The bootstrap requests carry an untracked header, no error and no body that
/// a response could have.
pub proof fn bootstrap_requests_round_trip()
    ensures
        ({
            let untracked = ResponseView {
                header: Some(Header { version: 1, track_id: 0, payload_crc32: 0 }),
                error: None,
                body: None,
            };
            &&& response_of(device_information_query_bytes()) == Ok::<ResponseView, DecodeError>(
                untracked,
            )
            &&& response_of(system_configuration_query_bytes()) == Ok::<ResponseView, DecodeError>(
                untracked,
            )
            &&& response_of(device_authentication_query_bytes()) == Ok::<
                ResponseView,
                DecodeError,
            >(untracked)
        }),
{
    header_round_trip(0);
    lemma_body_numbers();
    lemma_short(PROTOCOL_VERSION);
    lemma_short(AUTH_KEY);
    let header = untracked_header_bytes();
    lemma_request(header, field::DEVICE_INFORMATION_QUERY, query_token_bytes());
    lemma_request(header, field::SYSTEM_CONFIGURATION_QUERY, query_token_bytes());
    lemma_request(
        header,
        field::DEVICE_AUTHENTICATION_QUERY,
        crate::pb::uint_field(1, AUTH_KEY),
    );
}

/// The keepalive's header is there, with every field at its default.
pub proof fn keepalive_header_is_present_and_empty()
    ensures
        response_of(keepalive_ping_bytes()) matches Ok(response) && response.header == Some(
            empty_header(),
        ) && response.error is None && response.body == Some(
            (field::PONG, crate::pb::bytes_field(1, PING_PAYLOAD@)),
        ),
{
    header_round_trip(0);
    lemma_body_numbers();
    lemma_short(0);
    lemma_request(Seq::empty(), field::PING, crate::pb::bytes_field(1, PING_PAYLOAD@));
}

/// The last body wins: adding one replaces what was there and leaves header
/// and error as they were.
pub proof fn last_body_wins(payload: Seq<u8>, number: u32, body: Seq<u8>)
    requires
        response_of(payload) is Ok,
        field::is_body(number),
        body.len() <= u64::MAX,
    ensures
        response_of(payload + crate::pb::message_field(number, body)) == Ok::<
            ResponseView,
            DecodeError,
        >(ResponseView { body: Some((number, body)), ..response_of(payload)->Ok_0 }),
{
    crate::pb::message_field_is_added(payload, number, body, empty_response(), response_step());
}

/// Fields that a response does not know change nothing: numbers of any field,
/// and length-delimited fields that are neither header, error nor body.
pub proof fn unknown_fields_are_ignored(payload: Seq<u8>, number: u32, value: u64, body: Seq<u8>)
    requires
        response_of(payload) is Ok,
        1 <= number <= crate::pb::MAX_FIELD,
        body.len() <= u64::MAX,
    ensures
        response_of(payload + crate::pb::uint_field(number, value)) == response_of(payload),
        number != field::HEADER && number != field::ERROR && !field::is_body(number)
            ==> response_of(payload + crate::pb::message_field(number, body)) == response_of(
            payload,
        ),
{
    crate::pb::uint_field_is_added(payload, number, value, empty_response(), response_step());
    crate::pb::message_field_is_added(payload, number, body, empty_response(), response_step());
}

/// A missing header and a present but empty one are told apart.
pub proof fn missing_and_empty_headers_differ(payload: Seq<u8>)
    requires
        response_of(payload) matches Ok(response) && response.header is None,
    ensures
        response_of(payload + crate::pb::message_field(field::HEADER, Seq::empty())) == Ok::<
            ResponseView,
            DecodeError,
        >(ResponseView { header: Some(empty_header()), ..response_of(payload)->Ok_0 }),
{
    header_round_trip(0);
    crate::pb::message_field_is_added(
        payload,
        field::HEADER,
        Seq::empty(),
        empty_response(),
        response_step(),
    );
}

proof fn lemma_request_len(header: Seq<u8>, number: u32, body: Seq<u8>)
    requires
        header.len() <= 40,
        body.len() <= 40,
        1 <= number <= crate::pb::MAX_FIELD,
    ensures
        request_bytes(header, number, body).len() <= 120,
{
    let nothing = Seq::<u8>::empty();
    crate::pb::varint_round_trip((field::HEADER * 8 + crate::pb::WIRE_LEN % 8) as u64, nothing);
    crate::pb::varint_round_trip((number * 8 + crate::pb::WIRE_LEN % 8) as u64, nothing);
    crate::pb::varint_round_trip(header.len() as u64, nothing);
    crate::pb::varint_round_trip(body.len() as u64, nothing);
}

/// Every request fits in a frame.
pub proof fn requests_fit_in_a_frame(track_id: u64)
    ensures
        device_information_query_bytes().len() <= crate::frame::MAX_PAYLOAD,
        system_configuration_query_bytes().len() <= crate::frame::MAX_PAYLOAD,
        device_authentication_query_bytes().len() <= crate::frame::MAX_PAYLOAD,
        keepalive_ping_bytes().len() <= crate::frame::MAX_PAYLOAD,
        activation_trigger_bytes(track_id).len() <= crate::frame::MAX_PAYLOAD,
        user_configuration_query_bytes(track_id).len() <= crate::frame::MAX_PAYLOAD,
{
    lemma_short(PROTOCOL_VERSION);
    lemma_short(AUTH_KEY);
    lemma_short(track_id);
    let untracked = untracked_header_bytes();
    let tracked_header = tracked_header_bytes(track_id);
    let nothing = Seq::<u8>::empty();
    lemma_request_len(untracked, field::DEVICE_INFORMATION_QUERY, query_token_bytes());
    lemma_request_len(untracked, field::SYSTEM_CONFIGURATION_QUERY, query_token_bytes());
    lemma_request_len(
        untracked,
        field::DEVICE_AUTHENTICATION_QUERY,
        crate::pb::uint_field(1, AUTH_KEY),
    );
    lemma_request_len(nothing, field::PING, crate::pb::bytes_field(1, PING_PAYLOAD@));
    lemma_request_len(tracked_header, field::OVERLAY_LAYOUT, nothing);
    lemma_request_len(tracked_header, field::USER_CONFIGURATION_QUERY, nothing);
}

} // verus!
