//! Header lists: the name and value pairs of a request, a response or
//! trailers.

use vstd::prelude::*;
use vstd::string::StringSliceAdditionalSpecFns;

verus! {

/// One header field.
#[derive(Debug)]
pub struct Header {
    /// The field's name, as it goes on the wire.
    pub name: Vec<u8>,
    /// The field's value.
    pub value: Vec<u8>,
}

impl View for Header {
    type V = (Seq<u8>, Seq<u8>);

    open spec fn view(&self) -> (Seq<u8>, Seq<u8>) {
        (self.name@, self.value@)
    }
}

impl Header {
    /// A field with the given name and value.
    pub fn new(name: Vec<u8>, value: Vec<u8>) -> (r: Header)
        ensures
            r@ == (name@, value@),
    {
        Header { name, value }
    }

    /// The field's name.
    pub fn name(&self) -> (r: &[u8])
        ensures
            r@ == self@.0,
    {
        self.name.as_slice()
    }

    /// The field's value.
    pub fn value(&self) -> (r: &[u8])
        ensures
            r@ == self@.1,
    {
        self.value.as_slice()
    }
}

impl Clone for Header {
    fn clone(&self) -> (r: Header)
        ensures
            r@ == self@,
    {
        Header { name: copy_bytes(self.name.as_slice()), value: copy_bytes(self.value.as_slice()) }
    }
}

/// A fresh vector with the bytes of `s`.
pub fn copy_bytes(s: &[u8]) -> (v: Vec<u8>)
    ensures
        v@ == s@,
{
    vstd::slice::slice_to_vec(s)
}

/// A header list. Order matters: fields of one name keep their order, and
/// pseudo-header fields come first.
#[derive(Debug)]
pub struct Headers {
    /// The fields, in order.
    pub headers: Vec<Header>,
}

impl View for Headers {
    type V = Seq<(Seq<u8>, Seq<u8>)>;

    open spec fn view(&self) -> Seq<(Seq<u8>, Seq<u8>)> {
        Seq::new(self.headers@.len(), |i: int| self.headers@[i]@)
    }
}

impl Headers {
    /// The empty list.
    pub fn new() -> (r: Headers)
        ensures
            r@ == Seq::<(Seq<u8>, Seq<u8>)>::empty(),
    {
        let r = Headers { headers: Vec::new() };
        assert(r@ =~= Seq::<(Seq<u8>, Seq<u8>)>::empty());
        r
    }

    /// The header list of a plain "200" response: `:status` alone.
    pub fn ok_200() -> (r: Headers)
        ensures
            r@ == seq![(":status".spec_bytes(), "200".spec_bytes())],
    {
        let mut r = Headers::new();
        r.add(":status", "200");
        assert(r@ =~= seq![(":status".spec_bytes(), "200".spec_bytes())]);
        r
    }

    /// The number of fields.
    pub fn len(&self) -> (n: usize)
        ensures
            n == self@.len(),
    {
        self.headers.len()
    }

    /// Appends a field.
    pub fn add_header(&mut self, header: Header)
        ensures
            final(self)@ == old(self)@.push(header@),
    {
        self.headers.push(header);
        assert(self@ =~= old(self)@.push(header@));
    }

    /// Appends a field given as bytes.
    pub fn add_bytes(&mut self, name: &[u8], value: &[u8])
        ensures
            final(self)@ == old(self)@.push((name@, value@)),
    {
        self.add_header(Header::new(copy_bytes(name), copy_bytes(value)));
    }

    /// Appends a field given as text; its bytes are the text's UTF-8 form.
    pub fn add(&mut self, name: &str, value: &str)
        ensures
            final(self)@ == old(self)@.push((name.spec_bytes(), value.spec_bytes())),
    {
        self.add_bytes(name.as_bytes(), value.as_bytes());
    }
}

impl Clone for Headers {
    fn clone(&self) -> (r: Headers)
        ensures
            r@ == self@,
    {
        let mut r = Headers::new();
        let mut i: usize = 0;
        while i < self.headers.len()
            invariant
                i <= self.headers@.len(),
                r@ == self@.take(i as int),
            decreases self.headers@.len() - i,
        {
            r.add_header(self.headers[i].clone());
            i = i + 1;
            assert(r@ =~= self@.take(i as int));
        }
        assert(self@.take(self@.len() as int) =~= self@);
        r
    }
}

/// Whether a header list is that of a request or that of a response.
#[derive(Clone, Copy, Debug, PartialEq, Eq, Structural)]
pub enum RequestOrResponse {
    Request,
    Response,
}

/// Whether a header list opens a message or closes it.
#[derive(Clone, Copy, Debug, PartialEq, Eq, Structural)]
pub enum HeadersPlace {
    /// The headers of the message.
    Initial,
    /// The trailers.
    Trailing,
}

/// Why a header list is not valid.
#[derive(Clone, Copy, Debug, PartialEq, Eq, Structural)]
pub enum HeaderError {
    /// A name is empty.
    EmptyName,
    /// A name holds an upper-case letter.
    UpperCaseInName,
    /// A pseudo-header field that the kind of message does not have.
    UnexpectedPseudoHeader,
    /// A pseudo-header field behind a regular field.
    PseudoHeaderAfterRegular,
    /// A pseudo-header field in trailers.
    PseudoHeaderInTrailers,
    /// A pseudo-header field that occurs twice.
    DuplicatePseudoHeader,
    /// A pseudo-header field that the kind of message must have is missing.
    MissingPseudoHeader,
}

/// Which pseudo-header fields a scan of a header list has seen, and whether
/// it has seen a regular field.
#[derive(Clone, Copy, Debug, PartialEq, Eq, Structural)]
pub struct PseudoSeen {
    pub method: bool,
    pub scheme: bool,
    pub path: bool,
    pub authority: bool,
    pub status: bool,
    pub regular: bool,
}

/// Whether a name holds an upper-case letter.
pub open spec fn spec_has_upper_case(name: Seq<u8>) -> bool {
    exists|i: int| 0 <= i < name.len() && 0x41 <= #[trigger] name[i] <= 0x5a
}

/// What a scan that has seen `seen` makes of the next field's name: the new
/// record, or the fault of the field.
pub open spec fn spec_check_name(
    name: Seq<u8>,
    seen: PseudoSeen,
    kind: RequestOrResponse,
    place: HeadersPlace,
) -> Result<PseudoSeen, HeaderError> {
    if name.len() == 0 {
        Err(HeaderError::EmptyName)
    } else if spec_has_upper_case(name) {
        Err(HeaderError::UpperCaseInName)
    } else if name[0] != 0x3a {
        Ok(PseudoSeen { regular: true, ..seen })
    } else if place == HeadersPlace::Trailing {
        Err(HeaderError::PseudoHeaderInTrailers)
    } else if seen.regular {
        Err(HeaderError::PseudoHeaderAfterRegular)
    } else if kind == RequestOrResponse::Response {
        if name != ":status".spec_bytes() {
            Err(HeaderError::UnexpectedPseudoHeader)
        } else if seen.status {
            Err(HeaderError::DuplicatePseudoHeader)
        } else {
            Ok(PseudoSeen { status: true, ..seen })
        }
    } else if name == ":method".spec_bytes() {
        if seen.method {
            Err(HeaderError::DuplicatePseudoHeader)
        } else {
            Ok(PseudoSeen { method: true, ..seen })
        }
    } else if name == ":scheme".spec_bytes() {
        if seen.scheme {
            Err(HeaderError::DuplicatePseudoHeader)
        } else {
            Ok(PseudoSeen { scheme: true, ..seen })
        }
    } else if name == ":path".spec_bytes() {
        if seen.path {
            Err(HeaderError::DuplicatePseudoHeader)
        } else {
            Ok(PseudoSeen { path: true, ..seen })
        }
    } else if name == ":authority".spec_bytes() {
        if seen.authority {
            Err(HeaderError::DuplicatePseudoHeader)
        } else {
            Ok(PseudoSeen { authority: true, ..seen })
        }
    } else {
        Err(HeaderError::UnexpectedPseudoHeader)
    }
}

/// Whether the pseudo-header fields that the kind of message must have were
/// seen: `:status` for a response; `:method`, `:scheme` and `:path` for a
/// request; none for trailers.
pub open spec fn spec_required_seen(
    seen: PseudoSeen,
    kind: RequestOrResponse,
    place: HeadersPlace,
) -> bool {
    match place {
        HeadersPlace::Trailing => true,
        HeadersPlace::Initial => match kind {
            RequestOrResponse::Response => seen.status,
            RequestOrResponse::Request => seen.method && seen.scheme && seen.path,
        },
    }
}

/// The record of a scan over the first `n` fields, or the fault of the first
/// field that has one.
pub open spec fn spec_scan(
    headers: Seq<(Seq<u8>, Seq<u8>)>,
    n: int,
    kind: RequestOrResponse,
    place: HeadersPlace,
) -> Result<PseudoSeen, HeaderError>
    decreases n,
{
    if n <= 0 {
        Ok(
            PseudoSeen {
                method: false,
                scheme: false,
                path: false,
                authority: false,
                status: false,
                regular: false,
            },
        )
    } else {
        match spec_scan(headers, n - 1, kind, place) {
            Err(e) => Err(e),
            Ok(seen) => spec_check_name(headers[n - 1].0, seen, kind, place),
        }
    }
}

/// Whether a header list is valid for the kind of message and the place in
/// it: names are not empty and hold no upper-case letter; pseudo-header
/// fields are those of the kind, each at most once, all before the regular
/// fields, none in trailers; and those that the kind must have are there.
/// The first fault in the list is reported.
pub open spec fn spec_validate(
    headers: Seq<(Seq<u8>, Seq<u8>)>,
    kind: RequestOrResponse,
    place: HeadersPlace,
) -> Result<(), HeaderError> {
    match spec_scan(headers, headers.len() as int, kind, place) {
        Err(e) => Err(e),
        Ok(seen) => if spec_required_seen(seen, kind, place) {
            Ok(())
        } else {
            Err(HeaderError::MissingPseudoHeader)
        },
    }
}

/// The value of the first field with the given name.
pub open spec fn spec_get(headers: Seq<(Seq<u8>, Seq<u8>)>, name: Seq<u8>) -> Option<Seq<u8>>
    decreases headers.len(),
{
    if headers.len() == 0 {
        None
    } else if headers[0].0 == name {
        Some(headers[0].1)
    } else {
        spec_get(headers.skip(1), name)
    }
}

/// The number that decimal digits spell; `None` for a string that is empty
/// or holds anything but digits.
pub open spec fn spec_parse_decimal(s: Seq<u8>) -> Option<nat>
    decreases s.len(),
{
    if s.len() == 0 {
        None
    } else if !(0x30 <= s.last() <= 0x39) {
        None
    } else if s.len() == 1 {
        Some((s.last() - 0x30) as nat)
    } else {
        match spec_parse_decimal(s.drop_last()) {
            None => None,
            Some(n) => Some(n * 10 + (s.last() - 0x30) as nat),
        }
    }
}

/// Reads decimal digits as a number; `None` for a string that is empty,
/// holds anything but digits, or spells a number over `u64::MAX`.
pub fn parse_decimal(s: &[u8]) -> (r: Option<u64>)
    ensures
        r == (match spec_parse_decimal(s@) {
            Some(n) => if n <= u64::MAX {
                Some(n as u64)
            } else {
                None
            },
            None => None,
        }),
{
    if s.len() == 0 {
        return None;
    }
    let mut acc: u64 = 0;
    let mut i: usize = 0;
    let mut overflow: bool = false;
    while i < s.len()
        invariant
            i <= s@.len(),
            s@.len() > 0,
            i > 0 && !overflow ==> spec_parse_decimal(s@.take(i as int)) == Some(acc as nat),
            i > 0 && overflow ==> (spec_parse_decimal(s@.take(i as int)) matches Some(n) && n
                > u64::MAX),
            i == 0 ==> acc == 0 && !overflow,
        decreases s@.len() - i,
    {
        let d: u8 = s[i];
        let ghost part = s@.take(i + 1);
        assert(part.last() == d);
        assert(part.drop_last() =~= s@.take(i as int));
        if d < 0x30 || d > 0x39 {
            proof {
                lemma_parse_decimal_prefix(s@, i + 1);
            }
            return None;
        }
        let digit: u64 = (d - 0x30) as u64;
        if !overflow {
            if acc > (u64::MAX - digit) / 10 {
                overflow = true;
            } else {
                acc = acc * 10 + digit;
            }
        }
        i = i + 1;
    }
    assert(s@.take(s@.len() as int) =~= s@);
    if overflow {
        None
    } else {
        Some(acc)
    }
}

/// A string with a prefix that spells no number spells none.
pub proof fn lemma_parse_decimal_prefix(s: Seq<u8>, n: int)
    requires
        0 < n <= s.len(),
        spec_parse_decimal(s.take(n)) is None,
    ensures
        spec_parse_decimal(s) is None,
    decreases s.len() - n,
{
    if n < s.len() {
        assert(s.take(n + 1).drop_last() =~= s.take(n));
        lemma_parse_decimal_prefix(s, n + 1);
    } else {
        assert(s.take(n) =~= s);
    }
}

impl Headers {
    /// The value of the first field with the given name.
    pub fn get_opt(&self, name: &[u8]) -> (r: Option<&[u8]>)
        ensures
            match r {
                Some(value) => spec_get(self@, name@) == Some(value@),
                None => spec_get(self@, name@) is None,
            },
    {
        let mut i: usize = 0;
        assert(self@.skip(0) =~= self@);
        while i < self.headers.len()
            invariant
                i <= self@.len(),
                spec_get(self@, name@) == spec_get(self@.skip(i as int), name@),
            decreases self@.len() - i,
        {
            let ghost rest = self@.skip(i as int);
            assert(rest[0] == self.headers@[i as int]@);
            assert(rest.skip(1) =~= self@.skip(i + 1));
            if crate::hpack::encoder::bytes_eq(self.headers[i].name(), name) {
                return Some(self.headers[i].value());
            }
            i = i + 1;
        }
        None
    }

    /// The status of a response: the number that the first `:status` field
    /// spells. `None` where there is no such field or it spells no number
    /// that fits 32 bits.
    pub fn status(&self) -> (r: Option<u32>)
        ensures
            r == (match spec_get(self@, ":status".spec_bytes()) {
                Some(value) => match spec_parse_decimal(value) {
                    Some(n) => if n <= u32::MAX {
                        Some(n as u32)
                    } else {
                        None
                    },
                    None => None,
                },
                None => None,
            }),
    {
        match self.get_opt(":status".as_bytes()) {
            Some(value) => match parse_decimal(value) {
                Some(n) => if n <= u32::MAX as u64 {
                    Some(n as u32)
                } else {
                    None
                },
                None => None,
            },
            None => None,
        }
    }

    /// The length of the body that the headers announce: the number that the
    /// first `content-length` field spells. `None` where there is no such
    /// field or it spells no number that fits 64 bits.
    pub fn content_length(&self) -> (r: Option<u64>)
        ensures
            r == (match spec_get(self@, "content-length".spec_bytes()) {
                Some(value) => match spec_parse_decimal(value) {
                    Some(n) => if n <= u64::MAX {
                        Some(n as u64)
                    } else {
                        None
                    },
                    None => None,
                },
                None => None,
            }),
    {
        match self.get_opt("content-length".as_bytes()) {
            Some(value) => parse_decimal(value),
            None => None,
        }
    }

    fn has_upper_case(name: &[u8]) -> (r: bool)
        ensures
            r == spec_has_upper_case(name@),
    {
        let mut i: usize = 0;
        while i < name.len()
            invariant
                i <= name@.len(),
                forall|k: int| 0 <= k < i ==> !(0x41 <= #[trigger] name@[k] <= 0x5a),
            decreases name@.len() - i,
        {
            if 0x41 <= name[i] && name[i] <= 0x5a {
                return true;
            }
            i = i + 1;
        }
        false
    }

    fn check_name(name: &[u8], seen: PseudoSeen, kind: RequestOrResponse, place: HeadersPlace) -> (r:
        Result<PseudoSeen, HeaderError>)
        ensures
            r == spec_check_name(name@, seen, kind, place),
    {
        if name.len() == 0 {
            return Err(HeaderError::EmptyName);
        }
        if Headers::has_upper_case(name) {
            return Err(HeaderError::UpperCaseInName);
        }
        if name[0] != 0x3a {
            return Ok(PseudoSeen { regular: true, ..seen });
        }
        match place {
            HeadersPlace::Trailing => {
                return Err(HeaderError::PseudoHeaderInTrailers);
            },
            HeadersPlace::Initial => {},
        }
        if seen.regular {
            return Err(HeaderError::PseudoHeaderAfterRegular);
        }
        match kind {
            RequestOrResponse::Response => {
                if !crate::hpack::encoder::bytes_eq(name, ":status".as_bytes()) {
                    Err(HeaderError::UnexpectedPseudoHeader)
                } else if seen.status {
                    Err(HeaderError::DuplicatePseudoHeader)
                } else {
                    Ok(PseudoSeen { status: true, ..seen })
                }
            },
            RequestOrResponse::Request => {
                if crate::hpack::encoder::bytes_eq(name, ":method".as_bytes()) {
                    if seen.method {
                        Err(HeaderError::DuplicatePseudoHeader)
                    } else {
                        Ok(PseudoSeen { method: true, ..seen })
                    }
                } else if crate::hpack::encoder::bytes_eq(name, ":scheme".as_bytes()) {
                    if seen.scheme {
                        Err(HeaderError::DuplicatePseudoHeader)
                    } else {
                        Ok(PseudoSeen { scheme: true, ..seen })
                    }
                } else if crate::hpack::encoder::bytes_eq(name, ":path".as_bytes()) {
                    if seen.path {
                        Err(HeaderError::DuplicatePseudoHeader)
                    } else {
                        Ok(PseudoSeen { path: true, ..seen })
                    }
                } else if crate::hpack::encoder::bytes_eq(name, ":authority".as_bytes()) {
                    if seen.authority {
                        Err(HeaderError::DuplicatePseudoHeader)
                    } else {
                        Ok(PseudoSeen { authority: true, ..seen })
                    }
                } else {
                    Err(HeaderError::UnexpectedPseudoHeader)
                }
            },
        }
    }

    /// Checks the header list against the rules for the kind of message and
    /// the place in it.
    pub fn validate(&self, kind: RequestOrResponse, place: HeadersPlace) -> (r: Result<
        (),
        HeaderError,
    >)
        ensures
            r == spec_validate(self@, kind, place),
    {
        let mut seen = PseudoSeen {
            method: false,
            scheme: false,
            path: false,
            authority: false,
            status: false,
            regular: false,
        };
        let mut i: usize = 0;
        while i < self.headers.len()
            invariant
                i <= self@.len(),
                spec_scan(self@, i as int, kind, place) == Ok::<PseudoSeen, HeaderError>(seen),
            decreases self@.len() - i,
        {
            match Headers::check_name(self.headers[i].name(), seen, kind, place) {
                Err(e) => {
                    proof {
                        lemma_scan_error_stays(self@, i + 1, self@.len() as int, kind, place);
                    }
                    return Err(e);
                },
                Ok(next) => {
                    seen = next;
                },
            }
            i = i + 1;
        }
        let complete: bool = match place {
            HeadersPlace::Trailing => true,
            HeadersPlace::Initial => match kind {
                RequestOrResponse::Response => seen.status,
                RequestOrResponse::Request => seen.method && seen.scheme && seen.path,
            },
        };
        if complete {
            Ok(())
        } else {
            Err(HeaderError::MissingPseudoHeader)
        }
    }
}

/// A scan that found a fault reports that fault however far it goes on.
pub proof fn lemma_scan_error_stays(
    headers: Seq<(Seq<u8>, Seq<u8>)>,
    n: int,
    m: int,
    kind: RequestOrResponse,
    place: HeadersPlace,
)
    requires
        0 <= n <= m,
        spec_scan(headers, n, kind, place) is Err,
    ensures
        spec_scan(headers, m, kind, place) == spec_scan(headers, n, kind, place),
    decreases m - n,
{
    if n < m {
        lemma_scan_error_stays(headers, n, m - 1, kind, place);
    }
}

} // verus!
